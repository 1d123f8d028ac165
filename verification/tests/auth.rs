use walrus_server::auth::error::AuthError;
use walrus_server::auth::rules::{
    check_access_token, check_credentials, check_refresh_token, new_expiries,
};
use walrus_server::auth::token::{parse_bearer, TokenExchangePayload};
use walrus_server::auth::utils::{
    access_token_expiration, constant_time_eq, current_time, generate_salt, generate_session_id,
    generate_session_token, hash_password_sha256, new_access_token_expiration,
    new_refresh_token_expiration, pack_session_id_and_token, refresh_token_expiration,
    unpack_session_id_and_token, ACCESS_TOKEN_TTL, REFRESH_TOKEN_TTL,
};
use walrus_server::error::{InternalError, RequestError, SessionError};
use walrus_server::models::session::{RefreshTokenResponse, ResolveSessionResponse, SessionId};
use walrus_server::models::user::GetUserCredentialsByAliasResponse;
use walrus_server::time::Timestamp;

fn ascending_salt() -> [u8; 16] {
    let mut salt = [0u8; 16];
    for (i, byte) in salt.iter_mut().enumerate() {
        *byte = i as u8;
    }
    salt
}

fn sample_session_id() -> SessionId {
    let mut bytes = [0u8; 16];
    for (i, byte) in bytes.iter_mut().enumerate() {
        *byte = 0x10 + i as u8;
    }
    SessionId::from_bytes(bytes)
}

fn ascending_token() -> [u8; 32] {
    let mut token = [0u8; 32];
    for (i, byte) in token.iter_mut().enumerate() {
        *byte = i as u8;
    }
    token
}

#[test]
fn password_hash_is_sha256_of_password_then_salt() {
    let hash = hash_password_sha256("passfora", ascending_salt());
    let expected: [u8; 32] = [
        26, 26, 178, 99, 61, 50, 174, 198, 174, 11, 36, 99, 194, 163, 94, 245, 4, 110, 23, 200,
        21, 5, 106, 65, 81, 238, 45, 21, 211, 243, 50, 57,
    ];
    assert_eq!(hash, expected);
}

#[test]
fn password_hash_takes_the_bytes_of_the_text() {
    let hash = hash_password_sha256("pässwörd", [0xff; 16]);
    let expected: [u8; 32] = [
        209, 252, 110, 183, 211, 95, 207, 252, 44, 199, 85, 6, 243, 228, 217, 175, 78, 86, 103,
        154, 147, 129, 144, 244, 59, 192, 110, 220, 64, 209, 216, 123,
    ];
    assert_eq!(hash, expected);
}

#[test]
fn password_hash_depends_on_salt_and_password() {
    let base = hash_password_sha256("passfora", ascending_salt());
    assert_ne!(base, hash_password_sha256("passforb", ascending_salt()));
    assert_ne!(base, hash_password_sha256("passfora", [0u8; 16]));
    assert_eq!(base, hash_password_sha256("passfora", ascending_salt()));
}

#[test]
fn random_values_are_fresh() {
    assert_ne!(generate_salt(), generate_salt());
    assert_ne!(generate_session_token(), generate_session_token());
    let a = generate_session_id();
    let b = generate_session_id();
    assert_ne!(a, b);
    assert_eq!(a.as_bytes()[6] & 0xf0, 0x40);
    assert_eq!(a.as_bytes()[8] & 0xc0, 0x80);
}

#[test]
fn version_four_identifier_keeps_the_other_bits() {
    let id = SessionId::new_v4([0xff; 16]);
    let mut expected = [0xffu8; 16];
    expected[6] = 0x4f;
    expected[8] = 0xbf;
    assert_eq!(id.as_bytes(), &expected);
    let id = SessionId::new_v4([0x00; 16]);
    let mut expected = [0x00u8; 16];
    expected[6] = 0x40;
    expected[8] = 0x80;
    assert_eq!(id.as_bytes(), &expected);
}

#[test]
fn session_id_from_slice_wants_sixteen_bytes() {
    assert!(SessionId::from_slice(&[1u8; 15]).is_none());
    assert!(SessionId::from_slice(&[1u8; 17]).is_none());
    let id = SessionId::from_slice(&[7u8; 16]).unwrap();
    assert_eq!(id, SessionId::from_bytes([7u8; 16]));
    assert!(id.same_as(&SessionId::from_bytes([7u8; 16])));
    assert!(!id.same_as(&SessionId::from_bytes([8u8; 16])));
}

#[test]
fn ttls_are_fourteen_days_and_two_hours() {
    assert_eq!(REFRESH_TOKEN_TTL, 14 * 24 * 60 * 60);
    assert_eq!(ACCESS_TOKEN_TTL, 2 * 60 * 60);
}

#[test]
fn expirations_add_the_ttl() {
    let now = Timestamp::new(1_700_000_000, 123).unwrap();
    assert_eq!(
        refresh_token_expiration(now),
        Some(Timestamp { secs: 1_701_209_600, nanos: 123 })
    );
    assert_eq!(
        access_token_expiration(now),
        Some(Timestamp { secs: 1_700_007_200, nanos: 123 })
    );
    let (refresh, access) = new_expiries(now).unwrap();
    assert_eq!(refresh, Timestamp { secs: 1_701_209_600, nanos: 123 });
    assert_eq!(access, Timestamp { secs: 1_700_007_200, nanos: 123 });
}

#[test]
fn expirations_past_the_last_year_are_refused() {
    let late = Timestamp::new(253_402_300_799 - 7_200, 0).unwrap();
    assert_eq!(
        access_token_expiration(late),
        Some(Timestamp { secs: 253_402_300_799, nanos: 0 })
    );
    assert_eq!(refresh_token_expiration(late), None);
    let err = new_expiries(late).unwrap_err();
    assert!(matches!(
        err,
        RequestError::Internal(InternalError::ClockOutOfRange)
    ));
    let later = Timestamp::new(253_402_300_799 - 7_199, 0).unwrap();
    assert_eq!(access_token_expiration(later), None);
    let broken = Timestamp { secs: 0, nanos: 1_000_000_000 };
    assert_eq!(access_token_expiration(broken), None);
}

#[test]
fn clock_gives_a_valid_time_of_this_century() {
    let now = current_time();
    assert!(now.check_valid());
    assert!(now.secs > 1_600_000_000);
    let refresh = new_refresh_token_expiration().unwrap();
    let access = new_access_token_expiration().unwrap();
    assert!(access.is_at_or_before(&refresh));
    assert!(now.is_at_or_before(&access));
    assert!(refresh.secs - now.secs >= REFRESH_TOKEN_TTL);
    assert!(access.secs - now.secs >= ACCESS_TOKEN_TTL);
}

#[test]
fn constant_time_eq_compares_contents() {
    assert!(constant_time_eq(&[], &[]));
    assert!(constant_time_eq(&[1, 2, 3], &[1, 2, 3]));
    assert!(!constant_time_eq(&[1, 2, 3], &[1, 2, 4]));
    assert!(!constant_time_eq(&[0, 2, 3], &[1, 2, 3]));
    assert!(!constant_time_eq(&[1, 2, 3], &[1, 2]));
    assert!(!constant_time_eq(&[0x80], &[0x00]));
    assert!(!constant_time_eq(&[0x01, 0x01], &[0x00, 0x00]));
}

#[test]
fn pack_puts_the_identifier_first() {
    let packed = pack_session_id_and_token(&sample_session_id(), &[0xaa, 0xbb]);
    let mut expected: Vec<u8> = (0x10u8..0x20).collect();
    expected.push(0xaa);
    expected.push(0xbb);
    assert_eq!(packed, expected);
    let packed = pack_session_id_and_token(&sample_session_id(), &[]);
    assert_eq!(packed.len(), 16);
}

#[test]
fn unpack_gives_back_what_was_packed() {
    let token = ascending_token();
    let packed = pack_session_id_and_token(&sample_session_id(), &token);
    let (session_id, rest) = unpack_session_id_and_token(&packed).unwrap();
    assert_eq!(session_id, sample_session_id());
    assert_eq!(rest, &token[..]);
}

#[test]
fn unpack_fails_below_sixteen_bytes() {
    assert!(unpack_session_id_and_token(&[]).is_none());
    assert!(unpack_session_id_and_token(&[0u8; 15]).is_none());
    let (session_id, rest) = unpack_session_id_and_token(&[9u8; 16]).unwrap();
    assert_eq!(session_id, SessionId::from_bytes([9u8; 16]));
    assert!(rest.is_empty());
}

#[test]
fn payload_is_base64_of_packed_tokens_and_rfc3339_expiries() {
    let refresh = ascending_token();
    let access = [0xfbu8, 0xff];
    let payload = TokenExchangePayload::new(
        &sample_session_id(),
        &refresh,
        Timestamp::new(1_701_209_600, 0).unwrap(),
        &access,
        Timestamp::new(1_700_007_200, 500_000_000).unwrap(),
    );
    assert_eq!(
        payload.refresh_token,
        "EBESExQVFhcYGRobHB0eHwABAgMEBQYHCAkKCwwNDg8QERITFBUWFxgZGhscHR4f"
    );
    assert_eq!(payload.access_token, "EBESExQVFhcYGRobHB0eH/v/");
    assert_eq!(payload.refresh_token_expires_at, "2023-11-28T22:13:20+00:00");
    assert_eq!(payload.access_token_expires_at, "2023-11-15T00:13:20.500+00:00");
}

#[test]
fn bearer_of_a_payload_parses_back() {
    let refresh = ascending_token();
    let access = [7u8; 32];
    let payload = TokenExchangePayload::new(
        &sample_session_id(),
        &refresh,
        Timestamp::new(1_701_209_600, 0).unwrap(),
        &access,
        Timestamp::new(1_700_007_200, 0).unwrap(),
    );
    let (session_id, token) = parse_bearer(&payload.access_token).unwrap();
    assert_eq!(session_id, sample_session_id());
    assert_eq!(token, access.to_vec());
    let (session_id, token) = parse_bearer(&payload.refresh_token).unwrap();
    assert_eq!(session_id, sample_session_id());
    assert_eq!(token, refresh.to_vec());
}

#[test]
fn bearer_that_is_malformed_is_a_bad_token() {
    assert_eq!(parse_bearer("not base64 !!").unwrap_err(), SessionError::BadToken);
    assert_eq!(parse_bearer("EBESExQVFhcYGRobHB0e").unwrap_err(), SessionError::BadToken);
    assert_eq!(parse_bearer("").unwrap_err(), SessionError::BadToken);
    assert_eq!(
        parse_bearer("EBESExQVFhcYGRobHB0eHw=").unwrap_err(),
        SessionError::BadToken
    );
    let (session_id, token) = parse_bearer("EBESExQVFhcYGRobHB0eHw==").unwrap();
    assert_eq!(session_id, sample_session_id());
    assert!(token.is_empty());
}

#[test]
fn credentials_are_checked_against_the_stored_hash() {
    let salt = ascending_salt();
    let stored = GetUserCredentialsByAliasResponse {
        user_id: 2,
        password_hash: hash_password_sha256("passfora", salt),
        password_salt: salt,
    };
    assert_eq!(check_credentials(Some(stored), "passfora").unwrap(), 2);
    assert!(matches!(
        check_credentials(Some(stored), "passforb").unwrap_err(),
        RequestError::BadCredentials
    ));
    assert!(matches!(
        check_credentials(None, "passfora").unwrap_err(),
        RequestError::BadCredentials
    ));
}

#[test]
fn access_token_is_good_until_it_expires() {
    let record = Some(ResolveSessionResponse {
        user_id: 5,
        access_token: vec![1, 2, 3],
        access_token_expires_at: Timestamp { secs: 100, nanos: 10 },
    });
    let before = Timestamp { secs: 100, nanos: 9 };
    let at = Timestamp { secs: 100, nanos: 10 };
    let after = Timestamp { secs: 101, nanos: 0 };
    assert_eq!(check_access_token(&record, &[1, 2, 3], &before), Ok(5));
    assert_eq!(
        check_access_token(&record, &[1, 2, 3], &at),
        Err(SessionError::TokenExpired)
    );
    assert_eq!(
        check_access_token(&record, &[1, 2, 3], &after),
        Err(SessionError::TokenExpired)
    );
    assert_eq!(
        check_access_token(&record, &[1, 2, 4], &before),
        Err(SessionError::TokenNotFound)
    );
    assert_eq!(
        check_access_token(&record, &[1, 2, 4], &after),
        Err(SessionError::TokenNotFound)
    );
    assert_eq!(
        check_access_token(&None, &[1, 2, 3], &before),
        Err(SessionError::TokenNotFound)
    );
}

#[test]
fn refresh_token_is_good_until_it_expires() {
    let record = Some(RefreshTokenResponse {
        refresh_token: vec![9, 9],
        refresh_token_expires_at: Timestamp { secs: 50, nanos: 0 },
        refresh_counter: 7,
    });
    let before = Timestamp { secs: 49, nanos: 999_999_999 };
    let at = Timestamp { secs: 50, nanos: 0 };
    assert_eq!(check_refresh_token(&record, &[9, 9], &before).unwrap(), 7);
    assert!(matches!(
        check_refresh_token(&record, &[9, 9], &at).unwrap_err(),
        RequestError::Expired
    ));
    assert!(matches!(
        check_refresh_token(&record, &[9, 8], &before).unwrap_err(),
        RequestError::BadCredentials
    ));
    assert!(matches!(
        check_refresh_token(&None, &[9, 9], &before).unwrap_err(),
        RequestError::BadCredentials
    ));
}

#[test]
fn auth_errors_have_their_status_and_text() {
    assert_eq!(AuthError::InvalidToken.status_code(), 401);
    assert_eq!(AuthError::InvalidToken.response_text(), "Invalid Token");
    assert_eq!(AuthError::BadCredentials.status_code(), 400);
    assert_eq!(AuthError::BadCredentials.response_text(), "Bad Credentials");
    assert_eq!(AuthError::TokenCreation.status_code(), 500);
    assert_eq!(AuthError::TokenCreation.response_text(), "Token creation failed");
    assert_eq!(AuthError::MissingCredentials.status_code(), 400);
    assert_eq!(AuthError::MissingCredentials.response_text(), "Missing Credentials");
}
