//! Salts, password hashes, session tokens, expiries and the packing of a
//! session identifier with a token.

use crate::models::session::SessionId;
use crate::time::Timestamp;
use chrono::Utc;
use rand::rngs::OsRng;
use rand::RngCore;
use sha2::{Digest, Sha256};
use vstd::prelude::*;
use vstd::slice::slice_subrange;

verus! {

/// Seconds for which a refresh token is good: fourteen days.
pub const REFRESH_TOKEN_TTL: i64 = 1_209_600;

/// Seconds for which an access token is good: two hours.
pub const ACCESS_TOKEN_TTL: i64 = 7_200;

/// The SHA-256 digest of a sequence of bytes.
pub uninterp spec fn sha256(data: Seq<u8>) -> Seq<u8>;

/// The hash that is stored for a password: the digest of the password's
/// bytes followed by the salt's.
pub open spec fn password_digest(password: Seq<char>, salt: Seq<u8>) -> Seq<u8> {
    sha256(vstd::utf8::encode_utf8(password) + salt)
}

/// A session identifier and a token as one buffer: the identifier's sixteen
/// bytes, then the token.
pub open spec fn packed(session_id: Seq<u8>, token: Seq<u8>) -> Seq<u8> {
    session_id + token
}

/// The identifier and the token that a buffer packs, where it holds at
/// least the sixteen bytes of an identifier.
pub open spec fn unpacked(bytes: Seq<u8>) -> Option<(Seq<u8>, Seq<u8>)> {
    if bytes.len() >= 16 {
        Some((bytes.subrange(0, 16), bytes.subrange(16, bytes.len() as int)))
    } else {
        None
    }
}

/// `Sha256::digest` of the `sha2` crate. The contract names its result: the
/// digest is a function of the bytes alone.
#[verifier::external_body]
fn sha256_digest(data: &[u8]) -> (digest: [u8; 32])
    ensures
        digest@ == sha256(data@),
{
    Sha256::digest(data).into()
}

/// `OsRng::fill_bytes` of the `rand` crate on a fresh buffer. Nothing is
/// claimed of the bytes. The call ends the process where the operating
/// system has no randomness to give.
#[verifier::external_body]
fn secure_random_bytes<const S: usize>() -> (bytes: [u8; S]) {
    let mut buf = [0u8;S];
    OsRng.fill_bytes(&mut buf);
    buf
}

/// `Utc::now` of the `chrono` crate, as seconds and nanoseconds since the
/// epoch. Nothing is claimed of the reading: a clock that is far off gives a
/// timestamp that is not valid. The call ends the process where the system
/// clock stands before the epoch.
#[verifier::external_body]
pub fn current_time() -> (now: Timestamp) {
    let now = Utc::now();
    Timestamp { secs: now.timestamp(), nanos: now.timestamp_subsec_nanos() }
}

/// The hash of a password under a salt: SHA-256 of the password's bytes
/// followed by the sixteen bytes of the salt.
pub fn hash_password_sha256(password: &str, salt: [u8; 16]) -> (hash: [u8; 32])
    ensures
        hash@ == password_digest(password@, salt@),
{
    let bytes = password.as_bytes();
    let mut data: Vec<u8> = Vec::new();
    let mut i: usize = 0;
    while i < bytes.len()
        invariant
            i <= bytes@.len(),
            data@ == bytes@.subrange(0, i as int),
        decreases bytes@.len() - i,
    {
        data.push(bytes[i]);
        assert(data@ =~= bytes@.subrange(0, i + 1));
        i += 1;
    }
    let mut j: usize = 0;
    while j < 16
        invariant
            j <= 16,
            data@ == bytes@ + salt@.subrange(0, j as int),
        decreases 16 - j,
    {
        data.push(salt[j]);
        assert(data@ =~= bytes@ + salt@.subrange(0, j + 1));
        j += 1;
    }
    assert(data@ =~= bytes@ + salt@);
    sha256_digest(data.as_slice())
}

/// Sixteen bytes from the operating system's source of randomness.
#[inline]
pub fn generate_salt() -> [u8; 16] {
    secure_random_bytes()
}

/// Thirty-two bytes from the operating system's source of randomness.
#[inline]
pub fn generate_session_token() -> [u8; 32] {
    secure_random_bytes()
}

/// A fresh random session identifier.
pub fn generate_session_id() -> (id: SessionId)
    ensures
        crate::models::session::is_uuid_v4(id@),
{
    SessionId::new_v4(secure_random_bytes())
}

/// When a refresh token issued at `now` expires, if that can be written down.
pub fn refresh_token_expiration(now: Timestamp) -> (expires_at: Option<Timestamp>)
    ensures
        expires_at == now.plus_seconds(REFRESH_TOKEN_TTL as int),
{
    now.checked_add_seconds(REFRESH_TOKEN_TTL)
}

/// When an access token issued at `now` expires, if that can be written down.
pub fn access_token_expiration(now: Timestamp) -> (expires_at: Option<Timestamp>)
    ensures
        expires_at == now.plus_seconds(ACCESS_TOKEN_TTL as int),
{
    now.checked_add_seconds(ACCESS_TOKEN_TTL)
}

/// When a refresh token issued now expires: fourteen days after some
/// instant, the one that the clock showed. `None` where the clock is so far
/// off that the expiry is no valid timestamp.
#[inline]
pub fn new_refresh_token_expiration() -> (expires_at: Option<Timestamp>)
    ensures
        exists|now: Timestamp| expires_at == #[trigger] now.plus_seconds(REFRESH_TOKEN_TTL as int),
{
    let now = current_time();
    let expires_at = refresh_token_expiration(now);
    assert(expires_at == now.plus_seconds(REFRESH_TOKEN_TTL as int));
    expires_at
}

/// When an access token issued now expires: two hours after some
/// instant, the one that the clock showed. `None` where the clock is so far
/// off that the expiry is no valid timestamp.
#[inline]
pub fn new_access_token_expiration() -> (expires_at: Option<Timestamp>)
    ensures
        exists|now: Timestamp| expires_at == #[trigger] now.plus_seconds(ACCESS_TOKEN_TTL as int),
{
    let now = current_time();
    let expires_at = access_token_expiration(now);
    assert(expires_at == now.plus_seconds(ACCESS_TOKEN_TTL as int));
    expires_at
}

/// Whether two byte strings are equal. The time taken depends on the
/// lengths alone: every pair of bytes is looked at, whatever the ones before
/// it held.
pub fn constant_time_eq(a: &[u8], b: &[u8]) -> (equal: bool)
    ensures
        equal == (a@ == b@),
{
    if a.len() != b.len() {
        return false;
    }
    let mut difference: u8 = 0;
    let mut i: usize = 0;
    assert(a@.subrange(0, 0) =~= b@.subrange(0, 0));
    while i < a.len()
        invariant
            i <= a@.len(),
            a@.len() == b@.len(),
            difference == 0 <==> a@.subrange(0, i as int) == b@.subrange(0, i as int),
        decreases a@.len() - i,
    {
        let x: u8 = a[i];
        let y: u8 = b[i];
        let before: u8 = difference;
        difference = difference | (x ^ y);
        proof {
            assert(((before | (x ^ y)) == 0) <==> (before == 0 && x == y)) by (bit_vector);
            let a0 = a@.subrange(0, i as int);
            let b0 = b@.subrange(0, i as int);
            let a1 = a@.subrange(0, i + 1);
            let b1 = b@.subrange(0, i + 1);
            assert(a1 =~= a0.push(x));
            assert(b1 =~= b0.push(y));
            if a1 == b1 {
                assert(a1.drop_last() =~= a0);
                assert(b1.drop_last() =~= b0);
                assert(a1.last() == x && b1.last() == y);
            }
        }
        i += 1;
    }
    assert(a@.subrange(0, i as int) =~= a@);
    assert(b@.subrange(0, i as int) =~= b@);
    difference == 0
}

/// Packs a session identifier and a token into one buffer.
pub fn pack_session_id_and_token(session_id: &SessionId, token: &[u8]) -> (out: Vec<u8>)
    ensures
        out@ == packed(session_id@, token@),
{
    let id = session_id.as_bytes();
    let mut out: Vec<u8> = Vec::new();
    let mut i: usize = 0;
    while i < 16
        invariant
            i <= 16,
            id@.len() == 16,
            out@ == id@.subrange(0, i as int),
        decreases 16 - i,
    {
        out.push(id[i]);
        assert(out@ =~= id@.subrange(0, i + 1));
        i += 1;
    }
    let mut j: usize = 0;
    while j < token.len()
        invariant
            j <= token@.len(),
            id@.len() == 16,
            out@ == id@ + token@.subrange(0, j as int),
        decreases token@.len() - j,
    {
        out.push(token[j]);
        assert(out@ =~= id@ + token@.subrange(0, j + 1));
        j += 1;
    }
    assert(out@ =~= id@ + token@);
    out
}

/// Splits a packed buffer into the session identifier and the token.
/// Fails where the buffer is shorter than an identifier.
pub fn unpack_session_id_and_token(packed: &[u8]) -> (parts: Option<(SessionId, &[u8])>)
    ensures
        match parts {
            Some((session_id, token)) => unpacked(packed@) == Some((session_id@, token@)),
            None => unpacked(packed@) is None,
        },
{
    if packed.len() < 16 {
        return None;
    }
    let head = slice_subrange(packed, 0, 16);
    let token = slice_subrange(packed, 16, packed.len());
    match SessionId::from_slice(head) {
        Some(session_id) => Some((session_id, token)),
        None => None,
    }
}

/// Unpacking what was packed gives back the identifier and the token.
pub proof fn lemma_unpack_packed(session_id: Seq<u8>, token: Seq<u8>)
    requires
        session_id.len() == 16,
    ensures
        unpacked(packed(session_id, token)) == Some((session_id, token)),
{
    let bytes = packed(session_id, token);
    assert(bytes.subrange(0, 16) =~= session_id);
    assert(bytes.subrange(16, bytes.len() as int) =~= token);
}

} // verus!
