//! The decisions of the session lifecycle, each taken on what the store
//! answered: whether a password, an access token or a refresh token is
//! accepted, and what a session is given when it is opened or rotated.

use crate::auth::utils::{
    access_token_expiration, constant_time_eq, hash_password_sha256, password_digest,
    refresh_token_expiration, ACCESS_TOKEN_TTL, REFRESH_TOKEN_TTL,
};
use crate::error::{InternalError, RequestError, RequestErrorView, SessionError};
use crate::models::session::{RefreshTokenResponse, ResolveSessionResponse};
use crate::models::user::{GetUserCredentialsByAliasResponse, UserId};
use crate::time::Timestamp;
use vstd::prelude::*;

verus! {

/// Whether a password is the one whose hash is stored under the salt.
pub open spec fn password_matches(password: Seq<char>, salt: Seq<u8>, hash: Seq<u8>) -> bool {
    password_digest(password, salt) == hash
}

/// Who logs in, or why not: an alias that nobody has and a password that
/// does not match are told apart by nothing.
pub open spec fn credentials_verdict(
    credentials: Option<GetUserCredentialsByAliasResponse>,
    password: Seq<char>,
) -> Result<UserId, RequestErrorView> {
    match credentials {
        Some(found) => if password_matches(password, found.password_salt@, found.password_hash@) {
            Ok(found.user_id)
        } else {
            Err(RequestErrorView::BadCredentials)
        },
        None => Err(RequestErrorView::BadCredentials),
    }
}

/// Whom an access token speaks for at `now`, or why for nobody: a session
/// that is not there and a token that does not match are told apart by
/// nothing; a token that matches is good until the instant it expires.
pub open spec fn access_verdict(
    record: Option<ResolveSessionResponse>,
    access_token: Seq<u8>,
    now: Timestamp,
) -> Result<UserId, SessionError> {
    match record {
        Some(found) => if found.access_token@ != access_token {
            Err(SessionError::TokenNotFound)
        } else if found.access_token_expires_at.at_or_before(now) {
            Err(SessionError::TokenExpired)
        } else {
            Ok(found.user_id)
        },
        None => Err(SessionError::TokenNotFound),
    }
}

/// The counter under which a session may be rotated at `now`, or why it may
/// not: a session that is not there and a token that does not match are
/// told apart by nothing; a token that matches is good until the instant
/// it expires.
pub open spec fn refresh_verdict(
    record: Option<RefreshTokenResponse>,
    refresh_token: Seq<u8>,
    now: Timestamp,
) -> Result<i32, RequestErrorView> {
    match record {
        Some(found) => if found.refresh_token@ != refresh_token {
            Err(RequestErrorView::BadCredentials)
        } else if found.refresh_token_expires_at.at_or_before(now) {
            Err(RequestErrorView::Expired)
        } else {
            Ok(found.refresh_counter)
        },
        None => Err(RequestErrorView::BadCredentials),
    }
}

/// The expiries of tokens issued at `now`: of the refresh token fourteen
/// days later, of the access token two hours later. `None` where one of
/// them is no valid timestamp.
pub open spec fn expiries_at(now: Timestamp) -> Option<(Timestamp, Timestamp)> {
    match (now.plus_seconds(REFRESH_TOKEN_TTL as int), now.plus_seconds(ACCESS_TOKEN_TTL as int)) {
        (Some(refresh), Some(access)) => Some((refresh, access)),
        _ => None,
    }
}

/// What the store answered, turned into a result of the service.
pub open spec fn request_result<T>(result: Result<T, RequestError>) -> Result<
    T,
    RequestErrorView,
> {
    match result {
        Ok(value) => Ok(value),
        Err(e) => Err(e@),
    }
}

/// Decides a login on the credentials that the store holds under the alias.
pub fn check_credentials(
    credentials: Option<GetUserCredentialsByAliasResponse>,
    password: &str,
) -> (result: Result<UserId, RequestError>)
    ensures
        request_result(result) == credentials_verdict(credentials, password@),
{
    match credentials {
        Some(found) => {
            let hash = hash_password_sha256(password, found.password_salt);
            if constant_time_eq(hash.as_slice(), found.password_hash.as_slice()) {
                Ok(found.user_id)
            } else {
                Err(RequestError::BadCredentials)
            }
        },
        None => Err(RequestError::BadCredentials),
    }
}

/// Decides whom an access token speaks for on what the store holds of the session.
pub fn check_access_token(
    record: &Option<ResolveSessionResponse>,
    access_token: &[u8],
    now: &Timestamp,
) -> (result: Result<UserId, SessionError>)
    ensures
        result == access_verdict(*record, access_token@, *now),
{
    match record {
        Some(found) => {
            if !constant_time_eq(access_token, found.access_token.as_slice()) {
                Err(SessionError::TokenNotFound)
            } else if found.access_token_expires_at.is_at_or_before(now) {
                Err(SessionError::TokenExpired)
            } else {
                Ok(found.user_id)
            }
        },
        None => Err(SessionError::TokenNotFound),
    }
}

/// Decides whether a session may be rotated on what the store holds of it,
/// and gives the counter that the rotation has to find.
pub fn check_refresh_token(
    record: &Option<RefreshTokenResponse>,
    refresh_token: &[u8],
    now: &Timestamp,
) -> (result: Result<i32, RequestError>)
    ensures
        request_result(result) == refresh_verdict(*record, refresh_token@, *now),
{
    match record {
        Some(found) => {
            if !constant_time_eq(refresh_token, found.refresh_token.as_slice()) {
                Err(RequestError::BadCredentials)
            } else if found.refresh_token_expires_at.is_at_or_before(now) {
                Err(RequestError::Expired)
            } else {
                Ok(found.refresh_counter)
            }
        },
        None => Err(RequestError::BadCredentials),
    }
}

/// The expiries of tokens issued at `now`: first of the refresh token, then
/// of the access token.
pub fn new_expiries(now: Timestamp) -> (result: Result<(Timestamp, Timestamp), RequestError>)
    ensures
        match result {
            Ok(pair) => expiries_at(now) == Some(pair) && pair.0.is_valid() && pair.1.is_valid(),
            Err(e) => expiries_at(now) is None && e@ == RequestErrorView::Internal(
                InternalError::ClockOutOfRange,
            ),
        },
{
    match (refresh_token_expiration(now), access_token_expiration(now)) {
        (Some(refresh), Some(access)) => Ok((refresh, access)),
        _ => Err(RequestError::Internal(InternalError::ClockOutOfRange)),
    }
}

/// What a rotation answers that found no row to update: another refresh
/// came first, and this one is interrupted.
pub open spec fn rotation_verdict(updated: bool) -> Result<(), RequestErrorView> {
    if updated {
        Ok(())
    } else {
        Err(RequestErrorView::Interrupted)
    }
}

/// Decides a rotation on whether the conditional update found its row.
pub fn check_rotation(updated: bool) -> (result: Result<(), RequestError>)
    ensures
        request_result(result) == rotation_verdict(updated),
{
    if updated {
        Ok(())
    } else {
        Err(RequestError::Interrupted)
    }
}

/// What a chat answers to a user who belongs to it or does not: who is no
/// member is told that nothing was found.
pub open spec fn membership_verdict(is_member: bool) -> Result<(), RequestErrorView> {
    if is_member {
        Ok(())
    } else {
        Err(RequestErrorView::Validation(crate::error::ValidationErrorView::NotFound))
    }
}

/// Decides on the membership that the store answered.
pub fn check_membership(is_member: bool) -> (result: Result<(), RequestError>)
    ensures
        request_result(result) == membership_verdict(is_member),
{
    if is_member {
        Ok(())
    } else {
        Err(RequestError::Validation(crate::error::ValidationError::NotFound))
    }
}

/// What the creation of a private chat answers where the two share one
/// or do not: a chat that exists is not created again.
pub open spec fn new_private_chat_verdict(chat_exists: bool) -> Result<(), RequestErrorView> {
    if chat_exists {
        Err(RequestErrorView::Validation(crate::error::ValidationErrorView::AlreadyExists))
    } else {
        Ok(())
    }
}

/// Decides on whether the private chat exists, as the store answered.
pub fn check_private_chat_is_new(chat_exists: bool) -> (result: Result<(), RequestError>)
    ensures
        request_result(result) == new_private_chat_verdict(chat_exists),
{
    if chat_exists {
        Err(RequestError::Validation(crate::error::ValidationError::AlreadyExists))
    } else {
        Ok(())
    }
}

} // verus!
