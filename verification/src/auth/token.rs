//! The bearer format and the payload that carries fresh tokens to a client.

use crate::auth::utils::{
    lemma_unpack_packed, pack_session_id_and_token, packed, unpack_session_id_and_token, unpacked,
};
use crate::error::SessionError;
use crate::models::session::SessionId;
use crate::models::user::UserId;
use crate::time::{rfc3339_text, Timestamp};
use base64::prelude::BASE64_STANDARD;
use base64::Engine;
use vstd::prelude::*;
use vstd::slice::slice_to_vec;

verus! {

/// The text of a sequence of bytes in base64, with the standard alphabet and padding.
pub uninterp spec fn base64_text(bytes: Seq<u8>) -> Seq<char>;

/// The bytes that a text stands for in base64, with the standard alphabet
/// and padding, where it stands for any.
pub uninterp spec fn base64_bytes(text: Seq<char>) -> Option<Seq<u8>>;

/// Whether a buffer of `len` bytes is short enough for its base64 text to have a length.
pub open spec fn base64_encodable(len: nat) -> bool {
    len / 3 * 4 + 4 <= usize::MAX
}

/// The session identifier and the token that a bearer text carries, where
/// it is base64 of at least sixteen bytes.
pub open spec fn bearer_parts(text: Seq<char>) -> Option<(Seq<u8>, Seq<u8>)> {
    match base64_bytes(text) {
        Some(bytes) => unpacked(bytes),
        None => None,
    }
}

/// `Engine::encode` of the `base64` crate on its standard engine. The
/// contract names the text and claims that decoding it gives the bytes
/// back. The length is bounded because the call ends the process where the
/// length of the text does not fit the machine's word.
#[verifier::external_body]
fn base64_encode(data: &[u8]) -> (text: String)
    requires
        base64_encodable(data@.len()),
    ensures
        text@ == base64_text(data@),
        base64_bytes(text@) == Some(data@),
{
    BASE64_STANDARD.encode(data)
}

/// `Engine::decode` of the `base64` crate on its standard engine. The
/// contract names the bytes; a text that the crate refuses stands for none.
#[verifier::external_body]
fn base64_decode(text: &str) -> (bytes: Option<Vec<u8>>)
    ensures
        match bytes {
            Some(bytes) => base64_bytes(text@) == Some(bytes@),
            None => base64_bytes(text@) is None,
        },
{
    BASE64_STANDARD.decode(text).ok()
}

/// Who a request was made by, once its bearer token has been resolved.
#[derive(Clone, Copy, Debug, PartialEq, Eq, Structural)]
pub struct Claims {
    pub user_id: UserId,
}

/// Reads a bearer text: base64 of a session identifier followed by a token.
/// A text that is no base64, or holds fewer than sixteen bytes, is a bad token.
pub fn parse_bearer(bearer: &str) -> (result: Result<(SessionId, Vec<u8>), SessionError>)
    ensures
        match result {
            Ok((session_id, token)) => bearer_parts(bearer@) == Some((session_id@, token@)),
            Err(e) => e == SessionError::BadToken && bearer_parts(bearer@) is None,
        },
{
    match base64_decode(bearer) {
        Some(bytes) => match unpack_session_id_and_token(bytes.as_slice()) {
            Some((session_id, token)) => Ok((session_id, slice_to_vec(token))),
            None => Err(SessionError::BadToken),
        },
        None => Err(SessionError::BadToken),
    }
}

/// The tokens of a session as they travel to the client: each token packed
/// with the session identifier and written in base64, each expiry in the
/// format of RFC 3339.
#[derive(Clone, Debug)]
pub struct TokenExchangePayload {
    pub refresh_token: String,
    pub refresh_token_expires_at: String,
    pub access_token: String,
    pub access_token_expires_at: String,
}

/// A token exchange payload with its texts as sequences of characters.
pub struct TokenExchangeView {
    pub refresh_token: Seq<char>,
    pub refresh_token_expires_at: Seq<char>,
    pub access_token: Seq<char>,
    pub access_token_expires_at: Seq<char>,
}

impl View for TokenExchangePayload {
    type V = TokenExchangeView;

    open spec fn view(&self) -> TokenExchangeView {
        TokenExchangeView {
            refresh_token: self.refresh_token@,
            refresh_token_expires_at: self.refresh_token_expires_at@,
            access_token: self.access_token@,
            access_token_expires_at: self.access_token_expires_at@,
        }
    }
}

/// The payload for the tokens of a session.
pub open spec fn token_exchange(
    session_id: Seq<u8>,
    refresh_token: Seq<u8>,
    refresh_token_expires_at: Timestamp,
    access_token: Seq<u8>,
    access_token_expires_at: Timestamp,
) -> TokenExchangeView {
    TokenExchangeView {
        refresh_token: base64_text(packed(session_id, refresh_token)),
        refresh_token_expires_at: rfc3339_text(
            refresh_token_expires_at.secs as int,
            refresh_token_expires_at.nanos as int,
        ),
        access_token: base64_text(packed(session_id, access_token)),
        access_token_expires_at: rfc3339_text(
            access_token_expires_at.secs as int,
            access_token_expires_at.nanos as int,
        ),
    }
}

impl TokenExchangePayload {
    /// Builds the payload. Each of its two token texts, read as a bearer,
    /// gives back the session identifier and the token.
    pub fn new(
        session_id: &SessionId,
        refresh_token: &[u8],
        refresh_token_expires_at: Timestamp,
        access_token: &[u8],
        access_token_expires_at: Timestamp,
    ) -> (payload: Self)
        requires
            refresh_token_expires_at.is_valid(),
            access_token_expires_at.is_valid(),
            base64_encodable(16 + refresh_token@.len()),
            base64_encodable(16 + access_token@.len()),
        ensures
            payload@ == token_exchange(
                session_id@,
                refresh_token@,
                refresh_token_expires_at,
                access_token@,
                access_token_expires_at,
            ),
            bearer_parts(payload.refresh_token@) == Some((session_id@, refresh_token@)),
            bearer_parts(payload.access_token@) == Some((session_id@, access_token@)),
    {
        let packed_refresh = pack_session_id_and_token(session_id, refresh_token);
        let packed_access = pack_session_id_and_token(session_id, access_token);
        proof {
            session_id.lemma_len();
            lemma_unpack_packed(session_id@, refresh_token@);
            lemma_unpack_packed(session_id@, access_token@);
        }
        TokenExchangePayload {
            refresh_token: base64_encode(packed_refresh.as_slice()),
            refresh_token_expires_at: refresh_token_expires_at.to_rfc3339(),
            access_token: base64_encode(packed_access.as_slice()),
            access_token_expires_at: access_token_expires_at.to_rfc3339(),
        }
    }
}

/// What a client sends to log in.
#[derive(Clone, Debug)]
pub struct AuthPayload {
    pub alias: String,
    pub password: String,
    pub session_id: Option<String>,
}

} // verus!
