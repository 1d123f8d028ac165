//! Failures of authentication as the transport reports them.

use crate::error::{STATUS_BAD_REQUEST, STATUS_INTERNAL_SERVER_ERROR, STATUS_UNAUTHORIZED};
use vstd::prelude::*;

verus! {

#[derive(Clone, Copy, Debug, PartialEq, Eq, Structural)]
pub enum AuthError {
    InvalidToken,
    BadCredentials,
    TokenCreation,
    MissingCredentials,
}

impl AuthError {
    /// The status with which the error is answered.
    pub open spec fn status_code_spec(self) -> u16 {
        match self {
            AuthError::InvalidToken => STATUS_UNAUTHORIZED,
            AuthError::BadCredentials => STATUS_BAD_REQUEST,
            AuthError::TokenCreation => STATUS_INTERNAL_SERVER_ERROR,
            AuthError::MissingCredentials => STATUS_BAD_REQUEST,
        }
    }

    /// The text that the client is shown.
    pub open spec fn response_text_spec(self) -> Seq<char> {
        match self {
            AuthError::InvalidToken => "Invalid Token"@,
            AuthError::BadCredentials => "Bad Credentials"@,
            AuthError::TokenCreation => "Token creation failed"@,
            AuthError::MissingCredentials => "Missing Credentials"@,
        }
    }

    /// The status with which the error is answered.
    pub fn status_code(&self) -> (status: u16)
        ensures
            status == self.status_code_spec(),
    {
        match self {
            AuthError::InvalidToken => STATUS_UNAUTHORIZED,
            AuthError::BadCredentials => STATUS_BAD_REQUEST,
            AuthError::TokenCreation => STATUS_INTERNAL_SERVER_ERROR,
            AuthError::MissingCredentials => STATUS_BAD_REQUEST,
        }
    }

    /// The text that the client is shown.
    pub fn response_text(&self) -> (text: String)
        ensures
            text@ == self.response_text_spec(),
    {
        match self {
            AuthError::InvalidToken => "Invalid Token".to_owned(),
            AuthError::BadCredentials => "Bad Credentials".to_owned(),
            AuthError::TokenCreation => "Token creation failed".to_owned(),
            AuthError::MissingCredentials => "Missing Credentials".to_owned(),
        }
    }
}

} // verus!
