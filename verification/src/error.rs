//! The errors that the service reports, and how each is shown to a client.

use crate::models::user::UserRole;
use crate::text::{decimal_digits, push_decimal};
use vstd::prelude::*;

verus! {

/// Status of a malformed request.
pub const STATUS_BAD_REQUEST: u16 = 400;

/// Status of a request whose credentials were not accepted.
pub const STATUS_UNAUTHORIZED: u16 = 401;

/// Status of a request for a row that is not there.
pub const STATUS_NOT_FOUND: u16 = 404;

/// Status of a request that lost against a concurrent one.
pub const STATUS_CONFLICT: u16 = 409;

/// Status of a failure that is not the client's.
pub const STATUS_INTERNAL_SERVER_ERROR: u16 = 500;

/// A failure of the store itself, or of the clock, that no rule of the service explains.
#[derive(Clone, Copy, Debug, PartialEq, Eq, Structural)]
pub enum InternalError {
    /// A row that had to be there was not.
    RowNotFound,
    /// A key that had to be new was taken.
    Conflict,
    /// A row refers to another that is not there.
    ForeignKey,
    /// A counter or an identity column has no value left.
    Exhausted,
    /// The clock is so far off that an expiry cannot be written down.
    ClockOutOfRange,
    /// Any other failure of the store.
    Other,
}

/// Why an input was refused.
#[derive(Clone, Debug)]
pub enum ValidationError {
    InvalidInput { value: String, reason: String },
    LimitExceeded { subject: String, unit: String, attempted: usize, limit: usize },
    InsufficientPermissions { required: UserRole, current: UserRole },
    AlreadyExists,
    NotFound,
}

/// A validation error with its texts as sequences of characters.
pub enum ValidationErrorView {
    InvalidInput { value: Seq<char>, reason: Seq<char> },
    LimitExceeded { subject: Seq<char>, unit: Seq<char>, attempted: nat, limit: nat },
    InsufficientPermissions { required: UserRole, current: UserRole },
    AlreadyExists,
    NotFound,
}

impl View for ValidationError {
    type V = ValidationErrorView;

    open spec fn view(&self) -> ValidationErrorView {
        match *self {
            ValidationError::InvalidInput { value, reason } => ValidationErrorView::InvalidInput {
                value: value@,
                reason: reason@,
            },
            ValidationError::LimitExceeded {
                subject,
                unit,
                attempted,
                limit,
            } => ValidationErrorView::LimitExceeded {
                subject: subject@,
                unit: unit@,
                attempted: attempted as nat,
                limit: limit as nat,
            },
            ValidationError::InsufficientPermissions {
                required,
                current,
            } => ValidationErrorView::InsufficientPermissions { required, current },
            ValidationError::AlreadyExists => ValidationErrorView::AlreadyExists,
            ValidationError::NotFound => ValidationErrorView::NotFound,
        }
    }
}

impl ValidationErrorView {
    /// The sentence that describes the error.
    pub open spec fn message(self) -> Seq<char> {
        match self {
            ValidationErrorView::InvalidInput { value, reason } => "input value is invalid: `"@
                + value + "`, reason: "@ + reason,
            ValidationErrorView::LimitExceeded {
                subject,
                unit,
                attempted,
                limit,
            } => "limit exceeded for "@ + subject + ", allowed "@ + decimal_digits(limit) + " "@
                + unit + "(s), got "@ + decimal_digits(attempted),
            ValidationErrorView::InsufficientPermissions {
                required,
                current,
            } => "insufficient permissions for action, required role: "@ + required.name()
                + ", current role: "@ + current.name(),
            ValidationErrorView::AlreadyExists => "requested object already exists"@,
            ValidationErrorView::NotFound =>
                "requested object doesn't exist or the caller doesn't have access"@,
        }
    }
}

impl ValidationError {
    /// The sentence that describes the error.
    pub fn message(&self) -> (text: String)
        ensures
            text@ == self@.message(),
    {
        match self {
            ValidationError::InvalidInput { value, reason } => {
                let mut text = "input value is invalid: `".to_owned();
                text.append(value.as_str());
                text.append("`, reason: ");
                text.append(reason.as_str());
                text
            },
            ValidationError::LimitExceeded { subject, unit, attempted, limit } => {
                let mut text = "limit exceeded for ".to_owned();
                text.append(subject.as_str());
                text.append(", allowed ");
                push_decimal(&mut text, *limit as u64);
                text.append(" ");
                text.append(unit.as_str());
                text.append("(s), got ");
                push_decimal(&mut text, *attempted as u64);
                text
            },
            ValidationError::InsufficientPermissions { required, current } => {
                let mut text = "insufficient permissions for action, required role: ".to_owned();
                text.append(required.to_text().as_str());
                text.append(", current role: ");
                text.append(current.to_text().as_str());
                text
            },
            ValidationError::AlreadyExists => "requested object already exists".to_owned(),
            ValidationError::NotFound => {
                "requested object doesn't exist or the caller doesn't have access".to_owned()
            },
        }
    }
}

impl InternalError {
    /// The words that name the failure.
    pub open spec fn message_spec(self) -> Seq<char> {
        match self {
            InternalError::RowNotFound => "row not found"@,
            InternalError::Conflict => "key already taken"@,
            InternalError::ForeignKey => "referenced row not found"@,
            InternalError::Exhausted => "no value left"@,
            InternalError::ClockOutOfRange => "clock out of range"@,
            InternalError::Other => "storage failure"@,
        }
    }

    /// The words that name the failure.
    pub fn message(&self) -> (text: String)
        ensures
            text@ == self.message_spec(),
    {
        match self {
            InternalError::RowNotFound => "row not found".to_owned(),
            InternalError::Conflict => "key already taken".to_owned(),
            InternalError::ForeignKey => "referenced row not found".to_owned(),
            InternalError::Exhausted => "no value left".to_owned(),
            InternalError::ClockOutOfRange => "clock out of range".to_owned(),
            InternalError::Other => "storage failure".to_owned(),
        }
    }
}

/// How an operation of the service can fail.
#[derive(Clone, Debug)]
pub enum RequestError {
    BadCredentials,
    Interrupted,
    Expired,
    Validation(ValidationError),
    Internal(InternalError),
}

/// A request error with its texts as sequences of characters.
pub enum RequestErrorView {
    BadCredentials,
    Interrupted,
    Expired,
    Validation(ValidationErrorView),
    Internal(InternalError),
}

impl View for RequestError {
    type V = RequestErrorView;

    open spec fn view(&self) -> RequestErrorView {
        match *self {
            RequestError::BadCredentials => RequestErrorView::BadCredentials,
            RequestError::Interrupted => RequestErrorView::Interrupted,
            RequestError::Expired => RequestErrorView::Expired,
            RequestError::Validation(e) => RequestErrorView::Validation(e@),
            RequestError::Internal(e) => RequestErrorView::Internal(e),
        }
    }
}

impl From<ValidationError> for RequestError {
    fn from(e: ValidationError) -> (error: RequestError) {
        RequestError::Validation(e)
    }
}

impl vstd::std_specs::convert::FromSpecImpl<ValidationError> for RequestError {
    open spec fn obeys_from_spec() -> bool {
        true
    }

    open spec fn from_spec(e: ValidationError) -> RequestError {
        RequestError::Validation(e)
    }
}

impl From<InternalError> for RequestError {
    fn from(e: InternalError) -> (error: RequestError) {
        RequestError::Internal(e)
    }
}

impl vstd::std_specs::convert::FromSpecImpl<InternalError> for RequestError {
    open spec fn obeys_from_spec() -> bool {
        true
    }

    open spec fn from_spec(e: InternalError) -> RequestError {
        RequestError::Internal(e)
    }
}

impl RequestErrorView {
    /// The sentence that describes the error.
    pub open spec fn message(self) -> Seq<char> {
        match self {
            RequestErrorView::BadCredentials => "bad auth or refresh credentials"@,
            RequestErrorView::Interrupted => "interrupted operation"@,
            RequestErrorView::Expired =>
                "operation is not valid anymore, likely requires session refresh or re-login"@,
            RequestErrorView::Validation(e) => "validation failed: "@ + e.message(),
            RequestErrorView::Internal(e) => "internal error: "@ + e.message_spec(),
        }
    }

    /// The status with which the error is answered.
    pub open spec fn status_code(self) -> u16 {
        match self {
            RequestErrorView::BadCredentials => STATUS_UNAUTHORIZED,
            RequestErrorView::Interrupted => STATUS_CONFLICT,
            RequestErrorView::Expired => STATUS_UNAUTHORIZED,
            RequestErrorView::Validation(_) => STATUS_BAD_REQUEST,
            RequestErrorView::Internal(InternalError::RowNotFound) => STATUS_NOT_FOUND,
            RequestErrorView::Internal(_) => STATUS_INTERNAL_SERVER_ERROR,
        }
    }

    /// The text that the client is shown. A validation error is shown as it
    /// is; a failure of the store is shown without its cause.
    pub open spec fn response_text(self) -> Seq<char> {
        match self {
            RequestErrorView::Validation(e) => e.message(),
            RequestErrorView::Internal(InternalError::RowNotFound) => "not found"@,
            RequestErrorView::Internal(_) => "Something went wrong"@,
            _ => self.message(),
        }
    }
}

impl RequestError {
    /// The sentence that describes the error.
    pub fn message(&self) -> (text: String)
        ensures
            text@ == self@.message(),
    {
        match self {
            RequestError::BadCredentials => "bad auth or refresh credentials".to_owned(),
            RequestError::Interrupted => "interrupted operation".to_owned(),
            RequestError::Expired => {
                "operation is not valid anymore, likely requires session refresh or re-login"
                    .to_owned()
            },
            RequestError::Validation(e) => {
                let mut text = "validation failed: ".to_owned();
                text.append(e.message().as_str());
                text
            },
            RequestError::Internal(e) => {
                let mut text = "internal error: ".to_owned();
                text.append(e.message().as_str());
                text
            },
        }
    }

    /// The status with which the error is answered.
    pub fn status_code(&self) -> (status: u16)
        ensures
            status == self@.status_code(),
    {
        match self {
            RequestError::BadCredentials => STATUS_UNAUTHORIZED,
            RequestError::Interrupted => STATUS_CONFLICT,
            RequestError::Expired => STATUS_UNAUTHORIZED,
            RequestError::Validation(_) => STATUS_BAD_REQUEST,
            RequestError::Internal(InternalError::RowNotFound) => STATUS_NOT_FOUND,
            RequestError::Internal(_) => STATUS_INTERNAL_SERVER_ERROR,
        }
    }

    /// The text that the client is shown.
    pub fn response_text(&self) -> (text: String)
        ensures
            text@ == self@.response_text(),
    {
        match self {
            RequestError::Validation(e) => e.message(),
            RequestError::Internal(InternalError::RowNotFound) => "not found".to_owned(),
            RequestError::Internal(_) => "Something went wrong".to_owned(),
            _ => self.message(),
        }
    }
}

/// Why a bearer token did not lead to a user.
#[derive(Clone, Copy, Debug, PartialEq, Eq, Structural)]
pub enum SessionError {
    BadToken,
    TokenNotFound,
    TokenExpired,
    Internal,
}

impl SessionError {
    /// The status with which the error is answered.
    pub open spec fn status_code_spec(self) -> u16 {
        match self {
            SessionError::BadToken => STATUS_BAD_REQUEST,
            SessionError::TokenNotFound => STATUS_UNAUTHORIZED,
            SessionError::TokenExpired => STATUS_UNAUTHORIZED,
            SessionError::Internal => STATUS_INTERNAL_SERVER_ERROR,
        }
    }

    /// The text that the client is shown.
    pub open spec fn response_text_spec(self) -> Seq<char> {
        match self {
            SessionError::BadToken => "Missing or bad token in request"@,
            SessionError::TokenNotFound => "Token cannot be found"@,
            SessionError::TokenExpired => "Token has expired"@,
            SessionError::Internal => "Something went wrong"@,
        }
    }

    /// The status with which the error is answered.
    pub fn status_code(&self) -> (status: u16)
        ensures
            status == self.status_code_spec(),
    {
        match self {
            SessionError::BadToken => STATUS_BAD_REQUEST,
            SessionError::TokenNotFound => STATUS_UNAUTHORIZED,
            SessionError::TokenExpired => STATUS_UNAUTHORIZED,
            SessionError::Internal => STATUS_INTERNAL_SERVER_ERROR,
        }
    }

    /// The text that the client is shown.
    pub fn response_text(&self) -> (text: String)
        ensures
            text@ == self.response_text_spec(),
    {
        match self {
            SessionError::BadToken => "Missing or bad token in request".to_owned(),
            SessionError::TokenNotFound => "Token cannot be found".to_owned(),
            SessionError::TokenExpired => "Token has expired".to_owned(),
            SessionError::Internal => "Something went wrong".to_owned(),
        }
    }
}

} // verus!
