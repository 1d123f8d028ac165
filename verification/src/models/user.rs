//! Users, their roles, and the rules for the texts a user is made of.

use crate::error::{ValidationError, ValidationErrorView};
use crate::text::{byte_len, byte_length, check_trimmed, is_trimmed};
use crate::time::Timestamp;
use vstd::prelude::*;

verus! {

/// The identity that the store gives a user.
pub type UserId = i32;

/// Most bytes that a display name may take.
pub const USER_DISPLAY_NAME_LENGTH_LIMIT: usize = 30;

/// Most bytes that an alias may take.
pub const USER_ALIAS_LENGTH_LIMIT: usize = 30;

/// Fewest bytes that a password may take.
pub const USER_PASSWORD_MIN_LENGTH: usize = 8;

/// Most bytes that a password may take.
pub const USER_PASSWORD_MAX_LENGTH: usize = 80;

/// What a user may do.
#[derive(Clone, Copy, Debug, PartialEq, Eq, Structural)]
pub enum UserRole {
    Admin,
    Regular,
}

impl UserRole {
    /// The role's name as it is shown.
    pub open spec fn name(self) -> Seq<char> {
        match self {
            UserRole::Admin => "Admin"@,
            UserRole::Regular => "Regular"@,
        }
    }

    /// The role's name as it is shown.
    pub fn to_text(&self) -> (text: String)
        ensures
            text@ == self.name(),
    {
        match self {
            UserRole::Admin => "Admin".to_owned(),
            UserRole::Regular => "Regular".to_owned(),
        }
    }
}

/// A user as the store takes it.
#[derive(Clone, Debug)]
pub struct CreateUser {
    pub alias: String,
    pub display_name: String,
    pub role: UserRole,
    pub password_salt: [u8; 16],
    pub password_hash: [u8; 32],
    pub invited_by: Option<UserId>,
}

/// What an administrator gives to invite a user.
#[derive(Clone, Debug)]
pub struct InviteUserRequest {
    pub alias: String,
    pub display_name: String,
    pub initial_password: String,
    pub role: UserRole,
}

pub struct UpdateUserAlias {
    new_alias: String,
}

pub struct UpdateUserDisplayName {
    new_display_name: String,
}

pub struct UpdateUserPassword {
    password_salt: String,
    password_hash: String,
}

#[derive(Clone, Copy, Debug, PartialEq, Eq, Structural)]
pub struct GetUserRoleResponse {
    pub role: UserRole,
}

#[derive(Clone, Copy, Debug, PartialEq, Eq, Structural)]
pub struct GetUserIdByAliasResponse {
    pub user_id: UserId,
}

/// What the store holds of a user's credentials.
#[derive(Clone, Copy, Debug)]
pub struct GetUserCredentialsByAliasResponse {
    pub user_id: UserId,
    pub password_hash: [u8; 32],
    pub password_salt: [u8; 16],
}

#[derive(Clone, Debug)]
pub struct User {
    pub user_id: UserId,
    pub display_name: String,
    pub role: UserRole,
    pub created_at: Timestamp,
    pub invited_by: UserId,
}

/// An input that is refused, with the reason.
pub open spec fn invalid_input(value: Seq<char>, reason: Seq<char>) -> ValidationErrorView {
    ValidationErrorView::InvalidInput { value, reason }
}

/// The characters that an alias is made of: Latin letters, digits and the underscore.
pub open spec fn is_alias_char(c: char) -> bool {
    ('a' <= c && c <= 'z') || ('A' <= c && c <= 'Z') || ('0' <= c && c <= '9') || c == '_'
}

/// Why an alias is refused, if it is: it is empty, takes more than thirty
/// bytes, or holds a character that no alias is made of.
pub open spec fn alias_error(alias: Seq<char>) -> Option<ValidationErrorView> {
    if alias.len() == 0 {
        Some(invalid_input(alias, "user alias cannot be empty"@))
    } else if byte_len(alias) > USER_ALIAS_LENGTH_LIMIT {
        Some(invalid_input(alias, "user alias cannot be longer than 30 chars"@))
    } else if exists|i: int| 0 <= i < alias.len() && !is_alias_char(#[trigger] alias[i]) {
        Some(
            invalid_input(
                alias,
                "user alias can only contain latin letters, digits and underscores"@,
            ),
        )
    } else {
        None
    }
}

/// Why a display name is refused, if it is: white space surrounds it, it is
/// empty, or it takes more than thirty bytes.
pub open spec fn display_name_error(name: Seq<char>) -> Option<ValidationErrorView> {
    if !is_trimmed(name) {
        Some(
            invalid_input(
                name,
                "user display name cannot be surrounded with whitespace characters"@,
            ),
        )
    } else if name.len() == 0 {
        Some(invalid_input(name, "user display name cannot be empty"@))
    } else if byte_len(name) > USER_DISPLAY_NAME_LENGTH_LIMIT {
        Some(invalid_input(name, "user display name cannot be longer than 30 chars"@))
    } else {
        None
    }
}

/// Why a password is refused, if it is: it takes fewer than eight bytes or
/// more than eighty. The error does not repeat the password.
pub open spec fn password_error(password: Seq<char>) -> Option<ValidationErrorView> {
    if byte_len(password) < USER_PASSWORD_MIN_LENGTH {
        Some(invalid_input("<password>"@, "user password cannot be shorter than 8 chars"@))
    } else if byte_len(password) > USER_PASSWORD_MAX_LENGTH {
        Some(invalid_input("<password>"@, "user password cannot be longer than 80 chars"@))
    } else {
        None
    }
}

/// What a role check answers: nothing where the role is the required one,
/// else an error that names Admin as the role that was required.
pub open spec fn role_error(current: UserRole, required: UserRole) -> Option<ValidationErrorView> {
    if current != required {
        Some(
            ValidationErrorView::InsufficientPermissions { required: UserRole::Admin, current },
        )
    } else {
        None
    }
}

fn refuse(value: &str, reason: &str) -> (result: Result<(), ValidationError>)
    ensures
        result matches Err(e) && e@ == invalid_input(value@, reason@),
{
    Err(ValidationError::InvalidInput { value: value.to_owned(), reason: reason.to_owned() })
}

fn check_alias_byte(b: u8) -> (ok: bool)
    ensures
        ok == ((97 <= b && b <= 122) || (65 <= b && b <= 90) || (48 <= b && b <= 57) || b == 95),
{
    (97 <= b && b <= 122) || (65 <= b && b <= 90) || (48 <= b && b <= 57) || b == 95
}

proof fn lemma_alias_char_byte(c: char)
    ensures
        is_alias_char(c) ==> c <= '\u{7f}',
        c <= '\u{7f}' ==> (is_alias_char(c) <==> {
            let b = c as u8;
            (97 <= b && b <= 122) || (65 <= b && b <= 90) || (48 <= b && b <= 57) || b == 95
        }),
{
}

/// Checks an alias: it is not empty, takes at most thirty bytes, and holds
/// only Latin letters, digits and underscores.
pub fn validate_user_alias(alias: &str) -> (result: Result<(), ValidationError>)
    ensures
        match result {
            Ok(()) => alias_error(alias@) is None,
            Err(e) => alias_error(alias@) == Some(e@),
        },
{
    if alias.is_empty() {
        return refuse(alias, "user alias cannot be empty");
    }
    if byte_length(alias) > USER_ALIAS_LENGTH_LIMIT {
        return refuse(alias, "user alias cannot be longer than 30 chars");
    }
    if !alias.is_ascii() {
        proof {
            let i = choose|i: int|
                0 <= i < alias@.len() && !('\0' <= #[trigger] alias@[i] <= '\u{7f}');
            lemma_alias_char_byte(alias@[i]);
        }
        return refuse(alias, "user alias can only contain latin letters, digits and underscores");
    }
    proof {
        vstd::utf8::is_ascii_chars_encode_utf8(alias@);
    }
    let n = byte_length(alias);
    let mut i: usize = 0;
    while i < n
        invariant
            i <= n,
            n == alias@.len(),
            byte_len(alias@) <= USER_ALIAS_LENGTH_LIMIT,
            alias.is_ascii(),
            forall|k: int| 0 <= k < i ==> is_alias_char(#[trigger] alias@[k]),
        decreases n - i,
    {
        let b = alias.get_ascii(i);
        proof {
            assert('\0' <= alias@[i as int] <= '\u{7f}');
            lemma_alias_char_byte(alias@[i as int]);
        }
        if !check_alias_byte(b) {
            assert(!is_alias_char(alias@[i as int]));
            return refuse(
                alias,
                "user alias can only contain latin letters, digits and underscores",
            );
        }
        i += 1;
    }
    Ok(())
}

/// Checks a display name: no white space around it, not empty, at most thirty bytes.
pub fn validate_user_display_name(name: &str) -> (result: Result<(), ValidationError>)
    ensures
        match result {
            Ok(()) => display_name_error(name@) is None,
            Err(e) => display_name_error(name@) == Some(e@),
        },
{
    if !check_trimmed(name) {
        return refuse(name, "user display name cannot be surrounded with whitespace characters");
    }
    if name.is_empty() {
        return refuse(name, "user display name cannot be empty");
    }
    if byte_length(name) > USER_DISPLAY_NAME_LENGTH_LIMIT {
        return refuse(name, "user display name cannot be longer than 30 chars");
    }
    Ok(())
}

/// Checks a password: at least eight bytes, at most eighty.
pub fn validate_user_password(password: &str) -> (result: Result<(), ValidationError>)
    ensures
        match result {
            Ok(()) => password_error(password@) is None,
            Err(e) => password_error(password@) == Some(e@),
        },
{
    let n = byte_length(password);
    if n < USER_PASSWORD_MIN_LENGTH {
        return refuse("<password>", "user password cannot be shorter than 8 chars");
    }
    if n > USER_PASSWORD_MAX_LENGTH {
        return refuse("<password>", "user password cannot be longer than 80 chars");
    }
    Ok(())
}

/// Checks that a role is the required one.
pub fn check_user_role(current: UserRole, required: UserRole) -> (result: Result<
    (),
    ValidationError,
>)
    ensures
        match result {
            Ok(()) => role_error(current, required) is None,
            Err(e) => role_error(current, required) == Some(e@),
        },
{
    if current != required {
        return Err(
            ValidationError::InsufficientPermissions { current, required: UserRole::Admin },
        );
    }
    Ok(())
}

impl User {
    /// Checks that the user has the required role.
    pub fn check_role(&self, required: UserRole) -> (result: Result<(), ValidationError>)
        ensures
            match result {
                Ok(()) => role_error(self.role, required) is None,
                Err(e) => role_error(self.role, required) == Some(e@),
            },
    {
        check_user_role(self.role, required)
    }

    /// Checks a display name.
    pub fn validate_name(name: &str) -> (result: Result<(), ValidationError>)
        ensures
            match result {
                Ok(()) => display_name_error(name@) is None,
                Err(e) => display_name_error(name@) == Some(e@),
            },
    {
        validate_user_display_name(name)
    }
}

} // verus!
