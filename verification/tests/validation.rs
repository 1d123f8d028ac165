use walrus_server::error::{RequestError, SessionError, ValidationError, InternalError};
use walrus_server::models::message::validate_message_text;
use walrus_server::models::user::{
    check_user_role, validate_user_alias, validate_user_display_name, validate_user_password,
    User, UserRole,
};
use walrus_server::text::{check_blank, check_trimmed, same_text};
use walrus_server::time::Timestamp;

fn invalid(result: Result<(), ValidationError>) -> (String, String) {
    match result {
        Err(ValidationError::InvalidInput { value, reason }) => (value, reason),
        _ => panic!("expected invalid input"),
    }
}

#[test]
fn alias_rules() {
    assert!(validate_user_alias("a").is_ok());
    assert!(validate_user_alias("its_benjamin").is_ok());
    assert!(validate_user_alias("AZaz09_").is_ok());
    assert!(validate_user_alias(&"a".repeat(30)).is_ok());
    assert_eq!(
        invalid(validate_user_alias("")),
        (String::new(), "user alias cannot be empty".to_string())
    );
    assert_eq!(
        invalid(validate_user_alias(&"a".repeat(31))),
        ("a".repeat(31), "user alias cannot be longer than 30 chars".to_string())
    );
    for bad in ["user a", "user-a", "üser", "user.a", "@", "a/", "a[", "a`", "a{", "a:"] {
        assert_eq!(
            invalid(validate_user_alias(bad)),
            (
                bad.to_string(),
                "user alias can only contain latin letters, digits and underscores".to_string()
            )
        );
    }
}

#[test]
fn display_name_rules() {
    assert!(validate_user_display_name("User A").is_ok());
    assert!(validate_user_display_name("Le Baguette").is_ok());
    assert!(validate_user_display_name(&"n".repeat(30)).is_ok());
    assert!(User::validate_name("Benjamin Dover").is_ok());
    assert_eq!(
        invalid(validate_user_display_name(" User")),
        (
            " User".to_string(),
            "user display name cannot be surrounded with whitespace characters".to_string()
        )
    );
    assert_eq!(
        invalid(validate_user_display_name("User\t")),
        (
            "User\t".to_string(),
            "user display name cannot be surrounded with whitespace characters".to_string()
        )
    );
    assert_eq!(
        invalid(validate_user_display_name("User\u{2003}")),
        (
            "User\u{2003}".to_string(),
            "user display name cannot be surrounded with whitespace characters".to_string()
        )
    );
    assert_eq!(
        invalid(validate_user_display_name("")),
        (String::new(), "user display name cannot be empty".to_string())
    );
    assert_eq!(
        invalid(User::validate_name(&"n".repeat(31))),
        ("n".repeat(31), "user display name cannot be longer than 30 chars".to_string())
    );
    // fifteen letters of two bytes each are thirty bytes, sixteen are too many
    assert!(validate_user_display_name(&"é".repeat(15)).is_ok());
    assert_eq!(
        invalid(validate_user_display_name(&"é".repeat(16))),
        ("é".repeat(16), "user display name cannot be longer than 30 chars".to_string())
    );
}

#[test]
fn password_rules_do_not_repeat_the_password() {
    assert!(validate_user_password("passfora").is_ok());
    assert!(validate_user_password(&"p".repeat(80)).is_ok());
    assert_eq!(
        invalid(validate_user_password("passfor")),
        ("<password>".to_string(), "user password cannot be shorter than 8 chars".to_string())
    );
    assert_eq!(
        invalid(validate_user_password(&"p".repeat(81))),
        ("<password>".to_string(), "user password cannot be longer than 80 chars".to_string())
    );
    assert_eq!(
        invalid(validate_user_password("")),
        ("<password>".to_string(), "user password cannot be shorter than 8 chars".to_string())
    );
}

#[test]
fn message_text_rules() {
    assert!(validate_message_text("hello").is_ok());
    assert!(validate_message_text("  hello  ").is_ok());
    assert!(validate_message_text(&"m".repeat(4096)).is_ok());
    assert_eq!(
        invalid(validate_message_text("")),
        (String::new(), "message text cannot be empty".to_string())
    );
    assert_eq!(
        invalid(validate_message_text(" \t\n ")),
        (" \t\n ".to_string(), "message text cannot be empty".to_string())
    );
    assert_eq!(
        invalid(validate_message_text(&"m".repeat(4097))),
        ("m".repeat(4097), "message text cannot be longer than 4096 bytes".to_string())
    );
    assert_eq!(
        invalid(validate_message_text(&"é".repeat(2049))),
        ("é".repeat(2049), "message text cannot be longer than 4096 bytes".to_string())
    );
    assert!(validate_message_text(&"é".repeat(2048)).is_ok());
    // the length is looked at first
    assert_eq!(
        invalid(validate_message_text(&" ".repeat(4097))),
        (" ".repeat(4097), "message text cannot be longer than 4096 bytes".to_string())
    );
    assert_eq!(
        invalid(validate_message_text(&" ".repeat(4096))),
        (" ".repeat(4096), "message text cannot be empty".to_string())
    );
}

#[test]
fn text_helpers() {
    assert!(check_trimmed(""));
    assert!(check_trimmed("a b"));
    assert!(!check_trimmed(" a"));
    assert!(!check_trimmed("a\n"));
    assert!(check_blank(""));
    assert!(check_blank(" \u{a0}\t"));
    assert!(!check_blank(" x "));
    assert!(same_text("abc", "abc"));
    assert!(!same_text("abc", "abd"));
    assert!(!same_text("abc", "ab"));
    assert!(same_text("", ""));
}

#[test]
fn role_check_names_admin_as_required() {
    assert!(check_user_role(UserRole::Admin, UserRole::Admin).is_ok());
    assert!(check_user_role(UserRole::Regular, UserRole::Regular).is_ok());
    match check_user_role(UserRole::Regular, UserRole::Admin) {
        Err(ValidationError::InsufficientPermissions { required, current }) => {
            assert_eq!(required, UserRole::Admin);
            assert_eq!(current, UserRole::Regular);
        }
        _ => panic!("expected insufficient permissions"),
    }
    let user = User {
        user_id: 4,
        display_name: "User".to_string(),
        role: UserRole::Admin,
        created_at: Timestamp { secs: 0, nanos: 0 },
        invited_by: 1,
    };
    assert!(user.check_role(UserRole::Admin).is_ok());
    match user.check_role(UserRole::Regular) {
        Err(ValidationError::InsufficientPermissions { required, current }) => {
            assert_eq!(required, UserRole::Admin);
            assert_eq!(current, UserRole::Admin);
        }
        _ => panic!("expected insufficient permissions"),
    }
}

#[test]
fn validation_messages() {
    assert_eq!(
        ValidationError::InvalidInput { value: "x y".to_string(), reason: "why".to_string() }
            .message(),
        "input value is invalid: `x y`, reason: why"
    );
    assert_eq!(
        ValidationError::LimitExceeded {
            subject: "listing limit".to_string(),
            unit: "element".to_string(),
            attempted: 1000,
            limit: 200
        }
        .message(),
        "limit exceeded for listing limit, allowed 200 element(s), got 1000"
    );
    assert_eq!(
        ValidationError::InsufficientPermissions {
            required: UserRole::Admin,
            current: UserRole::Regular
        }
        .message(),
        "insufficient permissions for action, required role: Admin, current role: Regular"
    );
    assert_eq!(ValidationError::AlreadyExists.message(), "requested object already exists");
    assert_eq!(
        ValidationError::NotFound.message(),
        "requested object doesn't exist or the caller doesn't have access"
    );
    assert_eq!(UserRole::Admin.to_text(), "Admin");
    assert_eq!(UserRole::Regular.to_text(), "Regular");
}

#[test]
fn request_errors_have_their_status_and_text() {
    let e = RequestError::BadCredentials;
    assert_eq!((e.status_code(), e.response_text()), (401, "bad auth or refresh credentials".to_string()));
    let e = RequestError::Interrupted;
    assert_eq!((e.status_code(), e.response_text()), (409, "interrupted operation".to_string()));
    let e = RequestError::Expired;
    assert_eq!(
        (e.status_code(), e.response_text()),
        (
            401,
            "operation is not valid anymore, likely requires session refresh or re-login"
                .to_string()
        )
    );
    let e = RequestError::Validation(ValidationError::NotFound);
    assert_eq!(
        (e.status_code(), e.response_text()),
        (400, "requested object doesn't exist or the caller doesn't have access".to_string())
    );
    assert_eq!(
        e.message(),
        "validation failed: requested object doesn't exist or the caller doesn't have access"
    );
    let e = RequestError::Validation(ValidationError::AlreadyExists);
    assert_eq!((e.status_code(), e.response_text()), (400, "requested object already exists".to_string()));
    let e = RequestError::Internal(InternalError::RowNotFound);
    assert_eq!((e.status_code(), e.response_text()), (404, "not found".to_string()));
    assert_eq!(e.message(), "internal error: row not found");
    for kind in [
        InternalError::Conflict,
        InternalError::ForeignKey,
        InternalError::Exhausted,
        InternalError::ClockOutOfRange,
        InternalError::Other,
    ] {
        let e = RequestError::Internal(kind);
        assert_eq!((e.status_code(), e.response_text()), (500, "Something went wrong".to_string()));
    }
    assert_eq!(InternalError::Conflict.message(), "key already taken");
    assert_eq!(InternalError::ForeignKey.message(), "referenced row not found");
    assert_eq!(InternalError::Exhausted.message(), "no value left");
    assert_eq!(InternalError::ClockOutOfRange.message(), "clock out of range");
    assert_eq!(InternalError::Other.message(), "storage failure");
}

#[test]
fn session_errors_have_their_status_and_text() {
    assert_eq!(SessionError::BadToken.status_code(), 400);
    assert_eq!(SessionError::BadToken.response_text(), "Missing or bad token in request");
    assert_eq!(SessionError::TokenNotFound.status_code(), 401);
    assert_eq!(SessionError::TokenNotFound.response_text(), "Token cannot be found");
    assert_eq!(SessionError::TokenExpired.status_code(), 401);
    assert_eq!(SessionError::TokenExpired.response_text(), "Token has expired");
    assert_eq!(SessionError::Internal.status_code(), 500);
    assert_eq!(SessionError::Internal.response_text(), "Something went wrong");
}

#[test]
fn errors_convert_into_request_errors() {
    let e: RequestError = ValidationError::AlreadyExists.into();
    assert!(matches!(e, RequestError::Validation(ValidationError::AlreadyExists)));
    let e: RequestError = InternalError::Exhausted.into();
    assert!(matches!(e, RequestError::Internal(InternalError::Exhausted)));
    let e = RequestError::from(ValidationError::NotFound);
    assert_eq!(e.status_code(), 400);
}
