use walrus_server::auth::token::{parse_bearer, Claims};
use walrus_server::database::commands::{
    add_member_to_chat, count_sessions, create_chat, create_message, create_session, create_user,
    remove_session, trim_sessions_for_user, update_session_tokens,
};
use walrus_server::database::connection::DbConnection;
use walrus_server::database::queries::{
    get_access_token, get_refresh_token, get_user_credentials_by_alias, get_user_id_by_alias,
    get_user_role, is_user_in_chat, private_chat_exists,
};
use walrus_server::database::schema::{create_origin_user, default_origin_user, origin_user_with};
use walrus_server::auth::utils::hash_password_sha256;
use walrus_server::error::{InternalError, RequestError, SessionError, ValidationError};
use walrus_server::models::chat::{
    AddMemberToChatRequest, ChatKind, ChatRole, CreateChatRequest, IsUserInChatRequest,
    ListChatsRequest, PrivateChatExistsRequest,
};
use walrus_server::models::message::{CreateMessageRequest, ListMessagesRequest};
use walrus_server::models::session::{CreateSessionRequest, IpNetwork, SessionId};
use walrus_server::models::user::{CreateUser, InviteUserRequest, UserId, UserRole};
use walrus_server::time::Timestamp;

const T0: Timestamp = Timestamp { secs: 1_700_000_000, nanos: 0 };

fn at(offset: i64) -> Timestamp {
    Timestamp { secs: 1_700_000_000 + offset, nanos: 0 }
}

fn sid(n: u8) -> SessionId {
    SessionId::from_bytes([n; 16])
}

fn seeded() -> DbConnection {
    let mut db = DbConnection::new();
    db.init_schema().unwrap();
    db
}

fn invite(db: &mut DbConnection, alias: &str, password: &str, name: &str) -> UserId {
    db.invite_user_with(
        1,
        InviteUserRequest {
            alias: alias.to_string(),
            display_name: name.to_string(),
            initial_password: password.to_string(),
            role: UserRole::Regular,
        },
        [3u8; 16],
        T0,
    )
    .unwrap()
}

fn session_request(user_id: UserId, access_expires: Timestamp) -> CreateSessionRequest {
    CreateSessionRequest {
        user_id,
        ip: IpNetwork::host_v4(0x7f00_0001),
        device_name: None,
        os_version: None,
        app_version: None,
        refresh_token: vec![1; 32],
        refresh_token_expires_at: at(1_000_000),
        access_token: vec![2; 32],
        access_token_expires_at: access_expires,
    }
}

#[test]
fn login_with_gives_the_tokens_that_were_drawn() {
    let mut db = seeded();
    let user = invite(&mut db, "user_a", "passfora", "User A");
    assert_eq!(user, 2);
    let payload = db
        .login_with("user_a", "passfora", T0, sid(9), [0xaa; 32], [0xbb; 32])
        .unwrap();
    assert_eq!(payload.refresh_token_expires_at, "2023-11-28T22:13:20+00:00");
    assert_eq!(payload.access_token_expires_at, "2023-11-15T00:13:20+00:00");
    let (session_id, access) = parse_bearer(&payload.access_token).unwrap();
    assert_eq!(session_id, sid(9));
    assert_eq!(access, vec![0xbb; 32]);
    let (session_id, refresh) = parse_bearer(&payload.refresh_token).unwrap();
    assert_eq!(session_id, sid(9));
    assert_eq!(refresh, vec![0xaa; 32]);
    assert_eq!(db.resolve_session_at(&sid(9), &[0xbb; 32], T0), Ok(2));
    assert_eq!(count_sessions(&db, 2), 1);
    assert_eq!(count_sessions(&db, 1), 0);
}

#[test]
fn access_token_expires_after_two_hours() {
    let mut db = seeded();
    invite(&mut db, "user_a", "passfora", "User A");
    db.login_with("user_a", "passfora", T0, sid(9), [0xaa; 32], [0xbb; 32]).unwrap();
    assert_eq!(db.resolve_session_at(&sid(9), &[0xbb; 32], at(7_199)), Ok(2));
    assert_eq!(
        db.resolve_session_at(&sid(9), &[0xbb; 32], at(7_200)),
        Err(SessionError::TokenExpired)
    );
    assert_eq!(
        db.resolve_session_at(&sid(9), &[0xbb; 32], at(7_201)),
        Err(SessionError::TokenExpired)
    );
    assert_eq!(
        db.resolve_session_at(&sid(9), &[0xbc; 32], at(7_201)),
        Err(SessionError::TokenNotFound)
    );
    assert_eq!(
        db.resolve_session_at(&sid(8), &[0xbb; 32], T0),
        Err(SessionError::TokenNotFound)
    );
    assert_eq!(
        db.resolve_session_at(&sid(9), &[0xaa; 32], T0),
        Err(SessionError::TokenNotFound)
    );
}

#[test]
fn refresh_token_expires_after_fourteen_days() {
    let mut db = seeded();
    invite(&mut db, "user_a", "passfora", "User A");
    db.login_with("user_a", "passfora", T0, sid(9), [0xaa; 32], [0xbb; 32]).unwrap();
    let err = db
        .refresh_session_with(&sid(9), &[0xaa; 32], at(1_209_600), [1; 32], [2; 32])
        .unwrap_err();
    assert!(matches!(err, RequestError::Expired));
    let err = db
        .refresh_session_with(&sid(9), &[0xab; 32], at(1_209_600), [1; 32], [2; 32])
        .unwrap_err();
    assert!(matches!(err, RequestError::BadCredentials));
    let err = db
        .refresh_session_with(&sid(7), &[0xaa; 32], T0, [1; 32], [2; 32])
        .unwrap_err();
    assert!(matches!(err, RequestError::BadCredentials));
    // nothing was rotated by the failures
    assert_eq!(db.resolve_session_at(&sid(9), &[0xbb; 32], T0), Ok(2));
    let payload = db
        .refresh_session_with(&sid(9), &[0xaa; 32], at(1_209_599), [1; 32], [2; 32])
        .unwrap();
    let (session_id, access) = parse_bearer(&payload.access_token).unwrap();
    assert_eq!(session_id, sid(9));
    assert_eq!(access, vec![2; 32]);
    assert_eq!(db.resolve_session_at(&sid(9), &[2; 32], at(1_209_599)), Ok(2));
}

#[test]
fn refresh_retires_the_old_tokens_and_raises_the_counter() {
    let mut db = seeded();
    invite(&mut db, "user_a", "passfora", "User A");
    db.login_with("user_a", "passfora", T0, sid(9), [0xaa; 32], [0xbb; 32]).unwrap();
    assert_eq!(get_refresh_token(&db, &sid(9)).unwrap().unwrap().refresh_counter, 1);
    db.refresh_session_with(&sid(9), &[0xaa; 32], at(10), [1; 32], [2; 32]).unwrap();
    let record = get_refresh_token(&db, &sid(9)).unwrap().unwrap();
    assert_eq!(record.refresh_counter, 2);
    assert_eq!(record.refresh_token, vec![1; 32]);
    assert_eq!(record.refresh_token_expires_at, at(10 + 1_209_600));
    let record = get_access_token(&db, &sid(9)).unwrap().unwrap();
    assert_eq!(record.user_id, 2);
    assert_eq!(record.access_token, vec![2; 32]);
    assert_eq!(record.access_token_expires_at, at(10 + 7_200));
    assert_eq!(
        db.resolve_session_at(&sid(9), &[0xbb; 32], at(11)),
        Err(SessionError::TokenNotFound)
    );
    let err = db
        .refresh_session_with(&sid(9), &[0xaa; 32], at(11), [3; 32], [4; 32])
        .unwrap_err();
    assert!(matches!(err, RequestError::BadCredentials));
    assert_eq!(db.resolve_session_at(&sid(9), &[2; 32], at(11)), Ok(2));
}

#[test]
fn concurrent_refresh_has_one_winner() {
    let mut db = seeded();
    invite(&mut db, "user_a", "passfora", "User A");
    db.login_with("user_a", "passfora", T0, sid(9), [0xaa; 32], [0xbb; 32]).unwrap();
    // both read the session before either rotates it
    let first = db.begin_refresh(&sid(9), &[0xaa; 32], at(5)).unwrap();
    let second = db.begin_refresh(&sid(9), &[0xaa; 32], at(6)).unwrap();
    assert_eq!(first, 1);
    assert_eq!(second, 1);
    let won = db.complete_refresh(&sid(9), first, at(5), [1; 32], [2; 32]).unwrap();
    let lost = db.complete_refresh(&sid(9), second, at(6), [3; 32], [4; 32]).unwrap_err();
    assert!(matches!(lost, RequestError::Interrupted));
    let (_, access) = parse_bearer(&won.access_token).unwrap();
    assert_eq!(access, vec![2; 32]);
    assert_eq!(db.resolve_session_at(&sid(9), &[2; 32], at(7)), Ok(2));
    assert_eq!(
        db.resolve_session_at(&sid(9), &[0xbb; 32], at(7)),
        Err(SessionError::TokenNotFound)
    );
    assert_eq!(
        db.resolve_session_at(&sid(9), &[4; 32], at(7)),
        Err(SessionError::TokenNotFound)
    );
    assert_eq!(get_refresh_token(&db, &sid(9)).unwrap().unwrap().refresh_counter, 2);
}

#[test]
fn rotation_of_a_session_that_is_gone_is_interrupted() {
    let mut db = seeded();
    let err = db.complete_refresh(&sid(9), 1, T0, [1; 32], [2; 32]).unwrap_err();
    assert!(matches!(err, RequestError::Interrupted));
}

#[test]
fn login_keeps_at_most_a_hundred_sessions() {
    let mut db = seeded();
    invite(&mut db, "user_a", "passfora", "User A");
    invite(&mut db, "user_b", "passforb", "User B");
    db.login_with("user_b", "passforb", T0, sid(255), [9; 32], [9; 32]).unwrap();
    for i in 0..101u8 {
        db.login_with("user_a", "passfora", at(i as i64), sid(i), [i; 32], [i; 32]).unwrap();
        let expected = if i < 100 { i as usize + 1 } else { 100 };
        assert_eq!(count_sessions(&db, 2), expected);
    }
    assert_eq!(count_sessions(&db, 3), 1);
    assert_eq!(
        db.resolve_session_at(&sid(0), &[0; 32], at(200)),
        Err(SessionError::TokenNotFound)
    );
    for i in 1..101u8 {
        assert_eq!(db.resolve_session_at(&sid(i), &[i; 32], at(200)), Ok(2));
    }
    assert_eq!(db.resolve_session_at(&sid(255), &[9; 32], at(200)), Ok(3));
}

#[test]
fn among_sessions_that_expire_together_the_first_inserted_leaves() {
    let mut db = seeded();
    invite(&mut db, "user_a", "passfora", "User A");
    for i in 0..101u8 {
        db.login_with("user_a", "passfora", T0, sid(i), [i; 32], [i; 32]).unwrap();
    }
    assert_eq!(count_sessions(&db, 2), 100);
    assert!(get_access_token(&db, &sid(0)).unwrap().is_none());
    assert!(get_access_token(&db, &sid(1)).unwrap().is_some());
    assert!(get_access_token(&db, &sid(100)).unwrap().is_some());
}

#[test]
fn trim_evicts_the_sessions_that_expire_first() {
    let mut db = seeded();
    create_session(&mut db, sid(1), session_request(1, at(30)), T0).unwrap();
    create_session(&mut db, sid(2), session_request(1, at(10)), T0).unwrap();
    create_session(&mut db, sid(3), session_request(1, at(20)), T0).unwrap();
    create_session(&mut db, sid(4), session_request(1, at(10)), T0).unwrap();
    assert_eq!(count_sessions(&db, 1), 4);
    trim_sessions_for_user(&mut db, 1, 5).unwrap();
    assert_eq!(count_sessions(&db, 1), 4);
    trim_sessions_for_user(&mut db, 1, 3).unwrap();
    assert!(get_access_token(&db, &sid(2)).unwrap().is_none());
    assert!(get_access_token(&db, &sid(4)).unwrap().is_some());
    trim_sessions_for_user(&mut db, 1, 1).unwrap();
    assert!(get_access_token(&db, &sid(1)).unwrap().is_some());
    assert!(get_access_token(&db, &sid(3)).unwrap().is_none());
    assert!(get_access_token(&db, &sid(4)).unwrap().is_none());
    assert_eq!(trim_sessions_for_user(&mut db, 1, -1), Err(InternalError::Other));
    assert_eq!(count_sessions(&db, 1), 1);
    trim_sessions_for_user(&mut db, 1, 0).unwrap();
    assert_eq!(count_sessions(&db, 1), 0);
}

#[test]
fn session_rows_keep_their_constraints() {
    let mut db = seeded();
    assert_eq!(create_session(&mut db, sid(1), session_request(1, at(30)), T0), Ok(sid(1)));
    assert_eq!(
        create_session(&mut db, sid(1), session_request(1, at(30)), T0),
        Err(InternalError::Conflict)
    );
    assert_eq!(
        create_session(&mut db, sid(2), session_request(77, at(30)), T0),
        Err(InternalError::ForeignKey)
    );
    assert_eq!(
        update_session_tokens(&mut db, &sid(1), &[5], &at(1), &[6], &at(2), 1),
        Ok(true)
    );
    assert_eq!(
        update_session_tokens(&mut db, &sid(1), &[7], &at(1), &[8], &at(2), 1),
        Ok(false)
    );
    assert_eq!(
        update_session_tokens(&mut db, &sid(3), &[7], &at(1), &[8], &at(2), 1),
        Ok(false)
    );
    let record = get_access_token(&db, &sid(1)).unwrap().unwrap();
    assert_eq!(record.access_token, vec![6]);
    assert_eq!(record.access_token_expires_at, at(2));
    remove_session(&mut db, &sid(1));
    assert!(get_access_token(&db, &sid(1)).unwrap().is_none());
    assert!(get_refresh_token(&db, &sid(1)).unwrap().is_none());
    remove_session(&mut db, &sid(1));
    assert_eq!(count_sessions(&db, 1), 0);
}

#[test]
fn login_with_a_taken_identifier_changes_nothing() {
    let mut db = seeded();
    invite(&mut db, "user_a", "passfora", "User A");
    db.login_with("user_a", "passfora", T0, sid(9), [1; 32], [2; 32]).unwrap();
    let err = db.login_with("user_a", "passfora", T0, sid(9), [3; 32], [4; 32]).unwrap_err();
    assert!(matches!(err, RequestError::Internal(InternalError::Conflict)));
    assert_eq!(count_sessions(&db, 2), 1);
    assert_eq!(db.resolve_session_at(&sid(9), &[2; 32], T0), Ok(2));
}

#[test]
fn login_with_a_clock_past_the_last_year_fails() {
    let mut db = seeded();
    invite(&mut db, "user_a", "passfora", "User A");
    let late = Timestamp { secs: 253_402_300_799, nanos: 0 };
    let err = db.login_with("user_a", "passfora", late, sid(9), [1; 32], [2; 32]).unwrap_err();
    assert!(matches!(err, RequestError::Internal(InternalError::ClockOutOfRange)));
    assert_eq!(count_sessions(&db, 2), 0);
    let err = db.login_with("user_a", "wrong_password", late, sid(9), [1; 32], [2; 32]).unwrap_err();
    assert!(matches!(err, RequestError::BadCredentials));
}

#[test]
fn invitation_is_refused_for_each_reason() {
    let mut db = seeded();
    let request = |alias: &str, name: &str, password: &str| InviteUserRequest {
        alias: alias.to_string(),
        display_name: name.to_string(),
        initial_password: password.to_string(),
        role: UserRole::Regular,
    };
    let user = db.invite_user_with(1, request("user_a", "User A", "passfora"), [0; 16], T0).unwrap();
    assert_eq!(user, 2);
    // an unknown caller
    let err = db.invite_user_with(9, request("user_b", "User B", "passforb"), [0; 16], T0).unwrap_err();
    assert!(matches!(err, RequestError::Validation(ValidationError::NotFound)));
    // a caller who is no administrator
    let err = db.invite_user_with(2, request("user_b", "User B", "passforb"), [0; 16], T0).unwrap_err();
    assert!(matches!(
        err,
        RequestError::Validation(ValidationError::InsufficientPermissions {
            required: UserRole::Admin,
            current: UserRole::Regular
        })
    ));
    // the role is checked before the texts
    let err = db.invite_user_with(2, request("", "", ""), [0; 16], T0).unwrap_err();
    assert!(matches!(
        err,
        RequestError::Validation(ValidationError::InsufficientPermissions { .. })
    ));
    // the alias before the display name before the password
    let err = db.invite_user_with(1, request("user b", " User B", "short"), [0; 16], T0).unwrap_err();
    assert!(matches!(
        err,
        RequestError::Validation(ValidationError::InvalidInput { value, .. }) if value == "user b"
    ));
    let err = db.invite_user_with(1, request("user_b", " User B", "short"), [0; 16], T0).unwrap_err();
    assert!(matches!(
        err,
        RequestError::Validation(ValidationError::InvalidInput { value, .. }) if value == " User B"
    ));
    let err = db.invite_user_with(1, request("user_b", "User B", "short"), [0; 16], T0).unwrap_err();
    assert!(matches!(
        err,
        RequestError::Validation(ValidationError::InvalidInput { value, .. }) if value == "<password>"
    ));
    // an alias that is taken
    let err = db.invite_user_with(1, request("user_a", "Other A", "passfora"), [0; 16], T0).unwrap_err();
    assert!(matches!(err, RequestError::Validation(ValidationError::AlreadyExists)));
    let err = db.invite_user_with(1, request("origin", "Other", "passfora"), [0; 16], T0).unwrap_err();
    assert!(matches!(err, RequestError::Validation(ValidationError::AlreadyExists)));
    // nothing of the refused invitations was written
    let user = db.invite_user_with(1, request("user_b", "User B", "passforb"), [0; 16], T0).unwrap();
    assert_eq!(user, 3);
    let chats = db.list_chats(&ListChatsRequest { user_id: 3, page_size: 10, page_num: 1 }).unwrap();
    assert_eq!(chats.chats.len(), 1);
    assert_eq!(chats.chats[0].id, 2);
    assert_eq!(chats.chats[0].kind, ChatKind::WithSelf);
}

#[test]
fn invited_user_is_stored_with_the_hash_of_password_then_salt() {
    let mut db = seeded();
    let salt = [5u8; 16];
    db.invite_user_with(
        1,
        InviteUserRequest {
            alias: "user_a".to_string(),
            display_name: "User A".to_string(),
            initial_password: "passfora".to_string(),
            role: UserRole::Admin,
        },
        salt,
        T0,
    )
    .unwrap();
    let credentials = get_user_credentials_by_alias(&db, "user_a").unwrap().unwrap();
    assert_eq!(credentials.user_id, 2);
    assert_eq!(credentials.password_salt, salt);
    assert_eq!(credentials.password_hash, hash_password_sha256("passfora", salt));
    assert!(get_user_credentials_by_alias(&db, "user_b").unwrap().is_none());
    assert_eq!(get_user_role(&db, 2).unwrap().role, UserRole::Admin);
    assert_eq!(get_user_role(&db, 1).unwrap().role, UserRole::Admin);
    assert_eq!(get_user_role(&db, 3), Err(InternalError::RowNotFound));
    assert_eq!(get_user_id_by_alias(&db, "user_a").unwrap().user_id, 2);
    assert_eq!(get_user_id_by_alias(&db, "User_a"), Err(InternalError::RowNotFound));
    // the second administrator can invite
    let third = db
        .invite_user_with(
            2,
            InviteUserRequest {
                alias: "user_c".to_string(),
                display_name: "User C".to_string(),
                initial_password: "passforc".to_string(),
                role: UserRole::Regular,
            },
            salt,
            T0,
        )
        .unwrap();
    assert_eq!(third, 3);
}

#[test]
fn origin_user_is_an_administrator_whom_nobody_invited() {
    let user = origin_user_with([1u8; 16]);
    assert_eq!(user.alias, "origin");
    assert_eq!(user.display_name, "Origin User");
    assert_eq!(user.role, UserRole::Admin);
    assert_eq!(user.invited_by, None);
    assert_eq!(user.password_salt, [1u8; 16]);
    assert_eq!(user.password_hash, hash_password_sha256("changepassword", [1u8; 16]));
    let user = default_origin_user();
    assert_eq!(user.alias, "origin");
    assert_eq!(user.password_hash, hash_password_sha256("changepassword", user.password_salt));
    let mut db = DbConnection::new();
    assert_eq!(create_origin_user(&mut db), Ok(()));
    assert_eq!(create_origin_user(&mut db), Err(InternalError::Conflict));
    assert_eq!(db.init_schema(), Err(InternalError::Conflict));
    assert_eq!(get_user_id_by_alias(&db, "origin").unwrap().user_id, 1);
    db.drop_schema().unwrap();
    assert_eq!(get_user_id_by_alias(&db, "origin"), Err(InternalError::RowNotFound));
    db.init_schema().unwrap();
    assert_eq!(get_user_id_by_alias(&db, "origin").unwrap().user_id, 1);
}

#[test]
fn rows_of_users_chats_and_messages_keep_their_constraints() {
    let mut db = seeded();
    let user = |alias: &str, invited_by: Option<UserId>| CreateUser {
        alias: alias.to_string(),
        display_name: "Name".to_string(),
        role: UserRole::Regular,
        password_salt: [0; 16],
        password_hash: [0; 32],
        invited_by,
    };
    assert_eq!(create_user(&mut db, &user("user_a", Some(1))), Ok(2));
    assert_eq!(create_user(&mut db, &user("user_a", Some(1))), Err(InternalError::Conflict));
    assert_eq!(create_user(&mut db, &user("user_b", Some(9))), Err(InternalError::ForeignKey));
    assert_eq!(create_user(&mut db, &user("user_b", None)), Ok(3));
    let chat = CreateChatRequest {
        display_name: Some("Chat".to_string()),
        description: None,
        kind: ChatKind::Group,
    };
    assert_eq!(create_chat(&mut db, &chat, T0), Ok(1));
    assert_eq!(create_chat(&mut db, &chat, T0), Ok(2));
    let member = |user_id, chat_id| AddMemberToChatRequest { user_id, chat_id, role: ChatRole::Member };
    assert_eq!(add_member_to_chat(&mut db, &member(2, 1)), Ok(()));
    assert_eq!(add_member_to_chat(&mut db, &member(2, 1)), Err(InternalError::Conflict));
    assert_eq!(add_member_to_chat(&mut db, &member(9, 1)), Err(InternalError::ForeignKey));
    assert_eq!(add_member_to_chat(&mut db, &member(2, 9)), Err(InternalError::ForeignKey));
    assert_eq!(add_member_to_chat(&mut db, &member(2, 2)), Ok(()));
    assert!(is_user_in_chat(&db, &IsUserInChatRequest { user_id: 2, chat_id: 1 }).is_in_chat);
    assert!(!is_user_in_chat(&db, &IsUserInChatRequest { user_id: 3, chat_id: 1 }).is_in_chat);
    // a shared group chat is no private chat
    assert_eq!(add_member_to_chat(&mut db, &member(3, 1)), Ok(()));
    assert!(!private_chat_exists(&db, &PrivateChatExistsRequest { user_id_a: 2, user_id_b: 3 }).chat_exists);
    let message = |user_id, chat_id, reply_to, resource_id| CreateMessageRequest {
        user_id,
        chat_id,
        text: Some("text".to_string()),
        resource_id,
        reply_to,
    };
    assert_eq!(create_message(&mut db, &message(2, 1, None, None), T0), Ok(1));
    assert_eq!(create_message(&mut db, &message(2, 1, Some(1), None), T0), Ok(2));
    assert_eq!(
        create_message(&mut db, &message(2, 1, Some(7), None), T0),
        Err(InternalError::ForeignKey)
    );
    assert_eq!(
        create_message(&mut db, &message(2, 1, None, Some(1)), T0),
        Err(InternalError::ForeignKey)
    );
    assert_eq!(
        create_message(&mut db, &message(9, 1, None, None), T0),
        Err(InternalError::ForeignKey)
    );
    assert_eq!(
        create_message(&mut db, &message(2, 9, None, None), T0),
        Err(InternalError::ForeignKey)
    );
    assert_eq!(create_message(&mut db, &message(3, 1, None, None), T0), Ok(3));
}

#[test]
fn private_chat_is_symmetric_and_needs_two_users() {
    let mut db = seeded();
    let a = invite(&mut db, "user_a", "passfora", "User A");
    let b = invite(&mut db, "user_b", "passforb", "User B");
    assert!(!private_chat_exists(&db, &PrivateChatExistsRequest { user_id_a: a, user_id_b: b }).chat_exists);
    let chat = db.create_private_chat_at(a, "user_b", T0).unwrap();
    assert!(private_chat_exists(&db, &PrivateChatExistsRequest { user_id_a: a, user_id_b: b }).chat_exists);
    assert!(private_chat_exists(&db, &PrivateChatExistsRequest { user_id_a: b, user_id_b: a }).chat_exists);
    assert!(!private_chat_exists(&db, &PrivateChatExistsRequest { user_id_a: a, user_id_b: a }).chat_exists);
    assert!(!private_chat_exists(&db, &PrivateChatExistsRequest { user_id_a: a, user_id_b: 1 }).chat_exists);
    assert!(is_user_in_chat(&db, &IsUserInChatRequest { user_id: a, chat_id: chat }).is_in_chat);
    assert!(is_user_in_chat(&db, &IsUserInChatRequest { user_id: b, chat_id: chat }).is_in_chat);
    let err = db.create_private_chat_at(b, "user_a", T0).unwrap_err();
    assert!(matches!(err, RequestError::Validation(ValidationError::AlreadyExists)));
    // a chat with oneself cannot hold the same member twice
    let err = db.create_private_chat_at(a, "user_a", T0).unwrap_err();
    assert!(matches!(err, RequestError::Internal(InternalError::Conflict)));
    // a caller who is no user
    let err = db.create_private_chat_at(99, "user_a", T0).unwrap_err();
    assert!(matches!(err, RequestError::Internal(InternalError::ForeignKey)));
    let chats = db.list_chats(&ListChatsRequest { user_id: a, page_size: 10, page_num: 1 }).unwrap();
    assert_eq!(chats.chats.len(), 2);
    assert_eq!(chats.chats[1].id, chat);
    assert_eq!(chats.chats[1].kind, ChatKind::Private);
}

#[test]
fn messages_are_listed_by_page_with_their_authors() {
    let mut db = seeded();
    let a = invite(&mut db, "user_a", "passfora", "User A");
    let b = invite(&mut db, "user_b", "passforb", "User B");
    let chat = db.create_private_chat_at(a, "user_b", T0).unwrap();
    let self_chat = 1;
    for i in 0..5 {
        let author = if i % 2 == 0 { a } else { b };
        let id = db.send_message_at(author, chat, &format!("message {i}"), at(i)).unwrap();
        db.send_message_at(a, self_chat, "note", at(i)).unwrap();
        assert_eq!(id, 2 * i + 1);
    }
    let page = |db: &DbConnection, page_size, page_num| {
        db.list_messages(&ListMessagesRequest { user_id: b, chat_id: chat, page_size, page_num })
    };
    let first = page(&db, 2, 1).unwrap().messages;
    assert_eq!(first.len(), 2);
    assert_eq!(first[0].id, 1);
    assert_eq!(first[0].text.as_deref(), Some("message 0"));
    assert_eq!(first[0].user_id, Some(a));
    assert_eq!(first[0].user_display_name.as_deref(), Some("User A"));
    assert_eq!(first[0].created_at, at(0));
    assert_eq!(first[0].edited_at, None);
    assert_eq!(first[1].id, 3);
    assert_eq!(first[1].user_display_name.as_deref(), Some("User B"));
    let third = page(&db, 2, 3).unwrap().messages;
    assert_eq!(third.len(), 1);
    assert_eq!(third[0].text.as_deref(), Some("message 4"));
    assert_eq!(page(&db, 2, 4).unwrap().messages.len(), 0);
    assert_eq!(page(&db, 0, 1).unwrap().messages.len(), 0);
    assert_eq!(page(&db, 100, 1).unwrap().messages.len(), 5);
    assert_eq!(page(&db, i32::MAX, 1).unwrap().messages.len(), 5);
    assert!(matches!(page(&db, -1, 1).unwrap_err(), RequestError::Internal(InternalError::Other)));
    assert!(matches!(page(&db, 2, 0).unwrap_err(), RequestError::Internal(InternalError::Other)));
    assert!(matches!(page(&db, 2, i32::MIN).unwrap_err(), RequestError::Internal(InternalError::Other)));
    assert!(matches!(page(&db, i32::MAX, 3).unwrap_err(), RequestError::Internal(InternalError::Other)));
    assert_eq!(page(&db, 0, 0).unwrap().messages.len(), 0);
    // who is no member learns nothing, whatever the page
    let err = db
        .list_messages(&ListMessagesRequest { user_id: 1, chat_id: chat, page_size: -1, page_num: 1 })
        .unwrap_err();
    assert!(matches!(err, RequestError::Validation(ValidationError::NotFound)));
    let chats = db.list_chats(&ListChatsRequest { user_id: a, page_size: 1, page_num: 2 }).unwrap();
    assert_eq!(chats.chats.len(), 1);
    assert_eq!(chats.chats[0].id, chat);
    assert_eq!(
        db.list_chats(&ListChatsRequest { user_id: a, page_size: -1, page_num: 2 }).unwrap_err(),
        InternalError::Other
    );
}

#[test]
fn message_text_is_checked_before_membership() {
    let mut db = seeded();
    let a = invite(&mut db, "user_a", "passfora", "User A");
    let err = db.send_message_at(a, 1, "   ", T0).unwrap_err();
    assert!(matches!(
        err,
        RequestError::Validation(ValidationError::InvalidInput { reason, .. })
            if reason == "message text cannot be empty"
    ));
    let err = db.send_message_at(1, 1, "   ", T0).unwrap_err();
    assert!(matches!(err, RequestError::Validation(ValidationError::InvalidInput { .. })));
    let err = db.send_message_at(1, 1, "hello", T0).unwrap_err();
    assert!(matches!(err, RequestError::Validation(ValidationError::NotFound)));
    let err = db.send_message_at(a, 1, &"m".repeat(4097), T0).unwrap_err();
    assert!(matches!(
        err,
        RequestError::Validation(ValidationError::InvalidInput { reason, .. })
            if reason == "message text cannot be longer than 4096 bytes"
    ));
    assert_eq!(db.send_message_at(a, 1, "hello", T0).unwrap(), 1);
    let listed = db
        .list_messages(&ListMessagesRequest { user_id: a, chat_id: 1, page_size: 10, page_num: 1 })
        .unwrap();
    assert_eq!(listed.messages.len(), 1);
}

#[test]
fn bearer_of_a_login_resolves_to_the_user() {
    let mut db = seeded();
    invite(&mut db, "user_a", "passfora", "User A");
    let payload = db
        .login_with("user_a", "passfora", T0, sid(9), [0xaa; 32], [0xbb; 32])
        .unwrap();
    assert_eq!(db.resolve_bearer_at(&payload.access_token, at(1)), Ok(Claims { user_id: 2 }));
    assert_eq!(
        db.resolve_bearer_at(&payload.access_token, at(7_200)),
        Err(SessionError::TokenExpired)
    );
    // the refresh token is no access token
    assert_eq!(
        db.resolve_bearer_at(&payload.refresh_token, at(1)),
        Err(SessionError::TokenNotFound)
    );
    assert_eq!(db.resolve_bearer_at("no bearer", at(1)), Err(SessionError::BadToken));
    assert_eq!(db.resolve_bearer_at("AAAA", at(1)), Err(SessionError::BadToken));
    db.logout(&sid(9)).unwrap();
    assert_eq!(
        db.resolve_bearer_at(&payload.access_token, at(1)),
        Err(SessionError::TokenNotFound)
    );
}
