use base64::prelude::BASE64_STANDARD as BASE64;
use base64::Engine;

use walrus_server::auth::token::TokenExchangePayload;
use walrus_server::auth::utils::unpack_session_id_and_token;
use walrus_server::database::commands::MAX_SESSIONS_PER_USER;
use walrus_server::database::connection::DbConnection;
use walrus_server::error::{RequestError, SessionError, ValidationError};
use walrus_server::models::chat::{ChatKind, ListChatsRequest};
use walrus_server::models::message::ListMessagesRequest;
use walrus_server::models::user::{InviteUserRequest, UserId, UserRole};

fn init_and_get_db() -> DbConnection {
    let mut db = DbConnection::new();
    db.drop_schema().unwrap();
    db.init_schema().unwrap();
    db
}

fn invite_regular(db: &mut DbConnection, alias: &str, pass: &str, name: &str) -> UserId {
    let origin_user_id = 1;
    db.invite_user(
        origin_user_id,
        InviteUserRequest {
            initial_password: pass.to_string(),
            alias: alias.to_string(),
            display_name: name.to_string(),
            role: UserRole::Regular,
        },
    )
    .unwrap()
}

fn resolve_session(db: &DbConnection, tokens: &TokenExchangePayload) -> Result<UserId, SessionError> {
    let packed_bytes = BASE64.decode(&tokens.access_token).unwrap();
    let (session_id, token) = unpack_session_id_and_token(&packed_bytes).unwrap();
    db.resolve_session(&session_id, token)
}

#[test]
fn create_chat_with_self() {
    let mut db = init_and_get_db();

    let msg_a_1 = "Hi chat with self, here I will be sending messages for myself!";
    let msg_a_2 = "It seems lonely here :((";

    let user_a = invite_regular(&mut db, "user_a", "passfora", "User A");

    let chats = db
        .list_chats(&ListChatsRequest {
            user_id: user_a,
            page_size: 100,
            page_num: 1,
        })
        .unwrap()
        .chats;
    assert_eq!(chats.len(), 1);
    assert_eq!(chats[0].id, 1);
    assert_eq!(chats[0].display_name, None);
    assert_eq!(chats[0].kind, ChatKind::WithSelf);

    let self_chat_a_id = chats[0].id;
    db.send_message(user_a, self_chat_a_id, msg_a_1).unwrap();
    db.send_message(user_a, self_chat_a_id, msg_a_2).unwrap();

    let messages = db
        .list_messages(&ListMessagesRequest {
            user_id: user_a,
            chat_id: self_chat_a_id,
            page_num: 1,
            page_size: 100,
        })
        .unwrap()
        .messages;
    assert_eq!(messages.len(), 2);
    assert_eq!(messages[0].text.as_deref(), Some(msg_a_1));
    assert_eq!(messages[1].text.as_deref(), Some(msg_a_2));

    // try to read A's chat from B
    let user_b = invite_regular(&mut db, "user_b", "passforb", "User B");
    db.list_messages(&ListMessagesRequest {
        user_id: user_b,
        chat_id: self_chat_a_id,
        page_num: 1,
        page_size: 100,
    })
    .unwrap_err();
}

#[test]
fn create_private_chat() {
    let mut db = init_and_get_db();

    let msg_a_1 = "Oh hi there baguette, just wanted to check if you still have those bakery?";
    let msg_b_2 = "Hi Ben!";
    let msg_b_3 = "Let me check... Seems I have eaten all of it :(";
    let msg_a_4 = "That's sad, I'm sad";
    let msg_a_5 = "Please let me know when you'll have more";
    let msg_b_6 = "Sure thing!";
    let msg_c_7 = "Hi all?";

    let (alias_a, alias_b, alias_c) = ("its_benjamin", "fuance", "thirdparty");
    let user_a = invite_regular(&mut db, alias_a, "kobrabor", "Benjamin Dover");
    let user_b = invite_regular(&mut db, alias_b, "bobrabor", "Le Baguette");
    let user_c = invite_regular(&mut db, alias_c, "borborbor", "Other User");

    let chat_id = db.create_private_chat(user_a, alias_b).unwrap();
    db.send_message(user_a, chat_id, msg_a_1).unwrap();
    db.send_message(user_b, chat_id, msg_b_2).unwrap();
    db.send_message(user_b, chat_id, msg_b_3).unwrap();
    db.send_message(user_a, chat_id, msg_a_4).unwrap();
    db.send_message(user_a, chat_id, msg_a_5).unwrap();
    db.send_message(user_b, chat_id, msg_b_6).unwrap();
    let reading_a = db
        .list_messages(&ListMessagesRequest {
            user_id: user_a,
            chat_id,
            page_num: 1,
            page_size: 100,
        })
        .unwrap();
    assert_eq!(reading_a.messages.len(), 6);
    let reading_b = db
        .list_messages(&ListMessagesRequest {
            user_id: user_b,
            chat_id,
            page_num: 1,
            page_size: 100,
        })
        .unwrap();
    assert_eq!(reading_b.messages.len(), 6);
    assert_eq!(reading_a.messages[0].text.as_deref(), Some(msg_a_1));
    assert_eq!(reading_a.messages[1].text.as_deref(), Some(msg_b_2));
    assert_eq!(reading_a.messages[2].text.as_deref(), Some(msg_b_3));
    assert_eq!(reading_a.messages[3].text.as_deref(), Some(msg_a_4));
    assert_eq!(reading_a.messages[4].text.as_deref(), Some(msg_a_5));
    assert_eq!(reading_a.messages[5].text.as_deref(), Some(msg_b_6));

    // try to send and read messages from uninvited user
    db.send_message(user_c, chat_id, msg_c_7).unwrap_err();
    db.list_messages(&ListMessagesRequest {
        user_id: user_c,
        chat_id,
        page_num: 1,
        page_size: 100,
    })
    .unwrap_err();
    // check that number of messages in fact hasn't changed
    let reading_b = db
        .list_messages(&ListMessagesRequest {
            user_id: user_b,
            chat_id,
            page_num: 1,
            page_size: 100,
        })
        .unwrap();
    assert_eq!(reading_b.messages.len(), 6);

    // try to create same chat but in reverse
    let _chat_id = db.create_private_chat(user_b, alias_a).unwrap_err();
    let user_a_chats = db
        .list_chats(&ListChatsRequest {
            user_id: user_a,
            page_num: 1,
            page_size: 100,
        })
        .unwrap();
    assert_eq!(
        user_a_chats
            .chats
            .iter()
            .filter(|c| c.kind == ChatKind::Private)
            .count(),
        1
    );
    let user_b_chats = db
        .list_chats(&ListChatsRequest {
            user_id: user_b,
            page_num: 1,
            page_size: 100,
        })
        .unwrap();
    assert_eq!(
        user_b_chats
            .chats
            .iter()
            .filter(|c| c.kind == ChatKind::Private)
            .count(),
        1
    );
}

#[test]
fn login_and_resolve_session() {
    let mut db = init_and_get_db();

    let (alias_a, pass_a, name_a) = ("existing_user_a", "existing_password_a", "User A");
    let (alias_b, pass_b, name_b) = ("existing_user_b", "existing_password_b", "User B");
    let user_id_a = invite_regular(&mut db, alias_a, pass_a, name_a);
    let user_id_b = invite_regular(&mut db, alias_b, pass_b, name_b);

    // invalid variants
    let result = db.login("non_existent", "wrong_password").unwrap_err();
    assert!(matches!(result, RequestError::BadCredentials));
    let result = db.login("non_existent", pass_a).unwrap_err();
    assert!(matches!(result, RequestError::BadCredentials));
    let result = db.login(alias_a, "wrong_password").unwrap_err();
    assert!(matches!(result, RequestError::BadCredentials));
    let result = db.login(alias_a, pass_b).unwrap_err();
    assert!(matches!(result, RequestError::BadCredentials));
    let result = db.login(alias_b, pass_a).unwrap_err();
    assert!(matches!(result, RequestError::BadCredentials));

    // normal login
    let result_a = db.login(alias_a, pass_a).unwrap();
    let resolved_user_a = resolve_session(&db, &result_a).unwrap();
    assert_eq!(resolved_user_a, user_id_a);

    let result_b = db.login(alias_b, pass_b).unwrap();
    let resolved_user_b = resolve_session(&db, &result_b).unwrap();
    assert_eq!(resolved_user_b, user_id_b);
}

#[test]
fn limit_sessions_count() {
    let mut db = init_and_get_db();

    let (alias, pass, name) = ("existing_user_a", "existing_password_a", "User A");
    let _ = invite_regular(&mut db, alias, pass, name);

    let first_session = db.login(alias, pass).unwrap();
    let _ok = resolve_session(&db, &first_session).unwrap();
    let second_session = db.login(alias, pass).unwrap();
    let _ok = resolve_session(&db, &second_session).unwrap();

    for _i in 0..MAX_SESSIONS_PER_USER - 2 {
        let session = db.login(alias, pass).unwrap();
        let _ok = resolve_session(&db, &session).unwrap();
    }

    // creating session number MAX + 1, this should invalidate one (first) session
    let latest_session = db.login(alias, pass).unwrap();
    let _ok = resolve_session(&db, &latest_session).unwrap();
    let _ok = resolve_session(&db, &second_session).unwrap();
    let _ok = resolve_session(&db, &first_session).unwrap_err();
}

#[test]
fn logout() {
    let mut db = init_and_get_db();

    let (alias, pass, name) = ("existing_user_a", "existing_pass_a", "User A");
    let _ = invite_regular(&mut db, alias, pass, name);

    let session = db.login(alias, pass).unwrap();
    let _ok = resolve_session(&db, &session).unwrap();

    let packed_bytes = BASE64.decode(&session.access_token).unwrap();
    let (session_id, _token) = unpack_session_id_and_token(&packed_bytes).unwrap();
    db.logout(&session_id).unwrap();

    let err = resolve_session(&db, &session).unwrap_err();
    assert!(matches!(err, SessionError::TokenNotFound));
}

#[test]
fn refresh_token() {
    let mut db = init_and_get_db();

    let (alias, pass, name) = ("existing_user_a", "existing_pass_a", "User A");
    let _ = invite_regular(&mut db, alias, pass, name);

    let first_session = db.login(alias, pass).unwrap();
    let _ok = resolve_session(&db, &first_session).unwrap();

    let packed_bytes = BASE64.decode(&first_session.refresh_token).unwrap();
    let (session_id, token) = unpack_session_id_and_token(&packed_bytes).unwrap();
    let second_session = db.refresh_session(&session_id, token).unwrap();
    assert_ne!(second_session.refresh_token, first_session.refresh_token);
    assert_ne!(second_session.access_token, first_session.access_token);

    let _ok = resolve_session(&db, &second_session).unwrap();
    resolve_session(&db, &first_session).unwrap_err();
}

#[test]
fn intruder_in_self_chat_gets_not_found() {
    let mut db = init_and_get_db();
    let user_a = invite_regular(&mut db, "user_a", "passfora", "User A");
    assert_eq!(user_a, 2);
    let user_b = invite_regular(&mut db, "user_b", "passforb", "User B");
    assert_eq!(user_b, 3);
    let chat_id = 1;
    db.send_message(user_a, chat_id, "hello").unwrap();
    let err = db.send_message(user_b, chat_id, "intrude").unwrap_err();
    assert!(matches!(err, RequestError::Validation(ValidationError::NotFound)));
    let err = db.send_message(user_b, 999, "intrude").unwrap_err();
    assert!(matches!(err, RequestError::Validation(ValidationError::NotFound)));
}

#[test]
fn second_private_chat_already_exists() {
    let mut db = init_and_get_db();
    let user_a = invite_regular(&mut db, "user_a", "passfora", "User A");
    let user_b = invite_regular(&mut db, "user_b", "passforb", "User B");
    let chat_id = db.create_private_chat(user_a, "user_b").unwrap();
    assert_eq!(chat_id, 3);
    let err = db.create_private_chat(user_b, "user_a").unwrap_err();
    assert!(matches!(err, RequestError::Validation(ValidationError::AlreadyExists)));
    let err = db.create_private_chat(user_a, "user_b").unwrap_err();
    assert!(matches!(err, RequestError::Validation(ValidationError::AlreadyExists)));
    let err = db.create_private_chat(user_a, "nobody").unwrap_err();
    assert!(matches!(err, RequestError::Validation(ValidationError::NotFound)));
}

#[test]
fn second_logout_is_no_error() {
    let mut db = init_and_get_db();
    let _ = invite_regular(&mut db, "existing_user_a", "existing_pass_a", "User A");
    let session = db.login("existing_user_a", "existing_pass_a").unwrap();
    let packed_bytes = BASE64.decode(&session.access_token).unwrap();
    let (session_id, _token) = unpack_session_id_and_token(&packed_bytes).unwrap();
    db.logout(&session_id).unwrap();
    db.logout(&session_id).unwrap();
    let err = resolve_session(&db, &session).unwrap_err();
    assert!(matches!(err, SessionError::TokenNotFound));
}

#[test]
fn origin_user_logs_in_with_its_first_password() {
    let mut db = init_and_get_db();
    let tokens = db.login("origin", "changepassword").unwrap();
    assert_eq!(resolve_session(&db, &tokens).unwrap(), 1);
    let err = db.login("origin", "changepasswor").unwrap_err();
    assert!(matches!(err, RequestError::BadCredentials));
}
