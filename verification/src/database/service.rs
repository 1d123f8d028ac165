//! The operations of the service on the tables: each one is a single
//! transaction, so it either takes effect as a whole or changes nothing.

use crate::auth::rules::{
    check_credentials, check_membership, check_private_chat_is_new, check_refresh_token,
    check_rotation, expiries_at, new_expiries, password_matches, request_result,
};
use crate::auth::token::{bearer_parts, token_exchange, TokenExchangePayload, TokenExchangeView};
use crate::auth::utils::{
    current_time, generate_salt, generate_session_id, generate_session_token,
    hash_password_sha256, password_digest,
};
use crate::database::commands::{
    create_message, create_private_chat, create_session, create_user, create_with_self_chat,
    lemma_member_chat_exists, remove_session, trim_sessions_for_user, update_session_tokens,
    MAX_SESSIONS_PER_USER,
};
use crate::database::connection::DbConnection;
use crate::database::queries::{
    get_refresh_token, get_user_credentials_by_alias, get_user_id_by_alias, get_user_role,
    is_user_in_chat, list_chats_for_user, list_messages_for_user, page_error, page_of,
    private_chat_exists,
};
use crate::database::tables::{MessageRecord, SessionRecord, Tables, UserRecord};
use crate::error::{
    InternalError, RequestError, RequestErrorView, ValidationError, ValidationErrorView,
};
use crate::models::chat::{
    ChatId, IsUserInChatRequest, ListChatsRequest, ListChatsResponse,
    PrivateChatExistsRequest,
};
use crate::models::message::{
    message_text_error, validate_message_text, CreateMessageRequest, ListMessagesRequest,
    ListMessagesResponse, MessageId, MessageResponseView,
};
use crate::models::session::{is_uuid_v4, CreateSessionRequest, IpNetwork, SessionId};
use crate::models::user::{
    alias_error, check_user_role, display_name_error, password_error, role_error,
    validate_user_alias, validate_user_display_name, validate_user_password, CreateUser,
    InviteUserRequest, UserId, UserRole,
};
use crate::time::Timestamp;
use vstd::prelude::*;
use vstd::slice::slice_to_vec;

verus! {

/// The address that a session is recorded with: this machine's own.
pub const LOGIN_IP: u32 = 0x7f00_0001;

/// The device that a session is recorded with.
pub const LOGIN_DEVICE_NAME: &'static str = "Google Pixel";

/// The system that a session is recorded with.
pub const LOGIN_OS_VERSION: &'static str = "Android 6.0";

/// The application that a session is recorded with.
pub const LOGIN_APP_VERSION: &'static str = "Walrus Messenger for Android 0.0.1";

/// What an operation that hands out tokens answers.
pub open spec fn exchange_view(result: Result<TokenExchangePayload, RequestError>) -> Result<
    TokenExchangeView,
    RequestErrorView,
> {
    match result {
        Ok(payload) => Ok(payload@),
        Err(e) => Err(e@),
    }
}

/// The session that a login opens.
pub open spec fn login_session(
    user_id: UserId,
    session_id: Seq<u8>,
    refresh_token: Seq<u8>,
    refresh_token_expires_at: Timestamp,
    access_token: Seq<u8>,
    access_token_expires_at: Timestamp,
    now: Timestamp,
) -> SessionRecord {
    SessionRecord {
        id: session_id,
        user_id,
        ip: IpNetwork::host_v4_spec(LOGIN_IP),
        first_seen_at: now,
        last_seen_at: now,
        device_name: Some(LOGIN_DEVICE_NAME@),
        os_version: Some(LOGIN_OS_VERSION@),
        app_version: Some(LOGIN_APP_VERSION@),
        refresh_token,
        refresh_token_expires_at,
        access_token,
        access_token_expires_at,
        refresh_counter: 1,
    }
}

impl Tables {
    /// Who logs in with an alias and a password: the user with that alias,
    /// where the password is theirs.
    pub open spec fn login_user(self, alias: Seq<char>, password: Seq<char>) -> Option<UserId> {
        if self.has_alias(alias) && password_matches(
            password,
            self.user_by_alias(alias).password_salt,
            self.user_by_alias(alias).password_hash,
        ) {
            Some(self.user_by_alias(alias).id)
        } else {
            None
        }
    }

    /// What a login at `now` does and answers, given the identifier and the
    /// tokens that were drawn for it. The session is inserted, then the
    /// user's sessions are cut down to the cap.
    pub open spec fn login_outcome(
        self,
        alias: Seq<char>,
        password: Seq<char>,
        now: Timestamp,
        session_id: Seq<u8>,
        refresh_token: Seq<u8>,
        access_token: Seq<u8>,
    ) -> (Tables, Result<TokenExchangeView, RequestErrorView>) {
        match self.login_user(alias, password) {
            None => (self, Err(RequestErrorView::BadCredentials)),
            Some(user_id) => match expiries_at(now) {
                None => (self, Err(RequestErrorView::Internal(InternalError::ClockOutOfRange))),
                Some((refresh_expires, access_expires)) => if self.has_session(session_id) {
                    (self, Err(RequestErrorView::Internal(InternalError::Conflict)))
                } else {
                    (
                        self.with_session(
                            login_session(
                                user_id,
                                session_id,
                                refresh_token,
                                refresh_expires,
                                access_token,
                                access_expires,
                                now,
                            ),
                        ).with_trimmed_sessions(user_id, MAX_SESSIONS_PER_USER as nat),
                        Ok(
                            token_exchange(
                                session_id,
                                refresh_token,
                                refresh_expires,
                                access_token,
                                access_expires,
                            ),
                        ),
                    )
                },
            },
        }
    }

    /// The counter under which a session may be rotated at `now` by who
    /// presents a refresh token, or why it may not.
    pub open spec fn refresh_check(
        self,
        session_id: Seq<u8>,
        refresh_token: Seq<u8>,
        now: Timestamp,
    ) -> Result<i32, RequestErrorView> {
        if !self.has_session(session_id) {
            Err(RequestErrorView::BadCredentials)
        } else if self.session(session_id).refresh_token != refresh_token {
            Err(RequestErrorView::BadCredentials)
        } else if self.session(session_id).refresh_token_expires_at.at_or_before(now) {
            Err(RequestErrorView::Expired)
        } else {
            Ok(self.session(session_id).refresh_counter)
        }
    }

    /// What a rotation at `now` does and answers, given the counter that
    /// was read before and the tokens that were drawn. A session whose
    /// counter has moved on since is left as it is, and the rotation is
    /// interrupted.
    pub open spec fn rotation_outcome(
        self,
        session_id: Seq<u8>,
        expected_counter: i32,
        now: Timestamp,
        refresh_token: Seq<u8>,
        access_token: Seq<u8>,
    ) -> (Tables, Result<TokenExchangeView, RequestErrorView>) {
        match expiries_at(now) {
            None => (self, Err(RequestErrorView::Internal(InternalError::ClockOutOfRange))),
            Some((refresh_expires, access_expires)) => if !self.can_rotate(
                session_id,
                expected_counter,
            ) {
                (self, Err(RequestErrorView::Interrupted))
            } else if expected_counter == i32::MAX {
                (self, Err(RequestErrorView::Internal(InternalError::Exhausted)))
            } else {
                (
                    self.with_rotated_session(
                        session_id,
                        refresh_token,
                        refresh_expires,
                        access_token,
                        access_expires,
                    ),
                    Ok(
                        token_exchange(
                            session_id,
                            refresh_token,
                            refresh_expires,
                            access_token,
                            access_expires,
                        ),
                    ),
                )
            },
        }
    }

    /// What a refresh at `now` does and answers, given the tokens that
    /// were drawn for it: the check of the refresh token, then the rotation
    /// under the counter that the check read.
    pub open spec fn refresh_outcome(
        self,
        session_id: Seq<u8>,
        presented: Seq<u8>,
        now: Timestamp,
        refresh_token: Seq<u8>,
        access_token: Seq<u8>,
    ) -> (Tables, Result<TokenExchangeView, RequestErrorView>) {
        match self.refresh_check(session_id, presented, now) {
            Err(e) => (self, Err(e)),
            Ok(counter) => self.rotation_outcome(
                session_id,
                counter,
                now,
                refresh_token,
                access_token,
            ),
        }
    }
}

/// The user with an alias is a user.
pub proof fn lemma_alias_user_exists(tables: Tables, alias: Seq<char>)
    requires
        tables.has_alias(alias),
    ensures
        tables.has_user(tables.user_by_alias(alias).id),
{
    let i = choose|i: int|
        0 <= i < tables.users.len() && (#[trigger] tables.users[i]).alias == alias;
    assert(tables.users[i].id == tables.user_by_alias(alias).id);
}

/// The session that a login asks the store to open.
pub fn login_session_request(
    user_id: UserId,
    refresh_token: &[u8],
    refresh_token_expires_at: Timestamp,
    access_token: &[u8],
    access_token_expires_at: Timestamp,
) -> (request: CreateSessionRequest)
    ensures
        request.user_id == user_id,
        forall|session_id: Seq<u8>, now: Timestamp| #[trigger]
            request.record(session_id, now) == login_session(
                user_id,
                session_id,
                refresh_token@,
                refresh_token_expires_at,
                access_token@,
                access_token_expires_at,
                now,
            ),
{
    CreateSessionRequest {
        user_id,
        ip: IpNetwork::host_v4(LOGIN_IP),
        device_name: Some(LOGIN_DEVICE_NAME.to_owned()),
        os_version: Some(LOGIN_OS_VERSION.to_owned()),
        app_version: Some(LOGIN_APP_VERSION.to_owned()),
        refresh_token: slice_to_vec(refresh_token),
        refresh_token_expires_at,
        access_token: slice_to_vec(access_token),
        access_token_expires_at,
    }
}

impl DbConnection {
    /// Logs in at `now` with the identifier and the tokens that were drawn
    /// for the session. On success each token text of the answer, read as
    /// a bearer, gives back the identifier and the token.
    pub fn login_with(
        &mut self,
        alias: &str,
        password: &str,
        now: Timestamp,
        session_id: SessionId,
        refresh_token: [u8; 32],
        access_token: [u8; 32],
    ) -> (result: Result<TokenExchangePayload, RequestError>)
        requires
            old(self).wf(),
        ensures
            final(self).wf(),
            (final(self)@, exchange_view(result)) == old(self)@.login_outcome(
                alias@,
                password@,
                now,
                session_id@,
                refresh_token@,
                access_token@,
            ),
            result matches Ok(payload) ==> bearer_parts(payload.refresh_token@) == Some(
                (session_id@, refresh_token@),
            ) && bearer_parts(payload.access_token@) == Some((session_id@, access_token@)),
    {
        let credentials = match get_user_credentials_by_alias(self, alias) {
            Ok(credentials) => credentials,
            Err(e) => {
                return Err(RequestError::Internal(e));
            },
        };
        let user_id = match check_credentials(credentials, password) {
            Ok(user_id) => user_id,
            Err(e) => {
                return Err(e);
            },
        };
        proof {
            lemma_alias_user_exists(self@, alias@);
        }
        let (refresh_expires, access_expires) = match new_expiries(now) {
            Ok(pair) => pair,
            Err(e) => {
                return Err(e);
            },
        };
        let request = login_session_request(
            user_id,
            refresh_token.as_slice(),
            refresh_expires,
            access_token.as_slice(),
            access_expires,
        );
        match create_session(self, session_id, request, now) {
            Ok(_) => {},
            Err(e) => {
                return Err(RequestError::Internal(e));
            },
        }
        match trim_sessions_for_user(self, user_id, MAX_SESSIONS_PER_USER) {
            Ok(()) => {},
            Err(e) => {
                return Err(RequestError::Internal(e));
            },
        }
        Ok(
            TokenExchangePayload::new(
                &session_id,
                refresh_token.as_slice(),
                refresh_expires,
                access_token.as_slice(),
                access_expires,
            ),
        )
    }

    /// Logs in: checks the password of the user with the alias, opens a
    /// session with fresh random tokens, and cuts the user's sessions down
    /// to the cap. The time, the identifier and the tokens are drawn here,
    /// so the contract holds of some such values.
    pub fn login(&mut self, alias: &str, password: &str) -> (result: Result<
        TokenExchangePayload,
        RequestError,
    >)
        requires
            old(self).wf(),
        ensures
            final(self).wf(),
            exists|
                now: Timestamp,
                session_id: Seq<u8>,
                refresh_token: Seq<u8>,
                access_token: Seq<u8>,
            |
                (final(self)@, exchange_view(result)) == #[trigger] old(self)@.login_outcome(
                    alias@,
                    password@,
                    now,
                    session_id,
                    refresh_token,
                    access_token,
                ) && is_uuid_v4(session_id) && refresh_token.len() == 32 && access_token.len()
                    == 32 && (result matches Ok(payload) ==> bearer_parts(payload.refresh_token@)
                    == Some((session_id, refresh_token)) && bearer_parts(payload.access_token@)
                    == Some((session_id, access_token))),
    {
        let now = current_time();
        let session_id = generate_session_id();
        let refresh_token = generate_session_token();
        let access_token = generate_session_token();
        self.login_with(alias, password, now, session_id, refresh_token, access_token)
    }

    /// Deletes a session. Deleting one that is not there is no error.
    pub fn logout(&mut self, session_id: &SessionId) -> (result: Result<(), RequestError>)
        requires
            old(self).wf(),
        ensures
            final(self).wf(),
            result is Ok,
            final(self)@ == old(self)@.without_session(session_id@),
    {
        remove_session(self, session_id);
        Ok(())
    }

    /// The first half of a refresh: checks the refresh token at `now` and
    /// answers the counter that the rotation has to find.
    pub fn begin_refresh(
        &self,
        session_id: &SessionId,
        refresh_token: &[u8],
        now: Timestamp,
    ) -> (result: Result<i32, RequestError>)
        requires
            self.wf(),
        ensures
            request_result(result) == self@.refresh_check(session_id@, refresh_token@, now),
    {
        let record = match get_refresh_token(self, session_id) {
            Ok(record) => record,
            Err(e) => {
                return Err(RequestError::Internal(e));
            },
        };
        check_refresh_token(&record, refresh_token, &now)
    }

    /// The second half of a refresh: rotates the session to the tokens
    /// that were drawn, on condition that its counter is still the one that
    /// the first half read. Where it is not, another refresh came first:
    /// the session stays as that one left it and this one is interrupted.
    pub fn complete_refresh(
        &mut self,
        session_id: &SessionId,
        expected_counter: i32,
        now: Timestamp,
        refresh_token: [u8; 32],
        access_token: [u8; 32],
    ) -> (result: Result<TokenExchangePayload, RequestError>)
        requires
            old(self).wf(),
        ensures
            final(self).wf(),
            (final(self)@, exchange_view(result)) == old(self)@.rotation_outcome(
                session_id@,
                expected_counter,
                now,
                refresh_token@,
                access_token@,
            ),
            result matches Ok(payload) ==> bearer_parts(payload.refresh_token@) == Some(
                (session_id@, refresh_token@),
            ) && bearer_parts(payload.access_token@) == Some((session_id@, access_token@)),
    {
        let (refresh_expires, access_expires) = match new_expiries(now) {
            Ok(pair) => pair,
            Err(e) => {
                return Err(e);
            },
        };
        let updated = match update_session_tokens(
            self,
            session_id,
            refresh_token.as_slice(),
            &refresh_expires,
            access_token.as_slice(),
            &access_expires,
            expected_counter,
        ) {
            Ok(updated) => updated,
            Err(e) => {
                return Err(RequestError::Internal(e));
            },
        };
        match check_rotation(updated) {
            Ok(()) => {},
            Err(e) => {
                return Err(e);
            },
        }
        Ok(
            TokenExchangePayload::new(
                session_id,
                refresh_token.as_slice(),
                refresh_expires,
                access_token.as_slice(),
                access_expires,
            ),
        )
    }

    /// Refreshes a session at `now` with the tokens that were drawn for it.
    pub fn refresh_session_with(
        &mut self,
        session_id: &SessionId,
        presented: &[u8],
        now: Timestamp,
        refresh_token: [u8; 32],
        access_token: [u8; 32],
    ) -> (result: Result<TokenExchangePayload, RequestError>)
        requires
            old(self).wf(),
        ensures
            final(self).wf(),
            (final(self)@, exchange_view(result)) == old(self)@.refresh_outcome(
                session_id@,
                presented@,
                now,
                refresh_token@,
                access_token@,
            ),
            result matches Ok(payload) ==> bearer_parts(payload.refresh_token@) == Some(
                (session_id@, refresh_token@),
            ) && bearer_parts(payload.access_token@) == Some((session_id@, access_token@)),
    {
        let counter = match self.begin_refresh(session_id, presented, now) {
            Ok(counter) => counter,
            Err(e) => {
                return Err(e);
            },
        };
        self.complete_refresh(session_id, counter, now, refresh_token, access_token)
    }

    /// Refreshes a session: checks the refresh token, then rotates the
    /// session to fresh random tokens. The time and the tokens are drawn
    /// here, so the contract holds of some such values.
    pub fn refresh_session(&mut self, session_id: &SessionId, refresh_token: &[u8]) -> (result:
        Result<TokenExchangePayload, RequestError>)
        requires
            old(self).wf(),
        ensures
            final(self).wf(),
            exists|now: Timestamp, new_refresh_token: Seq<u8>, new_access_token: Seq<u8>|
                (final(self)@, exchange_view(result)) == #[trigger] old(self)@.refresh_outcome(
                    session_id@,
                    refresh_token@,
                    now,
                    new_refresh_token,
                    new_access_token,
                ) && new_refresh_token.len() == 32 && new_access_token.len() == 32 && (
                result matches Ok(payload) ==> bearer_parts(payload.refresh_token@) == Some(
                    (session_id@, new_refresh_token),
                ) && bearer_parts(payload.access_token@) == Some((session_id@, new_access_token))),
    {
        let now = current_time();
        let new_refresh_token = generate_session_token();
        let new_access_token = generate_session_token();
        self.refresh_session_with(
            session_id,
            refresh_token,
            now,
            new_refresh_token,
            new_access_token,
        )
    }
}

/// A failure of a lookup as the service reports it: a row that is not
/// there is reported as not found, which says as much of a row that the
/// caller may not see; any other failure is the store's own.
pub open spec fn lookup_failure(e: InternalError) -> RequestErrorView {
    match e {
        InternalError::RowNotFound => RequestErrorView::Validation(ValidationErrorView::NotFound),
        _ => RequestErrorView::Internal(e),
    }
}

/// A failure of an insert as the service reports it: a key that is taken
/// is reported as existing already; any other failure is the store's own.
pub open spec fn insert_failure(e: InternalError) -> RequestErrorView {
    match e {
        InternalError::Conflict => RequestErrorView::Validation(
            ValidationErrorView::AlreadyExists,
        ),
        _ => RequestErrorView::Internal(e),
    }
}

/// Reports the failure of a lookup.
pub fn report_lookup_failure(e: InternalError) -> (error: RequestError)
    ensures
        error@ == lookup_failure(e),
{
    match e {
        InternalError::RowNotFound => RequestError::Validation(ValidationError::NotFound),
        _ => RequestError::Internal(e),
    }
}

/// Reports the failure of an insert.
pub fn report_insert_failure(e: InternalError) -> (error: RequestError)
    ensures
        error@ == insert_failure(e),
{
    match e {
        InternalError::Conflict => RequestError::Validation(ValidationError::AlreadyExists),
        _ => RequestError::Internal(e),
    }
}

/// Why an invitation is refused before anything is written, if it is: the
/// alias, the display name and the password are checked, in this order.
pub open spec fn invitation_error(
    alias: Seq<char>,
    display_name: Seq<char>,
    password: Seq<char>,
) -> Option<ValidationErrorView> {
    if alias_error(alias) is Some {
        alias_error(alias)
    } else if display_name_error(display_name) is Some {
        display_name_error(display_name)
    } else {
        password_error(password)
    }
}

/// Checks what an invitation holds: the alias, the display name and the
/// password, in this order.
pub fn validate_invitation(request: &InviteUserRequest) -> (result: Result<(), ValidationError>)
    ensures
        match result {
            Ok(()) => invitation_error(
                request.alias@,
                request.display_name@,
                request.initial_password@,
            ) is None,
            Err(e) => invitation_error(
                request.alias@,
                request.display_name@,
                request.initial_password@,
            ) == Some(e@),
        },
{
    match validate_user_alias(request.alias.as_str()) {
        Ok(()) => {},
        Err(e) => {
            return Err(e);
        },
    }
    match validate_user_display_name(request.display_name.as_str()) {
        Ok(()) => {},
        Err(e) => {
            return Err(e);
        },
    }
    validate_user_password(request.initial_password.as_str())
}

/// The user that an invitation makes, under an identity and a salt.
pub open spec fn invited_user(
    id: UserId,
    caller: UserId,
    request: InviteUserRequest,
    salt: Seq<u8>,
) -> UserRecord {
    UserRecord {
        id,
        alias: request.alias@,
        display_name: request.display_name@,
        role: request.role,
        password_salt: salt,
        password_hash: password_digest(request.initial_password@, salt),
        invited_by: Some(caller),
    }
}

/// The message that a user sends to a chat, under an identity, at `now`.
pub open spec fn sent_message(
    id: MessageId,
    caller: UserId,
    chat_id: ChatId,
    text: Seq<char>,
    now: Timestamp,
) -> MessageRecord {
    MessageRecord {
        id,
        chat_id,
        user_id: Some(caller),
        text: Some(text),
        reply_to: None,
        resource_id: None,
        created_at: now,
        edited_at: None,
    }
}

impl Tables {
    /// What an invitation at `now` does and answers, given the salt that
    /// was drawn for the new user. The caller has to be an administrator;
    /// the new user gets a chat with themselves.
    pub open spec fn invite_outcome(
        self,
        caller: UserId,
        request: InviteUserRequest,
        salt: Seq<u8>,
        now: Timestamp,
    ) -> (Tables, Result<UserId, RequestErrorView>) {
        if !self.has_user(caller) {
            (self, Err(RequestErrorView::Validation(ValidationErrorView::NotFound)))
        } else if role_error(self.user(caller).role, UserRole::Admin) is Some {
            (
                self,
                Err(
                    RequestErrorView::Validation(
                        role_error(self.user(caller).role, UserRole::Admin).unwrap(),
                    ),
                ),
            )
        } else if invitation_error(request.alias@, request.display_name@, request.initial_password@)
            is Some {
            (
                self,
                Err(
                    RequestErrorView::Validation(
                        invitation_error(
                            request.alias@,
                            request.display_name@,
                            request.initial_password@,
                        ).unwrap(),
                    ),
                ),
            )
        } else if self.has_alias(request.alias@) {
            (self, Err(RequestErrorView::Validation(ValidationErrorView::AlreadyExists)))
        } else if self.next_user_id == i32::MAX || self.next_chat_id == i64::MAX {
            (self, Err(RequestErrorView::Internal(InternalError::Exhausted)))
        } else {
            (
                self.with_user(
                    invited_user(self.next_user_id, caller, request, salt),
                ).with_self_chat(self.next_user_id, now),
                Ok(self.next_user_id),
            )
        }
    }

    /// What the creation of a private chat at `now` does and answers. The
    /// recipient is found by alias; two users have at most one private chat,
    /// whoever of them asks.
    pub open spec fn private_chat_outcome(
        self,
        caller: UserId,
        recipient_alias: Seq<char>,
        now: Timestamp,
    ) -> (Tables, Result<ChatId, RequestErrorView>) {
        if !self.has_alias(recipient_alias) {
            (self, Err(RequestErrorView::Validation(ValidationErrorView::NotFound)))
        } else {
            let recipient = self.user_by_alias(recipient_alias).id;
            if self.private_chat_exists(caller, recipient) {
                (self, Err(RequestErrorView::Validation(ValidationErrorView::AlreadyExists)))
            } else {
                match self.create_private_chat_error(caller, recipient) {
                    Some(e) => (self, Err(RequestErrorView::Internal(e))),
                    None => (self.with_private_chat(caller, recipient, now), Ok(self.next_chat_id)),
                }
            }
        }
    }

    /// What the sending of a message at `now` does and answers. Who is no
    /// member of the chat learns nothing of it, not even whether it is there.
    pub open spec fn send_outcome(
        self,
        caller: UserId,
        chat_id: ChatId,
        text: Seq<char>,
        now: Timestamp,
    ) -> (Tables, Result<MessageId, RequestErrorView>) {
        if message_text_error(text) is Some {
            (self, Err(RequestErrorView::Validation(message_text_error(text).unwrap())))
        } else if !self.is_member(chat_id, caller) {
            (self, Err(RequestErrorView::Validation(ValidationErrorView::NotFound)))
        } else if self.next_message_id == i64::MAX {
            (self, Err(RequestErrorView::Internal(InternalError::Exhausted)))
        } else {
            (
                self.with_message(sent_message(self.next_message_id, caller, chat_id, text, now)),
                Ok(self.next_message_id),
            )
        }
    }

    /// What the listing of the messages of a chat answers. Who is no member
    /// of the chat learns nothing of it.
    pub open spec fn list_messages_result(self, request: ListMessagesRequest) -> Result<
        Seq<MessageResponseView>,
        RequestErrorView,
    > {
        if !self.is_member(request.chat_id, request.user_id) {
            Err(RequestErrorView::Validation(ValidationErrorView::NotFound))
        } else {
            match page_error(request.page_size, request.page_num) {
                Some(e) => Err(RequestErrorView::Internal(e)),
                None => Ok(
                    page_of(self.messages_of(request.chat_id), request.page_size, request.page_num),
                ),
            }
        }
    }
}

/// The user that an invitation asks the store to insert: the password is
/// stored as its hash under the salt.
pub fn invited_user_request(caller: UserId, request: InviteUserRequest, salt: [u8; 16]) -> (user:
    CreateUser)
    ensures
        user.alias@ == request.alias@,
        user.invited_by == Some(caller),
        forall|id: UserId| #[trigger] user.record(id) == invited_user(id, caller, request, salt@),
{
    let password_hash = hash_password_sha256(request.initial_password.as_str(), salt);
    CreateUser {
        invited_by: Some(caller),
        role: request.role,
        alias: request.alias,
        display_name: request.display_name,
        password_salt: salt,
        password_hash,
    }
}

/// The message that the sending of a text asks the store to insert.
pub fn sent_message_request(caller: UserId, chat_id: ChatId, text: &str) -> (request:
    CreateMessageRequest)
    ensures
        request.user_id == caller,
        request.chat_id == chat_id,
        request.reply_to is None,
        request.resource_id is None,
        forall|id: MessageId, now: Timestamp| #[trigger]
            request.record(id, now) == sent_message(id, caller, chat_id, text@, now),
{
    CreateMessageRequest {
        user_id: caller,
        chat_id,
        text: Some(text.to_owned()),
        resource_id: None,
        reply_to: None,
    }
}

impl DbConnection {
    /// Invites a user at `now`, with the salt that was drawn for them.
    pub fn invite_user_with(
        &mut self,
        caller: UserId,
        request: InviteUserRequest,
        salt: [u8; 16],
        now: Timestamp,
    ) -> (result: Result<UserId, RequestError>)
        requires
            old(self).wf(),
        ensures
            final(self).wf(),
            (final(self)@, request_result(result)) == old(self)@.invite_outcome(
                caller,
                request,
                salt@,
                now,
            ),
    {
        let current_role = match get_user_role(self, caller) {
            Ok(found) => found.role,
            Err(e) => {
                return Err(report_lookup_failure(e));
            },
        };
        match check_user_role(current_role, UserRole::Admin) {
            Ok(()) => {},
            Err(e) => {
                return Err(RequestError::Validation(e));
            },
        }
        match validate_invitation(&request) {
            Ok(()) => {},
            Err(e) => {
                return Err(RequestError::Validation(e));
            },
        }
        // The user is written before the chat: unless the chat can be written
        // too, nothing is.
        if self.next_chat_id == i64::MAX && self.find_alias(request.alias.as_str()).is_none() {
            return Err(RequestError::Internal(InternalError::Exhausted));
        }
        let creation_request = invited_user_request(caller, request, salt);
        let user_id = match create_user(self, &creation_request) {
            Ok(user_id) => user_id,
            Err(e) => {
                return Err(report_insert_failure(e));
            },
        };
        proof {
            assert(self@.users[old(self)@.users.len() as int].id == user_id);
        }
        match create_with_self_chat(self, user_id, now) {
            Ok(_) => Ok(user_id),
            Err(e) => Err(RequestError::Internal(e)),
        }
    }

    /// Invites a user: the caller has to be an administrator, and the
    /// alias, display name and password have to be valid. The new user gets
    /// a chat with themselves. The salt and the time are drawn here, so the
    /// contract holds of some such values.
    pub fn invite_user(&mut self, caller: UserId, request: InviteUserRequest) -> (result: Result<
        UserId,
        RequestError,
    >)
        requires
            old(self).wf(),
        ensures
            final(self).wf(),
            exists|salt: Seq<u8>, now: Timestamp|
                (final(self)@, request_result(result)) == #[trigger] old(self)@.invite_outcome(
                    caller,
                    request,
                    salt,
                    now,
                ) && salt.len() == 16,
    {
        let salt = generate_salt();
        let now = current_time();
        self.invite_user_with(caller, request, salt, now)
    }

    /// Creates the private chat of the caller and the user with an alias, at `now`.
    pub fn create_private_chat_at(
        &mut self,
        caller: UserId,
        recipient_alias: &str,
        now: Timestamp,
    ) -> (result: Result<ChatId, RequestError>)
        requires
            old(self).wf(),
        ensures
            final(self).wf(),
            (final(self)@, request_result(result)) == old(self)@.private_chat_outcome(
                caller,
                recipient_alias@,
                now,
            ),
    {
        let recipient_id = match get_user_id_by_alias(self, recipient_alias) {
            Ok(found) => found.user_id,
            Err(e) => {
                return Err(report_lookup_failure(e));
            },
        };
        let found = private_chat_exists(
            self,
            &PrivateChatExistsRequest { user_id_a: caller, user_id_b: recipient_id },
        );
        match check_private_chat_is_new(found.chat_exists) {
            Ok(()) => {},
            Err(e) => {
                return Err(e);
            },
        }
        match create_private_chat(self, caller, recipient_id, now) {
            Ok(chat_id) => Ok(chat_id),
            Err(e) => Err(RequestError::Internal(e)),
        }
    }

    /// Creates the private chat of the caller and the user with an alias.
    /// The time is read here, so the contract holds of some instant.
    pub fn create_private_chat(&mut self, caller: UserId, recipient_alias: &str) -> (result: Result<
        ChatId,
        RequestError,
    >)
        requires
            old(self).wf(),
        ensures
            final(self).wf(),
            exists|now: Timestamp|
                (final(self)@, request_result(result)) == #[trigger] old(
                    self,
                )@.private_chat_outcome(caller, recipient_alias@, now),
    {
        let now = current_time();
        self.create_private_chat_at(caller, recipient_alias, now)
    }

    /// Sends a message to a chat at `now`.
    pub fn send_message_at(
        &mut self,
        caller: UserId,
        chat_id: ChatId,
        text: &str,
        now: Timestamp,
    ) -> (result: Result<MessageId, RequestError>)
        requires
            old(self).wf(),
        ensures
            final(self).wf(),
            (final(self)@, request_result(result)) == old(self)@.send_outcome(
                caller,
                chat_id,
                text@,
                now,
            ),
    {
        match validate_message_text(text) {
            Ok(()) => {},
            Err(e) => {
                return Err(RequestError::Validation(e));
            },
        }
        let found = is_user_in_chat(self, &IsUserInChatRequest { chat_id, user_id: caller });
        match check_membership(found.is_in_chat) {
            Ok(()) => {},
            Err(e) => {
                return Err(e);
            },
        }
        proof {
            lemma_member_chat_exists(self@, chat_id, caller);
        }
        let request = sent_message_request(caller, chat_id, text);
        match create_message(self, &request, now) {
            Ok(message_id) => Ok(message_id),
            Err(e) => Err(RequestError::Internal(e)),
        }
    }

    /// Sends a message to a chat that the caller belongs to. The time is
    /// read here, so the contract holds of some instant.
    pub fn send_message(&mut self, caller: UserId, chat_id: ChatId, text: &str) -> (result: Result<
        MessageId,
        RequestError,
    >)
        requires
            old(self).wf(),
        ensures
            final(self).wf(),
            exists|now: Timestamp|
                (final(self)@, request_result(result)) == #[trigger] old(self)@.send_outcome(
                    caller,
                    chat_id,
                    text@,
                    now,
                ),
    {
        let now = current_time();
        self.send_message_at(caller, chat_id, text, now)
    }

    /// One page of the chats that a user belongs to.
    pub fn list_chats(&self, request: &ListChatsRequest) -> (result: Result<
        ListChatsResponse,
        InternalError,
    >)
        ensures
            match result {
                Ok(response) => page_error(request.page_size, request.page_num) is None
                    && response@ == page_of(
                    self@.chats_of(request.user_id),
                    request.page_size,
                    request.page_num,
                ),
                Err(e) => page_error(request.page_size, request.page_num) == Some(e),
            },
    {
        list_chats_for_user(self, request)
    }

    /// One page of the messages of a chat that the user belongs to.
    pub fn list_messages(&self, request: &ListMessagesRequest) -> (result: Result<
        ListMessagesResponse,
        RequestError,
    >)
        requires
            self.wf(),
        ensures
            match result {
                Ok(response) => self@.list_messages_result(*request) == Ok::<
                    Seq<MessageResponseView>,
                    RequestErrorView,
                >(response@),
                Err(e) => self@.list_messages_result(*request) == Err::<
                    Seq<MessageResponseView>,
                    RequestErrorView,
                >(e@),
            },
    {
        let found = is_user_in_chat(
            self,
            &IsUserInChatRequest { chat_id: request.chat_id, user_id: request.user_id },
        );
        match check_membership(found.is_in_chat) {
            Ok(()) => {},
            Err(e) => {
                return Err(e);
            },
        }
        match list_messages_for_user(self, request) {
            Ok(response) => Ok(response),
            Err(e) => Err(RequestError::Internal(e)),
        }
    }
}

} // verus!
