//! The statements that read the tables, and the operations of the service
//! that are made of them.

use crate::auth::rules::check_access_token;
use crate::auth::token::{bearer_parts, parse_bearer, Claims};
use crate::auth::utils::current_time;
use crate::database::connection::DbConnection;
use crate::database::tables::{
    ChatRecord, MessageRecord, SessionRecord, Tables, UserRecord,
};
use crate::database::utils::map_not_found_as_none;
use crate::error::{InternalError, SessionError};
use crate::models::chat::{
    ChatKind, ChatResponse, ChatResponseView, IsUserInChatRequest, IsUserInChatResponse,
    ListChatsRequest, ListChatsResponse, PrivateChatExistsRequest, PrivateChatExistsResponse,
};
use crate::models::message::{
    ListMessagesRequest, ListMessagesResponse, MessageResponse, MessageResponseView,
};
use crate::models::session::{RefreshTokenResponse, ResolveSessionResponse, SessionId};
use crate::models::user::{
    GetUserCredentialsByAliasResponse, GetUserIdByAliasResponse, GetUserRoleResponse, UserId,
};
use crate::time::Timestamp;
use vstd::prelude::*;
use vstd::slice::slice_to_vec;

verus! {

impl GetUserCredentialsByAliasResponse {
    /// The credentials are those of the user.
    pub open spec fn is_of(&self, user: UserRecord) -> bool {
        &&& self.user_id == user.id
        &&& self.password_salt@ == user.password_salt
        &&& self.password_hash@ == user.password_hash
    }
}

impl ResolveSessionResponse {
    /// The record is what the session holds of its access token.
    pub open spec fn is_of(&self, session: SessionRecord) -> bool {
        &&& self.user_id == session.user_id
        &&& self.access_token@ == session.access_token
        &&& self.access_token_expires_at == session.access_token_expires_at
    }
}

impl RefreshTokenResponse {
    /// The record is what the session holds of its refresh token.
    pub open spec fn is_of(&self, session: SessionRecord) -> bool {
        &&& self.refresh_token@ == session.refresh_token
        &&& self.refresh_token_expires_at == session.refresh_token_expires_at
        &&& self.refresh_counter == session.refresh_counter
    }
}

impl Tables {
    /// Whom an access token speaks for at `now`: the user of the session
    /// with that identifier, where the token is the session's and has not
    /// expired.
    pub open spec fn resolve_session(
        self,
        id: Seq<u8>,
        access_token: Seq<u8>,
        now: Timestamp,
    ) -> Result<UserId, SessionError> {
        if !self.has_session(id) {
            Err(SessionError::TokenNotFound)
        } else if self.session(id).access_token != access_token {
            Err(SessionError::TokenNotFound)
        } else if self.session(id).access_token_expires_at.at_or_before(now) {
            Err(SessionError::TokenExpired)
        } else {
            Ok(self.session(id).user_id)
        }
    }
}

impl Tables {
    /// Who a bearer text speaks for at `now`: the text has to carry a
    /// session identifier and an access token, and the token has to resolve.
    pub open spec fn resolve_bearer(self, bearer: Seq<char>, now: Timestamp) -> Result<
        Claims,
        SessionError,
    > {
        match bearer_parts(bearer) {
            None => Err(SessionError::BadToken),
            Some((session_id, access_token)) => match self.resolve_session(
                session_id,
                access_token,
                now,
            ) {
                Ok(user_id) => Ok(Claims { user_id }),
                Err(e) => Err(e),
            },
        }
    }
}

/// The role of a user. Fails where nobody has the identity.
pub fn get_user_role(db: &DbConnection, user_id: UserId) -> (result: Result<
    GetUserRoleResponse,
    InternalError,
>)
    requires
        db.wf(),
    ensures
        result == if db@.has_user(user_id) {
            Ok::<GetUserRoleResponse, InternalError>(
                GetUserRoleResponse { role: db@.user(user_id).role },
            )
        } else {
            Err(InternalError::RowNotFound)
        },
{
    match db.find_user(user_id) {
        Some(i) => Ok(GetUserRoleResponse { role: db.users[i].role }),
        None => Err(InternalError::RowNotFound),
    }
}

/// The identity of the user with an alias. Fails where nobody has the alias.
pub fn get_user_id_by_alias(db: &DbConnection, alias: &str) -> (result: Result<
    GetUserIdByAliasResponse,
    InternalError,
>)
    requires
        db.wf(),
    ensures
        result == if db@.has_alias(alias@) {
            Ok::<GetUserIdByAliasResponse, InternalError>(
                GetUserIdByAliasResponse { user_id: db@.user_by_alias(alias@).id },
            )
        } else {
            Err(InternalError::RowNotFound)
        },
{
    match db.find_alias(alias) {
        Some(i) => Ok(GetUserIdByAliasResponse { user_id: db.users[i].id }),
        None => Err(InternalError::RowNotFound),
    }
}

fn fetch_user_credentials(db: &DbConnection, alias: &str) -> (result: Result<
    GetUserCredentialsByAliasResponse,
    InternalError,
>)
    requires
        db.wf(),
    ensures
        match result {
            Ok(found) => db@.has_alias(alias@) && found.is_of(db@.user_by_alias(alias@)),
            Err(e) => !db@.has_alias(alias@) && e == InternalError::RowNotFound,
        },
{
    match db.find_alias(alias) {
        Some(i) => Ok(
            GetUserCredentialsByAliasResponse {
                user_id: db.users[i].id,
                password_hash: db.users[i].password_hash,
                password_salt: db.users[i].password_salt,
            },
        ),
        None => Err(InternalError::RowNotFound),
    }
}

/// The credentials of the user with an alias; nothing, and no failure,
/// where nobody has the alias.
pub fn get_user_credentials_by_alias(db: &DbConnection, alias: &str) -> (result: Result<
    Option<GetUserCredentialsByAliasResponse>,
    InternalError,
>)
    requires
        db.wf(),
    ensures
        match result {
            Ok(Some(found)) => db@.has_alias(alias@) && found.is_of(db@.user_by_alias(alias@)),
            Ok(None) => !db@.has_alias(alias@),
            Err(_) => false,
        },
{
    map_not_found_as_none(fetch_user_credentials(db, alias))
}

fn fetch_access_token(db: &DbConnection, session_id: &SessionId) -> (result: Result<
    ResolveSessionResponse,
    InternalError,
>)
    requires
        db.wf(),
    ensures
        match result {
            Ok(found) => db@.has_session(session_id@) && found.is_of(db@.session(session_id@)),
            Err(e) => !db@.has_session(session_id@) && e == InternalError::RowNotFound,
        },
{
    match db.find_session(session_id) {
        Some(i) => Ok(
            ResolveSessionResponse {
                user_id: db.sessions[i].user_id,
                access_token: slice_to_vec(db.sessions[i].access_token.as_slice()),
                access_token_expires_at: db.sessions[i].access_token_expires_at,
            },
        ),
        None => Err(InternalError::RowNotFound),
    }
}

/// What a session holds of its access token; nothing, and no failure,
/// where the session is not there.
pub fn get_access_token(db: &DbConnection, session_id: &SessionId) -> (result: Result<
    Option<ResolveSessionResponse>,
    InternalError,
>)
    requires
        db.wf(),
    ensures
        match result {
            Ok(Some(found)) => db@.has_session(session_id@) && found.is_of(
                db@.session(session_id@),
            ),
            Ok(None) => !db@.has_session(session_id@),
            Err(_) => false,
        },
{
    map_not_found_as_none(fetch_access_token(db, session_id))
}

fn fetch_refresh_token(db: &DbConnection, session_id: &SessionId) -> (result: Result<
    RefreshTokenResponse,
    InternalError,
>)
    requires
        db.wf(),
    ensures
        match result {
            Ok(found) => db@.has_session(session_id@) && found.is_of(db@.session(session_id@)),
            Err(e) => !db@.has_session(session_id@) && e == InternalError::RowNotFound,
        },
{
    match db.find_session(session_id) {
        Some(i) => Ok(
            RefreshTokenResponse {
                refresh_token: slice_to_vec(db.sessions[i].refresh_token.as_slice()),
                refresh_token_expires_at: db.sessions[i].refresh_token_expires_at,
                refresh_counter: db.sessions[i].refresh_counter,
            },
        ),
        None => Err(InternalError::RowNotFound),
    }
}

/// What a session holds of its refresh token; nothing, and no failure,
/// where the session is not there.
pub fn get_refresh_token(db: &DbConnection, session_id: &SessionId) -> (result: Result<
    Option<RefreshTokenResponse>,
    InternalError,
>)
    requires
        db.wf(),
    ensures
        match result {
            Ok(Some(found)) => db@.has_session(session_id@) && found.is_of(
                db@.session(session_id@),
            ),
            Ok(None) => !db@.has_session(session_id@),
            Err(_) => false,
        },
{
    map_not_found_as_none(fetch_refresh_token(db, session_id))
}

impl DbConnection {
    /// Resolves an access token at a given instant: answers the user of
    /// the session, where the session is there, the token is the session's
    /// and it has not expired.
    pub fn resolve_session_at(
        &self,
        session_id: &SessionId,
        access_token: &[u8],
        now: Timestamp,
    ) -> (result: Result<UserId, SessionError>)
        requires
            self.wf(),
        ensures
            result == self@.resolve_session(session_id@, access_token@, now),
    {
        let record = match get_access_token(self, session_id) {
            Ok(record) => record,
            Err(_) => {
                return Err(SessionError::Internal);
            },
        };
        check_access_token(&record, access_token, &now)
    }

    /// Reads a bearer text and resolves its access token at a given
    /// instant: what the transport does with the header of a request.
    pub fn resolve_bearer_at(&self, bearer: &str, now: Timestamp) -> (result: Result<
        Claims,
        SessionError,
    >)
        requires
            self.wf(),
        ensures
            result == self@.resolve_bearer(bearer@, now),
    {
        let (session_id, access_token) = match parse_bearer(bearer) {
            Ok(parts) => parts,
            Err(e) => {
                return Err(e);
            },
        };
        match self.resolve_session_at(&session_id, access_token.as_slice(), now) {
            Ok(user_id) => Ok(Claims { user_id }),
            Err(e) => Err(e),
        }
    }

    /// Resolves an access token at the time of the call.
    pub fn resolve_session(&self, session_id: &SessionId, access_token: &[u8]) -> (result: Result<
        UserId,
        SessionError,
    >)
        requires
            self.wf(),
        ensures
            exists|now: Timestamp|
                result == #[trigger] self@.resolve_session(session_id@, access_token@, now),
    {
        let now = current_time();
        self.resolve_session_at(session_id, access_token, now)
    }
}

/// Whether a user belongs to a chat.
pub fn is_user_in_chat(db: &DbConnection, request: &IsUserInChatRequest) -> (response:
    IsUserInChatResponse)
    ensures
        response.is_in_chat == db@.is_member(request.chat_id, request.user_id),
{
    IsUserInChatResponse { is_in_chat: db.has_member(request.chat_id, request.user_id) }
}

/// Whether two different users share a chat of the private kind.
pub fn private_chat_exists(db: &DbConnection, request: &PrivateChatExistsRequest) -> (response:
    PrivateChatExistsResponse)
    ensures
        response.chat_exists == db@.private_chat_exists(request.user_id_a, request.user_id_b),
{
    if request.user_id_a == request.user_id_b {
        return PrivateChatExistsResponse { chat_exists: false };
    }
    let mut i: usize = 0;
    while i < db.chats.len()
        invariant
            i <= db.chats.len(),
            request.user_id_a != request.user_id_b,
            forall|k: int|
                0 <= k < i ==> !((#[trigger] db@.chats[k]).kind == ChatKind::Private
                    && db@.is_member(db@.chats[k].id, request.user_id_a) && db@.is_member(
                    db@.chats[k].id,
                    request.user_id_b,
                )),
        decreases db.chats.len() - i,
    {
        if matches!(db.chats[i].kind, ChatKind::Private) && db.has_member(
            db.chats[i].id,
            request.user_id_a,
        ) && db.has_member(db.chats[i].id, request.user_id_b) {
            assert(db@.chats[i as int].kind == ChatKind::Private);
            return PrivateChatExistsResponse { chat_exists: true };
        }
        i += 1;
    }
    PrivateChatExistsResponse { chat_exists: false }
}

/// Why a page cannot be read, if it cannot: its size is negative, or the
/// number of rows before it, `(page_num - 1) * page_size`, is negative or
/// too large for the store.
pub open spec fn page_error(page_size: i32, page_num: i32) -> Option<InternalError> {
    if page_size < 0 || page_num - 1 < i32::MIN || (page_num - 1) * page_size < 0 || (page_num - 1)
        * page_size > i32::MAX {
        Some(InternalError::Other)
    } else {
        None
    }
}

/// The rows of a page: at most `page_size` rows after the first
/// `(page_num - 1) * page_size`.
pub open spec fn page_of<T>(rows: Seq<T>, page_size: i32, page_num: i32) -> Seq<T>
    recommends
        page_error(page_size, page_num) is None,
{
    let offset = (page_num - 1) * page_size;
    let start = if offset < rows.len() {
        offset
    } else {
        rows.len() as int
    };
    let end = if offset + page_size < rows.len() {
        offset + page_size
    } else {
        rows.len() as int
    };
    rows.subrange(start, end)
}

/// A chat as it is listed.
pub open spec fn chat_response(chat: ChatRecord) -> ChatResponseView {
    ChatResponseView { id: chat.id, display_name: chat.display_name, kind: chat.kind }
}

impl Tables {
    /// Who wrote a message, by display name, where the author is known.
    pub open spec fn author_name(self, author: Option<UserId>) -> Option<Seq<char>> {
        match author {
            Some(author) => if self.has_user(author) {
                Some(self.user(author).display_name)
            } else {
                None
            },
            None => None,
        }
    }

    /// A message as it is listed.
    pub open spec fn message_response(self, message: MessageRecord) -> MessageResponseView {
        MessageResponseView {
            id: message.id,
            text: message.text,
            created_at: message.created_at,
            edited_at: message.edited_at,
            user_id: message.user_id,
            user_display_name: self.author_name(message.user_id),
        }
    }

    /// Picks the chats that a user belongs to.
    pub open spec fn chat_listing(self, user_id: UserId) -> spec_fn(ChatRecord) -> Option<
        ChatResponseView,
    > {
        |chat: ChatRecord|
            if self.is_member(chat.id, user_id) {
                Some(chat_response(chat))
            } else {
                None
            }
    }

    /// Picks the messages of a chat.
    pub open spec fn message_listing(self, chat_id: crate::models::chat::ChatId) -> spec_fn(
        MessageRecord,
    ) -> Option<MessageResponseView> {
        |message: MessageRecord|
            if message.chat_id == chat_id {
                Some(self.message_response(message))
            } else {
                None
            }
    }

    /// All chats that a user belongs to, in the order of their identities.
    pub open spec fn chats_of(self, user_id: UserId) -> Seq<ChatResponseView> {
        self.chats.filter_map(self.chat_listing(user_id))
    }

    /// All messages of a chat, in the order of their identities.
    pub open spec fn messages_of(self, chat_id: crate::models::chat::ChatId) -> Seq<
        MessageResponseView,
    > {
        self.messages.filter_map(self.message_listing(chat_id))
    }
}

fn page_start(page_size: i32, page_num: i32) -> (result: Result<usize, InternalError>)
    ensures
        match result {
            Ok(offset) => page_error(page_size, page_num) is None && offset == (page_num - 1)
                * page_size,
            Err(e) => page_error(page_size, page_num) == Some(e),
        },
{
    if page_size < 0 || page_num == i32::MIN {
        return Err(InternalError::Other);
    }
    let before: i64 = (page_num - 1) as i64;
    let size: i64 = page_size as i64;
    assert(-0x8000_0000 * 0x8000_0000 <= before * size <= 0x8000_0000 * 0x8000_0000)
        by (nonlinear_arith)
        requires
            -0x8000_0000 <= before <= 0x8000_0000,
            0 <= size <= 0x8000_0000,
    ;
    let offset: i64 = before * size;
    if offset < 0 || offset > 0x7fff_ffff {
        return Err(InternalError::Other);
    }
    Ok(offset as usize)
}

/// One page of the chats that a user belongs to, in the order of their
/// identities. Fails where the page cannot be read.
pub fn list_chats_for_user(db: &DbConnection, request: &ListChatsRequest) -> (result: Result<
    ListChatsResponse,
    InternalError,
>)
    ensures
        match result {
            Ok(response) => page_error(request.page_size, request.page_num) is None && response@
                == page_of(db@.chats_of(request.user_id), request.page_size, request.page_num),
            Err(e) => page_error(request.page_size, request.page_num) == Some(e),
        },
{
    let offset = match page_start(request.page_size, request.page_num) {
        Ok(offset) => offset,
        Err(e) => {
            return Err(e);
        },
    };
    let size = request.page_size as usize;
    let ghost pick = db@.chat_listing(request.user_id);
    let mut chats: Vec<ChatResponse> = Vec::new();
    let mut seen: usize = 0;
    let mut i: usize = 0;
    assert(db@.chats.take(0) =~= Seq::empty());
    while i < db.chats.len()
        invariant
            i <= db.chats.len(),
            seen <= i,
            size == request.page_size,
            page_error(request.page_size, request.page_num) is None,
            offset == (request.page_num - 1) * request.page_size,
            pick == db@.chat_listing(request.user_id),
            seen == db@.chats.take(i as int).filter_map(pick).len(),
            chats@.map_values(|chat: ChatResponse| chat@) == page_of(
                db@.chats.take(i as int).filter_map(pick),
                request.page_size,
                request.page_num,
            ),
        decreases db.chats.len() - i,
    {
        let ghost listed = db@.chats.take(i as int).filter_map(pick);
        let ghost next = db@.chats.take(i + 1).filter_map(pick);
        proof {
            assert(db@.chats.take(i + 1).drop_last() =~= db@.chats.take(i as int));
            assert(db@.chats.take(i + 1).last() == db@.chats[i as int]);
            assert(next == match pick(db@.chats[i as int]) {
                Some(chat) => listed + seq![chat],
                None => listed,
            });
        }
        let ghost page = chats@.map_values(|chat: ChatResponse| chat@);
        assert(page == listed.subrange(
            if offset < seen { offset as int } else { seen as int },
            if offset + size < seen { offset + size } else { seen as int },
        ));
        if db.has_member(db.chats[i].id, request.user_id) {
            assert(next == listed + seq![chat_response(db@.chats[i as int])]);
            if offset <= seen && seen - offset < size {
                let chat = ChatResponse {
                    id: db.chats[i].id,
                    display_name: match &db.chats[i].display_name {
                        Some(name) => Some(name.clone()),
                        None => None,
                    },
                    kind: db.chats[i].kind,
                };
                assert(chat@ == chat_response(db@.chats[i as int]));
                chats.push(chat);
                assert(chats@.map_values(|chat: ChatResponse| chat@) =~= page.push(
                    chat_response(db@.chats[i as int]),
                ));
                assert(page.push(chat_response(db@.chats[i as int])) =~= next.subrange(
                    offset as int,
                    seen + 1,
                ));
            } else {
                assert(page =~= page_of(next, request.page_size, request.page_num));
            }
            seen += 1;
        }
        i += 1;
        assert(chats@.map_values(|chat: ChatResponse| chat@) =~= page_of(
            db@.chats.take(i as int).filter_map(pick),
            request.page_size,
            request.page_num,
        ));
    }
    assert(db@.chats.take(i as int) =~= db@.chats);
    Ok(ListChatsResponse { chats })
}

/// One page of the messages of a chat, in the order of their identities,
/// each with the display name of its author. Fails where the page cannot
/// be read.
pub fn list_messages_for_user(db: &DbConnection, request: &ListMessagesRequest) -> (result: Result<
    ListMessagesResponse,
    InternalError,
>)
    requires
        db.wf(),
    ensures
        match result {
            Ok(response) => page_error(request.page_size, request.page_num) is None && response@
                == page_of(db@.messages_of(request.chat_id), request.page_size, request.page_num),
            Err(e) => page_error(request.page_size, request.page_num) == Some(e),
        },
{
    let offset = match page_start(request.page_size, request.page_num) {
        Ok(offset) => offset,
        Err(e) => {
            return Err(e);
        },
    };
    let size = request.page_size as usize;
    let ghost pick = db@.message_listing(request.chat_id);
    let mut messages: Vec<MessageResponse> = Vec::new();
    let mut seen: usize = 0;
    let mut i: usize = 0;
    assert(db@.messages.take(0) =~= Seq::empty());
    while i < db.messages.len()
        invariant
            i <= db.messages.len(),
            seen <= i,
            db.wf(),
            size == request.page_size,
            page_error(request.page_size, request.page_num) is None,
            offset == (request.page_num - 1) * request.page_size,
            pick == db@.message_listing(request.chat_id),
            seen == db@.messages.take(i as int).filter_map(pick).len(),
            messages@.map_values(|message: MessageResponse| message@) == page_of(
                db@.messages.take(i as int).filter_map(pick),
                request.page_size,
                request.page_num,
            ),
        decreases db.messages.len() - i,
    {
        let ghost listed = db@.messages.take(i as int).filter_map(pick);
        let ghost next = db@.messages.take(i + 1).filter_map(pick);
        let ghost row = db@.messages[i as int];
        proof {
            assert(db@.messages.take(i + 1).drop_last() =~= db@.messages.take(i as int));
            assert(db@.messages.take(i + 1).last() == row);
            assert(next == match pick(row) {
                Some(message) => listed + seq![message],
                None => listed,
            });
        }
        let ghost page = messages@.map_values(|message: MessageResponse| message@);
        assert(page == listed.subrange(
            if offset < seen { offset as int } else { seen as int },
            if offset + size < seen { offset + size } else { seen as int },
        ));
        if db.messages[i].chat_id == request.chat_id {
            assert(next == listed + seq![db@.message_response(row)]);
            if offset <= seen && seen - offset < size {
                let author_name = match db.messages[i].user_id {
                    Some(author) => match db.find_user(author) {
                        Some(at) => Some(db.users[at].display_name.clone()),
                        None => None,
                    },
                    None => None,
                };
                let message = MessageResponse {
                    id: db.messages[i].id,
                    text: match &db.messages[i].text {
                        Some(text) => Some(text.clone()),
                        None => None,
                    },
                    created_at: db.messages[i].created_at,
                    edited_at: db.messages[i].edited_at,
                    user_id: db.messages[i].user_id,
                    user_display_name: author_name,
                };
                assert(message@ == db@.message_response(row));
                messages.push(message);
                assert(messages@.map_values(|message: MessageResponse| message@) =~= page.push(
                    db@.message_response(row),
                ));
                assert(page.push(db@.message_response(row)) =~= next.subrange(
                    offset as int,
                    seen + 1,
                ));
            } else {
                assert(page =~= page_of(next, request.page_size, request.page_num));
            }
            seen += 1;
        }
        i += 1;
    }
    assert(db@.messages.take(i as int) =~= db@.messages);
    Ok(ListMessagesResponse { messages })
}

} // verus!
