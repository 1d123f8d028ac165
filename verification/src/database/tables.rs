//! The tables as mathematics: each table is a sequence of records in the
//! order in which the rows were inserted, and each statement that the
//! service runs is a function on these sequences.

use crate::models::chat::{ChatId, ChatKind, ChatRole};
use crate::models::message::MessageId;
use crate::models::resource::ResourceId;
use crate::models::session::{IpNetwork, SessionId};
use crate::models::user::{UserId, UserRole};
use crate::time::Timestamp;
use vstd::prelude::*;

verus! {

/// A row of the table of users.
pub struct UserRecord {
    pub id: UserId,
    pub alias: Seq<char>,
    pub display_name: Seq<char>,
    pub role: UserRole,
    pub password_salt: Seq<u8>,
    pub password_hash: Seq<u8>,
    pub invited_by: Option<UserId>,
}

/// A row of the table of sessions.
pub struct SessionRecord {
    pub id: Seq<u8>,
    pub user_id: UserId,
    pub ip: IpNetwork,
    pub first_seen_at: Timestamp,
    pub last_seen_at: Timestamp,
    pub device_name: Option<Seq<char>>,
    pub os_version: Option<Seq<char>>,
    pub app_version: Option<Seq<char>>,
    pub refresh_token: Seq<u8>,
    pub refresh_token_expires_at: Timestamp,
    pub access_token: Seq<u8>,
    pub access_token_expires_at: Timestamp,
    pub refresh_counter: i32,
}

/// A row of the table of chats.
pub struct ChatRecord {
    pub id: ChatId,
    pub display_name: Option<Seq<char>>,
    pub description: Option<Seq<char>>,
    pub kind: ChatKind,
    pub created_at: Timestamp,
}

/// A row of the table of memberships: a user belongs to a chat in a role.
#[derive(Clone, Copy, Debug, PartialEq, Eq, Structural)]
pub struct Membership {
    pub user_id: UserId,
    pub chat_id: ChatId,
    pub role: ChatRole,
}

/// A row of the table of messages.
pub struct MessageRecord {
    pub id: MessageId,
    pub chat_id: ChatId,
    pub user_id: Option<UserId>,
    pub text: Option<Seq<char>>,
    pub reply_to: Option<MessageId>,
    pub resource_id: Option<ResourceId>,
    pub created_at: Timestamp,
    pub edited_at: Option<Timestamp>,
}

/// All tables, with the next value of each identity column.
pub struct Tables {
    pub users: Seq<UserRecord>,
    pub sessions: Seq<SessionRecord>,
    pub chats: Seq<ChatRecord>,
    pub members: Seq<Membership>,
    pub messages: Seq<MessageRecord>,
    pub next_user_id: UserId,
    pub next_chat_id: ChatId,
    pub next_message_id: MessageId,
}

impl Tables {
    /// The tables before the first row: every identity column starts at 1.
    pub open spec fn empty() -> Tables {
        Tables {
            users: Seq::empty(),
            sessions: Seq::empty(),
            chats: Seq::empty(),
            members: Seq::empty(),
            messages: Seq::empty(),
            next_user_id: 1,
            next_chat_id: 1,
            next_message_id: 1,
        }
    }

    /// Whether a user has this identity.
    pub open spec fn has_user(self, id: UserId) -> bool {
        exists|i: int| 0 <= i < self.users.len() && (#[trigger] self.users[i]).id == id
    }

    /// The user with this identity.
    pub open spec fn user(self, id: UserId) -> UserRecord
        recommends
            self.has_user(id),
    {
        self.users[choose|i: int| 0 <= i < self.users.len() && (#[trigger] self.users[i]).id == id]
    }

    /// Whether a user has this alias.
    pub open spec fn has_alias(self, alias: Seq<char>) -> bool {
        exists|i: int| 0 <= i < self.users.len() && (#[trigger] self.users[i]).alias == alias
    }

    /// The user with this alias.
    pub open spec fn user_by_alias(self, alias: Seq<char>) -> UserRecord
        recommends
            self.has_alias(alias),
    {
        self.users[choose|i: int|
            0 <= i < self.users.len() && (#[trigger] self.users[i]).alias == alias]
    }

    /// Whether a session has this identifier.
    pub open spec fn has_session(self, id: Seq<u8>) -> bool {
        exists|i: int| 0 <= i < self.sessions.len() && (#[trigger] self.sessions[i]).id == id
    }

    /// Where the session with this identifier stands in its table.
    pub open spec fn session_index(self, id: Seq<u8>) -> int
        recommends
            self.has_session(id),
    {
        choose|i: int| 0 <= i < self.sessions.len() && (#[trigger] self.sessions[i]).id == id
    }

    /// The session with this identifier.
    pub open spec fn session(self, id: Seq<u8>) -> SessionRecord
        recommends
            self.has_session(id),
    {
        self.sessions[self.session_index(id)]
    }

    /// Whether a chat has this identity.
    pub open spec fn has_chat(self, id: ChatId) -> bool {
        exists|i: int| 0 <= i < self.chats.len() && (#[trigger] self.chats[i]).id == id
    }

    /// The chat with this identity.
    pub open spec fn chat(self, id: ChatId) -> ChatRecord
        recommends
            self.has_chat(id),
    {
        self.chats[choose|i: int| 0 <= i < self.chats.len() && (#[trigger] self.chats[i]).id == id]
    }

    /// Whether a message has this identity.
    pub open spec fn has_message(self, id: MessageId) -> bool {
        exists|i: int| 0 <= i < self.messages.len() && (#[trigger] self.messages[i]).id == id
    }

    /// Whether the user belongs to the chat.
    pub open spec fn is_member(self, chat_id: ChatId, user_id: UserId) -> bool {
        exists|i: int|
            0 <= i < self.members.len() && (#[trigger] self.members[i]).chat_id == chat_id
                && self.members[i].user_id == user_id
    }

    /// Whether two different users share a chat of the private kind.
    pub open spec fn private_chat_exists(self, a: UserId, b: UserId) -> bool {
        a != b && exists|i: int|
            0 <= i < self.chats.len() && (#[trigger] self.chats[i]).kind == ChatKind::Private
                && self.is_member(self.chats[i].id, a) && self.is_member(self.chats[i].id, b)
    }

    /// Identities grow along the table of users and stay under the next one.
    pub open spec fn users_ordered(self) -> bool {
        &&& 1 <= self.next_user_id
        &&& forall|i: int|
            0 <= i < self.users.len() ==> 1 <= (#[trigger] self.users[i]).id < self.next_user_id
        &&& forall|i: int, j: int|
            0 <= i < j < self.users.len() ==> (#[trigger] self.users[i]).id < (
            #[trigger] self.users[j]).id
    }

    /// No two users share an alias.
    pub open spec fn aliases_unique(self) -> bool {
        forall|i: int, j: int|
            0 <= i < j < self.users.len() ==> (#[trigger] self.users[i]).alias != (
            #[trigger] self.users[j]).alias
    }

    /// Who invited a user is a user.
    pub open spec fn inviters_exist(self) -> bool {
        forall|i: int|
            0 <= i < self.users.len() ==> match (#[trigger] self.users[i]).invited_by {
                Some(inviter) => self.has_user(inviter),
                None => true,
            }
    }

    /// No two sessions share an identifier, and each belongs to a user.
    pub open spec fn sessions_keyed(self) -> bool {
        &&& forall|i: int, j: int|
            0 <= i < j < self.sessions.len() ==> (#[trigger] self.sessions[i]).id != (
            #[trigger] self.sessions[j]).id
        &&& forall|i: int|
            0 <= i < self.sessions.len() ==> self.has_user((#[trigger] self.sessions[i]).user_id)
    }

    /// Identities grow along the table of chats and stay under the next one.
    pub open spec fn chats_ordered(self) -> bool {
        &&& 1 <= self.next_chat_id
        &&& forall|i: int|
            0 <= i < self.chats.len() ==> 1 <= (#[trigger] self.chats[i]).id < self.next_chat_id
        &&& forall|i: int, j: int|
            0 <= i < j < self.chats.len() ==> (#[trigger] self.chats[i]).id < (
            #[trigger] self.chats[j]).id
    }

    /// No user belongs to a chat twice, and every membership joins a user and a chat.
    pub open spec fn members_keyed(self) -> bool {
        &&& forall|i: int, j: int|
            0 <= i < j < self.members.len() ==> !((#[trigger] self.members[i]).chat_id == (
            #[trigger] self.members[j]).chat_id && self.members[i].user_id
                == self.members[j].user_id)
        &&& forall|i: int|
            0 <= i < self.members.len() ==> self.has_user((#[trigger] self.members[i]).user_id)
                && self.has_chat(self.members[i].chat_id)
    }

    /// Identities grow along the table of messages and stay under the next
    /// one; every message stands in a chat, its author is a user, and what it
    /// replies to is a message. No message has a resource: the tables hold none.
    pub open spec fn messages_ordered(self) -> bool {
        &&& 1 <= self.next_message_id
        &&& forall|i: int|
            0 <= i < self.messages.len() ==> 1 <= (#[trigger] self.messages[i]).id
                < self.next_message_id
        &&& forall|i: int, j: int|
            0 <= i < j < self.messages.len() ==> (#[trigger] self.messages[i]).id < (
            #[trigger] self.messages[j]).id
        &&& forall|i: int|
            0 <= i < self.messages.len() ==> {
                let m = #[trigger] self.messages[i];
                &&& self.has_chat(m.chat_id)
                &&& m.user_id matches Some(author) ==> self.has_user(author)
                &&& m.reply_to matches Some(earlier) ==> self.has_message(earlier)
                &&& m.resource_id is None
            }
    }

    /// The constraints of the schema: keys are unique, identities are given
    /// out in growing order, and every reference leads to a row.
    pub open spec fn wf(self) -> bool {
        &&& self.users_ordered()
        &&& self.aliases_unique()
        &&& self.inviters_exist()
        &&& self.sessions_keyed()
        &&& self.chats_ordered()
        &&& self.members_keyed()
        &&& self.messages_ordered()
    }
}

/// In well-formed tables a user's identity tells where the user stands.
pub proof fn lemma_user_at(tables: Tables, i: int)
    requires
        tables.users_ordered(),
        0 <= i < tables.users.len(),
    ensures
        tables.has_user(tables.users[i].id),
        tables.user(tables.users[i].id) == tables.users[i],
{
    let id = tables.users[i].id;
    let j = choose|j: int| 0 <= j < tables.users.len() && (#[trigger] tables.users[j]).id == id;
    if j < i {
        assert(tables.users[j].id < tables.users[i].id);
    } else if i < j {
        assert(tables.users[i].id < tables.users[j].id);
    }
}

/// In well-formed tables a user's alias tells where the user stands.
pub proof fn lemma_alias_at(tables: Tables, i: int)
    requires
        tables.aliases_unique(),
        0 <= i < tables.users.len(),
    ensures
        tables.has_alias(tables.users[i].alias),
        tables.user_by_alias(tables.users[i].alias) == tables.users[i],
{
    let alias = tables.users[i].alias;
    let j = choose|j: int|
        0 <= j < tables.users.len() && (#[trigger] tables.users[j]).alias == alias;
    if j < i {
        assert(tables.users[j].alias != tables.users[i].alias);
    } else if i < j {
        assert(tables.users[i].alias != tables.users[j].alias);
    }
}

/// In well-formed tables a session's identifier tells where the session stands.
pub proof fn lemma_session_at(tables: Tables, i: int)
    requires
        tables.sessions_keyed(),
        0 <= i < tables.sessions.len(),
    ensures
        tables.has_session(tables.sessions[i].id),
        tables.session_index(tables.sessions[i].id) == i,
        tables.session(tables.sessions[i].id) == tables.sessions[i],
{
    let id = tables.sessions[i].id;
    let j = choose|j: int|
        0 <= j < tables.sessions.len() && (#[trigger] tables.sessions[j]).id == id;
    if j < i {
        assert(tables.sessions[j].id != tables.sessions[i].id);
    } else if i < j {
        assert(tables.sessions[i].id != tables.sessions[j].id);
    }
}

/// In well-formed tables a chat's identity tells where the chat stands.
pub proof fn lemma_chat_at(tables: Tables, i: int)
    requires
        tables.chats_ordered(),
        0 <= i < tables.chats.len(),
    ensures
        tables.has_chat(tables.chats[i].id),
        tables.chat(tables.chats[i].id) == tables.chats[i],
{
    let id = tables.chats[i].id;
    let j = choose|j: int| 0 <= j < tables.chats.len() && (#[trigger] tables.chats[j]).id == id;
    if j < i {
        assert(tables.chats[j].id < tables.chats[i].id);
    } else if i < j {
        assert(tables.chats[i].id < tables.chats[j].id);
    }
}

/// The characters of a text that may be missing.
pub open spec fn text_view(text: Option<String>) -> Option<Seq<char>> {
    match text {
        Some(text) => Some(text@),
        None => None,
    }
}

/// A row of the table of users as it is held in memory.
#[derive(Debug)]
pub struct UserRow {
    pub id: UserId,
    pub alias: String,
    pub display_name: String,
    pub role: UserRole,
    pub password_salt: [u8; 16],
    pub password_hash: [u8; 32],
    pub invited_by: Option<UserId>,
}

impl View for UserRow {
    type V = UserRecord;

    open spec fn view(&self) -> UserRecord {
        UserRecord {
            id: self.id,
            alias: self.alias@,
            display_name: self.display_name@,
            role: self.role,
            password_salt: self.password_salt@,
            password_hash: self.password_hash@,
            invited_by: self.invited_by,
        }
    }
}

/// A row of the table of sessions as it is held in memory.
#[derive(Debug)]
pub struct SessionRow {
    pub id: SessionId,
    pub user_id: UserId,
    pub ip: IpNetwork,
    pub first_seen_at: Timestamp,
    pub last_seen_at: Timestamp,
    pub device_name: Option<String>,
    pub os_version: Option<String>,
    pub app_version: Option<String>,
    pub refresh_token: Vec<u8>,
    pub refresh_token_expires_at: Timestamp,
    pub access_token: Vec<u8>,
    pub access_token_expires_at: Timestamp,
    pub refresh_counter: i32,
}

impl View for SessionRow {
    type V = SessionRecord;

    open spec fn view(&self) -> SessionRecord {
        SessionRecord {
            id: self.id@,
            user_id: self.user_id,
            ip: self.ip,
            first_seen_at: self.first_seen_at,
            last_seen_at: self.last_seen_at,
            device_name: text_view(self.device_name),
            os_version: text_view(self.os_version),
            app_version: text_view(self.app_version),
            refresh_token: self.refresh_token@,
            refresh_token_expires_at: self.refresh_token_expires_at,
            access_token: self.access_token@,
            access_token_expires_at: self.access_token_expires_at,
            refresh_counter: self.refresh_counter,
        }
    }
}

/// A row of the table of chats as it is held in memory.
#[derive(Debug)]
pub struct ChatRow {
    pub id: ChatId,
    pub display_name: Option<String>,
    pub description: Option<String>,
    pub kind: ChatKind,
    pub created_at: Timestamp,
}

impl View for ChatRow {
    type V = ChatRecord;

    open spec fn view(&self) -> ChatRecord {
        ChatRecord {
            id: self.id,
            display_name: text_view(self.display_name),
            description: text_view(self.description),
            kind: self.kind,
            created_at: self.created_at,
        }
    }
}

/// A row of the table of messages as it is held in memory.
#[derive(Debug)]
pub struct MessageRow {
    pub id: MessageId,
    pub chat_id: ChatId,
    pub user_id: Option<UserId>,
    pub text: Option<String>,
    pub reply_to: Option<MessageId>,
    pub resource_id: Option<ResourceId>,
    pub created_at: Timestamp,
    pub edited_at: Option<Timestamp>,
}

impl View for MessageRow {
    type V = MessageRecord;

    open spec fn view(&self) -> MessageRecord {
        MessageRecord {
            id: self.id,
            chat_id: self.chat_id,
            user_id: self.user_id,
            text: text_view(self.text),
            reply_to: self.reply_to,
            resource_id: self.resource_id,
            created_at: self.created_at,
            edited_at: self.edited_at,
        }
    }
}

impl Tables {
    /// The tables with one more user, who takes the next identity.
    pub open spec fn with_user(self, user: UserRecord) -> Tables {
        Tables { users: self.users.push(user), next_user_id: (user.id + 1) as UserId, ..self }
    }

    /// The tables with one more chat, which takes the next identity.
    pub open spec fn with_chat(self, chat: ChatRecord) -> Tables {
        Tables { chats: self.chats.push(chat), next_chat_id: (chat.id + 1) as ChatId, ..self }
    }

    /// The tables with one more membership.
    pub open spec fn with_member(self, member: Membership) -> Tables {
        Tables { members: self.members.push(member), ..self }
    }

    /// The tables with one more message, which takes the next identity.
    pub open spec fn with_message(self, message: MessageRecord) -> Tables {
        Tables {
            messages: self.messages.push(message),
            next_message_id: (message.id + 1) as MessageId,
            ..self
        }
    }

    /// Every row of `self` stands at its place in `later`, which may hold
    /// more rows of users, chats and messages at the end of their tables.
    pub open spec fn grows_into(self, later: Tables) -> bool {
        &&& self.users.len() <= later.users.len()
        &&& forall|i: int| 0 <= i < self.users.len() ==> later.users[i] == #[trigger] self.users[i]
        &&& self.chats.len() <= later.chats.len()
        &&& forall|i: int| 0 <= i < self.chats.len() ==> later.chats[i] == #[trigger] self.chats[i]
        &&& self.messages.len() <= later.messages.len()
        &&& forall|i: int|
            0 <= i < self.messages.len() ==> later.messages[i] == #[trigger] self.messages[i]
    }
}

/// What is referred to in tables is still there once they have grown.
pub proof fn lemma_grown_keeps_rows(before: Tables, after: Tables)
    requires
        before.grows_into(after),
    ensures
        forall|id: UserId| #[trigger] before.has_user(id) ==> after.has_user(id),
        forall|id: ChatId| #[trigger] before.has_chat(id) ==> after.has_chat(id),
        forall|id: MessageId| #[trigger] before.has_message(id) ==> after.has_message(id),
        forall|alias: Seq<char>| #[trigger] before.has_alias(alias) ==> after.has_alias(alias),
{
    assert forall|id: UserId| #[trigger] before.has_user(id) implies after.has_user(id) by {
        let i = choose|i: int| 0 <= i < before.users.len() && (#[trigger] before.users[i]).id == id;
        assert(after.users[i].id == id);
    }
    assert forall|id: ChatId| #[trigger] before.has_chat(id) implies after.has_chat(id) by {
        let i = choose|i: int| 0 <= i < before.chats.len() && (#[trigger] before.chats[i]).id == id;
        assert(after.chats[i].id == id);
    }
    assert forall|id: MessageId| #[trigger] before.has_message(id) implies after.has_message(
        id,
    ) by {
        let i = choose|i: int|
            0 <= i < before.messages.len() && (#[trigger] before.messages[i]).id == id;
        assert(after.messages[i].id == id);
    }
    assert forall|alias: Seq<char>| #[trigger] before.has_alias(alias) implies after.has_alias(
        alias,
    ) by {
        let i = choose|i: int|
            0 <= i < before.users.len() && (#[trigger] before.users[i]).alias == alias;
        assert(after.users[i].alias == alias);
    }
}

/// Well-formed tables stay so when they grow by rows that keep the
/// constraints of their own tables, while sessions and memberships stay as
/// they are.
pub proof fn lemma_grown_wf(before: Tables, after: Tables)
    requires
        before.wf(),
        before.grows_into(after),
        after.sessions == before.sessions,
        after.members == before.members,
        after.users_ordered(),
        after.aliases_unique(),
        after.chats_ordered(),
        after.next_message_id >= 1,
        forall|i: int|
            before.users.len() <= i < after.users.len() ==> match (
            #[trigger] after.users[i]).invited_by {
                Some(inviter) => after.has_user(inviter),
                None => true,
            },
        forall|i: int|
            0 <= i < after.messages.len() ==> 1 <= (#[trigger] after.messages[i]).id
                < after.next_message_id,
        forall|i: int, j: int|
            0 <= i < j < after.messages.len() ==> (#[trigger] after.messages[i]).id < (
            #[trigger] after.messages[j]).id,
        forall|i: int|
            before.messages.len() <= i < after.messages.len() ==> {
                let m = #[trigger] after.messages[i];
                &&& after.has_chat(m.chat_id)
                &&& m.user_id matches Some(author) ==> after.has_user(author)
                &&& m.reply_to matches Some(earlier) ==> after.has_message(earlier)
                &&& m.resource_id is None
            },
    ensures
        after.wf(),
{
    lemma_grown_keeps_rows(before, after);
    assert(after.inviters_exist()) by {
        assert forall|i: int| 0 <= i < after.users.len() implies match (
        #[trigger] after.users[i]).invited_by {
            Some(inviter) => after.has_user(inviter),
            None => true,
        } by {
            if i < before.users.len() {
                let _ = before.users[i];
            }
        }
    }
    assert(after.sessions_keyed()) by {
        assert forall|i: int| 0 <= i < after.sessions.len() implies after.has_user(
            (#[trigger] after.sessions[i]).user_id,
        ) by {
            let _ = before.sessions[i];
        }
    }
    assert(after.members_keyed()) by {
        assert forall|i: int| 0 <= i < after.members.len() implies after.has_user(
            (#[trigger] after.members[i]).user_id,
        ) && after.has_chat(after.members[i].chat_id) by {
            let _ = before.members[i];
        }
    }
    assert(after.messages_ordered()) by {
        assert forall|i: int| 0 <= i < after.messages.len() implies {
            let m = #[trigger] after.messages[i];
            &&& after.has_chat(m.chat_id)
            &&& m.user_id matches Some(author) ==> after.has_user(author)
            &&& m.reply_to matches Some(earlier) ==> after.has_message(earlier)
            &&& m.resource_id is None
        } by {
            if i < before.messages.len() {
                let _ = before.messages[i];
            }
        }
    }
}

/// Well-formed tables stay so when a membership is added that was not
/// there, of a user and a chat that are.
pub proof fn lemma_with_member_wf(before: Tables, member: Membership)
    requires
        before.wf(),
        !before.is_member(member.chat_id, member.user_id),
        before.has_user(member.user_id),
        before.has_chat(member.chat_id),
    ensures
        before.with_member(member).wf(),
{
    let after = before.with_member(member);
    assert forall|id: UserId| before.has_user(id) == after.has_user(id) by {}
    assert forall|id: ChatId| before.has_chat(id) == after.has_chat(id) by {}
    assert forall|id: MessageId| before.has_message(id) == after.has_message(id) by {}
    assert(after.inviters_exist()) by {
        assert forall|i: int| 0 <= i < after.users.len() implies match (
        #[trigger] after.users[i]).invited_by {
            Some(inviter) => after.has_user(inviter),
            None => true,
        } by {
            let _ = before.users[i];
        }
    }
    assert(after.sessions_keyed()) by {
        assert forall|i: int| 0 <= i < after.sessions.len() implies after.has_user(
            (#[trigger] after.sessions[i]).user_id,
        ) by {
            let _ = before.sessions[i];
        }
    }
    assert(after.members_keyed()) by {
        assert forall|i: int, j: int| 0 <= i < j < after.members.len() implies !((
        #[trigger] after.members[i]).chat_id == (#[trigger] after.members[j]).chat_id
            && after.members[i].user_id == after.members[j].user_id) by {
            let _ = before.members[i];
            if j < before.members.len() {
                let _ = before.members[j];
            }
        }
        assert forall|i: int| 0 <= i < after.members.len() implies after.has_user(
            (#[trigger] after.members[i]).user_id,
        ) && after.has_chat(after.members[i].chat_id) by {
            if i < before.members.len() {
                let _ = before.members[i];
            }
        }
    }
    assert(after.messages_ordered()) by {
        assert forall|i: int| 0 <= i < after.messages.len() implies {
            let m = #[trigger] after.messages[i];
            &&& after.has_chat(m.chat_id)
            &&& m.user_id matches Some(author) ==> after.has_user(author)
            &&& m.reply_to matches Some(earlier) ==> after.has_message(earlier)
            &&& m.resource_id is None
        } by {
            let _ = before.messages[i];
        }
    }
}

} // verus!
