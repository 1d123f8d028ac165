//! How the database is reached, and the tables that the service works on.

use crate::database::tables::{
    lemma_alias_at, lemma_chat_at, lemma_session_at, lemma_user_at, ChatRow, Membership,
    MessageRow, SessionRow, Tables, UserRow,
};
use crate::models::chat::ChatId;
use crate::models::message::MessageId;
use crate::models::session::SessionId;
use crate::models::user::UserId;
use crate::text::same_text;
use vstd::prelude::*;

verus! {

/// Where the database is and who asks.
#[derive(Clone, Debug)]
pub struct DbConfig {
    pub username: String,
    pub password: String,
    pub dbname: String,
    pub address: Option<String>,
    pub max_connections: Option<u32>,
}

/// The address that is used where none is configured.
pub const ADDRESS_FALLBACK: &'static str = "localhost";

/// The number of connections that is used where none is configured.
pub const MAX_CONN_FALLBACK: u32 = 5;

impl DbConfig {
    /// The address, or the fallback where none is configured.
    pub open spec fn address_spec(&self) -> Seq<char> {
        match self.address {
            Some(address) => address@,
            None => ADDRESS_FALLBACK@,
        }
    }

    /// A configuration for a database on this machine.
    pub fn development(dbname: &str, username: &str, password: &str) -> (config: Self)
        ensures
            config.dbname@ == dbname@,
            config.username@ == username@,
            config.password@ == password@,
            config.address is None,
            config.max_connections is None,
    {
        Self {
            dbname: dbname.to_owned(),
            username: username.to_owned(),
            password: password.to_owned(),
            address: None,
            max_connections: None,
        }
    }

    /// The address, or `localhost` where none is configured.
    pub fn address(&self) -> (address: &str)
        ensures
            address@ == self.address_spec(),
    {
        match &self.address {
            Some(address) => address.as_str(),
            None => ADDRESS_FALLBACK,
        }
    }

    /// The address of the database as one text:
    /// `postgresql://` user `:` password `@` address `/` name.
    pub fn get_url(&self) -> (url: String)
        ensures
            url@ == "postgresql://"@ + self.username@ + ":"@ + self.password@ + "@"@
                + self.address_spec() + "/"@ + self.dbname@,
    {
        let mut url = "postgresql://".to_owned();
        url.append(self.username.as_str());
        url.append(":");
        url.append(self.password.as_str());
        url.append("@");
        url.append(self.address());
        url.append("/");
        url.append(self.dbname.as_str());
        url
    }

    /// The number of connections, or 5 where none is configured.
    pub fn max_connections(&self) -> (n: u32)
        ensures
            n == match self.max_connections {
                Some(n) => n,
                None => MAX_CONN_FALLBACK,
            },
    {
        match self.max_connections {
            Some(n) => n,
            None => MAX_CONN_FALLBACK,
        }
    }
}

/// The database as the service works on it: every table with its rows in
/// the order of insertion, and the next value of each identity column. The
/// rows are held in memory. A server that keeps them in PostgreSQL runs the
/// same statements there and takes each decision with the same functions.
#[derive(Debug)]
pub struct DbConnection {
    pub(crate) users: Vec<UserRow>,
    pub(crate) sessions: Vec<SessionRow>,
    pub(crate) chats: Vec<ChatRow>,
    pub(crate) members: Vec<Membership>,
    pub(crate) messages: Vec<MessageRow>,
    pub(crate) next_user_id: UserId,
    pub(crate) next_chat_id: ChatId,
    pub(crate) next_message_id: MessageId,
}

impl DbConnection {
    /// The tables as sequences of records.
    pub open(crate) spec fn view(&self) -> Tables {
        Tables {
            users: self.users@.map_values(|row: UserRow| row@),
            sessions: self.sessions@.map_values(|row: SessionRow| row@),
            chats: self.chats@.map_values(|row: ChatRow| row@),
            members: self.members@,
            messages: self.messages@.map_values(|row: MessageRow| row@),
            next_user_id: self.next_user_id,
            next_chat_id: self.next_chat_id,
            next_message_id: self.next_message_id,
        }
    }

    /// The tables keep the constraints of the schema.
    pub open spec fn wf(&self) -> bool {
        self@.wf()
    }

    /// Tables without a row.
    pub fn new() -> (db: Self)
        ensures
            db@ == Tables::empty(),
            db.wf(),
    {
        let db = DbConnection {
            users: Vec::new(),
            sessions: Vec::new(),
            chats: Vec::new(),
            members: Vec::new(),
            messages: Vec::new(),
            next_user_id: 1,
            next_chat_id: 1,
            next_message_id: 1,
        };
        assert(db@.users =~= Seq::empty());
        assert(db@.sessions =~= Seq::empty());
        assert(db@.chats =~= Seq::empty());
        assert(db@.messages =~= Seq::empty());
        db
    }

    /// Where the session with this identifier stands, if there is one.
    pub(crate) fn find_session(&self, id: &SessionId) -> (found: Option<usize>)
        requires
            self.wf(),
        ensures
            match found {
                Some(i) => i < self.sessions.len() && self@.has_session(id@)
                    && self@.session_index(id@) == i,
                None => !self@.has_session(id@),
            },
    {
        let mut i: usize = 0;
        while i < self.sessions.len()
            invariant
                i <= self.sessions.len(),
                self.wf(),
                forall|k: int| 0 <= k < i ==> (#[trigger] self@.sessions[k]).id != id@,
            decreases self.sessions.len() - i,
        {
            if self.sessions[i].id.same_as(id) {
                proof {
                    lemma_session_at(self@, i as int);
                }
                return Some(i);
            }
            i += 1;
        }
        None
    }

    /// Where the user with this identity stands, if there is one.
    pub(crate) fn find_user(&self, id: UserId) -> (found: Option<usize>)
        requires
            self.wf(),
        ensures
            match found {
                Some(i) => i < self.users.len() && self@.has_user(id) && self@.user(id)
                    == self@.users[i as int] && self.users[i as int].id == id,
                None => !self@.has_user(id),
            },
    {
        let mut i: usize = 0;
        while i < self.users.len()
            invariant
                i <= self.users.len(),
                self.wf(),
                forall|k: int| 0 <= k < i ==> (#[trigger] self@.users[k]).id != id,
            decreases self.users.len() - i,
        {
            if self.users[i].id == id {
                proof {
                    lemma_user_at(self@, i as int);
                }
                return Some(i);
            }
            i += 1;
        }
        None
    }

    /// Where the user with this alias stands, if there is one.
    pub(crate) fn find_alias(&self, alias: &str) -> (found: Option<usize>)
        requires
            self.wf(),
        ensures
            match found {
                Some(i) => i < self.users.len() && self@.has_alias(alias@)
                    && self@.user_by_alias(alias@) == self@.users[i as int]
                    && self.users[i as int].alias@ == alias@,
                None => !self@.has_alias(alias@),
            },
    {
        let mut i: usize = 0;
        while i < self.users.len()
            invariant
                i <= self.users.len(),
                self.wf(),
                forall|k: int| 0 <= k < i ==> (#[trigger] self@.users[k]).alias != alias@,
            decreases self.users.len() - i,
        {
            if same_text(self.users[i].alias.as_str(), alias) {
                proof {
                    lemma_alias_at(self@, i as int);
                }
                return Some(i);
            }
            i += 1;
        }
        None
    }

    /// Where the chat with this identity stands, if there is one.
    pub(crate) fn find_chat(&self, id: ChatId) -> (found: Option<usize>)
        requires
            self.wf(),
        ensures
            match found {
                Some(i) => i < self.chats.len() && self@.has_chat(id) && self@.chat(id)
                    == self@.chats[i as int] && self.chats[i as int].id == id,
                None => !self@.has_chat(id),
            },
    {
        let mut i: usize = 0;
        while i < self.chats.len()
            invariant
                i <= self.chats.len(),
                self.wf(),
                forall|k: int| 0 <= k < i ==> (#[trigger] self@.chats[k]).id != id,
            decreases self.chats.len() - i,
        {
            if self.chats[i].id == id {
                proof {
                    lemma_chat_at(self@, i as int);
                }
                return Some(i);
            }
            i += 1;
        }
        None
    }

    /// Whether the user belongs to the chat.
    pub(crate) fn has_member(&self, chat_id: ChatId, user_id: UserId) -> (found: bool)
        ensures
            found == self@.is_member(chat_id, user_id),
    {
        let mut i: usize = 0;
        while i < self.members.len()
            invariant
                i <= self.members.len(),
                forall|k: int|
                    0 <= k < i ==> !((#[trigger] self@.members[k]).chat_id == chat_id
                        && self@.members[k].user_id == user_id),
            decreases self.members.len() - i,
        {
            if self.members[i].chat_id == chat_id && self.members[i].user_id == user_id {
                assert(self@.members[i as int].chat_id == chat_id);
                return true;
            }
            i += 1;
        }
        false
    }

    /// Whether a message has this identity.
    pub(crate) fn has_message(&self, id: MessageId) -> (found: bool)
        ensures
            found == self@.has_message(id),
    {
        let mut i: usize = 0;
        while i < self.messages.len()
            invariant
                i <= self.messages.len(),
                forall|k: int| 0 <= k < i ==> (#[trigger] self@.messages[k]).id != id,
            decreases self.messages.len() - i,
        {
            if self.messages[i].id == id {
                assert(self@.messages[i as int].id == id);
                return true;
            }
            i += 1;
        }
        false
    }
}

} // verus!
