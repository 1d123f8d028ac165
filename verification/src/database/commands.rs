//! The statements that change the tables, and the operations of the
//! service that are made of them.

use crate::database::connection::DbConnection;
use crate::database::tables::{
    lemma_alias_at, lemma_grown_keeps_rows, lemma_grown_wf, lemma_session_at,
    lemma_with_member_wf, text_view, ChatRecord, ChatRow, Membership, MessageRecord, MessageRow,
    SessionRecord, SessionRow, Tables, UserRecord, UserRow,
};
use crate::error::InternalError;
use crate::models::chat::{
    AddMemberToChatRequest, ChatId, ChatKind, ChatRole, CreateChatRequest,
};
use crate::models::message::{CreateMessageRequest, MessageId};
use crate::models::resource::ResourceId;
use crate::models::session::{CreateSessionRequest, SessionId};
use crate::models::user::{CreateUser, UserId};
use crate::time::Timestamp;
use vstd::prelude::*;
use vstd::slice::slice_to_vec;

verus! {

/// Number of sessions a single account can have. Older sessions are
/// silently removed when new ones are added; the oldest is the one whose
/// access token expires first.
pub const MAX_SESSIONS_PER_USER: i32 = 100;

impl CreateSessionRequest {
    /// The row that the request becomes under an identifier, first seen at `now`.
    pub open spec fn record(&self, id: Seq<u8>, now: Timestamp) -> SessionRecord {
        SessionRecord {
            id,
            user_id: self.user_id,
            ip: self.ip,
            first_seen_at: now,
            last_seen_at: now,
            device_name: text_view(self.device_name),
            os_version: text_view(self.os_version),
            app_version: text_view(self.app_version),
            refresh_token: self.refresh_token@,
            refresh_token_expires_at: self.refresh_token_expires_at,
            access_token: self.access_token@,
            access_token_expires_at: self.access_token_expires_at,
            refresh_counter: 1,
        }
    }
}

impl SessionRecord {
    /// The session after a rotation: new tokens, new expiries, the counter one higher.
    pub open spec fn rotated(
        self,
        refresh_token: Seq<u8>,
        refresh_token_expires_at: Timestamp,
        access_token: Seq<u8>,
        access_token_expires_at: Timestamp,
    ) -> SessionRecord {
        SessionRecord {
            refresh_token,
            refresh_token_expires_at,
            access_token,
            access_token_expires_at,
            refresh_counter: (self.refresh_counter + 1) as i32,
            ..self
        }
    }
}

impl Tables {
    /// Why a session cannot be inserted, if it cannot: its identifier is
    /// taken, or its user is no user.
    pub open spec fn create_session_error(self, id: Seq<u8>, user_id: UserId) -> Option<
        InternalError,
    > {
        if self.has_session(id) {
            Some(InternalError::Conflict)
        } else if !self.has_user(user_id) {
            Some(InternalError::ForeignKey)
        } else {
            None
        }
    }

    /// The tables with one more session, at the end of its table.
    pub open spec fn with_session(self, session: SessionRecord) -> Tables {
        Tables { sessions: self.sessions.push(session), ..self }
    }

    /// Whether the session is there and its counter is the expected one:
    /// only then does a rotation touch it.
    pub open spec fn can_rotate(self, id: Seq<u8>, expected_counter: i32) -> bool {
        self.has_session(id) && self.session(id).refresh_counter == expected_counter
    }

    /// The tables after the session was rotated.
    pub open spec fn with_rotated_session(
        self,
        id: Seq<u8>,
        refresh_token: Seq<u8>,
        refresh_token_expires_at: Timestamp,
        access_token: Seq<u8>,
        access_token_expires_at: Timestamp,
    ) -> Tables {
        Tables {
            sessions: self.sessions.update(
                self.session_index(id),
                self.session(id).rotated(
                    refresh_token,
                    refresh_token_expires_at,
                    access_token,
                    access_token_expires_at,
                ),
            ),
            ..self
        }
    }

    /// The tables without the session; the same tables where it is not there.
    pub open spec fn without_session(self, id: Seq<u8>) -> Tables {
        if self.has_session(id) {
            Tables { sessions: self.sessions.remove(self.session_index(id)), ..self }
        } else {
            self
        }
    }
}

/// Tables that differ in their sessions alone keep the constraints where
/// the sessions keep theirs.
pub proof fn lemma_sessions_replaced(before: Tables, after: Tables)
    requires
        before.wf(),
        after == (Tables { sessions: after.sessions, ..before }),
        after.sessions_keyed(),
    ensures
        after.wf(),
{
    assert(after.users == before.users);
    assert forall|id: UserId| before.has_user(id) == after.has_user(id) by {}
    assert forall|id: crate::models::chat::ChatId| before.has_chat(id) == after.has_chat(id) by {}
    assert forall|id: crate::models::message::MessageId|
        before.has_message(id) == after.has_message(id) by {}
    assert(after.inviters_exist()) by {
        assert forall|i: int| 0 <= i < after.users.len() implies match (
        #[trigger] after.users[i]).invited_by {
            Some(inviter) => after.has_user(inviter),
            None => true,
        } by {
            let _ = before.users[i];
        }
    }
    assert(after.members_keyed()) by {
        assert forall|i: int| 0 <= i < after.members.len() implies after.has_user(
            (#[trigger] after.members[i]).user_id,
        ) && after.has_chat(after.members[i].chat_id) by {
            let _ = before.members[i];
        }
    }
    assert(after.messages_ordered()) by {
        assert forall|i: int| 0 <= i < after.messages.len() implies {
            let m = #[trigger] after.messages[i];
            &&& after.has_chat(m.chat_id)
            &&& m.user_id matches Some(author) ==> after.has_user(author)
            &&& m.reply_to matches Some(earlier) ==> after.has_message(earlier)
            &&& m.resource_id is None
        } by {
            let _ = before.messages[i];
        }
    }
}

/// Well-formed tables stay so when a session is added whose identifier is
/// new and whose user is a user.
pub proof fn lemma_with_session_wf(before: Tables, session: SessionRecord)
    requires
        before.wf(),
        !before.has_session(session.id),
        before.has_user(session.user_id),
    ensures
        before.with_session(session).wf(),
{
    let after = before.with_session(session);
    assert(after.sessions_keyed()) by {
        assert forall|i: int, j: int| 0 <= i < j < after.sessions.len() implies (
        #[trigger] after.sessions[i]).id != (#[trigger] after.sessions[j]).id by {
            let _ = before.sessions[i];
            if j < before.sessions.len() {
                let _ = before.sessions[j];
            }
        }
        assert forall|i: int| 0 <= i < after.sessions.len() implies after.has_user(
            (#[trigger] after.sessions[i]).user_id,
        ) by {
            if i < before.sessions.len() {
                let _ = before.sessions[i];
            }
        }
    }
    lemma_sessions_replaced(before, after);
}

/// Well-formed tables stay so when a session is rotated, and the session
/// is then found under its identifier with the new tokens.
pub proof fn lemma_rotated_wf(
    before: Tables,
    id: Seq<u8>,
    refresh_token: Seq<u8>,
    refresh_token_expires_at: Timestamp,
    access_token: Seq<u8>,
    access_token_expires_at: Timestamp,
)
    requires
        before.wf(),
        before.has_session(id),
    ensures
        ({
            let after = before.with_rotated_session(
                id,
                refresh_token,
                refresh_token_expires_at,
                access_token,
                access_token_expires_at,
            );
            &&& after.wf()
            &&& after.has_session(id)
            &&& after.session(id) == before.session(id).rotated(
                refresh_token,
                refresh_token_expires_at,
                access_token,
                access_token_expires_at,
            )
        }),
{
    let after = before.with_rotated_session(
        id,
        refresh_token,
        refresh_token_expires_at,
        access_token,
        access_token_expires_at,
    );
    let index = before.session_index(id);
    assert(after.sessions_keyed()) by {
        assert forall|i: int, j: int| 0 <= i < j < after.sessions.len() implies (
        #[trigger] after.sessions[i]).id != (#[trigger] after.sessions[j]).id by {
            let _ = before.sessions[i];
            let _ = before.sessions[j];
        }
        assert forall|i: int| 0 <= i < after.sessions.len() implies after.has_user(
            (#[trigger] after.sessions[i]).user_id,
        ) by {
            let _ = before.sessions[i];
        }
    }
    lemma_sessions_replaced(before, after);
    assert(after.sessions[index].id == id);
    lemma_session_at(after, index);
}

/// Inserts a session under the given identifier, with its counter at 1 and
/// both of its sightings at `now`. Fails, and changes nothing, where the
/// identifier is taken or the user is no user.
pub fn create_session(
    db: &mut DbConnection,
    session_id: SessionId,
    request: CreateSessionRequest,
    now: Timestamp,
) -> (result: Result<SessionId, InternalError>)
    requires
        old(db).wf(),
    ensures
        final(db).wf(),
        match old(db)@.create_session_error(session_id@, request.user_id) {
            Some(e) => result == Err::<SessionId, InternalError>(e) && final(db)@ == old(db)@,
            None => result matches Ok(id) && id@ == session_id@ && final(db)@ == old(
                db,
            )@.with_session(request.record(session_id@, now)),
        },
{
    if db.find_session(&session_id).is_some() {
        return Err(InternalError::Conflict);
    }
    if db.find_user(request.user_id).is_none() {
        return Err(InternalError::ForeignKey);
    }
    let ghost record = request.record(session_id@, now);
    let row = SessionRow {
        id: session_id,
        user_id: request.user_id,
        ip: request.ip,
        first_seen_at: now,
        last_seen_at: now,
        device_name: request.device_name,
        os_version: request.os_version,
        app_version: request.app_version,
        refresh_token: request.refresh_token,
        refresh_token_expires_at: request.refresh_token_expires_at,
        access_token: request.access_token,
        access_token_expires_at: request.access_token_expires_at,
        refresh_counter: 1,
    };
    assert(row@ == record);
    db.sessions.push(row);
    proof {
        assert(db@.sessions =~= old(db)@.sessions.push(record));
        lemma_with_session_wf(old(db)@, record);
    }
    Ok(session_id)
}

/// Rotates the tokens of a session, on condition: the tokens and expiries
/// are replaced and the counter goes up by one only if the session is there
/// and its counter is still the expected one. Answers whether a row was
/// updated. Fails, and changes nothing, where the counter has no value left.
pub fn update_session_tokens(
    db: &mut DbConnection,
    session_id: &SessionId,
    refresh_token: &[u8],
    refresh_token_expires_at: &Timestamp,
    access_token: &[u8],
    access_token_expires_at: &Timestamp,
    refresh_counter: i32,
) -> (result: Result<bool, InternalError>)
    requires
        old(db).wf(),
    ensures
        final(db).wf(),
        if !old(db)@.can_rotate(session_id@, refresh_counter) {
            result == Ok::<bool, InternalError>(false) && final(db)@ == old(db)@
        } else if refresh_counter == i32::MAX {
            result == Err::<bool, InternalError>(InternalError::Exhausted) && final(db)@ == old(db)@
        } else {
            result == Ok::<bool, InternalError>(true) && final(db)@ == old(
                db,
            )@.with_rotated_session(
                session_id@,
                refresh_token@,
                *refresh_token_expires_at,
                access_token@,
                *access_token_expires_at,
            )
        },
{
    let index = match db.find_session(session_id) {
        Some(index) => index,
        None => {
            return Ok(false);
        },
    };
    if db.sessions[index].refresh_counter != refresh_counter {
        return Ok(false);
    }
    if refresh_counter == i32::MAX {
        return Err(InternalError::Exhausted);
    }
    let stale = db.sessions.remove(index);
    let ghost rotated = stale@.rotated(
        refresh_token@,
        *refresh_token_expires_at,
        access_token@,
        *access_token_expires_at,
    );
    let row = SessionRow {
        id: stale.id,
        user_id: stale.user_id,
        ip: stale.ip,
        first_seen_at: stale.first_seen_at,
        last_seen_at: stale.last_seen_at,
        device_name: stale.device_name,
        os_version: stale.os_version,
        app_version: stale.app_version,
        refresh_token: slice_to_vec(refresh_token),
        refresh_token_expires_at: *refresh_token_expires_at,
        access_token: slice_to_vec(access_token),
        access_token_expires_at: *access_token_expires_at,
        refresh_counter: refresh_counter + 1,
    };
    assert(row@ == rotated);
    db.sessions.insert(index, row);
    proof {
        assert(db@.sessions =~= old(db)@.sessions.update(index as int, rotated));
        lemma_rotated_wf(
            old(db)@,
            session_id@,
            refresh_token@,
            *refresh_token_expires_at,
            access_token@,
            *access_token_expires_at,
        );
    }
    Ok(true)
}

/// Deletes a session. Deleting one that is not there changes nothing.
pub fn remove_session(db: &mut DbConnection, session_id: &SessionId)
    requires
        old(db).wf(),
    ensures
        final(db).wf(),
        final(db)@ == old(db)@.without_session(session_id@),
{
    match db.find_session(session_id) {
        Some(index) => {
            db.sessions.remove(index);
            proof {
                lemma_session_removed(old(db)@, index as int);
                assert(db@.sessions =~= old(db)@.sessions.remove(index as int));
            }
        },
        None => {},
    }
}

/// Taking one session out of well-formed tables leaves them well-formed.
pub proof fn lemma_session_removed(before: Tables, index: int)
    requires
        before.wf(),
        0 <= index < before.sessions.len(),
    ensures
        (Tables { sessions: before.sessions.remove(index), ..before }).wf(),
{
    let after = Tables { sessions: before.sessions.remove(index), ..before };
    assert(after.sessions_keyed()) by {
        assert forall|i: int, j: int| 0 <= i < j < after.sessions.len() implies (
        #[trigger] after.sessions[i]).id != (#[trigger] after.sessions[j]).id by {
            let i0 = if i < index { i } else { i + 1 };
            let j0 = if j < index { j } else { j + 1 };
            assert(after.sessions[i] == before.sessions[i0]);
            assert(after.sessions[j] == before.sessions[j0]);
        }
        assert forall|i: int| 0 <= i < after.sessions.len() implies after.has_user(
            (#[trigger] after.sessions[i]).user_id,
        ) by {
            let i0 = if i < index { i } else { i + 1 };
            assert(after.sessions[i] == before.sessions[i0]);
        }
    }
    lemma_sessions_replaced(before, after);
}

/// How many of the sessions belong to the user.
pub open spec fn session_count(sessions: Seq<SessionRecord>, user_id: UserId) -> nat
    decreases sessions.len(),
{
    if sessions.len() == 0 {
        0
    } else {
        session_count(sessions.drop_last(), user_id) + if sessions.last().user_id == user_id {
            1nat
        } else {
            0nat
        }
    }
}

/// Where the user's oldest session stands: the one whose access token
/// expires first, and among those that expire together the one that was
/// inserted first. `None` where the user has no session.
pub open spec fn oldest_session(sessions: Seq<SessionRecord>, user_id: UserId) -> Option<int>
    decreases sessions.len(),
{
    if sessions.len() == 0 {
        None
    } else {
        let last = sessions.len() - 1;
        let earlier = oldest_session(sessions.drop_last(), user_id);
        if sessions[last].user_id != user_id {
            earlier
        } else {
            match earlier {
                Some(i) => if sessions[i].access_token_expires_at.at_or_before(
                    sessions[last].access_token_expires_at,
                ) {
                    Some(i)
                } else {
                    Some(last)
                },
                None => Some(last),
            }
        }
    }
}

/// The sessions after the user's sessions were cut down to `cap`: while the
/// user has more, the oldest one leaves.
pub open spec fn trimmed_sessions(sessions: Seq<SessionRecord>, user_id: UserId, cap: nat) -> Seq<
    SessionRecord,
>
    decreases sessions.len(),
{
    if session_count(sessions, user_id) <= cap {
        sessions
    } else {
        match oldest_session(sessions, user_id) {
            Some(i) => if 0 <= i < sessions.len() {
                trimmed_sessions(sessions.remove(i), user_id, cap)
            } else {
                sessions
            },
            None => sessions,
        }
    }
}

impl Tables {
    /// The tables after the user's sessions were cut down to `cap`.
    pub open spec fn with_trimmed_sessions(self, user_id: UserId, cap: nat) -> Tables {
        Tables { sessions: trimmed_sessions(self.sessions, user_id, cap), ..self }
    }
}

/// The oldest session of a user who has one stands in the table and is the user's.
pub proof fn lemma_oldest_session(sessions: Seq<SessionRecord>, user_id: UserId)
    ensures
        session_count(sessions, user_id) > 0 <==> oldest_session(sessions, user_id) is Some,
        oldest_session(sessions, user_id) matches Some(i) ==> 0 <= i < sessions.len()
            && sessions[i].user_id == user_id,
    decreases sessions.len(),
{
    if sessions.len() > 0 {
        lemma_oldest_session(sessions.drop_last(), user_id);
    }
}

/// Taking out one session lowers the count of its user by one and no other count.
pub proof fn lemma_count_without(sessions: Seq<SessionRecord>, index: int, user_id: UserId)
    requires
        0 <= index < sessions.len(),
    ensures
        session_count(sessions.remove(index), user_id) == session_count(sessions, user_id) - (if
            sessions[index].user_id == user_id {
            1int
        } else {
            0int
        }),
    decreases sessions.len(),
{
    let last = sessions.len() - 1;
    if index == last {
        assert(sessions.remove(index) =~= sessions.drop_last());
    } else {
        lemma_count_without(sessions.drop_last(), index, user_id);
        assert(sessions.remove(index).drop_last() =~= sessions.drop_last().remove(index));
        assert(sessions.remove(index).last() == sessions.last());
    }
}

/// How many sessions a user has.
pub fn count_sessions(db: &DbConnection, user_id: UserId) -> (count: usize)
    ensures
        count == session_count(db@.sessions, user_id),
{
    let mut count: usize = 0;
    let mut i: usize = 0;
    assert(db@.sessions.take(0) =~= Seq::empty());
    while i < db.sessions.len()
        invariant
            i <= db.sessions.len(),
            count <= i,
            count == session_count(db@.sessions.take(i as int), user_id),
        decreases db.sessions.len() - i,
    {
        assert(db@.sessions.take(i + 1).drop_last() =~= db@.sessions.take(i as int));
        if db.sessions[i].user_id == user_id {
            count += 1;
        }
        i += 1;
    }
    assert(db@.sessions.take(i as int) =~= db@.sessions);
    count
}

fn find_oldest_session(db: &DbConnection, user_id: UserId) -> (found: Option<usize>)
    ensures
        match found {
            Some(i) => oldest_session(db@.sessions, user_id) == Some(i as int) && i
                < db.sessions.len(),
            None => oldest_session(db@.sessions, user_id) is None,
        },
{
    let mut found: Option<usize> = None;
    let mut i: usize = 0;
    assert(db@.sessions.take(0) =~= Seq::empty());
    while i < db.sessions.len()
        invariant
            i <= db.sessions.len(),
            match found {
                Some(k) => oldest_session(db@.sessions.take(i as int), user_id) == Some(k as int)
                    && k < i,
                None => oldest_session(db@.sessions.take(i as int), user_id) is None,
            },
        decreases db.sessions.len() - i,
    {
        assert(db@.sessions.take(i + 1).drop_last() =~= db@.sessions.take(i as int));
        if db.sessions[i].user_id == user_id {
            match found {
                Some(k) => {
                    if !db.sessions[k].access_token_expires_at.is_at_or_before(
                        &db.sessions[i].access_token_expires_at,
                    ) {
                        found = Some(i);
                    }
                },
                None => {
                    found = Some(i);
                },
            }
        }
        i += 1;
    }
    assert(db@.sessions.take(i as int) =~= db@.sessions);
    found
}

/// Keeps the `max_sessions` sessions of the user whose access tokens expire
/// last and deletes the user's others, the oldest first. Fails, and changes
/// nothing, where `max_sessions` is negative.
pub fn trim_sessions_for_user(db: &mut DbConnection, user_id: UserId, max_sessions: i32) -> (result:
    Result<(), InternalError>)
    requires
        old(db).wf(),
    ensures
        final(db).wf(),
        if max_sessions < 0 {
            result == Err::<(), InternalError>(InternalError::Other) && final(db)@ == old(db)@
        } else {
            result == Ok::<(), InternalError>(()) && final(db)@ == old(db)@.with_trimmed_sessions(
                user_id,
                max_sessions as nat,
            )
        },
{
    if max_sessions < 0 {
        return Err(InternalError::Other);
    }
    let cap = max_sessions as usize;
    loop
        invariant
            db.wf(),
            cap == max_sessions,
            db@ == (Tables { sessions: db@.sessions, ..old(db)@ }),
            trimmed_sessions(db@.sessions, user_id, cap as nat) == trimmed_sessions(
                old(db)@.sessions,
                user_id,
                cap as nat,
            ),
        ensures
            db@.sessions == trimmed_sessions(old(db)@.sessions, user_id, cap as nat),
        decreases db.sessions.len(),
    {
        if count_sessions(db, user_id) <= cap {
            break ;
        }
        proof {
            lemma_oldest_session(db@.sessions, user_id);
        }
        match find_oldest_session(db, user_id) {
            Some(index) => {
                let ghost before = db@;
                db.sessions.remove(index);
                proof {
                    lemma_session_removed(before, index as int);
                    assert(db@.sessions =~= before.sessions.remove(index as int));
                }
            },
            None => {
                break ;
            },
        }
    }
    Ok(())
}

fn clone_text(text: &Option<String>) -> (copy: Option<String>)
    ensures
        text_view(copy) == text_view(*text),
{
    match text {
        Some(text) => Some(text.clone()),
        None => None,
    }
}

impl CreateUser {
    /// The row that the request becomes under an identity.
    pub open spec fn record(&self, id: UserId) -> UserRecord {
        UserRecord {
            id,
            alias: self.alias@,
            display_name: self.display_name@,
            role: self.role,
            password_salt: self.password_salt@,
            password_hash: self.password_hash@,
            invited_by: self.invited_by,
        }
    }
}

impl CreateChatRequest {
    /// The row that the request becomes under an identity, created at `now`.
    pub open spec fn record(&self, id: ChatId, now: Timestamp) -> ChatRecord {
        ChatRecord {
            id,
            display_name: text_view(self.display_name),
            description: text_view(self.description),
            kind: self.kind,
            created_at: now,
        }
    }
}

impl AddMemberToChatRequest {
    /// The row that the request becomes.
    pub open spec fn record(&self) -> Membership {
        Membership { user_id: self.user_id, chat_id: self.chat_id, role: self.role }
    }
}

impl CreateMessageRequest {
    /// The row that the request becomes under an identity, created at `now`.
    pub open spec fn record(&self, id: MessageId, now: Timestamp) -> MessageRecord {
        MessageRecord {
            id,
            chat_id: self.chat_id,
            user_id: Some(self.user_id),
            text: text_view(self.text),
            reply_to: self.reply_to,
            resource_id: self.resource_id,
            created_at: now,
            edited_at: None,
        }
    }
}

/// The chat that a user keeps with themselves.
pub open spec fn with_self_chat_record(id: ChatId, now: Timestamp) -> ChatRecord {
    ChatRecord {
        id,
        display_name: None,
        description: None,
        kind: ChatKind::WithSelf,
        created_at: now,
    }
}

/// The chat that two users keep with each other.
pub open spec fn private_chat_record(id: ChatId, now: Timestamp) -> ChatRecord {
    ChatRecord {
        id,
        display_name: None,
        description: None,
        kind: ChatKind::Private,
        created_at: now,
    }
}

impl Tables {
    /// Why a user cannot be inserted, if they cannot: the alias is taken,
    /// the inviter is no user, or no identity is left.
    pub open spec fn create_user_error(
        self,
        alias: Seq<char>,
        invited_by: Option<UserId>,
    ) -> Option<InternalError> {
        if self.has_alias(alias) {
            Some(InternalError::Conflict)
        } else if invited_by matches Some(inviter) && !self.has_user(inviter) {
            Some(InternalError::ForeignKey)
        } else if self.next_user_id == i32::MAX {
            Some(InternalError::Exhausted)
        } else {
            None
        }
    }

    /// Why a chat cannot be inserted, if it cannot: no identity is left.
    pub open spec fn create_chat_error(self) -> Option<InternalError> {
        if self.next_chat_id == i64::MAX {
            Some(InternalError::Exhausted)
        } else {
            None
        }
    }

    /// Why a membership cannot be inserted, if it cannot: the user belongs
    /// to the chat already, or the user or the chat is not there.
    pub open spec fn add_member_error(self, chat_id: ChatId, user_id: UserId) -> Option<
        InternalError,
    > {
        if self.is_member(chat_id, user_id) {
            Some(InternalError::Conflict)
        } else if !self.has_user(user_id) || !self.has_chat(chat_id) {
            Some(InternalError::ForeignKey)
        } else {
            None
        }
    }

    /// Why a message cannot be inserted, if it cannot: its chat, its author,
    /// the message it replies to or its resource is not there, or no
    /// identity is left. The tables hold no resources.
    pub open spec fn create_message_error(
        self,
        chat_id: ChatId,
        user_id: UserId,
        reply_to: Option<MessageId>,
        resource_id: Option<ResourceId>,
    ) -> Option<InternalError> {
        if !self.has_chat(chat_id) || !self.has_user(user_id) || (reply_to matches Some(earlier)
            && !self.has_message(earlier)) || resource_id is Some {
            Some(InternalError::ForeignKey)
        } else if self.next_message_id == i64::MAX {
            Some(InternalError::Exhausted)
        } else {
            None
        }
    }

    /// Why a chat with oneself cannot be created, if it cannot.
    pub open spec fn create_with_self_chat_error(self, caller: UserId) -> Option<InternalError> {
        if self.next_chat_id == i64::MAX {
            Some(InternalError::Exhausted)
        } else if !self.has_user(caller) {
            Some(InternalError::ForeignKey)
        } else {
            None
        }
    }

    /// The tables with a new chat of the user with themselves, and the user as its owner.
    pub open spec fn with_self_chat(self, caller: UserId, now: Timestamp) -> Tables {
        self.with_chat(with_self_chat_record(self.next_chat_id, now)).with_member(
            Membership { user_id: caller, chat_id: self.next_chat_id, role: ChatRole::Owner },
        )
    }

    /// Why a private chat cannot be created, if it cannot: no identity is
    /// left, one of the two is no user, or the two are one, who cannot
    /// belong to the chat twice.
    pub open spec fn create_private_chat_error(self, caller: UserId, recipient: UserId) -> Option<
        InternalError,
    > {
        if self.next_chat_id == i64::MAX {
            Some(InternalError::Exhausted)
        } else if !self.has_user(caller) || !self.has_user(recipient) {
            Some(InternalError::ForeignKey)
        } else if caller == recipient {
            Some(InternalError::Conflict)
        } else {
            None
        }
    }

    /// The tables with a new private chat and both users as its members,
    /// the caller first.
    pub open spec fn with_private_chat(
        self,
        caller: UserId,
        recipient: UserId,
        now: Timestamp,
    ) -> Tables {
        self.with_chat(private_chat_record(self.next_chat_id, now)).with_member(
            Membership { user_id: caller, chat_id: self.next_chat_id, role: ChatRole::Member },
        ).with_member(
            Membership { user_id: recipient, chat_id: self.next_chat_id, role: ChatRole::Member },
        )
    }
}

/// Well-formed tables stay so when a user is added who takes the next
/// identity, has a new alias and was invited by a user or by nobody. Who
/// was a user is one still, and so is the new one.
pub proof fn lemma_with_user_wf(before: Tables, user: UserRecord)
    requires
        before.wf(),
        user.id == before.next_user_id,
        before.next_user_id < i32::MAX,
        !before.has_alias(user.alias),
        user.invited_by matches Some(inviter) ==> before.has_user(inviter),
    ensures
        before.with_user(user).wf(),
        before.grows_into(before.with_user(user)),
        before.with_user(user).has_user(user.id),
        before.with_user(user).has_alias(user.alias),
        before.with_user(user).user_by_alias(user.alias) == user,
        !before.has_user(user.id),
{
    let after = before.with_user(user);
    assert(before.grows_into(after));
    lemma_grown_keeps_rows(before, after);
    let at = before.users.len() as int;
    assert(after.users[at] == user);
    assert(after.aliases_unique()) by {
        assert forall|i: int, j: int| 0 <= i < j < after.users.len() implies (
        #[trigger] after.users[i]).alias != (#[trigger] after.users[j]).alias by {
            let _ = before.users[i];
            if j < before.users.len() {
                let _ = before.users[j];
            }
        }
    }
    assert(after.users_ordered()) by {
        assert forall|i: int| 0 <= i < after.users.len() implies 1 <= (
        #[trigger] after.users[i]).id < after.next_user_id by {
            if i < before.users.len() {
                let _ = before.users[i];
            }
        }
        assert forall|i: int, j: int| 0 <= i < j < after.users.len() implies (
        #[trigger] after.users[i]).id < (#[trigger] after.users[j]).id by {
            let _ = before.users[i];
            if j < before.users.len() {
                let _ = before.users[j];
            }
        }
    }
    lemma_grown_wf(before, after);
    lemma_alias_at(after, at);
    if before.has_user(user.id) {
        let i = choose|i: int|
            0 <= i < before.users.len() && (#[trigger] before.users[i]).id == user.id;
        assert(before.users[i].id < before.next_user_id);
    }
}

/// Well-formed tables stay so when a chat is added that takes the next identity.
pub proof fn lemma_with_chat_wf(before: Tables, chat: ChatRecord)
    requires
        before.wf(),
        chat.id == before.next_chat_id,
        before.next_chat_id < i64::MAX,
    ensures
        before.with_chat(chat).wf(),
        before.grows_into(before.with_chat(chat)),
        before.with_chat(chat).has_chat(chat.id),
{
    let after = before.with_chat(chat);
    assert(before.grows_into(after));
    assert(after.chats[before.chats.len() as int] == chat);
    assert(after.chats_ordered()) by {
        assert forall|i: int| 0 <= i < after.chats.len() implies 1 <= (
        #[trigger] after.chats[i]).id < after.next_chat_id by {
            if i < before.chats.len() {
                let _ = before.chats[i];
            }
        }
        assert forall|i: int, j: int| 0 <= i < j < after.chats.len() implies (
        #[trigger] after.chats[i]).id < (#[trigger] after.chats[j]).id by {
            let _ = before.chats[i];
            if j < before.chats.len() {
                let _ = before.chats[j];
            }
        }
    }
    lemma_grown_wf(before, after);
}

/// Well-formed tables stay so when a message is added that takes the next
/// identity, stands in a chat, was written by a user, replies to a message
/// or to none, and has no resource.
pub proof fn lemma_with_message_wf(before: Tables, message: MessageRecord)
    requires
        before.wf(),
        message.id == before.next_message_id,
        before.next_message_id < i64::MAX,
        before.has_chat(message.chat_id),
        message.user_id matches Some(author) ==> before.has_user(author),
        message.reply_to matches Some(earlier) ==> before.has_message(earlier),
        message.resource_id is None,
    ensures
        before.with_message(message).wf(),
        before.grows_into(before.with_message(message)),
{
    let after = before.with_message(message);
    assert(before.grows_into(after));
    lemma_grown_keeps_rows(before, after);
    assert forall|i: int| 0 <= i < after.messages.len() implies 1 <= (
    #[trigger] after.messages[i]).id < after.next_message_id by {
        if i < before.messages.len() {
            let _ = before.messages[i];
        }
    }
    assert forall|i: int, j: int| 0 <= i < j < after.messages.len() implies (
    #[trigger] after.messages[i]).id < (#[trigger] after.messages[j]).id by {
        let _ = before.messages[i];
        if j < before.messages.len() {
            let _ = before.messages[j];
        }
    }
    lemma_grown_wf(before, after);
}

/// Inserts a user, who takes the next identity. Fails, and changes
/// nothing, where the alias is taken, the inviter is no user, or no
/// identity is left.
pub fn create_user(db: &mut DbConnection, user: &CreateUser) -> (result: Result<
    UserId,
    InternalError,
>)
    requires
        old(db).wf(),
    ensures
        final(db).wf(),
        match old(db)@.create_user_error(user.alias@, user.invited_by) {
            Some(e) => result == Err::<UserId, InternalError>(e) && final(db)@ == old(db)@,
            None => result == Ok::<UserId, InternalError>(old(db)@.next_user_id) && final(db)@
                == old(db)@.with_user(user.record(old(db)@.next_user_id)),
        },
{
    if db.find_alias(user.alias.as_str()).is_some() {
        return Err(InternalError::Conflict);
    }
    match user.invited_by {
        Some(inviter) => {
            if db.find_user(inviter).is_none() {
                return Err(InternalError::ForeignKey);
            }
        },
        None => {},
    }
    if db.next_user_id == i32::MAX {
        return Err(InternalError::Exhausted);
    }
    let id = db.next_user_id;
    let ghost record = user.record(id);
    let row = UserRow {
        id,
        alias: user.alias.clone(),
        display_name: user.display_name.clone(),
        role: user.role,
        password_salt: user.password_salt,
        password_hash: user.password_hash,
        invited_by: user.invited_by,
    };
    assert(row@ == record);
    db.users.push(row);
    db.next_user_id = id + 1;
    proof {
        assert(db@.users =~= old(db)@.users.push(record));
        lemma_with_user_wf(old(db)@, record);
    }
    Ok(id)
}

/// Inserts a chat, which takes the next identity and is created at `now`.
/// Fails, and changes nothing, where no identity is left.
pub fn create_chat(db: &mut DbConnection, chat: &CreateChatRequest, now: Timestamp) -> (result:
    Result<ChatId, InternalError>)
    requires
        old(db).wf(),
    ensures
        final(db).wf(),
        match old(db)@.create_chat_error() {
            Some(e) => result == Err::<ChatId, InternalError>(e) && final(db)@ == old(db)@,
            None => result == Ok::<ChatId, InternalError>(old(db)@.next_chat_id) && final(db)@
                == old(db)@.with_chat(chat.record(old(db)@.next_chat_id, now)),
        },
{
    if db.next_chat_id == i64::MAX {
        return Err(InternalError::Exhausted);
    }
    let id = db.next_chat_id;
    let ghost record = chat.record(id, now);
    let row = ChatRow {
        id,
        display_name: clone_text(&chat.display_name),
        description: clone_text(&chat.description),
        kind: chat.kind,
        created_at: now,
    };
    assert(row@ == record);
    db.chats.push(row);
    db.next_chat_id = id + 1;
    proof {
        assert(db@.chats =~= old(db)@.chats.push(record));
        lemma_with_chat_wf(old(db)@, record);
    }
    Ok(id)
}

/// Inserts a membership. Fails, and changes nothing, where the user
/// belongs to the chat already, or the user or the chat is not there.
pub fn add_member_to_chat(db: &mut DbConnection, add: &AddMemberToChatRequest) -> (result: Result<
    (),
    InternalError,
>)
    requires
        old(db).wf(),
    ensures
        final(db).wf(),
        match old(db)@.add_member_error(add.chat_id, add.user_id) {
            Some(e) => result == Err::<(), InternalError>(e) && final(db)@ == old(db)@,
            None => result == Ok::<(), InternalError>(()) && final(db)@ == old(db)@.with_member(
                add.record(),
            ),
        },
{
    if db.has_member(add.chat_id, add.user_id) {
        return Err(InternalError::Conflict);
    }
    if db.find_user(add.user_id).is_none() || db.find_chat(add.chat_id).is_none() {
        return Err(InternalError::ForeignKey);
    }
    db.members.push(Membership { user_id: add.user_id, chat_id: add.chat_id, role: add.role });
    proof {
        let before = old(db)@;
        assert(db@.members =~= before.members.push(add.record()));
        assert(db@ == before.with_member(add.record()));
        lemma_with_member_wf(before, add.record());
    }
    Ok(())
}

/// Inserts a message, which takes the next identity and is created at
/// `now`. Fails, and changes nothing, where its chat, its author, the
/// message it replies to or its resource is not there, or no identity is left.
pub fn create_message(
    db: &mut DbConnection,
    message: &CreateMessageRequest,
    now: Timestamp,
) -> (result: Result<MessageId, InternalError>)
    requires
        old(db).wf(),
    ensures
        final(db).wf(),
        match old(db)@.create_message_error(
            message.chat_id,
            message.user_id,
            message.reply_to,
            message.resource_id,
        ) {
            Some(e) => result == Err::<MessageId, InternalError>(e) && final(db)@ == old(db)@,
            None => result == Ok::<MessageId, InternalError>(old(db)@.next_message_id)
                && final(db)@ == old(db)@.with_message(
                message.record(old(db)@.next_message_id, now),
            ),
        },
{
    if db.find_chat(message.chat_id).is_none() || db.find_user(message.user_id).is_none() {
        return Err(InternalError::ForeignKey);
    }
    match message.reply_to {
        Some(earlier) => {
            if !db.has_message(earlier) {
                return Err(InternalError::ForeignKey);
            }
        },
        None => {},
    }
    if message.resource_id.is_some() {
        return Err(InternalError::ForeignKey);
    }
    if db.next_message_id == i64::MAX {
        return Err(InternalError::Exhausted);
    }
    let id = db.next_message_id;
    let ghost record = message.record(id, now);
    let row = MessageRow {
        id,
        chat_id: message.chat_id,
        user_id: Some(message.user_id),
        text: clone_text(&message.text),
        reply_to: message.reply_to,
        resource_id: message.resource_id,
        created_at: now,
        edited_at: None,
    };
    assert(row@ == record);
    db.messages.push(row);
    db.next_message_id = id + 1;
    proof {
        assert(db@.messages =~= old(db)@.messages.push(record));
        lemma_with_message_wf(old(db)@, record);
    }
    Ok(id)
}

/// In well-formed tables a chat that has a member is a chat, and its
/// identity was given out before the next one.
pub proof fn lemma_member_chat_exists(tables: Tables, chat_id: ChatId, user_id: UserId)
    requires
        tables.wf(),
        tables.is_member(chat_id, user_id),
    ensures
        tables.has_chat(chat_id),
        tables.has_user(user_id),
        chat_id < tables.next_chat_id,
{
    let i = choose|i: int|
        0 <= i < tables.members.len() && (#[trigger] tables.members[i]).chat_id == chat_id
            && tables.members[i].user_id == user_id;
    assert(tables.has_chat(tables.members[i].chat_id));
    let k = choose|k: int|
        0 <= k < tables.chats.len() && (#[trigger] tables.chats[k]).id == chat_id;
    assert(tables.chats[k].id < tables.next_chat_id);
}

/// A chat that was just inserted has no member yet, and whoever was a user is one still.
proof fn lemma_new_chat_is_empty(before: Tables, chat: ChatRecord, user_id: UserId)
    requires
        before.wf(),
        chat.id == before.next_chat_id,
        before.next_chat_id < i64::MAX,
    ensures
        !before.with_chat(chat).is_member(chat.id, user_id),
        before.with_chat(chat).has_chat(chat.id),
        before.with_chat(chat).has_user(user_id) == before.has_user(user_id),
{
    let after = before.with_chat(chat);
    if after.is_member(chat.id, user_id) {
        assert(before.is_member(chat.id, user_id));
        lemma_member_chat_exists(before, chat.id, user_id);
    }
    assert(after.chats[before.chats.len() as int].id == chat.id);
}

/// The request for the chat that a user keeps with themselves.
pub fn with_self_chat_request() -> (request: CreateChatRequest)
    ensures
        forall|id: ChatId, now: Timestamp| #[trigger]
            request.record(id, now) == with_self_chat_record(id, now),
{
    CreateChatRequest { kind: ChatKind::WithSelf, description: None, display_name: None }
}

/// The request for the chat that two users keep with each other.
pub fn private_chat_request() -> (request: CreateChatRequest)
    ensures
        forall|id: ChatId, now: Timestamp| #[trigger]
            request.record(id, now) == private_chat_record(id, now),
{
    CreateChatRequest { kind: ChatKind::Private, description: None, display_name: None }
}

/// The request that makes a user the owner of a chat.
pub fn owner_of(chat_id: ChatId, user_id: UserId) -> (request: AddMemberToChatRequest)
    ensures
        request.record() == (Membership { user_id, chat_id, role: ChatRole::Owner }),
{
    AddMemberToChatRequest { chat_id, user_id, role: ChatRole::Owner }
}

/// The request that makes a user a member of a chat.
pub fn member_of(chat_id: ChatId, user_id: UserId) -> (request: AddMemberToChatRequest)
    ensures
        request.record() == (Membership { user_id, chat_id, role: ChatRole::Member }),
{
    AddMemberToChatRequest { chat_id, user_id, role: ChatRole::Member }
}

/// Creates the chat of a user with themselves, at `now`, and makes the
/// user its owner. Fails, and changes nothing, where no identity is left or
/// the user is no user.
pub fn create_with_self_chat(db: &mut DbConnection, caller: UserId, now: Timestamp) -> (result:
    Result<ChatId, InternalError>)
    requires
        old(db).wf(),
    ensures
        final(db).wf(),
        match old(db)@.create_with_self_chat_error(caller) {
            Some(e) => result == Err::<ChatId, InternalError>(e) && final(db)@ == old(db)@,
            None => result == Ok::<ChatId, InternalError>(old(db)@.next_chat_id) && final(db)@
                == old(db)@.with_self_chat(caller, now),
        },
{
    if db.next_chat_id == i64::MAX {
        return Err(InternalError::Exhausted);
    }
    if db.find_user(caller).is_none() {
        return Err(InternalError::ForeignKey);
    }
    let request = with_self_chat_request();
    proof {
        lemma_new_chat_is_empty(old(db)@, request.record(old(db)@.next_chat_id, now), caller);
    }
    let chat_id = match create_chat(db, &request, now) {
        Ok(chat_id) => chat_id,
        Err(e) => {
            return Err(e);
        },
    };
    let owner = owner_of(chat_id, caller);
    match add_member_to_chat(db, &owner) {
        Ok(()) => Ok(chat_id),
        Err(e) => Err(e),
    }
}

/// Creates the private chat of two users, at `now`, and makes both its
/// members. Fails, and changes nothing, where no identity is left, one of
/// the two is no user, or the two are one.
pub fn create_private_chat(
    db: &mut DbConnection,
    caller: UserId,
    recipient: UserId,
    now: Timestamp,
) -> (result: Result<ChatId, InternalError>)
    requires
        old(db).wf(),
    ensures
        final(db).wf(),
        match old(db)@.create_private_chat_error(caller, recipient) {
            Some(e) => result == Err::<ChatId, InternalError>(e) && final(db)@ == old(db)@,
            None => result == Ok::<ChatId, InternalError>(old(db)@.next_chat_id) && final(db)@
                == old(db)@.with_private_chat(caller, recipient, now),
        },
{
    if db.next_chat_id == i64::MAX {
        return Err(InternalError::Exhausted);
    }
    if db.find_user(caller).is_none() || db.find_user(recipient).is_none() {
        return Err(InternalError::ForeignKey);
    }
    if caller == recipient {
        return Err(InternalError::Conflict);
    }
    let request = private_chat_request();
    let ghost chat = request.record(old(db)@.next_chat_id, now);
    proof {
        lemma_new_chat_is_empty(old(db)@, chat, caller);
        lemma_new_chat_is_empty(old(db)@, chat, recipient);
    }
    let chat_id = match create_chat(db, &request, now) {
        Ok(chat_id) => chat_id,
        Err(e) => {
            return Err(e);
        },
    };
    let first = member_of(chat_id, caller);
    proof {
        let with_chat = db@;
        let with_first = with_chat.with_member(first.record());
        assert(with_first.has_user(recipient) == with_chat.has_user(recipient));
        assert(with_first.has_chat(chat_id) == with_chat.has_chat(chat_id));
        if with_first.is_member(chat_id, recipient) {
            let i = choose|i: int|
                0 <= i < with_first.members.len() && (#[trigger] with_first.members[i]).chat_id
                    == chat_id && with_first.members[i].user_id == recipient;
            assert(i < with_chat.members.len());
            assert(with_chat.members[i].chat_id == chat_id);
            assert(with_chat.is_member(chat_id, recipient));
        }
    }
    match add_member_to_chat(db, &first) {
        Ok(()) => {},
        Err(e) => {
            return Err(e);
        },
    }
    let second = member_of(chat_id, recipient);
    match add_member_to_chat(db, &second) {
        Ok(()) => Ok(chat_id),
        Err(e) => Err(e),
    }
}

} // verus!
