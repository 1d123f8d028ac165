//! What holds of the operations, whatever the tables and the inputs.

use crate::auth::rules::expiries_at;
use crate::auth::utils::password_digest;
use crate::database::commands::{
    lemma_count_without, lemma_oldest_session, lemma_rotated_wf, lemma_session_removed,
    lemma_with_chat_wf, lemma_with_session_wf, lemma_with_user_wf, oldest_session,
    private_chat_record, session_count, trimmed_sessions, with_self_chat_record,
    MAX_SESSIONS_PER_USER,
};
use crate::database::service::{invited_user, lemma_alias_user_exists, login_session};
use crate::database::tables::{
    lemma_grown_keeps_rows, lemma_session_at, lemma_with_member_wf, Membership,
    SessionRecord, Tables,
};
use crate::error::{RequestErrorView, SessionError, ValidationErrorView};
use crate::models::chat::{ChatId, ChatKind, ChatRole};
use crate::models::message::{message_text_error, ListMessagesRequest};
use crate::models::user::{InviteUserRequest, UserId};
use crate::time::Timestamp;
use vstd::prelude::*;

verus! {

/// "Not later than" orders timestamps: it is transitive, and of two
/// timestamps one is not later than the other.
pub proof fn lemma_at_or_before_orders(a: Timestamp, b: Timestamp, c: Timestamp)
    ensures
        a.at_or_before(b) && b.at_or_before(c) ==> a.at_or_before(c),
        a.at_or_before(b) || b.at_or_before(a),
{
}

/// One more session raises the count of its user by one and no other count.
pub proof fn lemma_count_with(
    sessions: Seq<SessionRecord>,
    session: SessionRecord,
    user_id: UserId,
)
    ensures
        session_count(sessions.push(session), user_id) == session_count(sessions, user_id) + (
        if session.user_id == user_id {
            1nat
        } else {
            0nat
        }),
{
    assert(sessions.push(session).drop_last() =~= sessions);
}

/// The oldest session of a user expires no later than any other session of the user.
pub proof fn lemma_oldest_expires_first(sessions: Seq<SessionRecord>, user_id: UserId, other: int)
    requires
        0 <= other < sessions.len(),
        sessions[other].user_id == user_id,
    ensures
        oldest_session(sessions, user_id) matches Some(i) && 0 <= i < sessions.len()
            && sessions[i].user_id == user_id && sessions[i].access_token_expires_at.at_or_before(
            sessions[other].access_token_expires_at,
        ),
    decreases sessions.len(),
{
    let last = sessions.len() - 1;
    let front = sessions.drop_last();
    lemma_oldest_session(front, user_id);
    lemma_oldest_session(sessions, user_id);
    if other < last {
        lemma_oldest_expires_first(front, user_id, other);
        let i = oldest_session(front, user_id).unwrap();
        assert(front[i] == sessions[i]);
        assert(front[other] == sessions[other]);
        lemma_at_or_before_orders(
            sessions[last].access_token_expires_at,
            sessions[i].access_token_expires_at,
            sessions[other].access_token_expires_at,
        );
    } else {
        match oldest_session(front, user_id) {
            Some(i) => {
                assert(front[i] == sessions[i]);
                lemma_at_or_before_orders(
                    sessions[i].access_token_expires_at,
                    sessions[last].access_token_expires_at,
                    sessions[i].access_token_expires_at,
                );
            },
            None => {},
        }
    }
}

/// Cutting a user's sessions down to a cap leaves the user the cap, or
/// all where they were fewer, and leaves every other user what they had.
pub proof fn lemma_trimmed_counts(
    sessions: Seq<SessionRecord>,
    user_id: UserId,
    cap: nat,
    other: UserId,
)
    ensures
        session_count(trimmed_sessions(sessions, user_id, cap), user_id) == (if session_count(
            sessions,
            user_id,
        ) <= cap {
            session_count(sessions, user_id)
        } else {
            cap
        }),
        other != user_id ==> session_count(trimmed_sessions(sessions, user_id, cap), other)
            == session_count(sessions, other),
    decreases sessions.len(),
{
    if session_count(sessions, user_id) > cap {
        lemma_oldest_session(sessions, user_id);
        let i = oldest_session(sessions, user_id).unwrap();
        lemma_count_without(sessions, i, user_id);
        lemma_count_without(sessions, i, other);
        lemma_trimmed_counts(sessions.remove(i), user_id, cap, other);
    }
}

/// Cutting a user's sessions down takes sessions away and adds none.
pub proof fn lemma_trimmed_is_part(
    sessions: Seq<SessionRecord>,
    user_id: UserId,
    cap: nat,
    kept: SessionRecord,
)
    requires
        trimmed_sessions(sessions, user_id, cap).contains(kept),
    ensures
        sessions.contains(kept),
    decreases sessions.len(),
{
    if session_count(sessions, user_id) > cap {
        lemma_oldest_session(sessions, user_id);
        let i = oldest_session(sessions, user_id).unwrap();
        let rest = sessions.remove(i);
        lemma_trimmed_is_part(rest, user_id, cap, kept);
        let k = choose|k: int| 0 <= k < rest.len() && rest[k] == kept;
        if k < i {
            assert(sessions[k] == kept);
        } else {
            assert(sessions[k + 1] == kept);
        }
    }
}

/// Cutting a user's sessions down touches no session of another user.
pub proof fn lemma_trimmed_spares_others(
    sessions: Seq<SessionRecord>,
    user_id: UserId,
    cap: nat,
    other: SessionRecord,
)
    requires
        sessions.contains(other),
        other.user_id != user_id,
    ensures
        trimmed_sessions(sessions, user_id, cap).contains(other),
    decreases sessions.len(),
{
    if session_count(sessions, user_id) > cap {
        lemma_oldest_session(sessions, user_id);
        let i = oldest_session(sessions, user_id).unwrap();
        let rest = sessions.remove(i);
        let k = choose|k: int| 0 <= k < sessions.len() && sessions[k] == other;
        if k < i {
            assert(rest[k] == other);
        } else {
            assert(rest[k - 1] == other);
        }
        lemma_trimmed_spares_others(rest, user_id, cap, other);
    }
}

/// The sessions that leave when a user's sessions are cut down are the
/// oldest: each of them expires no later than each session of the user that stays.
pub proof fn lemma_trimmed_keeps_newest(
    sessions: Seq<SessionRecord>,
    user_id: UserId,
    cap: nat,
    gone: SessionRecord,
    kept: SessionRecord,
)
    requires
        sessions.contains(gone),
        gone.user_id == user_id,
        !trimmed_sessions(sessions, user_id, cap).contains(gone),
        trimmed_sessions(sessions, user_id, cap).contains(kept),
        kept.user_id == user_id,
    ensures
        gone.access_token_expires_at.at_or_before(kept.access_token_expires_at),
    decreases sessions.len(),
{
    if session_count(sessions, user_id) > cap {
        lemma_oldest_session(sessions, user_id);
        let i = oldest_session(sessions, user_id).unwrap();
        let rest = sessions.remove(i);
        if rest.contains(gone) {
            lemma_trimmed_keeps_newest(rest, user_id, cap, gone, kept);
        } else {
            let g = choose|g: int| 0 <= g < sessions.len() && sessions[g] == gone;
            if g < i {
                assert(rest[g] == gone);
            } else if g > i {
                assert(rest[g - 1] == gone);
            }
            assert(sessions[i] == gone);
            lemma_trimmed_is_part(rest, user_id, cap, kept);
            let k = choose|k: int| 0 <= k < rest.len() && rest[k] == kept;
            let k0 = if k < i {
                k
            } else {
                k + 1
            };
            assert(sessions[k0] == kept);
            lemma_oldest_expires_first(sessions, user_id, k0);
        }
    }
}

/// Well-formed tables stay so when a user's sessions are cut down.
pub proof fn lemma_trimmed_wf(before: Tables, user_id: UserId, cap: nat)
    requires
        before.wf(),
    ensures
        before.with_trimmed_sessions(user_id, cap).wf(),
    decreases before.sessions.len(),
{
    if session_count(before.sessions, user_id) > cap {
        lemma_oldest_session(before.sessions, user_id);
        let i = oldest_session(before.sessions, user_id).unwrap();
        lemma_session_removed(before, i);
        let rest = Tables { sessions: before.sessions.remove(i), ..before };
        lemma_trimmed_wf(rest, user_id, cap);
        assert(rest.with_trimmed_sessions(user_id, cap) == before.with_trimmed_sessions(
            user_id,
            cap,
        ));
    } else {
        assert(before.with_trimmed_sessions(user_id, cap) == before);
    }
}

/// After a login has taken effect the user who logged in has at most a
/// hundred sessions, and every other user has as many as before. So no
/// user ever has more than a hundred, once none had.
pub proof fn lemma_login_keeps_the_cap(
    before: Tables,
    alias: Seq<char>,
    password: Seq<char>,
    now: Timestamp,
    session_id: Seq<u8>,
    refresh_token: Seq<u8>,
    access_token: Seq<u8>,
    other: UserId,
)
    requires
        before.wf(),
        before.login_outcome(alias, password, now, session_id, refresh_token, access_token).1 is Ok,
    ensures
        ({
            let after = before.login_outcome(
                alias,
                password,
                now,
                session_id,
                refresh_token,
                access_token,
            ).0;
            let user_id = before.login_user(alias, password).unwrap();
            &&& after.wf()
            &&& session_count(after.sessions, user_id) <= MAX_SESSIONS_PER_USER
            &&& other != user_id ==> session_count(after.sessions, other) == session_count(
                before.sessions,
                other,
            )
        }),
{
    let user_id = before.login_user(alias, password).unwrap();
    let (refresh_expires, access_expires) = expiries_at(now).unwrap();
    let session = login_session(
        user_id,
        session_id,
        refresh_token,
        refresh_expires,
        access_token,
        access_expires,
        now,
    );
    lemma_alias_user_exists(before, alias);
    lemma_with_session_wf(before, session);
    let opened = before.with_session(session);
    lemma_trimmed_wf(opened, user_id, MAX_SESSIONS_PER_USER as nat);
    lemma_trimmed_counts(opened.sessions, user_id, MAX_SESSIONS_PER_USER as nat, other);
    lemma_count_with(before.sessions, session, other);
}

/// The access token that a login hands out resolves to the user who
/// logged in, until it expires, as long as the session is there. The
/// session is there at least where the user had fewer than a hundred before.
pub proof fn lemma_login_token_resolves(
    before: Tables,
    alias: Seq<char>,
    password: Seq<char>,
    now: Timestamp,
    session_id: Seq<u8>,
    refresh_token: Seq<u8>,
    access_token: Seq<u8>,
    later: Timestamp,
)
    requires
        before.wf(),
        before.login_outcome(alias, password, now, session_id, refresh_token, access_token).1 is Ok,
    ensures
        ({
            let after = before.login_outcome(
                alias,
                password,
                now,
                session_id,
                refresh_token,
                access_token,
            ).0;
            let user_id = before.login_user(alias, password).unwrap();
            let access_expires = expiries_at(now).unwrap().1;
            &&& session_count(before.sessions, user_id) < MAX_SESSIONS_PER_USER
                ==> after.has_session(session_id)
            &&& after.has_session(session_id) ==> after.resolve_session(
                session_id,
                access_token,
                later,
            ) == (if access_expires.at_or_before(later) {
                Err::<UserId, SessionError>(SessionError::TokenExpired)
            } else {
                Ok::<UserId, SessionError>(user_id)
            })
        }),
{
    let user_id = before.login_user(alias, password).unwrap();
    let (refresh_expires, access_expires) = expiries_at(now).unwrap();
    let session = login_session(
        user_id,
        session_id,
        refresh_token,
        refresh_expires,
        access_token,
        access_expires,
        now,
    );
    lemma_alias_user_exists(before, alias);
    lemma_with_session_wf(before, session);
    let opened = before.with_session(session);
    let last = before.sessions.len() as int;
    assert(opened.sessions[last] == session);
    lemma_session_at(opened, last);
    lemma_trimmed_wf(opened, user_id, MAX_SESSIONS_PER_USER as nat);
    let after = opened.with_trimmed_sessions(user_id, MAX_SESSIONS_PER_USER as nat);
    lemma_count_with(before.sessions, session, user_id);
    if after.has_session(session_id) {
        let k = after.session_index(session_id);
        lemma_session_at(after, k);
        assert(after.sessions.contains(after.sessions[k]));
        lemma_trimmed_is_part(
            opened.sessions,
            user_id,
            MAX_SESSIONS_PER_USER as nat,
            after.sessions[k],
        );
        let j = choose|j: int|
            0 <= j < opened.sessions.len() && opened.sessions[j] == after.sessions[k];
        lemma_session_at(opened, j);
        assert(after.session(session_id) == session);
    }
}

/// Well-formed tables stay so when a user is invited.
pub proof fn lemma_invite_keeps_wf(
    before: Tables,
    caller: UserId,
    request: InviteUserRequest,
    salt: Seq<u8>,
    now: Timestamp,
)
    requires
        before.wf(),
    ensures
        before.invite_outcome(caller, request, salt, now).0.wf(),
        before.invite_outcome(caller, request, salt, now).1 is Ok ==> ({
            let after = before.invite_outcome(caller, request, salt, now).0;
            let invited = invited_user(before.next_user_id, caller, request, salt);
            &&& after.has_alias(request.alias@)
            &&& after.user_by_alias(request.alias@) == invited
            &&& after.is_member(before.next_chat_id, invited.id)
        }),
{
    let outcome = before.invite_outcome(caller, request, salt, now);
    if outcome.1 is Ok {
        let invited = invited_user(before.next_user_id, caller, request, salt);
        lemma_with_user_wf(before, invited);
        let joined = before.with_user(invited);
        let chat = with_self_chat_record(before.next_chat_id, now);
        lemma_with_chat_wf(joined, chat);
        let with_chat = joined.with_chat(chat);
        lemma_grown_keeps_rows(joined, with_chat);
        let owner = Membership {
            user_id: invited.id,
            chat_id: before.next_chat_id,
            role: ChatRole::Owner,
        };
        if with_chat.is_member(owner.chat_id, owner.user_id) {
            assert(joined.is_member(owner.chat_id, owner.user_id));
            crate::database::commands::lemma_member_chat_exists(
                joined,
                owner.chat_id,
                owner.user_id,
            );
        }
        lemma_with_member_wf(with_chat, owner);
        let after = with_chat.with_member(owner);
        assert(after == outcome.0);
        assert(after.users == joined.users);
        assert(after.members[with_chat.members.len() as int] == owner);
    }
}

/// The password that a user was invited with logs the user in, and
/// another password does so exactly where its hash under the user's salt
/// is the same.
pub proof fn lemma_invited_password_logs_in(
    before: Tables,
    caller: UserId,
    request: InviteUserRequest,
    salt: Seq<u8>,
    now: Timestamp,
    password: Seq<char>,
)
    requires
        before.wf(),
        before.invite_outcome(caller, request, salt, now).1 is Ok,
    ensures
        ({
            let after = before.invite_outcome(caller, request, salt, now).0;
            &&& after.login_user(request.alias@, request.initial_password@) == Some(
                before.next_user_id,
            )
            &&& after.login_user(request.alias@, password) is Some <==> password_digest(
                password,
                salt,
            ) == password_digest(request.initial_password@, salt)
        }),
{
    lemma_invite_keeps_wf(before, caller, request, salt, now);
}

/// Once a session was refreshed, where the new tokens are not the old
/// ones again, the old access token resolves to nobody and the old refresh
/// token refreshes nothing, at whatever instant they are tried.
pub proof fn lemma_refresh_retires_old_tokens(
    before: Tables,
    session_id: Seq<u8>,
    presented: Seq<u8>,
    now: Timestamp,
    refresh_token: Seq<u8>,
    access_token: Seq<u8>,
    later: Timestamp,
)
    requires
        before.wf(),
        before.refresh_outcome(session_id, presented, now, refresh_token, access_token).1 is Ok,
        refresh_token != before.session(session_id).refresh_token,
        access_token != before.session(session_id).access_token,
    ensures
        ({
            let after = before.refresh_outcome(
                session_id,
                presented,
                now,
                refresh_token,
                access_token,
            ).0;
            &&& after.wf()
            &&& presented == before.session(session_id).refresh_token
            &&& after.resolve_session(session_id, before.session(session_id).access_token, later)
                == Err::<UserId, SessionError>(SessionError::TokenNotFound)
            &&& after.refresh_check(session_id, presented, later) == Err::<i32, RequestErrorView>(
                RequestErrorView::BadCredentials,
            )
            &&& after.session(session_id).refresh_counter == before.session(
                session_id,
            ).refresh_counter + 1
        }),
{
    let (refresh_expires, access_expires) = expiries_at(now).unwrap();
    lemma_rotated_wf(
        before,
        session_id,
        refresh_token,
        refresh_expires,
        access_token,
        access_expires,
    );
}

/// Of two refreshes that read the same counter before either rotated the
/// session, the first to rotate succeeds and the second is interrupted;
/// the session is rotated once, to the tokens of the first.
pub proof fn lemma_concurrent_refresh_has_one_winner(
    before: Tables,
    session_id: Seq<u8>,
    presented: Seq<u8>,
    first_now: Timestamp,
    first_refresh_token: Seq<u8>,
    first_access_token: Seq<u8>,
    second_now: Timestamp,
    second_refresh_token: Seq<u8>,
    second_access_token: Seq<u8>,
)
    requires
        before.wf(),
        before.refresh_check(session_id, presented, first_now) is Ok,
        before.refresh_check(session_id, presented, second_now) is Ok,
        expiries_at(first_now) is Some,
        expiries_at(second_now) is Some,
        before.session(session_id).refresh_counter < i32::MAX,
    ensures
        ({
            let counter = before.session(session_id).refresh_counter;
            let first = before.rotation_outcome(
                session_id,
                counter,
                first_now,
                first_refresh_token,
                first_access_token,
            );
            let second = first.0.rotation_outcome(
                session_id,
                counter,
                second_now,
                second_refresh_token,
                second_access_token,
            );
            &&& before.refresh_check(session_id, presented, first_now) == Ok::<
                i32,
                RequestErrorView,
            >(counter)
            &&& before.refresh_check(session_id, presented, second_now) == Ok::<
                i32,
                RequestErrorView,
            >(counter)
            &&& first.1 is Ok
            &&& second.1 == Err::<crate::auth::token::TokenExchangeView, RequestErrorView>(
                RequestErrorView::Interrupted,
            )
            &&& second.0 == first.0
            &&& first.0.session(session_id) == before.session(session_id).rotated(
                first_refresh_token,
                expiries_at(first_now).unwrap().0,
                first_access_token,
                expiries_at(first_now).unwrap().1,
            )
        }),
{
    let (refresh_expires, access_expires) = expiries_at(first_now).unwrap();
    lemma_rotated_wf(
        before,
        session_id,
        first_refresh_token,
        refresh_expires,
        first_access_token,
        access_expires,
    );
}

/// Whether two users share a private chat does not depend on who is asked first.
pub proof fn lemma_private_chat_exists_symmetric(tables: Tables, a: UserId, b: UserId)
    ensures
        tables.private_chat_exists(a, b) == tables.private_chat_exists(b, a),
{
    if tables.private_chat_exists(a, b) {
        let i = choose|i: int|
            0 <= i < tables.chats.len() && (#[trigger] tables.chats[i]).kind == ChatKind::Private
                && tables.is_member(tables.chats[i].id, a) && tables.is_member(
                tables.chats[i].id,
                b,
            );
        assert(tables.chats[i].kind == ChatKind::Private);
    }
    if tables.private_chat_exists(b, a) {
        let i = choose|i: int|
            0 <= i < tables.chats.len() && (#[trigger] tables.chats[i]).kind == ChatKind::Private
                && tables.is_member(tables.chats[i].id, b) && tables.is_member(
                tables.chats[i].id,
                a,
            );
        assert(tables.chats[i].kind == ChatKind::Private);
    }
}

/// Once a user has created the private chat with another, the other
/// cannot create it again: the second creation answers that the chat
/// exists already and changes nothing.
pub proof fn lemma_private_chat_is_created_once(
    before: Tables,
    a: UserId,
    alias_of_a: Seq<char>,
    b: UserId,
    alias_of_b: Seq<char>,
    first_now: Timestamp,
    second_now: Timestamp,
)
    requires
        before.wf(),
        before.has_alias(alias_of_a),
        before.user_by_alias(alias_of_a).id == a,
        before.has_alias(alias_of_b),
        before.user_by_alias(alias_of_b).id == b,
        before.private_chat_outcome(a, alias_of_b, first_now).1 is Ok,
    ensures
        ({
            let created = before.private_chat_outcome(a, alias_of_b, first_now).0;
            &&& created.wf()
            &&& created.private_chat_exists(a, b)
            &&& created.private_chat_outcome(b, alias_of_a, second_now) == (
                created,
                Err::<ChatId, RequestErrorView>(
                    RequestErrorView::Validation(ValidationErrorView::AlreadyExists),
                ),
            )
        }),
{
    let chat = private_chat_record(before.next_chat_id, first_now);
    lemma_with_chat_wf(before, chat);
    let with_chat = before.with_chat(chat);
    lemma_grown_keeps_rows(before, with_chat);
    let first = Membership { user_id: a, chat_id: chat.id, role: ChatRole::Member };
    let second = Membership { user_id: b, chat_id: chat.id, role: ChatRole::Member };
    if with_chat.is_member(chat.id, a) {
        assert(before.is_member(chat.id, a));
        crate::database::commands::lemma_member_chat_exists(before, chat.id, a);
    }
    lemma_with_member_wf(with_chat, first);
    let with_first = with_chat.with_member(first);
    assert forall|id: UserId| with_chat.has_user(id) == with_first.has_user(id) by {}
    assert forall|id: ChatId| with_chat.has_chat(id) == with_first.has_chat(id) by {}
    if with_first.is_member(chat.id, b) {
        let i = choose|i: int|
            0 <= i < with_first.members.len() && (#[trigger] with_first.members[i]).chat_id
                == chat.id && with_first.members[i].user_id == b;
        assert(before.members[i].chat_id == chat.id);
        assert(before.is_member(chat.id, b));
        crate::database::commands::lemma_member_chat_exists(before, chat.id, b);
    }
    lemma_with_member_wf(with_first, second);
    let created = with_first.with_member(second);
    assert(created == before.private_chat_outcome(a, alias_of_b, first_now).0);
    assert(created.users == before.users);
    let at = before.chats.len() as int;
    assert(created.chats[at] == chat);
    assert(created.members[before.members.len() as int] == first);
    assert(created.members[before.members.len() as int + 1] == second);
    assert(created.is_member(chat.id, a));
    assert(created.is_member(chat.id, b));
    assert(created.chats[at].kind == ChatKind::Private);
    assert(created.private_chat_exists(a, b));
    lemma_private_chat_exists_symmetric(created, a, b);
}

/// Who is no member of a chat cannot send to it nor read it: both answer
/// "not found", as they would if the chat were not there, and nothing changes.
pub proof fn lemma_non_member_is_refused(
    tables: Tables,
    caller: UserId,
    chat_id: ChatId,
    text: Seq<char>,
    now: Timestamp,
    page_size: i32,
    page_num: i32,
)
    requires
        !tables.is_member(chat_id, caller),
        message_text_error(text) is None,
    ensures
        tables.send_outcome(caller, chat_id, text, now) == (
            tables,
            Err::<crate::models::message::MessageId, RequestErrorView>(
                RequestErrorView::Validation(ValidationErrorView::NotFound),
            ),
        ),
        tables.list_messages_result(
            ListMessagesRequest { user_id: caller, chat_id, page_size, page_num },
        ) == Err::<Seq<crate::models::message::MessageResponseView>, RequestErrorView>(
            RequestErrorView::Validation(ValidationErrorView::NotFound),
        ),
{
}

/// A session that was logged out resolves to nobody, and logging it out
/// again changes nothing.
pub proof fn lemma_logout_is_final(
    before: Tables,
    session_id: Seq<u8>,
    access_token: Seq<u8>,
    later: Timestamp,
)
    requires
        before.wf(),
    ensures
        ({
            let after = before.without_session(session_id);
            &&& after.wf()
            &&& !after.has_session(session_id)
            &&& after.resolve_session(session_id, access_token, later) == Err::<
                UserId,
                SessionError,
            >(SessionError::TokenNotFound)
            &&& after.without_session(session_id) == after
        }),
{
    let after = before.without_session(session_id);
    if before.has_session(session_id) {
        let index = before.session_index(session_id);
        lemma_session_removed(before, index);
        if after.has_session(session_id) {
            let k = choose|k: int|
                0 <= k < after.sessions.len() && (#[trigger] after.sessions[k]).id == session_id;
            let k0 = if k < index {
                k
            } else {
                k + 1
            };
            assert(before.sessions[k0].id == session_id);
            lemma_session_at(before, k0);
        }
    }
}

/// An operation that fails changes nothing: whatever it had done before
/// it failed is undone.
pub proof fn lemma_failure_changes_nothing(
    before: Tables,
    caller: UserId,
    request: InviteUserRequest,
    salt: Seq<u8>,
    alias: Seq<char>,
    password: Seq<char>,
    session_id: Seq<u8>,
    presented: Seq<u8>,
    expected_counter: i32,
    refresh_token: Seq<u8>,
    access_token: Seq<u8>,
    chat_id: ChatId,
    text: Seq<char>,
    now: Timestamp,
)
    ensures
        before.invite_outcome(caller, request, salt, now).1 is Err ==> before.invite_outcome(
            caller,
            request,
            salt,
            now,
        ).0 == before,
        before.login_outcome(alias, password, now, session_id, refresh_token, access_token).1
            is Err ==> before.login_outcome(
            alias,
            password,
            now,
            session_id,
            refresh_token,
            access_token,
        ).0 == before,
        before.rotation_outcome(session_id, expected_counter, now, refresh_token, access_token).1
            is Err ==> before.rotation_outcome(
            session_id,
            expected_counter,
            now,
            refresh_token,
            access_token,
        ).0 == before,
        before.refresh_outcome(session_id, presented, now, refresh_token, access_token).1
            is Err ==> before.refresh_outcome(
            session_id,
            presented,
            now,
            refresh_token,
            access_token,
        ).0 == before,
        before.private_chat_outcome(caller, alias, now).1 is Err ==> before.private_chat_outcome(
            caller,
            alias,
            now,
        ).0 == before,
        before.send_outcome(caller, chat_id, text, now).1 is Err ==> before.send_outcome(
            caller,
            chat_id,
            text,
            now,
        ).0 == before,
{
}

} // verus!
