//! The store: what each statement leaves in the tables, and what each listing shows.

use vstd::prelude::*;

use crate::database::model::{
    conversation_is, cursor_is, device_is, file_is, handshake_due, handshake_is,
    handshakes_soonest_first, highest_number, holds_text, lemma_highest_number, message_clash,
    message_from, message_unread, messages_newest_first, messages_oldest_first, pending_due,
    pending_is, pending_of, pending_soonest_first, request_has, requests_newest_first, requests_of,
    search_text, stash_is, thread_match, thread_message,
};
use crate::database::DbModel;
use crate::promises::catch_up::{first_of, in_time, lemma_first_of, shown_in};
use crate::promises::messages::lemma_filtered_from;
use crate::promises::{cut_at_80, erased, restated, revised};
use crate::records::{
    ContactModel, ConversationRowModel, CursorModel, DeviceModel, FileRowModel, FileTransferModel,
    FriendRequestModel, MailboxModel, MessageModel, PendingHandshakeModel, PendingModel,
    RequestRowModel, StashModel,
};
use crate::table::{lemma_ordered, limited, ordered, ordered_limited, some_row, without};
use crate::text::{lowered, prefix};

verus! {

// -- messages -----------------------------------------------------------------------------

/// A new status is the only change, of the message with that id alone.
pub proof fn law_status_changes_alone(db: DbModel, id: Seq<char>, status: Seq<char>)
    ensures
        ({
            let after = db.set_message_status(id, status);
            &&& after == (DbModel { messages: after.messages, ..db })
            &&& after.messages.len() == db.messages.len()
            &&& forall|i: int|
                0 <= i < db.messages.len() ==> if db.messages[i].id == id {
                    restated(db.messages[i], #[trigger] after.messages[i], status)
                } else {
                    after.messages[i] == db.messages[i]
                }
        }),
{
}

/// An edit changes the message with that id alone.
pub proof fn law_edit_changes_alone(
    db: DbModel,
    id: Seq<char>,
    body: Seq<char>,
    ciphertext: Seq<u8>,
    now_ms: i64,
)
    ensures
        ({
            let after = db.edit_message(id, body, ciphertext, now_ms);
            &&& after == (DbModel { messages: after.messages, ..db })
            &&& after.messages.len() == db.messages.len()
            &&& forall|i: int|
                0 <= i < db.messages.len() ==> if db.messages[i].id == id {
                    revised(db.messages[i], #[trigger] after.messages[i], body, ciphertext, now_ms)
                } else {
                    after.messages[i] == db.messages[i]
                }
        }),
{
}

/// A deletion erases the message with that id alone.
pub proof fn law_deletion_erases_alone(db: DbModel, id: Seq<char>, now_ms: i64)
    ensures
        ({
            let after = db.tombstone_message(id, now_ms);
            &&& after == (DbModel { messages: after.messages, ..db })
            &&& after.messages.len() == db.messages.len()
            &&& forall|i: int|
                0 <= i < db.messages.len() ==> if db.messages[i].id == id {
                    erased(db.messages[i], #[trigger] after.messages[i], now_ms)
                } else {
                    after.messages[i] == db.messages[i]
                }
        }),
{
}

/// A message is stored as it is, behind the others, unless its id or its place is taken; its
/// conversation then shows it as the last one.
pub proof fn law_insert_adds_one(db: DbModel, m: MessageModel)
    ensures
        ({
            let after = db.insert_message(m);
            if exists|i: int|
                0 <= i < db.messages.len() && ((#[trigger] db.messages[i]).id == m.id || (
                db.messages[i].conversation_id == m.conversation_id
                    && db.messages[i].sender_device_id == m.sender_device_id
                    && db.messages[i].sequence == m.sequence)) {
                after == db
            } else {
                &&& after == (DbModel {
                    messages: after.messages,
                    conversations: after.conversations,
                    ..db
                })
                &&& after.messages == db.messages.push(m)
                &&& after.conversations.len() == db.conversations.len()
                &&& forall|i: int|
                    0 <= i < db.conversations.len() ==> #[trigger] after.conversations[i]
                        == if db.conversations[i].id == m.conversation_id {
                        ConversationRowModel {
                            updated_at_ms: m.created_at_ms,
                            last_message_id: Some(m.id),
                            last_message_preview: Some(cut_at_80(m.body)),
                            ..db.conversations[i]
                        }
                    } else {
                        db.conversations[i]
                    }
            }
        }),
{
    let p = message_clash(m);
    assert(cut_at_80(m.body) =~= prefix(m.body, 80));
    if some_row(db.messages, p) {
        let i: int = choose|i: int| 0 <= i < db.messages.len() && p(#[trigger] db.messages[i]);
        assert(db.messages[i].id == m.id || (db.messages[i].conversation_id == m.conversation_id
            && db.messages[i].sender_device_id == m.sender_device_id && db.messages[i].sequence
            == m.sequence));
    } else {
        assert forall|i: int| 0 <= i < db.messages.len() implies !p(#[trigger] db.messages[i]) by {
        }
    }
}

/// The next number is one more than the highest that a device used in a conversation, for a
/// stored message or noted as used up; the first one is 1.
pub proof fn law_next_number_is_one_more(db: DbModel, conversation: Seq<char>, device: Seq<char>)
    ensures
        ({
            let next = db.next_number(conversation, device);
            let used = db.used_number(conversation, device, false);
            let mine = |m: MessageModel|
                m.conversation_id == conversation && m.sender_device_id == device;
            &&& forall|i: int|
                0 <= i < db.messages.len() && mine(#[trigger] db.messages[i])
                    ==> db.messages[i].sequence < next
            &&& used is Some ==> used->0 < next
            &&& (used is Some && used->0 == next - 1) || (exists|i: int|
                0 <= i < db.messages.len() && mine(#[trigger] db.messages[i])
                    && db.messages[i].sequence == next - 1) || (next == 1 && used is None
                && forall|i: int|
                0 <= i < db.messages.len() ==> !mine(#[trigger] db.messages[i]))
        }),
{
    let p = message_from(conversation, device);
    let own = db.messages.filter(p);
    let next = db.next_number(conversation, device);
    let used = db.used_number(conversation, device, false);
    let mine = |m: MessageModel| m.conversation_id == conversation && m.sender_device_id == device;
    assert forall|i: int| 0 <= i < db.messages.len() && mine(#[trigger] db.messages[i]) implies
        own.len() > 0 && db.messages[i].sequence <= highest_number(own) by {
        db.messages.lemma_filter_contains(p, i);
        let k: int = choose|k: int| 0 <= k < own.len() && own[k] == db.messages[i];
        lemma_highest_number(own);
        assert(own[k].sequence <= highest_number(own));
    }
    if own.len() > 0 {
        lemma_highest_number(own);
        let top = |r: MessageModel| r.sequence == highest_number(own);
        let k: int = choose|k: int| 0 <= k < own.len() && top(#[trigger] own[k]);
        lemma_filtered_from(db.messages, p, k);
        let i: int = choose|i: int| 0 <= i < db.messages.len() && db.messages[i] == own[k];
        assert(mine(db.messages[i]) && db.messages[i].sequence == highest_number(own));
    } else {
        assert forall|i: int| 0 <= i < db.messages.len() implies !mine(
            #[trigger] db.messages[i],
        ) by {
        }
    }
}

/// Whether a message of someone else is still to be read.
pub open spec fn to_read(m: MessageModel, conversation: Seq<char>, me: Seq<char>) -> bool {
    &&& m.conversation_id == conversation
    &&& m.sender_username != me
    &&& m.status == "delivered"@
    &&& m.deleted_at_ms is None
}

proof fn lemma_filter_count_update<V>(
    rows: Seq<V>,
    after: Seq<V>,
    p: spec_fn(V) -> bool,
    at: int,
)
    requires
        rows.len() == after.len(),
        0 <= at < rows.len(),
        forall|i: int| 0 <= i < rows.len() && i != at ==> #[trigger] after[i] == rows[i],
        p(rows[at]),
        !p(after[at]),
    ensures
        after.filter(p).len() == rows.filter(p).len() - 1,
    decreases rows.len(),
{
    reveal(Seq::filter);
    let rest = rows.drop_last();
    let others = after.drop_last();
    if at == rows.len() - 1 {
        assert(rest =~= others);
    } else {
        lemma_filter_count_update(rest, others, p, at);
        assert(after.last() == rows.last());
    }
}

/// What is unread: nothing in an empty store; one more with each message of someone else
/// that comes in, and none with one's own; one less with one that is read.
pub proof fn law_unread_counts(
    db: DbModel,
    conversation: Seq<char>,
    me: Seq<char>,
    m: MessageModel,
    at: int,
)
    requires
        db.consistent(),
    ensures
        db.messages.len() == 0 ==> db.unread(conversation, me) == 0,
        !db.clashes(m) ==> db.insert_message(m).unread(conversation, me) == db.unread(
            conversation,
            me,
        ) + if to_read(m, conversation, me) {
            1int
        } else {
            0
        },
        0 <= at < db.messages.len() && to_read(db.messages[at], conversation, me)
            ==> db.set_message_status(db.messages[at].id, "read"@).unread(conversation, me)
            == db.unread(conversation, me) - 1,
{
    let p = message_unread(conversation, me);
    reveal(Seq::filter);
    assert(db.messages.push(m).drop_last() =~= db.messages);
    if 0 <= at < db.messages.len() && to_read(db.messages[at], conversation, me) {
        crate::promises::messages::lemma_others_differ(db, at);
        let after = db.set_message_status(db.messages[at].id, "read"@);
        reveal_strlit("read");
        reveal_strlit("delivered");
        assert("read"@.len() != "delivered"@.len());
        lemma_filter_count_update(db.messages, after.messages, p, at);
    }
}

proof fn lemma_filter_true<V>(rows: Seq<V>, p: spec_fn(V) -> bool)
    requires
        forall|x: V| #[trigger] p(x),
    ensures
        rows.filter(p) == rows,
    decreases rows.len(),
{
    reveal(Seq::filter);
    if rows.len() > 0 {
        lemma_filter_true(rows.drop_last(), p);
        assert(rows.drop_last().push(rows.last()) =~= rows);
    } else {
        assert(rows.filter(p) =~= rows);
    }
}

proof fn lemma_listed<V>(
    list: Seq<V>,
    of: Seq<V>,
    filtered: spec_fn(V) -> bool,
    chosen: spec_fn(V) -> bool,
    le: spec_fn(V, V) -> bool,
    limit: int,
)
    requires
        ordered_limited(list, of.filter(filtered), le, limit),
        forall|x: V| #[trigger] chosen(x) <==> filtered(x),
    ensures
        first_of(list, of, chosen, le, limit),
{
    let all = choose|all: Seq<V>| #[trigger]
        ordered(all, of.filter(filtered), le) && list == limited(all, limit);
    let yes = |x: V| true;
    lemma_filter_true(all, yes);
    lemma_first_of(list, all, of, filtered, yes, chosen, le, limit);
}

/// A thread shows the messages, file offers and group messages of a conversation that are
/// not deleted, oldest first.
pub proof fn law_thread_shows_what_is_there(
    db: DbModel,
    conversation: Seq<char>,
    limit: int,
    list: Seq<MessageModel>,
)
    requires
        db.thread_listed(conversation, limit, list),
    ensures
        first_of(list, db.messages, in_thread(conversation), in_time(), limit),
{
    let all = choose|all: Seq<MessageModel>| #[trigger]
        ordered(
            all,
            db.messages.filter(thread_message(conversation)),
            messages_oldest_first(),
        ) && list == limited(all, limit);
    assert(ordered(all, db.messages.filter(thread_message(conversation)), in_time())) by {
        assert forall|i: int, j: int| 0 <= i < j < all.len() implies in_time()(
            #[trigger] all[i],
            #[trigger] all[j],
        ) by {
            assert(messages_oldest_first()(all[i], all[j]));
        }
    }
    lemma_listed(
        list,
        db.messages,
        thread_message(conversation),
        in_thread(conversation),
        in_time(),
        limit,
    );
}

pub open spec fn in_thread(conversation: Seq<char>) -> spec_fn(MessageModel) -> bool {
    |m: MessageModel| shown_in(m, conversation)
}

/// Two characters are the same but for the case of an ASCII letter.
pub open spec fn same_letter(a: char, b: char) -> bool {
    a == b || ('A' <= a <= 'Z' && b as u32 == a as u32 + 32) || ('A' <= b <= 'Z' && a as u32
        == b as u32 + 32)
}

/// A text holds another at a place, but for the case of ASCII letters.
pub open spec fn holds_at(text: Seq<char>, part: Seq<char>, at: int) -> bool {
    &&& 0 <= at
    &&& at + part.len() <= text.len()
    &&& forall|k: int| 0 <= k < part.len() ==> same_letter(text[at + k], #[trigger] part[k])
}

/// A text holds another somewhere, but for the case of ASCII letters.
pub open spec fn holds(text: Seq<char>, part: Seq<char>) -> bool {
    exists|at: int| #[trigger] holds_at(text, part, at)
}

proof fn lemma_same_letter(a: char, b: char)
    ensures
        crate::text::lower_char(a) == crate::text::lower_char(b) <==> same_letter(a, b),
{
}

proof fn lemma_holds_at(text: Seq<char>, part: Seq<char>, at: int)
    requires
        0 <= at,
        at + part.len() <= text.len(),
    ensures
        lowered(text.subrange(at, at + part.len())) == lowered(part) <==> holds_at(text, part, at),
{
    let piece = text.subrange(at, at + part.len());
    if lowered(piece) == lowered(part) {
        assert forall|k: int| 0 <= k < part.len() implies same_letter(
            text[at + k],
            #[trigger] part[k],
        ) by {
            assert(lowered(piece)[k] == lowered(part)[k]);
            lemma_same_letter(piece[k], part[k]);
        }
    }
    if holds_at(text, part, at) {
        assert forall|k: int| 0 <= k < part.len() implies lowered(piece)[k] == lowered(
            part,
        )[k] by {
            assert(same_letter(text[at + k], part[k]));
            lemma_same_letter(piece[k], part[k]);
        }
        assert(lowered(piece) =~= lowered(part));
    }
}

proof fn lemma_holds(text: Seq<char>, part: Seq<char>)
    ensures
        holds_text(text, part) <==> holds(text, part),
{
    if holds_text(text, part) {
        let at: int = choose|at: int|
            0 <= at && at + part.len() <= text.len() && #[trigger] lowered(
                text.subrange(at, at + part.len()),
            ) == lowered(part);
        lemma_holds_at(text, part, at);
    }
    if holds(text, part) {
        let at: int = choose|at: int| #[trigger] holds_at(text, part, at);
        lemma_holds_at(text, part, at);
    }
}

pub open spec fn found_by(
    conversation: Seq<char>,
    query: Seq<char>,
) -> spec_fn(MessageModel) -> bool {
    |m: MessageModel| shown_in(m, conversation) && holds(m.body, cut_at_80(query))
}

pub open spec fn newest_first() -> spec_fn(MessageModel, MessageModel) -> bool {
    |a: MessageModel, b: MessageModel| a.created_at_ms >= b.created_at_ms
}

/// A search finds the messages of a thread that hold the text, whatever the case of its
/// letters, the newest first.
pub proof fn law_search_finds_what_holds_the_text(
    db: DbModel,
    conversation: Seq<char>,
    query: Seq<char>,
    limit: int,
    list: Seq<MessageModel>,
)
    requires
        db.search_listed(conversation, query, limit, list),
    ensures
        first_of(list, db.messages, found_by(conversation, query), newest_first(), limit),
{
    let p = thread_match(conversation, query);
    assert(cut_at_80(query) =~= search_text(query));
    assert forall|m: MessageModel| #[trigger] found_by(conversation, query)(m) <==> p(m) by {
        lemma_holds(m.body, search_text(query));
    }
    let all = choose|all: Seq<MessageModel>| #[trigger]
        ordered(all, db.messages.filter(p), messages_newest_first()) && list == limited(
            all,
            limit,
        );
    assert(ordered(all, db.messages.filter(p), newest_first())) by {
        assert forall|i: int, j: int| 0 <= i < j < all.len() implies newest_first()(
            #[trigger] all[i],
            #[trigger] all[j],
        ) by {
            assert(messages_newest_first()(all[i], all[j]));
        }
    }
    lemma_listed(list, db.messages, p, found_by(conversation, query), newest_first(), limit);
}

// -- queues -------------------------------------------------------------------------------

/// Queueing a message for someone lets it wait until the given time: in its own row, with no
/// attempt counted, or in the row that it has, whose attempts stay.
pub proof fn law_queued_waits(
    db: DbModel,
    id: Seq<char>,
    message: Seq<char>,
    peer: Seq<char>,
    next: i64,
    state: Seq<char>,
)
    ensures
        ({
            let after = db.enqueue_pending(id, message, peer, next, state);
            let waits = exists|i: int|
                0 <= i < db.pending.len() && (#[trigger] db.pending[i]).message_id == message
                    && db.pending[i].peer_id == peer;
            &&& after == (DbModel { pending: after.pending, ..db })
            &&& !waits ==> after.pending == db.pending.push(
                PendingModel {
                    id,
                    message_id: message,
                    peer_id: peer,
                    attempt_count: 0,
                    next_attempt_at_ms: next,
                    state,
                },
            )
            &&& waits ==> after.pending.len() == db.pending.len() && forall|i: int|
                0 <= i < db.pending.len() ==> #[trigger] after.pending[i] == if db.pending[i].message_id
                    == message && db.pending[i].peer_id == peer {
                    PendingModel { next_attempt_at_ms: next, state, ..db.pending[i] }
                } else {
                    db.pending[i]
                }
        }),
{
    let p = pending_is(message, peer);
    if some_row(db.pending, p) {
        let i: int = choose|i: int| 0 <= i < db.pending.len() && p(#[trigger] db.pending[i]);
        assert(db.pending[i].message_id == message && db.pending[i].peer_id == peer);
    } else {
        assert forall|i: int| 0 <= i < db.pending.len() implies !p(#[trigger] db.pending[i]) by {
        }
    }
}

/// Backing off counts an attempt of the message for everyone who waits for it, and lets it
/// wait until the given time.
pub proof fn law_backing_off_counts(db: DbModel, message: Seq<char>, next: i64)
    ensures
        ({
            let after = db.backoff_pending(message, next);
            &&& after == (DbModel { pending: after.pending, ..db })
            &&& after.pending.len() == db.pending.len()
            &&& forall|i: int|
                0 <= i < db.pending.len() && db.pending[i].attempt_count < i64::MAX
                    ==> #[trigger] after.pending[i] == if db.pending[i].message_id == message {
                    PendingModel {
                        attempt_count: (db.pending[i].attempt_count + 1) as i64,
                        next_attempt_at_ms: next,
                        state: "retrying"@,
                        ..db.pending[i]
                    }
                } else {
                    db.pending[i]
                }
        }),
{
}

/// Counting an attempt counts it for that message and peer alone.
pub proof fn law_attempt_is_counted(db: DbModel, message: Seq<char>, peer: Seq<char>)
    ensures
        ({
            let after = db.count_attempt(message, peer);
            &&& after == (DbModel { pending: after.pending, ..db })
            &&& after.pending.len() == db.pending.len()
            &&& forall|i: int|
                0 <= i < db.pending.len() && db.pending[i].attempt_count < i64::MAX
                    ==> #[trigger] after.pending[i] == if db.pending[i].message_id == message
                    && db.pending[i].peer_id == peer {
                    PendingModel {
                        attempt_count: (db.pending[i].attempt_count + 1) as i64,
                        ..db.pending[i]
                    }
                } else {
                    db.pending[i]
                }
        }),
{
}

/// The rows after some were deleted: those that are left, and no other.
pub open spec fn left_over<V>(before: Seq<V>, after: Seq<V>, gone: spec_fn(V) -> bool) -> bool {
    forall|x: V| #[trigger] after.contains(x) <==> before.contains(x) && !gone(x)
}

pub(crate) proof fn lemma_left_over<V>(before: Seq<V>, gone: spec_fn(V) -> bool)
    ensures
        left_over(before, without(before, gone), gone),
{
    let keep = |r: V| !gone(r);
    let after = without(before, gone);
    assert forall|x: V| #[trigger] after.contains(x) <==> before.contains(x) && !gone(x) by {
        if after.contains(x) {
            let i: int = choose|i: int| 0 <= i < after.len() && after[i] == x;
            lemma_filtered_from(before, keep, i);
        }
        if before.contains(x) && !gone(x) {
            let i: int = choose|i: int| 0 <= i < before.len() && before[i] == x;
            before.lemma_filter_contains(keep, i);
        }
    }
}

/// What is taken off a queue is off it, for one peer or for everyone, and nothing else is.
pub proof fn law_taken_off_the_queue(db: DbModel, message: Seq<char>, peer: Seq<char>)
    ensures
        left_over(
            db.pending,
            db.dequeue_pending_for(message, peer).pending,
            |r: PendingModel| r.message_id == message && r.peer_id == peer,
        ),
        left_over(
            db.pending,
            db.dequeue_pending(message).pending,
            |r: PendingModel| r.message_id == message,
        ),
        left_over(
            db.handshakes,
            db.dequeue_handshake(message).handshakes,
            |r: PendingHandshakeModel| r.message_id == message,
        ),
        left_over(
            db.stash,
            db.unstash(message).stash,
            |r: StashModel| r.message_id == message,
        ),
        db.dequeue_pending_for(message, peer).messages == db.messages,
        db.dequeue_pending(message).messages == db.messages,
{
    lemma_left_over(db.pending, pending_is(message, peer));
    lemma_left_over(db.pending, pending_of(message));
    lemma_left_over(db.handshakes, handshake_is(message));
    lemma_left_over(db.stash, stash_is(message));
}

pub open spec fn due_by(now_ms: i64) -> spec_fn(PendingModel) -> bool {
    |r: PendingModel| r.next_attempt_at_ms <= now_ms
}

pub open spec fn waits_longer() -> spec_fn(PendingModel, PendingModel) -> bool {
    |a: PendingModel, b: PendingModel| a.next_attempt_at_ms <= b.next_attempt_at_ms
}

/// What is due is what waits for no later time, the longest waiting first.
pub proof fn law_due_is_what_waited(
    db: DbModel,
    now_ms: i64,
    limit: int,
    list: Seq<PendingModel>,
)
    requires
        db.due_listed(now_ms, limit, list),
    ensures
        first_of(list, db.pending, due_by(now_ms), waits_longer(), limit),
{
    let all = choose|all: Seq<PendingModel>| #[trigger]
        ordered(all, db.pending.filter(pending_due(now_ms)), pending_soonest_first()) && list
            == limited(all, limit);
    assert(ordered(all, db.pending.filter(pending_due(now_ms)), waits_longer())) by {
        assert forall|i: int, j: int| 0 <= i < j < all.len() implies waits_longer()(
            #[trigger] all[i],
            #[trigger] all[j],
        ) by {
            assert(pending_soonest_first()(all[i], all[j]));
        }
    }
    lemma_listed(list, db.pending, pending_due(now_ms), due_by(now_ms), waits_longer(), limit);
}

pub open spec fn handshake_by(now_ms: i64) -> spec_fn(PendingHandshakeModel) -> bool {
    |r: PendingHandshakeModel| r.next_attempt_at_ms <= now_ms
}

pub open spec fn handshake_waits_longer() -> spec_fn(
    PendingHandshakeModel,
    PendingHandshakeModel,
) -> bool {
    |a: PendingHandshakeModel, b: PendingHandshakeModel|
        a.next_attempt_at_ms <= b.next_attempt_at_ms
}

/// The same of handshakes.
pub proof fn law_due_handshakes_are_those_that_waited(
    db: DbModel,
    now_ms: i64,
    limit: int,
    list: Seq<PendingHandshakeModel>,
)
    requires
        db.handshakes_listed(now_ms, limit, list),
    ensures
        first_of(list, db.handshakes, handshake_by(now_ms), handshake_waits_longer(), limit),
{
    let all = choose|all: Seq<PendingHandshakeModel>| #[trigger]
        ordered(all, db.handshakes.filter(handshake_due(now_ms)), handshakes_soonest_first())
            && list == limited(all, limit);
    assert(ordered(all, db.handshakes.filter(handshake_due(now_ms)), handshake_waits_longer())) by {
        assert forall|i: int, j: int| 0 <= i < j < all.len() implies handshake_waits_longer()(
            #[trigger] all[i],
            #[trigger] all[j],
        ) by {
            assert(handshakes_soonest_first()(all[i], all[j]));
        }
    }
    lemma_listed(
        list,
        db.handshakes,
        handshake_due(now_ms),
        handshake_by(now_ms),
        handshake_waits_longer(),
        limit,
    );
}

/// A handshake that is queued waits with its envelope; one that is queued already only waits
/// for the new time. Backing off counts.
pub proof fn law_handshake_waits(
    db: DbModel,
    message: Seq<char>,
    peer: Seq<char>,
    envelope_json: Seq<char>,
    next: i64,
)
    ensures
        ({
            let after = db.enqueue_handshake(message, peer, envelope_json, next);
            let waits = exists|i: int|
                0 <= i < db.handshakes.len() && (#[trigger] db.handshakes[i]).message_id == message;
            &&& after == (DbModel { handshakes: after.handshakes, ..db })
            &&& !waits ==> after.handshakes == db.handshakes.push(
                PendingHandshakeModel {
                    message_id: message,
                    peer_username: peer,
                    envelope_json,
                    attempt_count: 0,
                    next_attempt_at_ms: next,
                },
            )
            &&& waits ==> after.handshakes.len() == db.handshakes.len() && forall|i: int|
                0 <= i < db.handshakes.len() ==> #[trigger] after.handshakes[i]
                    == if db.handshakes[i].message_id == message {
                    PendingHandshakeModel { next_attempt_at_ms: next, ..db.handshakes[i] }
                } else {
                    db.handshakes[i]
                }
        }),
        ({
            let after = db.backoff_handshake(message, next);
            &&& after == (DbModel { handshakes: after.handshakes, ..db })
            &&& after.handshakes.len() == db.handshakes.len()
            &&& forall|i: int|
                0 <= i < db.handshakes.len() && db.handshakes[i].attempt_count < i64::MAX
                    ==> #[trigger] after.handshakes[i] == if db.handshakes[i].message_id
                    == message {
                    PendingHandshakeModel {
                        attempt_count: (db.handshakes[i].attempt_count + 1) as i64,
                        next_attempt_at_ms: next,
                        ..db.handshakes[i]
                    }
                } else {
                    db.handshakes[i]
                }
        }),
{
    let p = handshake_is(message);
    if some_row(db.handshakes, p) {
        let i: int = choose|i: int| 0 <= i < db.handshakes.len() && p(#[trigger] db.handshakes[i]);
        assert(db.handshakes[i].message_id == message);
    } else {
        assert forall|i: int| 0 <= i < db.handshakes.len() implies !p(
            #[trigger] db.handshakes[i],
        ) by {
        }
    }
}

/// A cursor is at the highest number that it was told.
pub proof fn law_cursor_is_at_the_highest(
    db: DbModel,
    peer: Seq<char>,
    conversation: Seq<char>,
    number: i64,
    now_ms: i64,
)
    ensures
        ({
            let after = db.update_sync_cursor(peer, conversation, number, now_ms);
            let known = exists|i: int|
                0 <= i < db.cursors.len() && (#[trigger] db.cursors[i]).peer_id == peer
                    && db.cursors[i].conversation_id == conversation;
            &&& after == (DbModel { cursors: after.cursors, ..db })
            &&& !known ==> after.cursors == db.cursors.push(
                CursorModel {
                    peer_id: peer,
                    conversation_id: conversation,
                    last_sequence: number,
                    updated_at_ms: now_ms,
                },
            )
            &&& known ==> after.cursors.len() == db.cursors.len() && forall|i: int|
                0 <= i < db.cursors.len() ==> {
                    let row = #[trigger] after.cursors[i];
                    if db.cursors[i].peer_id == peer && db.cursors[i].conversation_id
                        == conversation {
                        &&& row.last_sequence == if number > db.cursors[i].last_sequence {
                            number
                        } else {
                            db.cursors[i].last_sequence
                        }
                        &&& row.peer_id == peer && row.conversation_id == conversation
                    } else {
                        row == db.cursors[i]
                    }
                }
        }),
{
    let p = cursor_is(peer, conversation);
    if some_row(db.cursors, p) {
        let i: int = choose|i: int| 0 <= i < db.cursors.len() && p(#[trigger] db.cursors[i]);
        assert(db.cursors[i].peer_id == peer && db.cursors[i].conversation_id == conversation);
    } else {
        assert forall|i: int| 0 <= i < db.cursors.len() implies !p(#[trigger] db.cursors[i]) by {
        }
    }
}

/// Acknowledged mail is acked, mail past its time is expired, and other mail stays as it is.
pub proof fn law_mail_changes_state(db: DbModel, id: Seq<char>, now_ms: i64)
    ensures
        ({
            let acked = db.ack_mailbox(id);
            let expired = db.expire_mailbox(now_ms);
            &&& acked == (DbModel { mailbox: acked.mailbox, ..db })
            &&& expired == (DbModel { mailbox: expired.mailbox, ..db })
            &&& acked.mailbox.len() == db.mailbox.len()
            &&& expired.mailbox.len() == db.mailbox.len()
            &&& forall|i: int|
                0 <= i < db.mailbox.len() ==> #[trigger] acked.mailbox[i] == if db.mailbox[i].id
                    == id {
                    MailboxModel { state: "acked"@, ..db.mailbox[i] }
                } else {
                    db.mailbox[i]
                }
            &&& forall|i: int|
                0 <= i < db.mailbox.len() ==> #[trigger] expired.mailbox[i]
                    == if db.mailbox[i].state == "pending"@ && db.mailbox[i].expires_at_ms
                    <= now_ms {
                    MailboxModel { state: "expired"@, ..db.mailbox[i] }
                } else {
                    db.mailbox[i]
                }
        }),
{
}

// -- people and conversations -----------------------------------------------------------------

/// The profile is what was saved last; it keeps the time at which it was made.
pub proof fn law_profile_is_what_was_saved(
    db: DbModel,
    username: Seq<char>,
    display_name: Seq<char>,
    now_ms: i64,
)
    ensures
        ({
            let after = db.save_profile(username, display_name, now_ms);
            &&& after == (DbModel { profile: after.profile, ..db })
            &&& after.profile is Some
            &&& after.profile->0.username == username
            &&& after.profile->0.display_name == display_name
            &&& db.profile is Some ==> after.profile->0.created_at_ms
                == db.profile->0.created_at_ms
            &&& db.profile is None ==> after.profile->0.created_at_ms == now_ms
        }),
{
}

/// Everyone is listed once, in the order of their names.
pub proof fn law_contacts_are_listed_once(db: DbModel, list: Seq<ContactModel>)
    requires
        db.contacts_listed(list),
    ensures
        list.len() == db.contacts.len(),
        forall|i: int|
            0 <= i < db.contacts.len() ==> list.contains((#[trigger] db.contacts[i]).contact),
        forall|j: int|
            0 <= j < list.len() ==> exists|i: int|
                0 <= i < db.contacts.len() && (#[trigger] db.contacts[i]).contact
                    == #[trigger] list[j],
        forall|i: int, j: int|
            0 <= i < j < list.len() ==> crate::text::text_le(
                (#[trigger] list[i]).username,
                (#[trigger] list[j]).username,
            ),
{
    let of = crate::database::model::contacts_of(db.contacts);
    let le = crate::database::model::contacts_by_name();
    lemma_ordered(list, of, le);
    assert forall|i: int| 0 <= i < db.contacts.len() implies list.contains(
        (#[trigger] db.contacts[i]).contact,
    ) by {
        assert(of[i] == db.contacts[i].contact);
        assert(of.contains(of[i]));
    }
    assert forall|j: int| 0 <= j < list.len() implies exists|i: int|
        0 <= i < db.contacts.len() && (#[trigger] db.contacts[i]).contact == #[trigger] list[j] by {
        assert(list.contains(list[j]));
        let i: int = choose|i: int| 0 <= i < of.len() && of[i] == list[j];
        assert(db.contacts[i].contact == list[j]);
    }
    assert forall|i: int, j: int| 0 <= i < j < list.len() implies crate::text::text_le(
        (#[trigger] list[i]).username,
        (#[trigger] list[j]).username,
    ) by {
        assert(le(list[i], list[j]));
    }
}

/// The requests with a status, or all of them, the newest first.
pub proof fn law_requests_are_listed(
    db: DbModel,
    status: Option<Seq<char>>,
    list: Seq<FriendRequestModel>,
)
    requires
        db.requests_listed(status, list),
    ensures
        forall|i: int|
            0 <= i < db.requests.len() && (status is None || status->0 == (
            #[trigger] db.requests[i]).request.status) ==> list.contains(db.requests[i].request),
        forall|j: int|
            0 <= j < list.len() ==> status is None || status->0 == (#[trigger] list[j]).status,
        forall|j: int|
            0 <= j < list.len() ==> requests_of(db.requests).contains(#[trigger] list[j]),
        forall|i: int, j: int|
            0 <= i < j < list.len() ==> (#[trigger] list[i]).created_at_ms >= (
            #[trigger] list[j]).created_at_ms,
{
    let all = requests_of(db.requests);
    let p = request_has(status);
    let of = all.filter(p);
    lemma_ordered(list, of, requests_newest_first());
    assert forall|i: int|
        0 <= i < db.requests.len() && (status is None || status->0 == (
        #[trigger] db.requests[i]).request.status) implies list.contains(
        db.requests[i].request,
    ) by {
        assert(all[i] == db.requests[i].request);
        all.lemma_filter_contains(p, i);
    }
    assert forall|j: int| 0 <= j < list.len() implies (status is None || status->0 == (
    #[trigger] list[j]).status) && all.contains(list[j]) by {
        assert(list.contains(list[j]));
        let k: int = choose|k: int| 0 <= k < of.len() && of[k] == list[j];
        lemma_filtered_from(all, p, k);
    }
    assert forall|i: int, j: int| 0 <= i < j < list.len() implies (
    #[trigger] list[i]).created_at_ms >= (#[trigger] list[j]).created_at_ms by {
        assert(requests_newest_first()(list[i], list[j]));
    }
}

/// A conversation that is made has its kind and name and no last message; one that is there
/// keeps its kind and gets the name. Renaming and previews change one conversation alone.
pub proof fn law_conversation_is_made_or_renamed(
    db: DbModel,
    id: Seq<char>,
    kind: Seq<char>,
    name: Seq<char>,
    names: Seq<Seq<char>>,
    now_ms: i64,
)
    ensures
        ({
            let after = db.create_conversation(id, kind, name, names, now_ms);
            let there = exists|i: int|
                0 <= i < db.conversations.len() && (#[trigger] db.conversations[i]).id == id;
            &&& after == (DbModel {
                conversations: after.conversations,
                members: after.members,
                ..db
            })
            &&& !there ==> after.conversations == db.conversations.push(
                ConversationRowModel {
                    id,
                    kind,
                    name,
                    created_at_ms: now_ms,
                    updated_at_ms: now_ms,
                    last_message_id: None,
                    last_message_preview: None,
                },
            )
            &&& there ==> after.conversations == db.rename_conversation(
                id,
                name,
                now_ms,
            ).conversations
        }),
        ({
            let after = db.rename_conversation(id, name, now_ms);
            &&& after == (DbModel { conversations: after.conversations, ..db })
            &&& after.conversations.len() == db.conversations.len()
            &&& forall|i: int|
                0 <= i < db.conversations.len() ==> #[trigger] after.conversations[i]
                    == if db.conversations[i].id == id {
                    ConversationRowModel { name, updated_at_ms: now_ms, ..db.conversations[i] }
                } else {
                    db.conversations[i]
                }
        }),
        ({
            let after = db.set_conversation_preview(id, name, now_ms);
            &&& after == (DbModel { conversations: after.conversations, ..db })
            &&& after.conversations.len() == db.conversations.len()
            &&& forall|i: int|
                0 <= i < db.conversations.len() ==> #[trigger] after.conversations[i]
                    == if db.conversations[i].id == id {
                    ConversationRowModel {
                        last_message_preview: Some(name),
                        updated_at_ms: now_ms,
                        ..db.conversations[i]
                    }
                } else {
                    db.conversations[i]
                }
        }),
{
    let p = conversation_is(id);
    if some_row(db.conversations, p) {
        let i: int = choose|i: int|
            0 <= i < db.conversations.len() && p(#[trigger] db.conversations[i]);
        assert(db.conversations[i].id == id);
    } else {
        assert forall|i: int| 0 <= i < db.conversations.len() implies !p(
            #[trigger] db.conversations[i],
        ) by {
        }
    }
}

/// A device that is saved again keeps its keys and the time at which it was made.
pub proof fn law_device_keeps_its_keys(db: DbModel, device: DeviceModel)
    ensures
        ({
            let after = db.save_device(device);
            let known = exists|i: int|
                0 <= i < db.devices.len() && (#[trigger] db.devices[i]).id == device.id;
            &&& after == (DbModel { devices: after.devices, ..db })
            &&& !known ==> after.devices == db.devices.push(device)
            &&& known ==> after.devices.len() == db.devices.len() && forall|i: int|
                0 <= i < db.devices.len() ==> #[trigger] after.devices[i] == if db.devices[i].id
                    == device.id {
                    DeviceModel {
                        ed25519_pubkey: db.devices[i].ed25519_pubkey,
                        x25519_pubkey: db.devices[i].x25519_pubkey,
                        created_at_ms: db.devices[i].created_at_ms,
                        ..device
                    }
                } else {
                    db.devices[i]
                }
        }),
{
    let p = device_is(device.id);
    if some_row(db.devices, p) {
        let i: int = choose|i: int| 0 <= i < db.devices.len() && p(#[trigger] db.devices[i]);
        assert(db.devices[i].id == device.id);
    } else {
        assert forall|i: int| 0 <= i < db.devices.len() implies !p(#[trigger] db.devices[i]) by {
        }
    }
}

/// A transfer that is saved again changes its state, its progress and its place alone; one
/// that is new is stored as it is, without an offer.
pub proof fn law_transfer_is_saved(db: DbModel, file: FileTransferModel)
    ensures
        ({
            let after = db.save_file(file);
            let known = exists|i: int|
                0 <= i < db.files.len() && (#[trigger] db.files[i]).file.id == file.id;
            &&& after == (DbModel { files: after.files, ..db })
            &&& !known ==> after.files == db.files.push(FileRowModel { file, offer_json: None })
            &&& known ==> after.files.len() == db.files.len() && forall|i: int|
                0 <= i < db.files.len() ==> #[trigger] after.files[i] == if db.files[i].file.id
                    == file.id {
                    FileRowModel {
                        file: FileTransferModel {
                            state: file.state,
                            bytes_done: file.bytes_done,
                            local_path: file.local_path,
                            ..db.files[i].file
                        },
                        ..db.files[i]
                    }
                } else {
                    db.files[i]
                }
        }),
{
    let p = file_is(file.id);
    if some_row(db.files, p) {
        let i: int = choose|i: int| 0 <= i < db.files.len() && p(#[trigger] db.files[i]);
        assert(db.files[i].file.id == file.id);
    } else {
        assert forall|i: int| 0 <= i < db.files.len() implies !p(#[trigger] db.files[i]) by {
        }
    }
}

/// Deleting a conversation deletes everything in it, and nothing else.
pub proof fn law_deleted_conversation_leaves_nothing(db: DbModel, id: Seq<char>)
    requires
        exists|i: int| 0 <= i < db.conversations.len() && (#[trigger] db.conversations[i]).id == id,
    ensures
        ({
            let after = db.delete_conversation(id);
            &&& left_over(
                db.conversations,
                after.conversations,
                |r: ConversationRowModel| r.id == id,
            )
            &&& left_over(
                db.members,
                after.members,
                |r: crate::records::MemberModel| r.conversation_id == id,
            )
            &&& left_over(
                db.messages,
                after.messages,
                |r: MessageModel| r.conversation_id == id,
            )
            &&& left_over(
                db.groups,
                after.groups,
                |r: crate::records::GroupModel| r.group_id == id,
            )
            &&& left_over(
                db.group_keys,
                after.group_keys,
                |r: crate::records::GroupKeyModel| r.group_id == id,
            )
            &&& left_over(
                db.files,
                after.files,
                |r: FileRowModel| r.file.conversation_id == id,
            )
            &&& after.contacts == db.contacts
            &&& after.requests == db.requests
            &&& after.profile == db.profile
            &&& after.settings == db.settings
        }),
{
    let i: int = choose|i: int|
        0 <= i < db.conversations.len() && (#[trigger] db.conversations[i]).id == id;
    assert(conversation_is(id)(db.conversations[i]));
    lemma_left_over(db.conversations, conversation_is(id));
    lemma_left_over(db.members, crate::database::model::member_of(id));
    lemma_left_over(db.messages, crate::database::model::message_in(id));
    lemma_left_over(db.groups, crate::database::model::group_is(id));
    lemma_left_over(db.group_keys, crate::database::model::group_key_of(id));
    lemma_left_over(db.files, crate::database::model::file_in(id));
}

/// A wipe leaves the settings and what is stashed, and nothing else.
pub proof fn law_wipe_leaves_nothing_else(db: DbModel)
    ensures
        ({
            let after = db.wiped();
            &&& after.settings == db.settings
            &&& after.stash == db.stash
            &&& after.profile is None
            &&& after.devices.len() == 0
            &&& after.contacts.len() == 0
            &&& after.requests.len() == 0
            &&& after.conversations.len() == 0
            &&& after.members.len() == 0
            &&& after.messages.len() == 0
            &&& after.pending.len() == 0
            &&& after.handshakes.len() == 0
            &&& after.cursors.len() == 0
            &&& after.numbers.len() == 0
            &&& after.groups.len() == 0
            &&& after.group_keys.len() == 0
            &&& after.files.len() == 0
            &&& after.mailbox.len() == 0
        }),
{
}

/// A handshake that is stashed is kept as it came, beside what was there, as long as there is
/// room; one that is there already changes nothing.
pub proof fn law_stashed_is_kept(db: DbModel, row: StashModel, after: DbModel)
    requires
        db.consistent(),
        db.stashed(row, after),
        db.stash.len() < 200,
    ensures
        after == (DbModel { stash: after.stash, ..db }),
        (exists|i: int|
            0 <= i < db.stash.len() && (#[trigger] db.stash[i]).message_id == row.message_id)
            ==> left_over(db.stash, after.stash, |s: StashModel| false),
        (forall|i: int|
            0 <= i < db.stash.len() ==> (#[trigger] db.stash[i]).message_id != row.message_id)
            ==> left_over(db.stash.push(row), after.stash, |s: StashModel| false),
{
    let all = db.stash_added(row);
    let p = stash_is(row.message_id);
    let kept = choose|kept: Seq<StashModel>| #[trigger]
        ordered_limited(
            kept,
            all,
            crate::database::model::stash_newest_first(),
            crate::database::model::STASH_LIMIT as int,
        ) && after == (DbModel {
            stash: without(all, crate::database::model::stash_beyond(kept)),
            ..db
        });
    let sorted = choose|s: Seq<StashModel>| #[trigger]
        ordered(s, all, crate::database::model::stash_newest_first()) && kept == limited(
            s,
            crate::database::model::STASH_LIMIT as int,
        );
    lemma_ordered(sorted, all, crate::database::model::stash_newest_first());
    assert(all.len() <= 200);
    assert(kept == sorted);
    let gone = crate::database::model::stash_beyond(kept);
    lemma_left_over(all, gone);
    assert forall|x: StashModel| all.contains(x) implies !gone(x) by {
        assert(kept.contains(x));
        let k: int = choose|k: int| 0 <= k < kept.len() && kept[k] == x;
        assert(stash_is(x.message_id)(kept[k]));
    }
    assert forall|x: StashModel| #[trigger] after.stash.contains(x) <==> all.contains(x) by {
    }
    if some_row(db.stash, p) {
        let i: int = choose|i: int| 0 <= i < db.stash.len() && p(#[trigger] db.stash[i]);
        assert(db.stash[i].message_id == row.message_id);
    } else if exists|i: int|
        0 <= i < db.stash.len() && (#[trigger] db.stash[i]).message_id == row.message_id {
        let i: int = choose|i: int|
            0 <= i < db.stash.len() && (#[trigger] db.stash[i]).message_id == row.message_id;
        assert(p(db.stash[i]));
    }
}

/// A request that is saved is stored as it is; one that is there already only gets the new
/// status. A new status changes that request alone.
pub proof fn law_request_is_saved(
    db: DbModel,
    request: FriendRequestModel,
    status: Seq<char>,
    now_ms: i64,
)
    ensures
        ({
            let after = db.save_friend_request(request, now_ms);
            let known = exists|i: int|
                0 <= i < db.requests.len() && (#[trigger] db.requests[i]).request.id == request.id;
            &&& after == (DbModel { requests: after.requests, ..db })
            &&& !known ==> after.requests == db.requests.push(
                RequestRowModel { request, updated_at_ms: now_ms },
            )
            &&& known ==> after.requests == db.set_friend_request_status(
                request.id,
                request.status,
                now_ms,
            ).requests
        }),
        ({
            let after = db.set_friend_request_status(request.id, status, now_ms);
            &&& after == (DbModel { requests: after.requests, ..db })
            &&& after.requests.len() == db.requests.len()
            &&& forall|i: int|
                0 <= i < db.requests.len() ==> #[trigger] after.requests[i]
                    == if db.requests[i].request.id == request.id {
                    RequestRowModel {
                        request: FriendRequestModel { status, ..db.requests[i].request },
                        updated_at_ms: now_ms,
                    }
                } else {
                    db.requests[i]
                }
        }),
{
    let p = crate::database::model::request_is(request.id);
    if some_row(db.requests, p) {
        let i: int = choose|i: int| 0 <= i < db.requests.len() && p(#[trigger] db.requests[i]);
        assert(db.requests[i].request.id == request.id);
    } else {
        assert forall|i: int| 0 <= i < db.requests.len() implies !p(#[trigger] db.requests[i]) by {
        }
    }
}

/// The next control number of a device in a conversation is one more than the last that it
/// used there, and the first is one.
pub proof fn law_next_control_is_one_more(
    db: DbModel,
    conversation: Seq<char>,
    device: Seq<char>,
    at: int,
)
    requires
        db.consistent(),
    ensures
        0 <= at < db.numbers.len() && db.numbers[at].conversation_id == conversation
            && db.numbers[at].device_id == device && db.numbers[at].control ==> db.next_control(
            conversation,
            device,
        ) == db.numbers[at].last_number + 1,
        (forall|i: int|
            0 <= i < db.numbers.len() ==> !((#[trigger] db.numbers[i]).conversation_id
                == conversation && db.numbers[i].device_id == device && db.numbers[i].control))
            ==> db.next_control(conversation, device) == 1,
{
    let p = crate::database::model::number_is(conversation, device, true);
    let key = crate::database::model::number_key();
    crate::table::lemma_first_row(db.numbers, p);
    if 0 <= at < db.numbers.len() && p(db.numbers[at]) {
        let k: int = choose|k: int|
            0 <= k < db.numbers.len() && db.numbers[k] == crate::table::first_row(
                db.numbers,
                p,
            )->0;
        assert(key(db.numbers[k]) == key(db.numbers[at]));
        assert(k == at);
    }
}

} // verus!
