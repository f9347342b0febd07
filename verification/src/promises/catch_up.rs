//! Catching up: what is sent again, and what becomes read.

use vstd::prelude::*;

use crate::database::model::{messages_oldest_first, thread_message};
use crate::database::DbModel;
use crate::error::Error;
use crate::identity::IdentityModel;
use crate::ids::uuid_parsed;
use crate::payload::PayloadModel;
use crate::promises::messages::{
    lemma_filtered_from, lemma_no_duplicates_filtered, lemma_others_differ,
};
use crate::promises::restated;
use crate::protocol::{EnvelopeModel, MessageType};
use crate::records::MessageModel;
use crate::routing::{
    content_applied, gap_resent, opened_applied, OpenedModel, OutcomeModel, Stage, WorkModel,
};
use crate::sync::{
    listed_after, marked_read, message_after, message_read, receipt_applied, NO_LIMIT,
};
use crate::table::{lemma_ordered, limited, ordered, sorted_by};

verus! {

/// A message that is shown in the thread of a conversation.
pub open spec fn shown_in(m: MessageModel, conversation: Seq<char>) -> bool {
    &&& m.conversation_id == conversation
    &&& m.deleted_at_ms is None
    &&& m.message_type == "Message"@ || m.message_type == "FileOffer"@ || m.message_type
        == "GroupMessage"@
}

/// A message comes no later than another: by its time, then by its number.
pub open spec fn no_later(a: MessageModel, b: MessageModel) -> bool {
    a.created_at_ms < b.created_at_ms || (a.created_at_ms == b.created_at_ms && a.sequence
        <= b.sequence)
}

/// The messages that the thread of a conversation shows after a number.
pub open spec fn missed_in(conversation: Seq<char>, after: i64) -> spec_fn(MessageModel) -> bool {
    |m: MessageModel| shown_in(m, conversation) && m.sequence > after
}

pub open spec fn in_time() -> spec_fn(MessageModel, MessageModel) -> bool {
    |a: MessageModel, b: MessageModel| no_later(a, b)
}

/// What is left of ordered rows is ordered.
pub(crate) proof fn lemma_sorted_filtered<V>(
    rows: Seq<V>,
    le: spec_fn(V, V) -> bool,
    p: spec_fn(V) -> bool,
)
    requires
        sorted_by(rows, le),
    ensures
        sorted_by(rows.filter(p), le),
    decreases rows.len(),
{
    reveal(Seq::filter);
    if rows.len() > 0 {
        let rest = rows.drop_last();
        assert(sorted_by(rest, le)) by {
            assert forall|i: int, j: int| 0 <= i < j < rest.len() implies le(
                #[trigger] rest[i],
                #[trigger] rest[j],
            ) by {
                assert(rest[i] == rows[i] && rest[j] == rows[j]);
            }
        }
        lemma_sorted_filtered(rest, le, p);
        let kept = rest.filter(p);
        let all = rows.filter(p);
        assert forall|i: int, j: int| 0 <= i < j < all.len() implies le(
            #[trigger] all[i],
            #[trigger] all[j],
        ) by {
            if j < kept.len() {
                assert(all[i] == kept[i] && all[j] == kept[j]);
            } else {
                lemma_filtered_from(rest, p, i);
                let k: int = choose|k: int| 0 <= k < rest.len() && rest[k] == kept[i];
                assert(le(rows[k], rows[rows.len() - 1]));
            }
        }
    }
}

/// The first rows of an ordering: each is one of the rows, they are in order, and one that
/// is left out comes after all of them.
pub open spec fn first_of<V>(
    list: Seq<V>,
    of: Seq<V>,
    chosen: spec_fn(V) -> bool,
    le: spec_fn(V, V) -> bool,
    limit: int,
) -> bool {
    &&& limit >= 0 ==> list.len() <= limit
    &&& forall|j: int| 0 <= j < list.len() ==> of.contains(#[trigger] list[j]) && chosen(list[j])
    &&& forall|i: int, j: int| 0 <= i < j < list.len() ==> le(#[trigger] list[i], #[trigger] list[j])
    &&& of.no_duplicates() ==> list.no_duplicates()
    &&& forall|i: int|
        0 <= i < of.len() && chosen(#[trigger] of[i]) ==> list.contains(of[i]) || (limit >= 0
            && list.len() == limit && forall|j: int|
            0 <= j < list.len() ==> le(#[trigger] list[j], of[i]))
}

pub(crate) proof fn lemma_first_of<V>(
    list: Seq<V>,
    all: Seq<V>,
    of: Seq<V>,
    filtered: spec_fn(V) -> bool,
    p: spec_fn(V) -> bool,
    chosen: spec_fn(V) -> bool,
    le: spec_fn(V, V) -> bool,
    limit: int,
)
    requires
        ordered(all, of.filter(filtered), le),
        list == limited(all.filter(p), limit),
        forall|x: V| #[trigger] chosen(x) <==> filtered(x) && p(x),
    ensures
        first_of(list, of, chosen, le, limit),
{
    let some = of.filter(filtered);
    let kept = all.filter(p);
    lemma_ordered(all, some, le);
    lemma_sorted_filtered(all, le, p);
    assert forall|j: int| 0 <= j < kept.len() implies of.contains(#[trigger] kept[j]) && chosen(
        kept[j],
    ) by {
        lemma_filtered_from(all, p, j);
        assert(some.contains(kept[j]));
        let k: int = choose|k: int| 0 <= k < some.len() && some[k] == kept[j];
        lemma_filtered_from(of, filtered, k);
    }
    if of.no_duplicates() {
        lemma_no_duplicates_filtered(of, filtered);
        lemma_no_duplicates_filtered(all, p);
    }
    assert forall|i: int| 0 <= i < of.len() && chosen(#[trigger] of[i]) implies list.contains(of[i])
        || (limit >= 0 && list.len() == limit && forall|j: int|
        0 <= j < list.len() ==> le(#[trigger] list[j], of[i])) by {
        of.lemma_filter_contains(filtered, i);
        assert(all.contains(of[i]));
        let a: int = choose|a: int| 0 <= a < all.len() && all[a] == of[i];
        all.lemma_filter_contains(p, a);
        let k: int = choose|k: int| 0 <= k < kept.len() && kept[k] == of[i];
        if k < list.len() {
            assert(list[k] == of[i]);
        } else {
            assert forall|j: int| 0 <= j < list.len() implies le(#[trigger] list[j], of[i]) by {
                assert(le(kept[j], kept[k]));
            }
        }
    }
}

/// What is listed after a number are the messages that the thread shows with a higher one,
/// oldest first; where there are too many, the first of them.
pub proof fn law_listed_are_those_missed(
    db: DbModel,
    conversation: Seq<char>,
    after: i64,
    limit: int,
    list: Seq<MessageModel>,
)
    requires
        listed_after(db, conversation, after, limit, list),
    ensures
        first_of(
            list,
            db.messages,
            missed_in(conversation, after),
            in_time(),
            limit,
        ),
{
    let all = choose|all: Seq<MessageModel>| #[trigger]
        db.thread_listed(conversation, NO_LIMIT as int, all) && list == limited(
            all.filter(message_after(after)),
            limit,
        );
    let chosen = missed_in(conversation, after);
    let le = in_time();
    let of = db.messages.filter(thread_message(conversation));
    let whole = choose|whole: Seq<MessageModel>| #[trigger]
        ordered(whole, of, messages_oldest_first()) && all == limited(whole, NO_LIMIT as int);
    assert(all == whole);
    assert(ordered(all, of, le)) by {
        assert forall|i: int, j: int| 0 <= i < j < all.len() implies le(
            #[trigger] all[i],
            #[trigger] all[j],
        ) by {
            assert(messages_oldest_first()(all[i], all[j]));
        }
    }
    lemma_first_of(
        list,
        all,
        db.messages,
        thread_message(conversation),
        message_after(after),
        chosen,
        le,
        limit,
    );
}

/// A stored message is sent again as it is: to someone, under its own id, with its number
/// and its ciphertext, as the kind of message that it is.
pub open spec fn sent_again(
    work: WorkModel,
    to: Seq<char>,
    device: Seq<u8>,
    conversation: Seq<u8>,
    m: MessageModel,
) -> bool {
    &&& work.peer_username == to
    &&& uuid_parsed(m.id) is Some ==> Some(work.envelope.message_id) == uuid_parsed(m.id)
    &&& work.envelope.ciphertext == m.ciphertext
    &&& m.sequence >= 0 ==> work.envelope.sequence == m.sequence
    &&& work.envelope.conversation_id == conversation
    &&& work.envelope.sender_device_id == device
    &&& m.message_type == "Message"@ ==> work.envelope.message_type == MessageType::Message
    &&& m.message_type == "FileOffer"@ ==> work.envelope.message_type == MessageType::FileOffer
    &&& m.message_type == "GroupMessage"@ ==> work.envelope.message_type
        == MessageType::GroupMessage
}

/// Whoever asks in a direct conversation for what they missed is sent it again: every message
/// that the thread shows after the number that they have, or the first 200 of them, each once
/// and in order. The store stays as it is, but for how far they are in step.
pub proof fn law_missed_messages_are_sent_again(
    before: DbModel,
    after: DbModel,
    identity: IdentityModel,
    device: Seq<u8>,
    opened: OpenedModel,
    e: EnvelopeModel,
    requested: Seq<char>,
    after_sequence: i64,
    offer_json: Seq<char>,
    endpoint: Seq<char>,
    fresh: Seq<char>,
    now_ms: i64,
    r: Result<OutcomeModel, Error>,
)
    requires
        opened.stage == Stage::Direct,
        opened_applied(
            before,
            after,
            identity,
            device,
            opened,
            e,
            Some(
                PayloadModel::SyncRequest {
                    from: opened.from,
                    conversation_id: requested,
                    after_sequence,
                },
            ),
            offer_json,
            endpoint,
            fresh,
            now_ms,
            r,
        ),
    ensures
        r is Ok,
        after == (DbModel { cursors: after.cursors, ..before }),
        exists|list: Seq<MessageModel>|
            {
                &&& #[trigger] first_of(
                    list,
                    before.messages,
                    missed_in(requested, after_sequence),
                    in_time(),
                    200,
                )
                &&& r->Ok_0.works.len() == list.len()
                &&& forall|j: int|
                    0 <= j < list.len() ==> sent_again(
                        #[trigger] r->Ok_0.works[j],
                        opened.from,
                        device,
                        e.conversation_id,
                        list[j],
                    )
            },
{
    let payload = PayloadModel::SyncRequest {
        from: opened.from,
        conversation_id: requested,
        after_sequence,
    };
    assert(gap_resent(
        before,
        opened.from,
        identity,
        device,
        e.conversation_id,
        requested,
        after_sequence,
        now_ms,
        r->Ok_0,
    ));
    let list = choose|list: Seq<MessageModel>|
        {
            &&& #[trigger] listed_after(before, requested, after_sequence, 200, list)
            &&& r->Ok_0.works.len() == list.len()
            &&& forall|i: int|
                0 <= i < list.len() ==> crate::routing::resent_to(
                    #[trigger] r->Ok_0.works[i],
                    opened.from,
                    identity,
                    device,
                    e.conversation_id,
                    list[i],
                    now_ms,
                )
        };
    law_listed_are_those_missed(before, requested, after_sequence, 200, list);
    assert forall|j: int| 0 <= j < list.len() implies sent_again(
        #[trigger] r->Ok_0.works[j],
        opened.from,
        device,
        e.conversation_id,
        list[j],
    ) by {
        lemma_type_names(list[j].message_type);
    }
}

pub(crate) proof fn lemma_type_names(name: Seq<char>)
    ensures
        name == "Message"@ ==> crate::sync::type_named(name) == MessageType::Message,
        name == "FileOffer"@ ==> crate::sync::type_named(name) == MessageType::FileOffer,
        name == "GroupMessage"@ ==> crate::sync::type_named(name) == MessageType::GroupMessage,
{
    reveal_strlit("Message");
    reveal_strlit("MessageEdit");
    reveal_strlit("MessageDelete");
    reveal_strlit("DeliveryAck");
    reveal_strlit("ReadAck");
    reveal_strlit("Typing");
    reveal_strlit("Presence");
    reveal_strlit("SyncRequest");
    reveal_strlit("SyncResponse");
    reveal_strlit("GroupCommit");
    reveal_strlit("GroupMessage");
    reveal_strlit("GroupSync");
    reveal_strlit("FileOffer");
    reveal_strlit("FileAccept");
    reveal_strlit("FileChunk");
    reveal_strlit("FileAck");
    reveal_strlit("FileComplete");
    reveal_strlit("FriendRequest");
    reveal_strlit("FriendResponse");
    assert("Message"@.len() == 7 && "Message"@[0] == 'M');
    assert("MessageEdit"@.len() == 11 && "MessageEdit"@[0] == 'M');
    assert("MessageDelete"@.len() == 13 && "MessageDelete"@[0] == 'M');
    assert("DeliveryAck"@.len() == 11 && "DeliveryAck"@[0] == 'D');
    assert("ReadAck"@.len() == 7 && "ReadAck"@[0] == 'R');
    assert("Typing"@.len() == 6 && "Typing"@[0] == 'T');
    assert("Presence"@.len() == 8 && "Presence"@[0] == 'P');
    assert("SyncRequest"@.len() == 11 && "SyncRequest"@[0] == 'S');
    assert("SyncResponse"@.len() == 12 && "SyncResponse"@[0] == 'S');
    assert("GroupCommit"@.len() == 11 && "GroupCommit"@[0] == 'G');
    assert("GroupMessage"@.len() == 12 && "GroupMessage"@[0] == 'G');
    assert("GroupSync"@.len() == 9 && "GroupSync"@[0] == 'G');
    assert("FileOffer"@.len() == 9 && "FileOffer"@[0] == 'F');
    assert("FileAccept"@.len() == 10 && "FileAccept"@[0] == 'F');
    assert("FileChunk"@.len() == 9 && "FileChunk"@[0] == 'F');
    assert("FileAck"@.len() == 7 && "FileAck"@[0] == 'F');
    assert("FileComplete"@.len() == 12 && "FileComplete"@[0] == 'F');
    assert("FriendRequest"@.len() == 13 && "FriendRequest"@[0] == 'F');
    assert("FriendResponse"@.len() == 14 && "FriendResponse"@[0] == 'F');
}

/// The message at a place has become read if it is one of these, and is otherwise as it was.
proof fn lemma_marked_read(db: DbModel, rows: Seq<MessageModel>, at: int)
    requires
        0 <= at < db.messages.len(),
    ensures
        ({
            let after = marked_read(db, rows);
            let named = exists|j: int|
                0 <= j < rows.len() && (#[trigger] rows[j]).id == db.messages[at].id;
            &&& after == (DbModel { messages: after.messages, ..db })
            &&& after.messages.len() == db.messages.len()
            &&& after.messages[at].id == db.messages[at].id
            &&& named ==> restated(db.messages[at], after.messages[at], "read"@)
            &&& !named ==> after.messages[at] == db.messages[at]
        }),
    decreases rows.len(),
{
    if rows.len() > 0 {
        let rest = rows.drop_last();
        lemma_marked_read(db, rest, at);
        if exists|j: int| 0 <= j < rest.len() && (#[trigger] rest[j]).id == db.messages[at].id {
            let j: int = choose|j: int|
                0 <= j < rest.len() && (#[trigger] rest[j]).id == db.messages[at].id;
            assert(rows[j] == rest[j]);
        }
        if exists|j: int| 0 <= j < rows.len() && (#[trigger] rows[j]).id == db.messages[at].id {
            let j: int = choose|j: int|
                0 <= j < rows.len() && (#[trigger] rows[j]).id == db.messages[at].id;
            if j < rest.len() {
                assert(rest[j] == rows[j]);
            }
        }
        assert(rows[rows.len() - 1] == rows.last());
    }
}

/// The messages of the thread that a receipt names and that this user wrote are read after
/// it, and no others.
pub open spec fn mine_are_read(
    before: DbModel,
    after: DbModel,
    me: Seq<char>,
    conversation: Seq<char>,
    ids: Seq<Seq<char>>,
) -> bool {
    &&& after == (DbModel { messages: after.messages, ..before })
    &&& after.messages.len() == before.messages.len()
    &&& forall|i: int|
        0 <= i < before.messages.len() ==> {
            let m = before.messages[i];
            if shown_in(m, conversation) && ids.contains(m.id) && m.sender_username == me {
                restated(m, #[trigger] after.messages[i], "read"@)
            } else {
                after.messages[i] == m
            }
        }
}

/// A read receipt marks as read the messages of the thread that it names and that this user
/// wrote, and no other; it counts at least one if there was one.
pub proof fn law_receipt_marks_my_messages(
    before: DbModel,
    after: DbModel,
    conversation: Seq<char>,
    reader: Seq<char>,
    ids: Seq<Seq<char>>,
    applied: nat,
)
    requires
        before.consistent(),
        before.profile is Some,
        before.profile->0.username != reader,
        receipt_applied(before, after, conversation, reader, ids, applied),
    ensures
        mine_are_read(before, after, before.profile->0.username, conversation, ids),
        applied > 0 <==> exists|i: int|
            {
                let m = #[trigger] before.messages[i];
                &&& 0 <= i < before.messages.len()
                &&& shown_in(m, conversation)
                &&& ids.contains(m.id)
                &&& m.sender_username == before.profile->0.username
            },
{
    let p = message_read(before.username(), reader, ids);
    let thread = choose|thread: Seq<MessageModel>|
        {
            let read = thread.filter(message_read(before.username(), reader, ids));
            &&& #[trigger] before.thread_listed(conversation, NO_LIMIT as int, thread)
            &&& applied == read.len()
            &&& after == marked_read(before, read)
        };
    let read = thread.filter(p);
    let of = before.messages.filter(thread_message(conversation));
    let whole = choose|whole: Seq<MessageModel>| #[trigger]
        ordered(whole, of, messages_oldest_first()) && thread == limited(whole, NO_LIMIT as int);
    lemma_ordered(thread, of, messages_oldest_first());
    assert forall|j: int| 0 <= j < read.len() implies exists|n: int|
        0 <= n < before.messages.len() && #[trigger] before.messages[n] == #[trigger] read[j]
            && shown_in(read[j], conversation) && ids.contains(read[j].id) && read[j].sender_username
            == before.profile->0.username by {
        lemma_filtered_from(thread, p, j);
        assert(thread.contains(read[j]));
        let k: int = choose|k: int| 0 <= k < of.len() && of[k] == read[j];
        lemma_filtered_from(before.messages, thread_message(conversation), k);
        let n: int = choose|n: int|
            0 <= n < before.messages.len() && before.messages[n] == read[j];
        assert(before.messages[n] == read[j]);
    }
    assert forall|at: int| 0 <= at < before.messages.len() implies {
        let m = before.messages[at];
        if shown_in(m, conversation) && ids.contains(m.id) && m.sender_username
            == before.profile->0.username {
            restated(m, #[trigger] after.messages[at], "read"@) && read.len() > 0
        } else {
            after.messages[at] == m
        }
    } by {
        let m = before.messages[at];
        lemma_marked_read(before, read, at);
        lemma_others_differ(before, at);
        if shown_in(m, conversation) && ids.contains(m.id) && m.sender_username
            == before.profile->0.username {
            before.messages.lemma_filter_contains(thread_message(conversation), at);
            assert(thread.contains(m));
            let a: int = choose|a: int| 0 <= a < thread.len() && thread[a] == m;
            thread.lemma_filter_contains(p, a);
            let j: int = choose|j: int| 0 <= j < read.len() && read[j] == m;
            assert(read[j].id == before.messages[at].id);
        } else if exists|j: int| 0 <= j < read.len() && (#[trigger] read[j]).id == m.id {
            let j: int = choose|j: int| 0 <= j < read.len() && (#[trigger] read[j]).id == m.id;
            let n: int = choose|n: int|
                0 <= n < before.messages.len() && #[trigger] before.messages[n] == read[j];
            assert(n == at);
        }
    }
    lemma_marked_read_frame(before, read);
    if applied > 0 {
        let n: int = choose|n: int|
            0 <= n < before.messages.len() && #[trigger] before.messages[n] == read[0];
        assert(shown_in(before.messages[n], conversation));
    }
    if exists|i: int|
        {
            let m = #[trigger] before.messages[i];
            &&& 0 <= i < before.messages.len()
            &&& shown_in(m, conversation)
            &&& ids.contains(m.id)
            &&& m.sender_username == before.profile->0.username
        } {
        let i: int = choose|i: int|
            {
                let m = #[trigger] before.messages[i];
                &&& 0 <= i < before.messages.len()
                &&& shown_in(m, conversation)
                &&& ids.contains(m.id)
                &&& m.sender_username == before.profile->0.username
            };
        assert(after.messages[i] == after.messages[i]);
    }
}

proof fn lemma_marked_read_frame(db: DbModel, rows: Seq<MessageModel>)
    ensures
        marked_read(db, rows) == (DbModel { messages: marked_read(db, rows).messages, ..db }),
        marked_read(db, rows).messages.len() == db.messages.len(),
    decreases rows.len(),
{
    if rows.len() > 0 {
        lemma_marked_read_frame(db, rows.drop_last());
    }
}

/// The same of a receipt that came in by an envelope. The interface changes if there was
/// such a message.
pub proof fn law_arrived_receipt_marks_my_messages(
    before: DbModel,
    after: DbModel,
    identity: IdentityModel,
    device: Seq<u8>,
    from: Seq<char>,
    conversation: Seq<char>,
    e: EnvelopeModel,
    ids: Seq<Seq<char>>,
    group: bool,
    offer_json: Seq<char>,
    now_ms: i64,
    r: Result<OutcomeModel, Error>,
)
    requires
        before.consistent(),
        before.profile is Some,
        before.profile->0.username != from,
        content_applied(
            before,
            after,
            identity,
            device,
            from,
            conversation,
            e,
            PayloadModel::Read { from, ref_ids: ids },
            group,
            offer_json,
            now_ms,
            r,
        ),
    ensures
        mine_are_read(before, after, before.profile->0.username, conversation, ids),
        r is Ok,
        r->Ok_0.changed <==> exists|i: int|
            {
                let m = #[trigger] before.messages[i];
                &&& 0 <= i < before.messages.len()
                &&& shown_in(m, conversation)
                &&& ids.contains(m.id)
                &&& m.sender_username == before.profile->0.username
            },
        r->Ok_0.works.len() == 0,
        r->Ok_0.notify is None,
{
    let applied = choose|applied: nat|
        {
            &&& #[trigger] receipt_applied(before, after, conversation, from, ids, applied)
            &&& r == Ok::<OutcomeModel, Error>(
                if applied > 0 {
                    crate::routing::changed()
                } else {
                    crate::routing::quiet()
                },
            )
        };
    law_receipt_marks_my_messages(before, after, conversation, from, ids, applied);
}

/// What came in and was carried out is noted as heard: whoever sent it is in step with the
/// conversation up to its number at least. What is still to be done with files is not.
pub proof fn law_heard_messages_are_in_step(
    before: DbModel,
    after: DbModel,
    identity: IdentityModel,
    device: Seq<u8>,
    opened: OpenedModel,
    e: EnvelopeModel,
    payload: PayloadModel,
    offer_json: Seq<char>,
    endpoint: Seq<char>,
    fresh: Seq<char>,
    now_ms: i64,
    r: Result<OutcomeModel, Error>,
)
    requires
        opened.stage == Stage::Direct || opened.stage == Stage::Group,
        payload.sender() == opened.from,
        opened_applied(
            before,
            after,
            identity,
            device,
            opened,
            e,
            Some(payload),
            offer_json,
            endpoint,
            fresh,
            now_ms,
            r,
        ),
        r is Ok,
        !(payload is FileChunk) && !(payload is FileAccept),
        e.sequence <= i64::MAX,
    ensures
        exists|i: int|
            0 <= i < after.cursors.len() && (#[trigger] after.cursors[i]).peer_id == opened.from
                && after.cursors[i].conversation_id == opened.conversation_id
                && after.cursors[i].last_sequence >= e.sequence,
        forall|i: int|
            0 <= i < before.cursors.len() ==> (#[trigger] after.cursors[i]).last_sequence
                >= before.cursors[i].last_sequence,
{
    let mid = choose|mid: DbModel|
        {
            &&& #[trigger] content_applied(
                before,
                mid,
                identity,
                device,
                opened.from,
                opened.conversation_id,
                e,
                payload,
                crate::routing::in_group(opened.stage),
                offer_json,
                now_ms,
                r,
            )
            &&& after == if r is Ok && !crate::routing::file_work_left(r->Ok_0) {
                mid.update_sync_cursor(
                    opened.from,
                    opened.conversation_id,
                    crate::bytes::signed_bits(e.sequence),
                    now_ms,
                )
            } else {
                mid
            }
        };
    assert(mid.cursors == before.cursors) by {
        if payload is Read {
            let ids = payload->Read_ref_ids;
            let applied = choose|applied: nat| #[trigger]
                receipt_applied(
                    before,
                    mid,
                    opened.conversation_id,
                    opened.from,
                    ids,
                    applied,
                );
            let thread = choose|thread: Seq<MessageModel>|
                {
                    let read = thread.filter(message_read(before.username(), opened.from, ids));
                    &&& #[trigger] before.thread_listed(
                        opened.conversation_id,
                        NO_LIMIT as int,
                        thread,
                    )
                    &&& mid == marked_read(before, read)
                };
            lemma_marked_read_frame(
                before,
                thread.filter(message_read(before.username(), opened.from, ids)),
            );
        }
    }
    assert(!crate::routing::file_work_left(r->Ok_0));
    let p = crate::database::model::cursor_is(opened.from, opened.conversation_id);
    if crate::table::some_row(mid.cursors, p) {
        let i: int = choose|i: int| 0 <= i < mid.cursors.len() && p(#[trigger] mid.cursors[i]);
        assert(after.cursors[i].peer_id == opened.from);
    } else {
        assert(after.cursors[mid.cursors.len() as int].peer_id == opened.from);
    }
}

/// A receipt marks, of the messages of the thread that it names, those that somebody else than
/// the reader wrote, and where this user has a profile only theirs; it leaves the others.
pub proof fn law_receipt_spares_the_readers_own(
    before: DbModel,
    after: DbModel,
    conversation: Seq<char>,
    reader: Seq<char>,
    ids: Seq<Seq<char>>,
    applied: nat,
    at: int,
)
    requires
        before.consistent(),
        receipt_applied(before, after, conversation, reader, ids, applied),
        0 <= at < before.messages.len(),
    ensures
        after == (DbModel { messages: after.messages, ..before }),
        after.messages.len() == before.messages.len(),
        ({
            let m = before.messages[at];
            let named = shown_in(m, conversation) && ids.contains(m.id) && m.sender_username
                != reader && (before.profile is Some ==> m.sender_username
                == before.profile->0.username);
            &&& named ==> restated(m, after.messages[at], "read"@)
            &&& !named ==> after.messages[at] == m
        }),
{
    let p = message_read(before.username(), reader, ids);
    let thread = choose|thread: Seq<MessageModel>|
        {
            let read = thread.filter(message_read(before.username(), reader, ids));
            &&& #[trigger] before.thread_listed(conversation, NO_LIMIT as int, thread)
            &&& applied == read.len()
            &&& after == marked_read(before, read)
        };
    let read = thread.filter(p);
    let of = before.messages.filter(thread_message(conversation));
    let whole = choose|whole: Seq<MessageModel>| #[trigger]
        ordered(whole, of, messages_oldest_first()) && thread == limited(whole, NO_LIMIT as int);
    lemma_ordered(thread, of, messages_oldest_first());
    let m = before.messages[at];
    lemma_marked_read(before, read, at);
    lemma_marked_read_frame(before, read);
    lemma_others_differ(before, at);
    if shown_in(m, conversation) && p(m) {
        before.messages.lemma_filter_contains(thread_message(conversation), at);
        assert(thread.contains(m));
        let a: int = choose|a: int| 0 <= a < thread.len() && thread[a] == m;
        thread.lemma_filter_contains(p, a);
        let j: int = choose|j: int| 0 <= j < read.len() && read[j] == m;
        assert(read[j].id == before.messages[at].id);
    } else if exists|j: int| 0 <= j < read.len() && (#[trigger] read[j]).id == m.id {
        let j: int = choose|j: int| 0 <= j < read.len() && (#[trigger] read[j]).id == m.id;
        lemma_filtered_from(thread, p, j);
        assert(p(read[j]));
        assert(thread.contains(read[j]));
        let k: int = choose|k: int| 0 <= k < of.len() && of[k] == read[j];
        lemma_filtered_from(before.messages, thread_message(conversation), k);
        let n: int = choose|n: int| 0 <= n < before.messages.len() && before.messages[n] == read[j];
        assert(before.messages[n].id == m.id);
        assert(n == at);
    }
}

} // verus!
