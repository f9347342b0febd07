//! What happens when sending fails: queues, retries, the mailbox; and what is picked up
//! from the coordinator.

use vstd::prelude::*;

use crate::bytes::{hex_decode_32, hex_decoded_32, to_unsigned, unsigned_bits};
use crate::coordinator::{
    DirectiveModel, FriendDirective, MailboxObject, MailboxObjectModel, MAILBOX_TTL_MS,
};
use crate::database::model::{
    bumped, contact_is, contact_resaved, conversations_latest_first, file_in, files_of,
    pending_counted, pending_is, pending_of, pending_requeued,
};
use crate::database::{Database, DbModel};
use crate::envelope::{conversation_uuid, conversation_uuid_of, envelope_checked, envelope_of};
use crate::friends::{find_open_request, has_open_request, new_request, opt_request};
use crate::groups::other_members;
use crate::identity::{ed25519_public, DeviceIdentity, IdentityModel};
use crate::ids::{uuid_parsed, uuid_text, Uuid};
use crate::messaging::{plan_is, ControlPlan};
use crate::payload::{ChatPayload, FileOfferBody, FileOfferModel, PayloadModel};
use crate::protocol::ProtocolEnvelope;
use crate::records::{
    Contact, ContactModel, ContactRowModel, ConversationRow, ConversationRowModel,
    FileTransferModel, FriendRequest, PendingHandshake, PendingHandshakeModel, PendingItem,
    PendingModel,
};
use crate::routing::clock_fits;
use crate::sync::{
    clock_fraction, doubled, law_retry_waits_grow, lemma_doubled_step, lemma_jitter_is_a_quarter,
    resend_envelope_as, retry_delay, retry_delay_with, type_named, RETRY_CAP_MS,
};
use crate::table::{
    any_row, first_row, lemma_filter_step, lemma_first_row, lemma_first_row_pushed,
    lemma_first_row_updated, ordered, some_row, sort_rows, updated, views, Row,
};
use crate::text::{copy_bytes, lowered, text_eq, to_lower, trim, trimmed};

verus! {

/// From how many failed attempts on the mailbox is tried as well.
pub const MAILBOX_AFTER_ATTEMPTS: i64 = 2;

/// The low 32 bits of a counter.
pub open spec fn low_bits(n: i64) -> u32 {
    (unsigned_bits(n as int) % 0x1_0000_0000) as u32
}

fn to_low_bits(n: i64) -> (bits: u32)
    ensures
        bits == low_bits(n),
{
    (to_unsigned(n) % 0x1_0000_0000) as u32
}

// -- failed sends -----------------------------------------------------------------------------

/// How often sending a message to a peer has failed.
pub open spec fn attempts_made(db: DbModel, message: Seq<char>, peer: Seq<char>) -> i64 {
    match db.pending_item(message, peer) {
        Some(item) => item.attempt_count,
        None => 0,
    }
}

/// The store after a failed send: the message waits for its next attempt, and a
/// failure of a message that was waiting already is counted.
pub open spec fn failure_noted(
    db: DbModel,
    message: Seq<char>,
    peer: Seq<char>,
    id: Seq<char>,
    sample: u32,
    now_ms: i64,
) -> DbModel {
    let attempt = attempts_made(db, message, peer);
    let next = (now_ms + retry_delay(low_bits(attempt), sample)) as i64;
    let queued = if db.may_enqueue(id, message, peer) {
        db.enqueue_pending(id, message, peer, next, "retrying"@)
    } else {
        db
    };
    let counted = if db.pending_item(message, peer) is Some {
        queued.count_attempt(message, peer)
    } else {
        queued
    };
    counted.set_message_status(message, "queued"@)
}

/// Notes a failed send, with a given jitter sample and the id of the queue entry that
/// may be made. Says whether the mailbox should be tried as well.
pub fn note_send_failure_as(
    db: &mut Database,
    peer_username: &str,
    message_id: &str,
    fresh: Uuid,
    sample: u32,
    now_ms: i64,
) -> (try_mailbox: bool)
    requires
        clock_fits(now_ms),
    ensures
        final(db)@ == failure_noted(
            old(db)@,
            message_id@,
            peer_username@,
            uuid_text(fresh@),
            sample,
            now_ms,
        ),
        try_mailbox == (attempts_made(old(db)@, message_id@, peer_username@)
            >= MAILBOX_AFTER_ATTEMPTS),
{
    let waiting = db.get_pending(message_id, peer_username);
    let attempt: i64 = match &waiting {
        Some(item) => item.attempt_count,
        None => 0,
    };
    let delay: i64 = retry_delay_with(to_low_bits(attempt), sample);
    let id = fresh.to_text();
    let _queued = db.enqueue_pending(
        id.as_str(),
        message_id,
        peer_username,
        now_ms + delay,
        "retrying",
    );
    if waiting.is_some() {
        db.count_attempt(message_id, peer_username);
    }
    db.set_message_status(message_id, "queued");
    attempt >= MAILBOX_AFTER_ATTEMPTS
}

/// Notes a failed send.
pub fn note_send_failure(
    db: &mut Database,
    peer_username: &str,
    message_id: &str,
    now_ms: i64,
) -> (try_mailbox: bool)
    requires
        clock_fits(now_ms),
    ensures
        exists|id: Seq<u8>, sample: u32|
            final(db)@ == #[trigger] failure_noted(
                old(db)@,
                message_id@,
                peer_username@,
                uuid_text(id),
                sample,
                now_ms,
            ),
        try_mailbox == (attempts_made(old(db)@, message_id@, peer_username@)
            >= MAILBOX_AFTER_ATTEMPTS),
{
    let sample: u32 = clock_fraction();
    let fresh = Uuid::new_v4();
    note_send_failure_as(db, peer_username, message_id, fresh, sample, now_ms)
}

/// Whoever keeps being out of reach is left a copy in the mailbox: the first failure
/// queues the message with no attempt counted, and each further one counts one more, so
/// that the count comes to `MAILBOX_AFTER_ATTEMPTS` after as many further failures.
pub proof fn law_failures_escalate(
    db: DbModel,
    message: Seq<char>,
    peer: Seq<char>,
    id: Seq<char>,
    sample: u32,
    now_ms: i64,
)
    ensures
        ({
            let after = failure_noted(db, message, peer, id, sample, now_ms);
            match db.pending_item(message, peer) {
                Some(item) => after.pending_item(message, peer) is Some && attempts_made(
                    after,
                    message,
                    peer,
                ) == bumped(item.attempt_count),
                None => db.may_enqueue(id, message, peer) ==> after.pending_item(message, peer)
                    is Some && attempts_made(after, message, peer) == 0,
            }
        }),
{
    let p = pending_is(message, peer);
    let next = (now_ms + retry_delay(low_bits(attempts_made(db, message, peer)), sample)) as i64;
    let f = pending_requeued(next, "retrying"@);
    lemma_first_row(db.pending, p);
    lemma_first_row_updated(db.pending, p, f);
    lemma_first_row_updated(updated(db.pending, p, f), p, pending_counted());
    lemma_first_row_pushed(
        db.pending,
        p,
        PendingModel {
            id,
            message_id: message,
            peer_id: peer,
            attempt_count: 0,
            next_attempt_at_ms: next,
            state: "retrying"@,
        },
    );
}

/// A message that keeps failing waits longer and longer: until its next attempt it waits
/// the time that goes with the failures counted so far. Before the jitter, each counted
/// failure doubles that time up to the cap, and while the double stays below the cap the
/// next wait is longer whatever the jitter.
pub proof fn law_failure_waits_grow(
    db: DbModel,
    message: Seq<char>,
    peer: Seq<char>,
    id: Seq<char>,
    sample: u32,
    now_ms: i64,
    later_sample: u32,
)
    requires
        clock_fits(now_ms),
        db.pending_item(message, peer) is Some || db.may_enqueue(id, message, peer),
        0 <= attempts_made(db, message, peer) < u32::MAX,
    ensures
        ({
            let counted = attempts_made(db, message, peer);
            let after = failure_noted(db, message, peer, id, sample, now_ms);
            let wait = doubled(1000, counted as nat, RETRY_CAP_MS as int);
            let later = low_bits(attempts_made(after, message, peer));
            let next_wait = doubled(1000, later as nat, RETRY_CAP_MS as int);
            &&& after.pending_item(message, peer) is Some
            &&& after.pending_item(message, peer)->0.next_attempt_at_ms == now_ms + retry_delay(
                counted as u32,
                sample,
            )
            &&& db.pending_item(message, peer) is None ==> next_wait == wait
            &&& db.pending_item(message, peer) is Some ==> next_wait == if 2 * wait
                <= RETRY_CAP_MS {
                2 * wait
            } else {
                RETRY_CAP_MS as int
            }
            &&& db.pending_item(message, peer) is Some && 2 * wait <= RETRY_CAP_MS ==> retry_delay(
                counted as u32,
                sample,
            ) < retry_delay(later, later_sample)
        }),
{
    let counted = attempts_made(db, message, peer);
    let wait = doubled(1000, counted as nat, RETRY_CAP_MS as int);
    let p = pending_is(message, peer);
    let next = (now_ms + retry_delay(low_bits(counted), sample)) as i64;
    let f = pending_requeued(next, "retrying"@);
    lemma_first_row(db.pending, p);
    lemma_first_row_updated(db.pending, p, f);
    lemma_first_row_updated(updated(db.pending, p, f), p, pending_counted());
    lemma_first_row_pushed(
        db.pending,
        p,
        PendingModel {
            id,
            message_id: message,
            peer_id: peer,
            attempt_count: 0,
            next_attempt_at_ms: next,
            state: "retrying"@,
        },
    );
    lemma_doubled_step(1000, counted as nat, RETRY_CAP_MS as int);
    law_retry_waits_grow(1000, counted as nat, (counted + 1) as nat, RETRY_CAP_MS as int);
    lemma_jitter_is_a_quarter(counted as u32, sample);
    lemma_jitter_is_a_quarter((counted + 1) as u32, later_sample);
}

/// The object that carries an envelope through a mailbox.
pub open spec fn object_of(id: Seq<u8>, envelope_json: Seq<char>, now_ms: i64) -> MailboxObjectModel {
    MailboxObjectModel {
        id: uuid_text(id),
        envelope_json,
        created_at_ms: now_ms,
        expires_at_ms: (now_ms + MAILBOX_TTL_MS) as i64,
    }
}

/// What the mailbox is given for someone who is offline.
pub fn mailbox_object(id: Uuid, envelope_json: &str, now_ms: i64) -> (object: MailboxObject)
    requires
        clock_fits(now_ms),
    ensures
        object@ == object_of(id@, envelope_json@, now_ms),

{
    MailboxObject {
        id: id.to_text(),
        envelope_json: envelope_json.to_owned(),
        created_at_ms: now_ms,
        expires_at_ms: now_ms + MAILBOX_TTL_MS,
    }
}

/// The store after a handshake was queued; one that could not be written down is not.
pub open spec fn handshake_queued(
    db: DbModel,
    peer: Seq<char>,
    message: Seq<u8>,
    envelope_json: Seq<char>,
    sample: u32,
    now_ms: i64,
) -> DbModel {
    if envelope_json.len() == 0 {
        db
    } else {
        db.enqueue_handshake(
            uuid_text(message),
            peer,
            envelope_json,
            (now_ms + retry_delay(0, sample)) as i64,
        )
    }
}

/// Queues a friend ask or answer that could not be sent, with a given jitter sample. An
/// envelope that could not be written down is not queued.
pub fn queue_handshake_with(
    db: &mut Database,
    peer_username: &str,
    envelope: &ProtocolEnvelope,
    envelope_json: &str,
    sample: u32,
    now_ms: i64,
)
    requires
        clock_fits(now_ms),
    ensures
        final(db)@ == handshake_queued(
            old(db)@,
            peer_username@,
            envelope@.message_id,
            envelope_json@,
            sample,
            now_ms,
        ),
{
    if envelope_json.is_empty() {
        return ;
    }
    let delay: i64 = retry_delay_with(0, sample);
    let id = envelope.message_id.to_text();
    db.enqueue_handshake(id.as_str(), peer_username, envelope_json, now_ms + delay);
}

/// Queues a friend ask or answer that could not be sent.
pub fn queue_handshake(
    db: &mut Database,
    peer_username: &str,
    envelope: &ProtocolEnvelope,
    envelope_json: &str,
    now_ms: i64,
)
    requires
        clock_fits(now_ms),
    ensures
        exists|sample: u32|
            final(db)@ == #[trigger] handshake_queued(
                old(db)@,
                peer_username@,
                envelope@.message_id,
                envelope_json@,
                sample,
                now_ms,
            ),
{
    let sample: u32 = clock_fraction();
    queue_handshake_with(db, peer_username, envelope, envelope_json, sample, now_ms);
}

// -- retries ----------------------------------------------------------------------------------

/// What planning another attempt comes to.
pub open spec fn retry_planned(
    before: DbModel,
    after: DbModel,
    identity: IdentityModel,
    device: Seq<u8>,
    item: PendingModel,
    stand_in: Seq<u8>,
    now_ms: i64,
    envelope: Option<ProtocolEnvelope>,
) -> bool {
    match before.message(item.message_id) {
        None => envelope is None && after == before.dequeue_pending_for(
            item.message_id,
            item.peer_id,
        ),
        Some(m) => {
            &&& after == before
            &&& envelope is Some
            &&& envelope->0@ == envelope_of(
                identity,
                device,
                conversation_uuid_of(m.conversation_id, stand_in),
                match uuid_parsed(m.id) {
                    Some(id) => id,
                    None => stand_in,
                },
                type_named(m.message_type),
                unsigned_bits(m.sequence as int),
                m.ciphertext,
                now_ms,
            )
            &&& envelope_checked(ed25519_public(identity.ed_secret), envelope->0@) is Ok
        },
    }
}

/// The envelope for another attempt at a pending message. A message that is no longer
/// stored is taken off the queue instead.
pub fn plan_retry(
    db: &mut Database,
    identity: &DeviceIdentity,
    device_uuid: Uuid,
    item: &PendingItem,
    stand_in: Uuid,
    now_ms: i64,
) -> (envelope: Option<ProtocolEnvelope>)
    ensures
        retry_planned(
            old(db)@,
            final(db)@,
            identity@,
            device_uuid@,
            item@,
            stand_in@,
            now_ms,
            envelope,
        ),
{
    match db.get_message(item.message_id.as_str()) {
        None => {
            db.dequeue_pending_for(item.message_id.as_str(), item.peer_id.as_str());
            None
        },
        Some(message) => {
            let conversation = conversation_uuid(message.conversation_id.as_str(), stand_in);
            Some(
                resend_envelope_as(
                    identity,
                    device_uuid,
                    conversation,
                    &message,
                    stand_in,
                    now_ms,
                ),
            )
        },
    }
}

/// The store after a retry that got through: the peer is off the queue, and the message
/// is delivered once no peer is left on it.
pub open spec fn retry_done(db: DbModel, message: Seq<char>, peer: Seq<char>) -> DbModel {
    let dequeued = db.dequeue_pending_for(message, peer);
    if some_row(dequeued.pending, pending_of(message)) {
        dequeued
    } else {
        dequeued.set_message_status(message, "delivered"@)
    }
}

/// Notes that a pending message got through to a peer.
pub fn retry_delivered(db: &mut Database, item: &PendingItem)
    ensures
        final(db)@ == retry_done(old(db)@, item@.message_id, item@.peer_id),
{
    db.dequeue_pending_for(item.message_id.as_str(), item.peer_id.as_str());
    let test = |p: &PendingItem| -> (b: bool)
        ensures
            b == pending_of(item@.message_id)(p@),
        { text_eq(p.message_id.as_str(), item.message_id.as_str()) };
    let still = any_row(&db.pending, test, Ghost(pending_of(item@.message_id)));
    if !still {
        db.set_message_status(item.message_id.as_str(), "delivered");
    }
}

/// How another attempt at a handshake ended.
#[derive(Debug, Clone, Copy, PartialEq, Eq, Structural)]
pub enum HandshakeTry {
    Delivered,
    Failed,
    /// What is queued cannot be read.
    Unreadable,
}

/// The store after another attempt at a handshake: it waits longer after a failure, and
/// is off the queue otherwise.
pub open spec fn handshake_tried(
    db: DbModel,
    item: PendingHandshakeModel,
    outcome: HandshakeTry,
    sample: u32,
    now_ms: i64,
) -> DbModel {
    match outcome {
        HandshakeTry::Failed => db.backoff_handshake(
            item.message_id,
            (now_ms + retry_delay(low_bits(item.attempt_count), sample)) as i64,
        ),
        _ => db.dequeue_handshake(item.message_id),
    }
}

/// Notes how another attempt at a handshake ended, with a given jitter sample.
pub fn note_handshake_try_with(
    db: &mut Database,
    item: &PendingHandshake,
    outcome: HandshakeTry,
    sample: u32,
    now_ms: i64,
)
    requires
        clock_fits(now_ms),
    ensures
        final(db)@ == handshake_tried(old(db)@, item@, outcome, sample, now_ms),
{
    match outcome {
        HandshakeTry::Failed => {
            let delay: i64 = retry_delay_with(to_low_bits(item.attempt_count), sample);
            db.backoff_handshake(item.message_id.as_str(), now_ms + delay);
        },
        _ => {
            db.dequeue_handshake(item.message_id.as_str());
        },
    }
}

/// Notes how another attempt at a handshake ended.
pub fn note_handshake_try(
    db: &mut Database,
    item: &PendingHandshake,
    outcome: HandshakeTry,
    now_ms: i64,
)
    requires
        clock_fits(now_ms),
    ensures
        exists|sample: u32|
            final(db)@ == #[trigger] handshake_tried(old(db)@, item@, outcome, sample, now_ms),
{
    let sample: u32 = clock_fraction();
    note_handshake_try_with(db, item, outcome, sample, now_ms);
}

// -- stalled downloads --------------------------------------------------------------------------

/// After how long a download that is not complete counts as stalled, in milliseconds.
pub const STALLED_AFTER_MS: i64 = 90_000;

/// How long to wait before asking for the same file again, in milliseconds.
pub const NUDGE_EVERY_MS: i64 = 60_000;

/// A file that is still coming in, and whose conversation it is.
#[derive(Debug, Clone)]
pub struct StalledFile {
    pub file_id: String,
    pub conversation_id: String,
}

pub open spec fn file_stalled(now_ms: i64) -> spec_fn(FileTransferModel) -> bool {
    |f: FileTransferModel| f.state == "incoming"@ && now_ms - f.created_at_ms > STALLED_AFTER_MS
}

/// The stalled downloads of these conversations, the ones stored last first in each.
pub open spec fn stalled_in(
    db: DbModel,
    conversations: Seq<ConversationRowModel>,
    now_ms: i64,
) -> Seq<FileTransferModel>
    decreases conversations.len(),
{
    if conversations.len() == 0 {
        Seq::empty()
    } else {
        stalled_in(db, conversations.drop_last(), now_ms) + files_of(
            db.files.filter(file_in(conversations.last().id)),
        ).reverse().filter(file_stalled(now_ms))
    }
}

/// The downloads that have stalled, in the conversations with the latest change first.
pub fn stalled_files(db: &Database, now_ms: i64) -> (list: Vec<StalledFile>)
    ensures
        exists|rows: Seq<ConversationRowModel>|
            {
                let files = stalled_in(db@, rows, now_ms);
                &&& #[trigger] ordered(rows, db@.conversations, conversations_latest_first())
                &&& list@.len() == files.len()
                &&& forall|i: int|
                    0 <= i < files.len() ==> (#[trigger] list@[i]).file_id@ == files[i].id
                        && list@[i].conversation_id@ == files[i].conversation_id
            },
{
    let mut all: Vec<ConversationRow> = Vec::new();
    let mut i: usize = 0;
    while i < db.conversations.len()
        invariant
            i <= db.conversations.len(),
            all.len() == i,
            forall|j: int| 0 <= j < i ==> (#[trigger] all@[j])@ == db.conversations@[j]@,
        decreases db.conversations.len() - i,
    {
        all.push(db.conversations[i].duplicate());
        i += 1;
    }
    assert(views(all@) =~= db@.conversations);
    let at_most = |a: &ConversationRow, b: &ConversationRow| -> (r: bool)
        ensures
            r == conversations_latest_first()(a@, b@),
        { a.updated_at_ms >= b.updated_at_ms };
    let rows = sort_rows(all, at_most, Ghost(conversations_latest_first()));
    let ghost sorted = views(rows@);
    let mut list: Vec<StalledFile> = Vec::new();
    let mut k: usize = 0;
    assert(sorted.take(0) =~= Seq::<ConversationRowModel>::empty());
    while k < rows.len()
        invariant
            k <= rows.len(),
            sorted == views(rows@),
            list.len() == stalled_in(db@, sorted.take(k as int), now_ms).len(),
            forall|j: int|
                0 <= j < list.len() ==> (#[trigger] list@[j]).file_id@ == stalled_in(
                    db@,
                    sorted.take(k as int),
                    now_ms,
                )[j].id && list@[j].conversation_id@ == stalled_in(
                    db@,
                    sorted.take(k as int),
                    now_ms,
                )[j].conversation_id,
        decreases rows.len() - k,
    {
        let files = db.list_files(rows[k].id.as_str());
        let ghost here = views(files@);
        let ghost p = file_stalled(now_ms);
        let ghost before = stalled_in(db@, sorted.take(k as int), now_ms);
        let ghost start = list@;
        let mut m: usize = 0;
        proof {
            reveal(Seq::filter);
            assert(here.take(0).filter(p) =~= Seq::<FileTransferModel>::empty());
        }
        while m < files.len()
            invariant
                m <= files.len(),
                here == views(files@),
                p == file_stalled(now_ms),
                start.len() == before.len(),
                forall|j: int|
                    0 <= j < start.len() ==> (#[trigger] start[j]).file_id@ == before[j].id
                        && start[j].conversation_id@ == before[j].conversation_id,
                list.len() == before.len() + here.take(m as int).filter(p).len(),
                forall|j: int| 0 <= j < start.len() ==> list@[j] == #[trigger] start[j],
                forall|j: int|
                    0 <= j < here.take(m as int).filter(p).len() ==> (
                    #[trigger] list@[before.len() + j]).file_id@ == here.take(m as int).filter(
                        p,
                    )[j].id && list@[before.len() + j].conversation_id@ == here.take(
                        m as int,
                    ).filter(p)[j].conversation_id,
            decreases files.len() - m,
        {
            proof {
                lemma_filter_step(here, m as int, p);
            }
            let f = &files[m];
            let old_ms: i128 = now_ms as i128 - f.created_at_ms as i128;
            let ghost so_far = here.take(m as int).filter(p);
            if text_eq(f.state.as_str(), "incoming") && old_ms > STALLED_AFTER_MS as i128 {
                list.push(
                    StalledFile {
                        file_id: f.id.clone(),
                        conversation_id: f.conversation_id.clone(),
                    },
                );
            }
            m += 1;
        }
        proof {
            assert(here.take(m as int) =~= here);
            let next = sorted.take(k + 1);
            assert(next.drop_last() =~= sorted.take(k as int));
            assert(next.last() == rows@[k as int]@);
            let whole = stalled_in(db@, next, now_ms);
            assert(whole == before + here.filter(p));
            assert forall|j: int| 0 <= j < list.len() implies (#[trigger] list@[j]).file_id@
                == whole[j].id && list@[j].conversation_id@ == whole[j].conversation_id by {
                if j < before.len() {
                    assert(list@[j] == start[j]);
                } else {
                    let q: int = j - before.len();
                    assert(list@[before.len() + q].file_id@ == here.filter(p)[q].id);
                }
            }
        }
        k += 1;
    }
    assert(sorted.take(k as int) =~= sorted);
    assert(ordered(sorted, db@.conversations, conversations_latest_first()));
    list
}

/// A stalled file is asked for again once it waited for long enough.
pub open spec fn nudge_is_due(now_ms: i64, last: i64) -> bool {
    now_ms - last >= NUDGE_EVERY_MS
}

/// Whether it is time to ask for a file again that was last asked for at `last`.
pub fn nudge_due(now_ms: i64, last: i64) -> (due: bool)
    ensures
        due == nudge_is_due(now_ms, last),

{
    let passed: i128 = now_ms as i128 - last as i128;
    passed >= NUDGE_EVERY_MS as i128
}

/// The chunks of an offer that are not among the missing ones.
pub open spec fn chunks_held(total: nat, missing: Seq<u32>) -> Seq<u32> {
    Seq::new((total % 0x1_0000_0000) as nat, |i: int| i as u32).filter(
        |i: u32| !missing.contains(i),
    )
}

/// Asking again for the chunks of a stalled file, from everyone else in its conversation.
pub open spec fn nudge_planned(
    db: DbModel,
    me: Seq<char>,
    conversation: Seq<char>,
    file_id: Seq<char>,
    offer: FileOfferModel,
    missing: Seq<u32>,
    plan: Option<ControlPlan>,
) -> bool {
    if missing.len() == 0 {
        plan is None
    } else {
        plan is Some && plan_is(
            plan->0,
            db,
            conversation,
            me,
            PayloadModel::FileAccept {
                from: me,
                file_id,
                have: chunks_held(offer.chunk_hashes.len(), missing),
            },
        )
    }
}

/// Plans to ask for the missing chunks of a stalled download; there is nothing to ask
/// for when none is missing.
pub fn nudge_stalled_file(
    db: &Database,
    me: &str,
    file: &StalledFile,
    offer: &FileOfferBody,
    missing: &Vec<u32>,
) -> (plan: Option<ControlPlan>)
    ensures
        nudge_planned(
            db@,
            me@,
            file.conversation_id@,
            file.file_id@,
            offer@,
            missing@,
            plan,
        ),

{
    if missing.len() == 0 {
        return None;
    }
    let total: u64 = offer.manifest.chunk_hashes.len() as u64;
    assert(offer@.chunk_hashes.len() == total);
    let count: u32 = (total % 0x1_0000_0000) as u32;
    let ghost all = Seq::new(count as nat, |i: int| i as u32);
    let ghost keep = |i: u32| !missing@.contains(i);
    let mut have: Vec<u32> = Vec::new();
    let mut i: u32 = 0;
    proof {
        reveal(Seq::filter);
        assert(have@ =~= all.take(0).filter(keep));
    }
    while i < count
        invariant
            i <= count,
            all == Seq::new(count as nat, |i: int| i as u32),
            keep == (|i: u32| !missing@.contains(i)),
            have@ == all.take(i as int).filter(keep),
        decreases count - i,
    {
        proof {
            lemma_filter_step(all, i as int, keep);
        }
        let mut found = false;
        let mut k: usize = 0;
        while k < missing.len() && !found
            invariant
                k <= missing.len(),
                found ==> missing@.contains(i),
                !found ==> forall|j: int| 0 <= j < k ==> missing@[j] != i,
            decreases missing.len() - k,
        {
            if missing[k] == i {
                found = true;
            }
            k += 1;
        }
        if !found {
            assert(!missing@.contains(i));
            have.push(i);
        }
        i += 1;
    }
    assert(all.take(i as int) =~= all);
    Some(
        ControlPlan {
            conversation_id: file.conversation_id.clone(),
            payload: ChatPayload::FileAccept {
                from: me.to_owned(),
                file_id: file.file_id.clone(),
                have,
            },
            peers: other_members(db, file.conversation_id.as_str(), me),
        },
    )
}

// -- published friend requests --------------------------------------------------------------------

/// The name that a published request comes from.
pub open spec fn directive_name(d: DirectiveModel) -> Seq<char> {
    lowered(trimmed(d.from_username))
}

/// The request is open and names its sender.
pub open spec fn directive_counts(d: DirectiveModel) -> bool {
    d.status == "pending"@ && directive_name(d).len() > 0
}

/// Whether a published request may change what is stored of its sender: only of someone
/// who is not decided on yet, and of whom no bundle is known.
pub open spec fn directive_keeps(db: DbModel, name: Seq<char>) -> bool {
    match db.contact(name) {
        None => true,
        Some(c) => c.status != "friend"@ && c.status != "blocked"@ && c.endpoint_bundle is None,
    }
}

/// What hex reads as, if it does.
pub open spec fn readable(hex: Seq<char>) -> Option<Seq<u8>> {
    match hex_decoded_32(hex) {
        Ok(b) => Some(b),
        Err(_) => None,
    }
}

/// The contact that a published request stores.
pub open spec fn directive_contact(d: DirectiveModel) -> ContactModel {
    ContactModel {
        username: directive_name(d),
        display_name: d.from_display_name,
        x25519_pubkey: readable(d.from_x_pubkey_hex),
        ed_pubkey: readable(d.from_ed_pubkey_hex),
        endpoint_id: None,
        endpoint_bundle: None,
        status: "pending"@,
    }
}

/// The store after a published request was taken.
pub open spec fn directive_taken(db: DbModel, d: DirectiveModel, now_ms: i64) -> DbModel {
    if !directive_counts(d) {
        db
    } else {
        let name = directive_name(d);
        let known = if directive_keeps(db, name) {
            db.upsert_contact(directive_contact(d), now_ms)
        } else {
            db
        };
        if has_open_request(db, "in"@, name) {
            known
        } else {
            known.save_friend_request(
                new_request(d.id, "in"@, name, d.from_display_name, d.created_at_ms),
                now_ms,
            )
        }
    }
}

/// The store after published requests were taken, in order.
pub open spec fn directives_taken(db: DbModel, list: Seq<DirectiveModel>, now_ms: i64) -> DbModel
    decreases list.len(),
{
    if list.len() == 0 {
        db
    } else {
        directive_taken(directives_taken(db, list.drop_last(), now_ms), list.last(), now_ms)
    }
}

/// How many of the published requests are new.
pub open spec fn directives_new(db: DbModel, list: Seq<DirectiveModel>, now_ms: i64) -> nat
    decreases list.len(),
{
    if list.len() == 0 {
        0
    } else {
        let before = directives_taken(db, list.drop_last(), now_ms);
        directives_new(db, list.drop_last(), now_ms) + if directive_counts(list.last())
            && !has_open_request(before, "in"@, directive_name(list.last())) {
            1nat
        } else {
            0nat
        }
    }
}

fn take_directive(db: &mut Database, d: &FriendDirective, now_ms: i64) -> (new: bool)
    ensures
        final(db)@ == directive_taken(old(db)@, d@, now_ms),
        new == (directive_counts(d@) && !has_open_request(
            old(db)@,
            "in"@,
            directive_name(d@),
        )),
{
    if !text_eq(d.status.as_str(), "pending") {
        return false;
    }
    let from = to_lower(trim(d.from_username.as_str()).as_str());
    if from.as_str().is_empty() {
        return false;
    }
    let ghost before = db@;
    let keep = match db.find_contact(from.as_str()) {
        None => true,
        Some(c) => !text_eq(c.status.as_str(), "friend") && !text_eq(
            c.status.as_str(),
            "blocked",
        ) && c.endpoint_bundle.is_none(),
    };
    assert(keep == directive_keeps(before, from@));
    let open = find_open_request(db, "in", from.as_str());
    proof {
        assert(opt_request(open) is Some <==> has_open_request(before, "in"@, from@));
    }
    if keep {
        let x = match hex_decode_32(d.from_x_pubkey_hex.as_str()) {
            Ok(k) => Some(copy_bytes(k.as_slice())),
            Err(_) => None,
        };
        let ed = match hex_decode_32(d.from_ed_pubkey_hex.as_str()) {
            Ok(k) => Some(copy_bytes(k.as_slice())),
            Err(_) => None,
        };
        let contact = Contact {
            username: from.clone(),
            display_name: d.from_display_name.clone(),
            x25519_pubkey: x,
            ed_pubkey: ed,
            endpoint_id: None,
            endpoint_bundle: None,
            status: "pending".to_owned(),
        };
        assert(contact@ == directive_contact(d@));
        db.upsert_contact(&contact, now_ms);
    }
    if open.is_some() {
        return false;
    }
    db.save_friend_request(
        &FriendRequest {
            id: d.id.clone(),
            direction: "in".to_owned(),
            peer_username: from,
            peer_display_name: d.from_display_name.clone(),
            status: "pending".to_owned(),
            created_at_ms: d.created_at_ms,
        },
        now_ms,
    );
    true
}

/// Takes the friend requests that were published for this user, and says how many are
/// new. What is published carries no bundle, and never replaces one that is known.
pub fn ingest_directives(db: &mut Database, directives: &Vec<FriendDirective>, now_ms: i64) -> (count:
    usize)
    ensures
        final(db)@ == directives_taken(old(db)@, views(directives@), now_ms),
        count == directives_new(old(db)@, views(directives@), now_ms),
{
    let ghost before = db@;
    let ghost list = views(directives@);
    let mut count: usize = 0;
    let mut i: usize = 0;
    assert(list.take(0) =~= Seq::<DirectiveModel>::empty());
    while i < directives.len()
        invariant
            i <= directives.len(),
            list == views(directives@),
            db@ == directives_taken(before, list.take(i as int), now_ms),
            count == directives_new(before, list.take(i as int), now_ms),
            count <= i,
        decreases directives.len() - i,
    {
        assert(list.take(i + 1).drop_last() =~= list.take(i as int));
        assert(list.take(i + 1).last() == directives@[i as int]@);
        if take_directive(db, &directives[i], now_ms) {
            count += 1;
        }
        i += 1;
    }
    assert(list.take(i as int) =~= list);
    count
}

/// Taking a published request leaves every known bundle as it is.
pub proof fn law_directive_keeps_bundle(db: DbModel, d: DirectiveModel, now_ms: i64, user: Seq<char>)
    requires
        db.contact(user) is Some,
        db.contact(user)->0.endpoint_bundle is Some,
    ensures
        directive_taken(db, d, now_ms).contact(user) == db.contact(user),
{
    let name = directive_name(d);
    let p = contact_is(user);
    if directive_counts(d) && directive_keeps(db, name) {
        let q = contact_is(name);
        let f = contact_resaved(directive_contact(d));
        assert(name != user);
        lemma_first_row(db.contacts, p);
        if some_row(db.contacts, q) {
            lemma_other_contact_kept(db.contacts, name, user, directive_contact(d));
        } else {
            lemma_first_row_pushed(
                db.contacts,
                p,
                ContactRowModel {
                    contact: directive_contact(d),
                    created_at_ms: now_ms,
                },
            );
        }
    }
}

proof fn lemma_other_contact_kept(
    rows: Seq<ContactRowModel>,
    name: Seq<char>,
    user: Seq<char>,
    contact: ContactModel,
)
    requires
        name != user,
        contact.username == name,
    ensures
        first_row(
            updated(
                rows,
                contact_is(name),
                contact_resaved(contact),
            ),
            contact_is(user),
        ) == first_row(rows, contact_is(user)),
    decreases rows.len(),
{
    let q = contact_is(name);
    let f = contact_resaved(contact);
    let after = updated(rows, q, f);
    if rows.len() > 0 {
        assert(after.drop_first() =~= updated(rows.drop_first(), q, f));
        lemma_other_contact_kept(rows.drop_first(), name, user, contact);
    }
}

} // verus!
