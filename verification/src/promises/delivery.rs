//! Delivery: what waits after a failure, and what ends the waiting.

use vstd::prelude::*;

use crate::coordinator::DirectiveModel;
use crate::bytes::hex_decoded_32;
use crate::database::model::{file_in, files_of, message_is, pending_is, pending_of, request_is};
use crate::database::laws::law_stored_contact_is_found;
use crate::database::DbModel;
use crate::delivery::{
    chunks_held, directive_taken, failure_noted, file_stalled, handshake_queued, handshake_tried,
    retry_done, stalled_in, HandshakeTry,
};
use crate::friends::{has_open_request, open_request};
use crate::promises::friends::{is_open, request_opened};
use crate::promises::messages::{lemma_filtered_from, lemma_message_at, lemma_others_differ};
use crate::promises::restated;
use crate::promises::store::{left_over, lemma_left_over};
use crate::records::{ConversationRowModel, FileTransferModel, PendingHandshakeModel, PendingModel};
use crate::sync::{doubled, lemma_doubled_step, lemma_jitter_is_a_quarter, retry_delay};
use crate::table::{some_row, without};
use crate::text::{lowered, trimmed};

verus! {

/// The wait is a second for the first attempt, twice as long for each further one, five
/// minutes at most; the jitter adds less than a quarter of it and takes nothing off.
pub proof fn law_waits_double(attempt: u32, sample: u32)
    ensures
        1_000 <= retry_delay(0, sample) <= 1_250,
        attempt < u32::MAX ==> ({
            let wait = doubled(1_000, attempt as nat, 300_000);
            let next = doubled(1_000, (attempt + 1) as nat, 300_000);
            &&& next == if 2 * wait <= 300_000 {
                2 * wait
            } else {
                300_000
            }
            &&& wait <= retry_delay(attempt, sample) <= wait + wait / 4
        }),
        doubled(1_000, 0, 300_000) == 1_000,
{
    lemma_doubled_step(1_000, attempt as nat, 300_000);
    lemma_jitter_is_a_quarter(attempt, sample);
    lemma_jitter_is_a_quarter(0, sample);
}

/// A send that failed leaves the message queued for that peer; no other message is touched.
pub proof fn law_failed_message_is_queued(
    db: DbModel,
    peer: Seq<char>,
    id: Seq<char>,
    sample: u32,
    now_ms: i64,
    at: int,
)
    requires
        db.consistent(),
        0 <= at < db.messages.len(),
        forall|i: int| 0 <= i < db.pending.len() ==> (#[trigger] db.pending[i]).id != id,
    ensures
        ({
            let after = failure_noted(db, db.messages[at].id, peer, id, sample, now_ms);
            &&& after.messages.len() == db.messages.len()
            &&& restated(db.messages[at], after.messages[at], "queued"@)
            &&& forall|i: int|
                0 <= i < db.messages.len() && i != at ==> #[trigger] after.messages[i]
                    == db.messages[i]
            &&& exists|i: int|
                0 <= i < after.pending.len() && (#[trigger] after.pending[i]).message_id
                    == db.messages[at].id && after.pending[i].peer_id == peer
                    && after.pending[i].state == "retrying"@
            &&& after == (DbModel { messages: after.messages, pending: after.pending, ..db })
        }),
{
    let message = db.messages[at].id;
    let after = failure_noted(db, message, peer, id, sample, now_ms);
    let p = pending_is(message, peer);
    lemma_others_differ(db, at);
    lemma_message_at(db, at);
    assert(db.has_message(message)) by {
        assert(message_is(message)(db.messages[at]));
    }
    assert(!some_row(db.pending, crate::database::model::pending_id_is(id)));
    assert(db.may_enqueue(id, message, peer));
    if some_row(db.pending, p) {
        let i: int = choose|i: int| 0 <= i < db.pending.len() && p(#[trigger] db.pending[i]);
        assert(after.pending[i].message_id == message && after.pending[i].peer_id == peer);
    } else {
        let i = db.pending.len() as int;
        assert(after.pending[i].message_id == message && after.pending[i].peer_id == peer);
    }
}

/// A retry that got through takes the peer off the queue. The message is delivered once
/// nobody waits for it any more, and stays as it was while somebody does.
pub proof fn law_delivered_once_nobody_waits(db: DbModel, peer: Seq<char>, at: int)
    requires
        db.consistent(),
        0 <= at < db.messages.len(),
    ensures
        ({
            let message = db.messages[at].id;
            let after = retry_done(db, message, peer);
            let others_wait = exists|i: int|
                0 <= i < db.pending.len() && (#[trigger] db.pending[i]).message_id == message
                    && db.pending[i].peer_id != peer;
            &&& left_over(
                db.pending,
                after.pending,
                |r: PendingModel| r.message_id == message && r.peer_id == peer,
            )
            &&& others_wait ==> after.messages == db.messages
            &&& !others_wait ==> restated(db.messages[at], after.messages[at], "delivered"@)
            &&& after.messages.len() == db.messages.len()
            &&& forall|i: int|
                0 <= i < db.messages.len() && i != at ==> #[trigger] after.messages[i]
                    == db.messages[i]
            &&& after == (DbModel { messages: after.messages, pending: after.pending, ..db })
        }),
{
    let message = db.messages[at].id;
    let gone = pending_is(message, peer);
    let left = without(db.pending, gone);
    lemma_others_differ(db, at);
    lemma_left_over(db.pending, gone);
    let p = pending_of(message);
    if some_row(left, p) {
        let i: int = choose|i: int| 0 <= i < left.len() && p(#[trigger] left[i]);
        assert(left.contains(left[i]));
        let k: int = choose|k: int| 0 <= k < db.pending.len() && db.pending[k] == left[i];
        assert(db.pending[k].message_id == message && db.pending[k].peer_id != peer);
    }
    if exists|i: int|
        0 <= i < db.pending.len() && (#[trigger] db.pending[i]).message_id == message
            && db.pending[i].peer_id != peer {
        let i: int = choose|i: int|
            0 <= i < db.pending.len() && (#[trigger] db.pending[i]).message_id == message
                && db.pending[i].peer_id != peer;
        assert(db.pending.contains(db.pending[i]));
        assert(left.contains(db.pending[i]));
        let k: int = choose|k: int| 0 <= k < left.len() && left[k] == db.pending[i];
        assert(p(left[k]));
    }
}

/// A handshake that got through, or cannot be read, is off the queue; one that failed waits
/// for a later time, with one more attempt counted.
pub proof fn law_handshake_is_settled(
    db: DbModel,
    item: PendingHandshakeModel,
    outcome: HandshakeTry,
    sample: u32,
    now_ms: i64,
)
    requires
        now_ms <= i64::MAX - 1_000_000,
        0 <= item.attempt_count < u32::MAX,
    ensures
        ({
            let after = handshake_tried(db, item, outcome, sample, now_ms);
            &&& after == (DbModel { handshakes: after.handshakes, ..db })
            &&& outcome != HandshakeTry::Failed ==> left_over(
                db.handshakes,
                after.handshakes,
                |r: PendingHandshakeModel| r.message_id == item.message_id,
            )
            &&& outcome == HandshakeTry::Failed ==> after.handshakes.len() == db.handshakes.len()
                && forall|i: int|
                0 <= i < db.handshakes.len() ==> {
                    let row = #[trigger] after.handshakes[i];
                    if db.handshakes[i].message_id == item.message_id {
                        &&& row.next_attempt_at_ms >= now_ms + 1_000
                        &&& row.next_attempt_at_ms <= now_ms + 375_000
                        &&& db.handshakes[i].attempt_count < i64::MAX ==> row.attempt_count
                            == db.handshakes[i].attempt_count + 1
                        &&& row.message_id == item.message_id
                        &&& row.envelope_json == db.handshakes[i].envelope_json
                        &&& row.peer_username == db.handshakes[i].peer_username
                    } else {
                        row == db.handshakes[i]
                    }
                }
        }),
{
    lemma_left_over(db.handshakes, crate::database::model::handshake_is(item.message_id));
    lemma_jitter_is_a_quarter(crate::delivery::low_bits(item.attempt_count), sample);
}

/// The downloads that have stalled are those that are still coming in after more than 90
/// seconds, in the conversations that are looked at.
pub proof fn law_stalled_are_those_that_wait(
    db: DbModel,
    conversations: Seq<ConversationRowModel>,
    now_ms: i64,
    f: FileTransferModel,
)
    ensures
        stalled_in(db, conversations, now_ms).contains(f) <==> {
            &&& f.state == "incoming"@
            &&& now_ms - f.created_at_ms > 90_000
            &&& exists|c: int|
                0 <= c < conversations.len() && (#[trigger] conversations[c]).id
                    == f.conversation_id
            &&& exists|i: int| 0 <= i < db.files.len() && (#[trigger] db.files[i]).file == f
        },
    decreases conversations.len(),
{
    if conversations.len() > 0 {
        let rest = conversations.drop_last();
        let id = conversations.last().id;
        let here = db.files.filter(file_in(id));
        let files = files_of(here);
        let back = files.reverse();
        let stalled = back.filter(file_stalled(now_ms));
        let before = stalled_in(db, rest, now_ms);
        let whole = stalled_in(db, conversations, now_ms);
        law_stalled_are_those_that_wait(db, rest, now_ms, f);
        assert(whole == before + stalled);
        if stalled.contains(f) {
            let i: int = choose|i: int| 0 <= i < stalled.len() && stalled[i] == f;
            lemma_filtered_from(back, file_stalled(now_ms), i);
            let j: int = choose|j: int| 0 <= j < back.len() && back[j] == f;
            assert(files[files.len() - 1 - j] == f);
            let k = files.len() - 1 - j;
            lemma_filtered_from(db.files, file_in(id), k);
            let n: int = choose|n: int| 0 <= n < db.files.len() && db.files[n] == here[k];
            assert(db.files[n].file == f);
            assert(conversations[conversations.len() - 1].id == f.conversation_id);
        }
        if exists|i: int| 0 <= i < db.files.len() && (#[trigger] db.files[i]).file == f {
            let n: int = choose|n: int| 0 <= n < db.files.len() && (#[trigger] db.files[n]).file == f;
            if f.conversation_id == id && f.state == "incoming"@ && now_ms - f.created_at_ms
                > 90_000 {
                db.files.lemma_filter_contains(file_in(id), n);
                let k: int = choose|k: int| 0 <= k < here.len() && here[k] == db.files[n];
                assert(files[k] == f);
                assert(back[files.len() - 1 - k] == f);
                back.lemma_filter_contains(file_stalled(now_ms), files.len() - 1 - k);
                assert(stalled.contains(f));
                let m: int = choose|m: int| 0 <= m < stalled.len() && stalled[m] == f;
                assert(whole[before.len() + m] == f);
            }
        }
        if before.contains(f) {
            let m: int = choose|m: int| 0 <= m < before.len() && before[m] == f;
            assert(whole[m] == f);
            let c: int = choose|c: int|
                0 <= c < rest.len() && (#[trigger] rest[c]).id == f.conversation_id;
            assert(conversations[c].id == f.conversation_id);
        }
        if whole.contains(f) {
            let m: int = choose|m: int| 0 <= m < whole.len() && whole[m] == f;
            if m < before.len() {
                assert(before[m] == f);
            } else {
                assert(stalled[m - before.len()] == f);
            }
        }
        if exists|c: int|
            0 <= c < conversations.len() && (#[trigger] conversations[c]).id == f.conversation_id {
            let c: int = choose|c: int|
                0 <= c < conversations.len() && (#[trigger] conversations[c]).id
                    == f.conversation_id;
            if c < rest.len() {
                assert(rest[c].id == f.conversation_id);
            }
        }
    }
}

/// Whoever asks for a stalled file again says what they have: every chunk that is not
/// missing.
pub proof fn law_held_is_what_is_not_missing(total: nat, missing: Seq<u32>)
    requires
        total < 0x1_0000_0000,
    ensures
        forall|c: u32| #[trigger]
            chunks_held(total, missing).contains(c) <==> c < total && !missing.contains(c),
{
    crate::promises::files::law_missing_is_what_is_not_there(total, missing);
    assert(chunks_held(total, missing) == crate::files::chunks_missing(total, missing));
}

/// A published request of someone opens a request of theirs. Of someone who is not decided
/// on, and whose address is not known, it gives the keys; nobody else is touched, and a
/// request that is not open, or names nobody, changes nothing.
pub proof fn law_published_request_is_taken(
    db: DbModel,
    d: DirectiveModel,
    now_ms: i64,
    u: Seq<char>,
)
    requires
        forall|i: int|
            0 <= i < db.requests.len() ==> (#[trigger] db.requests[i]).request.id != d.id,
    ensures
        ({
            let name = lowered(trimmed(d.from_username));
            let after = directive_taken(db, d, now_ms);
            let decided = db.contact(name) is Some && (db.contact(name)->0.status == "friend"@
                || db.contact(name)->0.status == "blocked"@ || db.contact(name)->0.endpoint_bundle
                is Some);
            &&& d.status != "pending"@ || name.len() == 0 ==> after == db
            &&& d.status == "pending"@ && name.len() > 0 ==> {
                &&& request_opened(
                    db.requests,
                    after.requests,
                    "in"@,
                    name,
                    d.from_display_name,
                    d.id,
                    d.created_at_ms,
                )
                &&& decided ==> after.contacts == db.contacts
                &&& !decided ==> after.contact(name) is Some && after.contact(name)->0.status
                    == "pending"@ && after.contact(name)->0.display_name == d.from_display_name
                    && (hex_decoded_32(d.from_x_pubkey_hex) is Ok ==> after.contact(
                    name,
                )->0.x25519_pubkey == Some(hex_decoded_32(d.from_x_pubkey_hex)->Ok_0)) && (
                hex_decoded_32(d.from_ed_pubkey_hex) is Ok ==> after.contact(name)->0.ed_pubkey
                    == Some(hex_decoded_32(d.from_ed_pubkey_hex)->Ok_0))
                &&& u != name ==> after.contact(u) == db.contact(u)
                &&& after.messages == db.messages
                &&& after.conversations == db.conversations
            }
        }),
{
    let name = lowered(trimmed(d.from_username));
    law_stored_contact_is_found(db, crate::delivery::directive_contact(d), now_ms, u);
    let open = open_request("in"@, name);
    assert forall|i: int| 0 <= i < db.requests.len() implies open(db.requests[i].request)
        == is_open((#[trigger] db.requests[i]).request, "in"@, name) by {
    }
    assert(!some_row(db.requests, request_is(d.id)));
    if has_open_request(db, "in"@, name) {
        let i: int = choose|i: int|
            0 <= i < db.requests.len() && open((#[trigger] db.requests[i]).request);
        assert(is_open(db.requests[i].request, "in"@, name));
    }
}

/// Published requests are taken one after the other; one counts as new if it opened a
/// request.
pub proof fn law_published_requests_are_taken_in_turn(
    db: DbModel,
    list: Seq<DirectiveModel>,
    d: DirectiveModel,
    now_ms: i64,
)
    requires
        forall|i: int|
            0 <= i < crate::delivery::directives_taken(db, list, now_ms).requests.len() ==> (
            #[trigger] crate::delivery::directives_taken(db, list, now_ms).requests[i]).request.id
                != d.id,
    ensures
        crate::delivery::directives_taken(db, Seq::empty(), now_ms) == db,
        crate::delivery::directives_new(db, Seq::empty(), now_ms) == 0,
        crate::delivery::directives_taken(db, list.push(d), now_ms) == directive_taken(
            crate::delivery::directives_taken(db, list, now_ms),
            d,
            now_ms,
        ),
        crate::delivery::directives_new(db, list.push(d), now_ms)
            - crate::delivery::directives_new(db, list, now_ms)
            == crate::delivery::directives_taken(db, list.push(d), now_ms).requests.len()
            - crate::delivery::directives_taken(db, list, now_ms).requests.len(),
{
    assert(list.push(d).drop_last() =~= list);
    let before = crate::delivery::directives_taken(db, list, now_ms);
    assert(!some_row(before.requests, request_is(d.id)));
}

/// A handshake that could not be sent waits with its envelope for its first retry; one that
/// could not be written down is not queued.
pub proof fn law_failed_handshake_is_queued(
    db: DbModel,
    peer: Seq<char>,
    message: Seq<u8>,
    envelope_json: Seq<char>,
    sample: u32,
    now_ms: i64,
)
    requires
        now_ms <= i64::MAX - 1_000_000,
        forall|i: int|
            0 <= i < db.handshakes.len() ==> (#[trigger] db.handshakes[i]).message_id
                != crate::ids::uuid_text(message),
    ensures
        ({
            let after = handshake_queued(db, peer, message, envelope_json, sample, now_ms);
            &&& envelope_json.len() == 0 ==> after == db
            &&& envelope_json.len() > 0 ==> {
                let row = after.handshakes.last();
                &&& after.handshakes.len() == db.handshakes.len() + 1
                &&& row.message_id == crate::ids::uuid_text(message)
                &&& row.peer_username == peer
                &&& row.envelope_json == envelope_json
                &&& row.attempt_count == 0
                &&& now_ms + 1_000 <= row.next_attempt_at_ms <= now_ms + 1_250
            }
        }),
{
    lemma_jitter_is_a_quarter(0, sample);
    law_waits_double(0, sample);
    assert(!some_row(
        db.handshakes,
        crate::database::model::handshake_is(crate::ids::uuid_text(message)),
    ));
}

/// Requests that were published for someone are those that they are given, and a record that
/// was registered is the one that is found; other users keep theirs.
pub proof fn law_local_directory_keeps_what_it_is_told(
    directory: crate::coordinator::LocalDirectoryModel,
    record: crate::coordinator::DirectoryModel,
    user: Seq<char>,
    d: DirectiveModel,
)
    ensures
        directory.with_record(record).record_of(record.username) == Some(record),
        user != record.username ==> directory.with_record(record).record_of(user)
            == directory.record_of(user),
        directory.with_record(record).requests == directory.requests,
        directory.requests_for(user).contains(d) <==> exists|i: int|
            {
                let r = #[trigger] directory.requests[i];
                0 <= i < directory.requests.len() && r.to_username == user && r.directive == d
            },
{
    crate::coordinator::law_registered_is_found(directory, record);
    let p = crate::coordinator::user_is(record.username);
    if user != record.username {
        crate::table::lemma_first_row_kept(
            directory.users,
            p,
            crate::coordinator::replaced_by(record),
            crate::coordinator::user_is(user),
        );
        crate::table::lemma_first_row_pushed(
            directory.users,
            crate::coordinator::user_is(user),
            record,
        );
    }
    let q = crate::coordinator::addressed_to(user);
    let mine = directory.requests.filter(q);
    let list = directory.requests_for(user);
    if list.contains(d) {
        let k: int = choose|k: int| 0 <= k < list.len() && list[k] == d;
        lemma_filtered_from(directory.requests, q, k);
        let i: int = choose|i: int|
            0 <= i < directory.requests.len() && directory.requests[i] == mine[k];
        assert(directory.requests[i].directive == d);
    }
    if exists|i: int|
        {
            let r = #[trigger] directory.requests[i];
            0 <= i < directory.requests.len() && r.to_username == user && r.directive == d
        } {
        let i: int = choose|i: int|
            {
                let r = #[trigger] directory.requests[i];
                0 <= i < directory.requests.len() && r.to_username == user && r.directive == d
            };
        directory.requests.lemma_filter_contains(q, i);
        let k: int = choose|k: int| 0 <= k < mine.len() && mine[k] == directory.requests[i];
        assert(list[k] == d);
    }
}

/// Another attempt sends the stored message as it is, under its own id, number and type, and
/// leaves the store alone. A message that is gone is off the queue of that peer.
pub proof fn law_retry_sends_what_is_stored(
    before: DbModel,
    after: DbModel,
    identity: crate::identity::IdentityModel,
    device: Seq<u8>,
    item: PendingModel,
    stand_in: Seq<u8>,
    now_ms: i64,
    envelope: Option<crate::protocol::ProtocolEnvelope>,
    at: int,
)
    requires
        before.consistent(),
        crate::delivery::retry_planned(
            before,
            after,
            identity,
            device,
            item,
            stand_in,
            now_ms,
            envelope,
        ),
    ensures
        0 <= at < before.messages.len() && before.messages[at].id == item.message_id ==> {
            let m = before.messages[at];
            let e = envelope->0@;
            &&& after == before
            &&& envelope is Some
            &&& crate::ids::uuid_parsed(m.id) is Some ==> Some(e.message_id)
                == crate::ids::uuid_parsed(m.id)
            &&& crate::ids::uuid_parsed(m.conversation_id) is Some ==> Some(e.conversation_id)
                == crate::ids::uuid_parsed(m.conversation_id)
            &&& e.ciphertext == m.ciphertext
            &&& m.sequence >= 0 ==> e.sequence == m.sequence
            &&& e.sender_device_id == device
            &&& m.message_type == "Message"@ ==> e.message_type
                == crate::protocol::MessageType::Message
            &&& m.message_type == "FileOffer"@ ==> e.message_type
                == crate::protocol::MessageType::FileOffer
        },
        (forall|i: int|
            0 <= i < before.messages.len() ==> (#[trigger] before.messages[i]).id
                != item.message_id) ==> envelope is None && left_over(
            before.pending,
            after.pending,
            |r: PendingModel| r.message_id == item.message_id && r.peer_id == item.peer_id,
        ) && after.messages == before.messages,
{
    let p = message_is(item.message_id);
    crate::table::lemma_first_row(before.messages, p);
    lemma_left_over(before.pending, pending_is(item.message_id, item.peer_id));
    if 0 <= at < before.messages.len() && before.messages[at].id == item.message_id {
        lemma_message_at(before, at);
        crate::promises::catch_up::lemma_type_names(before.messages[at].message_type);
    }
}

/// Everyone else in the conversation of a stalled file is asked for what is missing of it, by
/// being told what is there; of a file that misses nothing, nobody is asked.
pub proof fn law_stalled_file_is_asked_for(
    db: DbModel,
    me: Seq<char>,
    conversation: Seq<char>,
    file_id: Seq<char>,
    offer: crate::payload::FileOfferModel,
    missing: Seq<u32>,
    plan: Option<crate::messaging::ControlPlan>,
    c: u32,
)
    requires
        db.consistent(),
        crate::delivery::nudge_planned(db, me, conversation, file_id, offer, missing, plan),
        offer.chunk_hashes.len() < 0x1_0000_0000,
    ensures
        plan is None <==> missing.len() == 0,
        plan is Some ==> {
            let said = plan->0.payload@;
            &&& plan->0.conversation_id@ == conversation
            &&& said is FileAccept
            &&& said->FileAccept_from == me
            &&& said->FileAccept_file_id == file_id
            &&& said->FileAccept_have.contains(c) <==> c < offer.chunk_hashes.len()
                && !missing.contains(c)
            &&& crate::promises::messages::everyone_but(
                db,
                conversation,
                me,
                crate::text::texts(plan->0.peers@),
            )
        },
{
    law_held_is_what_is_not_missing(offer.chunk_hashes.len(), missing);
    if plan is Some {
        crate::promises::messages::lemma_peers(
            db,
            conversation,
            me,
            crate::text::texts(plan->0.peers@),
        );
    }
}

/// A mailbox holds an envelope as it is, for seven days.
pub proof fn law_mailbox_object_lasts_a_week(id: Seq<u8>, envelope_json: Seq<char>, now_ms: i64)
    requires
        now_ms <= i64::MAX - 604_800_000,
    ensures
        ({
            let object = crate::delivery::object_of(id, envelope_json, now_ms);
            &&& object.id == crate::ids::uuid_text(id)
            &&& object.envelope_json == envelope_json
            &&& object.created_at_ms == now_ms
            &&& object.expires_at_ms == now_ms + 604_800_000
        }),
{
}

/// A stalled file is asked for again after a minute, and not before.
pub proof fn law_nudges_are_a_minute_apart(now_ms: i64, last: i64)
    ensures
        crate::delivery::nudge_is_due(now_ms, last) <==> now_ms >= last + 60_000,
{
}

} // verus!
