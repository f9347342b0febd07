//! Retry and catch-up.
//!
//! An outbound message keeps its id across retries, and the receiver stores an id
//! once: a dropped connection neither loses nor doubles a message.

use vstd::prelude::*;

use crate::bytes::{to_unsigned, unsigned_bits};
use crate::database::{Database, DbModel};
use crate::envelope::{build_envelope, envelope_checked, envelope_of, staged_row};
use crate::identity::{ed25519_public, DeviceIdentity, IdentityModel};
use crate::ids::{uuid_parsed, Uuid};
use crate::payload::{ChatPayload, PayloadModel};
use crate::protocol::{type_label, EnvelopeModel, MessageType, ProtocolEnvelope};
use crate::records::{Message, MessageModel, PendingItem};
use crate::table::{limit_rows, limited, select_rows, views};
use crate::text::{copy_bytes, lists_text, opt_text, prefix, take_chars, text_eq, texts};
use vstd::string::*;

verus! {

/// The longest wait before the jitter: 5 minutes, in milliseconds.
pub const RETRY_CAP_MS: i64 = 300_000;

/// How many parts a jitter sample divides its range into.
pub const JITTER_PARTS: u32 = 10_000;

/// Calls `std::time::SystemTime::now` and takes the nanoseconds of its fraction of
/// a second. Nothing is stated of the time.
#[verifier::external_body]
pub(crate) fn clock_fraction() -> u32 {
    std::time::SystemTime::now().duration_since(std::time::UNIX_EPOCH).map(
        |d| d.subsec_nanos(),
    ).unwrap_or(0)
}

/// `base * 2^attempt`, but no more than `cap`.
pub open spec fn doubled(base: int, attempt: nat, cap: int) -> int
    decreases attempt,
{
    if base >= cap {
        cap
    } else if attempt == 0 {
        base
    } else {
        doubled(2 * base, (attempt - 1) as nat, cap)
    }
}

/// The wait of an attempt: a second, doubled for each attempt, up to five minutes,
/// and up to a quarter of that on top, by the jitter sample.
pub open spec fn retry_delay(attempt: u32, sample: u32) -> int {
    let capped = doubled(1000, attempt as nat, RETRY_CAP_MS as int);
    capped + capped * (sample as int % JITTER_PARTS as int) / (4 * JITTER_PARTS as int)
}

/// The wait of an attempt with a given jitter sample, in milliseconds.
pub fn retry_delay_with(attempt: u32, sample: u32) -> (ms: i64)
    ensures
        ms == retry_delay(attempt, sample),
        1000 <= ms < RETRY_CAP_MS + RETRY_CAP_MS / 4,
{
    let mut capped: i64 = 1000;
    let mut left: u32 = attempt;
    while left > 0 && capped < RETRY_CAP_MS
        invariant
            1000 <= capped < 2 * RETRY_CAP_MS,
            doubled(1000, attempt as nat, RETRY_CAP_MS as int) == doubled(
                capped as int,
                left as nat,
                RETRY_CAP_MS as int,
            ),
        decreases left,
    {
        capped = 2 * capped;
        left -= 1;
    }
    if capped > RETRY_CAP_MS {
        capped = RETRY_CAP_MS;
    }
    assert(capped == doubled(1000, attempt as nat, RETRY_CAP_MS as int));
    let part: i64 = (sample % JITTER_PARTS) as i64;
    assert(0 <= capped * part <= RETRY_CAP_MS * 9_999) by (nonlinear_arith)
        requires
            1000 <= capped <= RETRY_CAP_MS,
            0 <= part <= 9_999,
    ;
    assert(capped * part < capped * 10_000) by (nonlinear_arith)
        requires
            1000 <= capped,
            part <= 9_999,
    ;
    capped + capped * part / 40_000
}

/// The wait of an attempt, in milliseconds: `min(5min, 1s * 2^attempt)` plus up to
/// 25% jitter.
pub fn retry_delay_ms(attempt: u32) -> (ms: i64)
    ensures
        exists|sample: u32| ms == #[trigger] retry_delay(attempt, sample),
        1000 <= ms < RETRY_CAP_MS + RETRY_CAP_MS / 4,
{
    let sample: u32 = clock_fraction();
    retry_delay_with(attempt, sample)
}

/// Before the jitter, a later attempt never waits less than an earlier one.
pub proof fn law_retry_waits_grow(base: int, earlier: nat, later: nat, cap: int)
    requires
        0 < base,
        earlier <= later,
    ensures
        doubled(base, earlier, cap) <= doubled(base, later, cap) <= cap,
        base <= cap ==> base <= doubled(base, earlier, cap),
    decreases later,
{
    if base < cap {
        if earlier > 0 {
            law_retry_waits_grow(2 * base, (earlier - 1) as nat, (later - 1) as nat, cap);
        } else if later > 0 {
            law_retry_waits_grow(2 * base, 0, (later - 1) as nat, cap);
        }
    }
}

/// Another attempt doubles the wait, up to the cap.
pub(crate) proof fn lemma_doubled_step(base: int, attempt: nat, cap: int)
    requires
        0 < base,
        0 < cap,
    ensures
        doubled(base, attempt + 1, cap) == if 2 * doubled(base, attempt, cap) <= cap {
            2 * doubled(base, attempt, cap)
        } else {
            cap
        },
    decreases attempt,
{
    reveal_with_fuel(doubled, 3);
    if base < cap && attempt > 0 {
        lemma_doubled_step(2 * base, (attempt - 1) as nat, cap);
    }
}

/// The jitter adds less than a quarter of the wait, and takes nothing off it.
pub(crate) proof fn lemma_jitter_is_a_quarter(attempt: u32, sample: u32)
    ensures
        ({
            let capped = doubled(1000, attempt as nat, RETRY_CAP_MS as int);
            capped <= retry_delay(attempt, sample) <= capped + capped / 4
        }),
        1000 <= retry_delay(attempt, sample) <= RETRY_CAP_MS + RETRY_CAP_MS / 4,
{
    let capped = doubled(1000, attempt as nat, RETRY_CAP_MS as int);
    law_retry_waits_grow(1000, attempt as nat, attempt as nat, RETRY_CAP_MS as int);
    let part = sample as int % JITTER_PARTS as int;
    assert(0 <= capped * part <= capped * 10_000) by (nonlinear_arith)
        requires
            0 <= capped,
            0 <= part <= 10_000,
    ;
}

/// What is due to be sent again, 50 at most.
pub fn due_pending(db: &Database, now_ms: i64) -> (list: Vec<PendingItem>)
    ensures
        db@.due_listed(now_ms, 50, views(list@)),
{
    db.list_due_pending(now_ms, 50)
}

/// A limit that takes everything.
pub const NO_LIMIT: i64 = -1;

pub open spec fn message_after(sequence: i64) -> spec_fn(MessageModel) -> bool {
    |m: MessageModel| m.sequence > sequence
}

/// `list` are the thread messages of a conversation after a number, oldest first,
/// `limit` at most; without a limit where it is negative.
pub open spec fn listed_after(
    db: DbModel,
    conversation: Seq<char>,
    after: i64,
    limit: int,
    list: Seq<MessageModel>,
) -> bool {
    exists|all: Seq<MessageModel>| #[trigger]
        db.thread_listed(conversation, NO_LIMIT as int, all) && list == limited(
            all.filter(message_after(after)),
            limit,
        )
}

/// The thread messages of a conversation after a number, oldest first.
pub fn messages_after(db: &Database, conversation_id: &str, after_sequence: i64, limit: i64) -> (list:
    Vec<Message>)
    ensures
        listed_after(db@, conversation_id@, after_sequence, limit as int, views(list@)),
{
    let all = db.list_messages(conversation_id, NO_LIMIT);
    let test = |m: &Message| -> (b: bool)
        ensures
            b == message_after(after_sequence)(m@),
        { m.sequence > after_sequence };
    let newer = select_rows(&all, test, Ghost(message_after(after_sequence)));
    limit_rows(newer, limit)
}

/// The type that a stored name stands for.
pub open spec fn type_named(raw: Seq<char>) -> MessageType {
    if raw == "MessageEdit"@ {
        MessageType::MessageEdit
    } else if raw == "MessageDelete"@ {
        MessageType::MessageDelete
    } else if raw == "DeliveryAck"@ {
        MessageType::DeliveryAck
    } else if raw == "ReadAck"@ {
        MessageType::ReadAck
    } else if raw == "Typing"@ {
        MessageType::Typing
    } else if raw == "Presence"@ {
        MessageType::Presence
    } else if raw == "SyncRequest"@ {
        MessageType::SyncRequest
    } else if raw == "SyncResponse"@ {
        MessageType::SyncResponse
    } else if raw == "GroupCommit"@ {
        MessageType::GroupCommit
    } else if raw == "GroupMessage"@ {
        MessageType::GroupMessage
    } else if raw == "GroupSync"@ {
        MessageType::GroupSync
    } else if raw == "FileOffer"@ {
        MessageType::FileOffer
    } else if raw == "FileAccept"@ {
        MessageType::FileAccept
    } else if raw == "FileChunk"@ {
        MessageType::FileChunk
    } else if raw == "FileAck"@ {
        MessageType::FileAck
    } else if raw == "FileComplete"@ {
        MessageType::FileComplete
    } else if raw == "FriendRequest"@ {
        MessageType::FriendRequest
    } else if raw == "FriendResponse"@ {
        MessageType::FriendResponse
    } else {
        MessageType::Message
    }
}

/// The type that a stored name stands for; a message where the name is another.
pub fn parse_message_type(raw: &str) -> (t: MessageType)
    ensures
        t == type_named(raw@),
{
    if text_eq(raw, "MessageEdit") {
        MessageType::MessageEdit
    } else if text_eq(raw, "MessageDelete") {
        MessageType::MessageDelete
    } else if text_eq(raw, "DeliveryAck") {
        MessageType::DeliveryAck
    } else if text_eq(raw, "ReadAck") {
        MessageType::ReadAck
    } else if text_eq(raw, "Typing") {
        MessageType::Typing
    } else if text_eq(raw, "Presence") {
        MessageType::Presence
    } else if text_eq(raw, "SyncRequest") {
        MessageType::SyncRequest
    } else if text_eq(raw, "SyncResponse") {
        MessageType::SyncResponse
    } else if text_eq(raw, "GroupCommit") {
        MessageType::GroupCommit
    } else if text_eq(raw, "GroupMessage") {
        MessageType::GroupMessage
    } else if text_eq(raw, "GroupSync") {
        MessageType::GroupSync
    } else if text_eq(raw, "FileOffer") {
        MessageType::FileOffer
    } else if text_eq(raw, "FileAccept") {
        MessageType::FileAccept
    } else if text_eq(raw, "FileChunk") {
        MessageType::FileChunk
    } else if text_eq(raw, "FileAck") {
        MessageType::FileAck
    } else if text_eq(raw, "FileComplete") {
        MessageType::FileComplete
    } else if text_eq(raw, "FriendRequest") {
        MessageType::FriendRequest
    } else if text_eq(raw, "FriendResponse") {
        MessageType::FriendResponse
    } else {
        MessageType::Message
    }
}

/// A type that a payload can have is found again under its stored name, so that a
/// message is sent again as what it was.
pub proof fn law_stored_type_is_found(payload: PayloadModel)
    ensures
        type_named(type_label(payload.message_type())) == payload.message_type(),
{
    reveal_strlit("Message");
    reveal_strlit("MessageEdit");
    reveal_strlit("MessageDelete");
    reveal_strlit("DeliveryAck");
    reveal_strlit("ReadAck");
    reveal_strlit("Typing");
    reveal_strlit("Presence");
    reveal_strlit("SyncRequest");
    reveal_strlit("SyncResponse");
    reveal_strlit("GroupCommit");
    reveal_strlit("GroupMessage");
    reveal_strlit("GroupSync");
    reveal_strlit("FileOffer");
    reveal_strlit("FileAccept");
    reveal_strlit("FileChunk");
    reveal_strlit("FileAck");
    reveal_strlit("FileComplete");
    reveal_strlit("FriendRequest");
    reveal_strlit("FriendResponse");
    assert("Message"@.len() == 7 && "Message"@[0] == 'M');
    assert("MessageEdit"@.len() == 11 && "MessageEdit"@[0] == 'M');
    assert("MessageDelete"@.len() == 13 && "MessageDelete"@[0] == 'M');
    assert("DeliveryAck"@.len() == 11 && "DeliveryAck"@[0] == 'D');
    assert("ReadAck"@.len() == 7 && "ReadAck"@[0] == 'R');
    assert("Typing"@.len() == 6 && "Typing"@[0] == 'T');
    assert("Presence"@.len() == 8 && "Presence"@[0] == 'P');
    assert("SyncRequest"@.len() == 11 && "SyncRequest"@[0] == 'S');
    assert("SyncResponse"@.len() == 12 && "SyncResponse"@[0] == 'S');
    assert("GroupCommit"@.len() == 11 && "GroupCommit"@[0] == 'G');
    assert("GroupMessage"@.len() == 12 && "GroupMessage"@[0] == 'G');
    assert("GroupSync"@.len() == 9 && "GroupSync"@[0] == 'G');
    assert("FileOffer"@.len() == 9 && "FileOffer"@[0] == 'F');
    assert("FileAccept"@.len() == 10 && "FileAccept"@[0] == 'F');
    assert("FileChunk"@.len() == 9 && "FileChunk"@[0] == 'F');
    assert("FileAck"@.len() == 7 && "FileAck"@[0] == 'F');
    assert("FileComplete"@.len() == 12 && "FileComplete"@[0] == 'F');
    assert("FriendRequest"@.len() == 13 && "FriendRequest"@[0] == 'F');
    assert("FriendResponse"@.len() == 14 && "FriendResponse"@[0] == 'F');
    assert("FileOffer"@[4] == 'O');
    assert("FileChunk"@[4] == 'C');
}

/// Builds the envelope of a stored message again: the same ids, type, number and
/// ciphertext, a new time. `stand_in` is the message's id where its text writes
/// none.
pub fn resend_envelope_as(
    identity: &DeviceIdentity,
    device_uuid: Uuid,
    conversation_uuid: Uuid,
    message: &Message,
    stand_in: Uuid,
    now_ms: i64,
) -> (envelope: ProtocolEnvelope)
    ensures
        envelope@ == envelope_of(
            identity@,
            device_uuid@,
            conversation_uuid@,
            match uuid_parsed(message@.id) {
                Some(id) => id,
                None => stand_in@,
            },
            type_named(message@.message_type),
            unsigned_bits(message@.sequence as int),
            message@.ciphertext,
            now_ms,
        ),
        envelope_checked(ed25519_public(identity@.ed_secret), envelope@) is Ok,
{
    let message_id = match Uuid::parse_str(message.id.as_str()) {
        Some(id) => id,
        None => stand_in,
    };
    build_envelope(
        identity,
        device_uuid,
        conversation_uuid,
        message_id,
        parse_message_type(message.message_type.as_str()),
        to_unsigned(message.sequence),
        copy_bytes(message.ciphertext.as_slice()),
        now_ms,
    )
}

/// Builds the envelope of a stored message again.
pub fn resend_envelope(
    identity: &DeviceIdentity,
    device_uuid: Uuid,
    conversation_uuid: Uuid,
    message: &Message,
    now_ms: i64,
) -> (envelope: ProtocolEnvelope)
    ensures
        envelope@ == envelope_of(
            identity@,
            device_uuid@,
            conversation_uuid@,
            envelope@.message_id,
            type_named(message@.message_type),
            unsigned_bits(message@.sequence as int),
            message@.ciphertext,
            now_ms,
        ),
        uuid_parsed(message@.id) matches Some(id) ==> envelope@.message_id == id,
        envelope_checked(ed25519_public(identity@.ed_secret), envelope@) is Ok,
{
    resend_envelope_as(
        identity,
        device_uuid,
        conversation_uuid,
        message,
        Uuid::new_v4(),
        now_ms,
    )
}

/// A message that is sent again is the same message: the envelope that is built from its
/// row differs from the first one in its time alone.
pub proof fn law_resend_is_same_message(
    identity: IdentityModel,
    device: Seq<u8>,
    me: Seq<char>,
    conversation: Seq<char>,
    conversation_id: Seq<u8>,
    payload: PayloadModel,
    body: Seq<char>,
    ciphertext: Seq<u8>,
    message: Seq<u8>,
    sequence: i64,
    now_ms: i64,
    later_ms: i64,
)
    ensures
        ({
            let row = staged_row(
                device,
                me,
                conversation,
                payload,
                body,
                ciphertext,
                message,
                sequence,
                now_ms,
            );
            let first = envelope_of(
                identity,
                device,
                conversation_id,
                message,
                payload.message_type(),
                unsigned_bits(sequence as int),
                ciphertext,
                now_ms,
            );
            let again = envelope_of(
                identity,
                device,
                conversation_id,
                message,
                type_named(row.message_type),
                unsigned_bits(row.sequence as int),
                row.ciphertext,
                later_ms,
            );
            again == (EnvelopeModel { created_at_ms: later_ms, ..first })
        }),
{
    law_stored_type_is_found(payload);
}

/// The messages that a read receipt marks: those that it names and that this user sent.
/// Without a profile, those that the reader did not send.
pub open spec fn message_read(
    me: Option<Seq<char>>,
    reader: Seq<char>,
    ids: Seq<Seq<char>>,
) -> spec_fn(MessageModel) -> bool {
    |m: MessageModel|
        ids.contains(m.id) && m.sender_username != reader && (me is Some ==> m.sender_username
            == me->0)
}

/// The store with these messages marked as read.
pub open spec fn marked_read(db: DbModel, rows: Seq<MessageModel>) -> DbModel
    decreases rows.len(),
{
    if rows.len() == 0 {
        db
    } else {
        marked_read(db, rows.drop_last()).set_message_status(rows.last().id, "read"@)
    }
}

/// What a read receipt does: the messages of the thread that it marks are read, and
/// `applied` is how many those are.
pub open spec fn receipt_applied(
    before: DbModel,
    after: DbModel,
    conversation: Seq<char>,
    reader: Seq<char>,
    ids: Seq<Seq<char>>,
    applied: nat,
) -> bool {
    exists|thread: Seq<MessageModel>|
        {
            let read = thread.filter(message_read(before.username(), reader, ids));
            &&& #[trigger] before.thread_listed(conversation, NO_LIMIT as int, thread)
            &&& applied == read.len()
            &&& after == marked_read(before, read)
        }
}

/// Applies a read receipt: the messages of the thread that it names and that this user
/// sent become read. Says how many those are.
pub fn apply_read_receipt(
    db: &mut Database,
    conversation_id: &str,
    reader: &str,
    ref_ids: &Vec<String>,
) -> (applied: usize)
    ensures
        receipt_applied(
            old(db)@,
            final(db)@,
            conversation_id@,
            reader@,
            texts(ref_ids@),
            applied as nat,
        ),
{
    let thread = db.list_messages(conversation_id, NO_LIMIT);
    let me = match db.load_profile() {
        Some(p) => Some(p.0),
        None => None,
    };
    assert(opt_text(me) == db@.username());
    let mine = &me;
    let test = |m: &Message| -> (b: bool)
        ensures
            b == message_read(opt_text(*mine), reader@, texts(ref_ids@))(m@),
        {
            lists_text(ref_ids, m.id.as_str()) && !text_eq(m.sender_username.as_str(), reader)
                && match mine {
                Some(name) => text_eq(m.sender_username.as_str(), name.as_str()),
                None => true,
            }
        };
    let read = select_rows(
        &thread,
        test,
        Ghost(message_read(opt_text(me), reader@, texts(ref_ids@))),
    );
    let ghost before = db@;
    let ghost rows = views(read@);
    let mut i: usize = 0;
    assert(rows.take(0) =~= Seq::<MessageModel>::empty());
    while i < read.len()
        invariant
            i <= read.len(),
            rows == views(read@),
            db@ == marked_read(before, rows.take(i as int)),
        decreases read.len() - i,
    {
        assert(rows.take(i + 1).drop_last() =~= rows.take(i as int));
        assert(rows.take(i + 1).last() == read@[i as int]@);
        db.set_message_status(read[i].id.as_str(), "read");
        i += 1;
    }
    assert(rows.take(i as int) =~= rows);
    assert(rows.len() == read.len());
    read.len()
}

pub open spec fn ids_of(rows: Seq<MessageModel>) -> Seq<Seq<char>> {
    rows.map_values(|m: MessageModel| m.id)
}

/// The ids of the messages that a peer lacks, given the last number it has.
pub fn sync_gap(db: &Database, conversation_id: &str, after_sequence: i64) -> (ids: Vec<String>)
    ensures
        exists|list: Seq<MessageModel>| #[trigger]
            listed_after(db@, conversation_id@, after_sequence, 200, list) && texts(ids@)
                == ids_of(list),
{
    let list = messages_after(db, conversation_id, after_sequence, 200);
    let mut ids: Vec<String> = Vec::new();
    let mut i: usize = 0;
    while i < list.len()
        invariant
            i <= list.len(),
            ids.len() == i,
            forall|j: int| 0 <= j < i ==> (#[trigger] ids@[j])@ == list@[j]@.id,
        decreases list.len() - i,
    {
        ids.push(list[i].id.clone());
        i += 1;
    }
    assert(texts(ids@) =~= ids_of(views(list@)));
    assert(listed_after(db@, conversation_id@, after_sequence, 200, views(list@)));
    ids
}

/// How many characters of a body a preview shows.
pub const PAYLOAD_PREVIEW_CHARS: usize = 120;

/// What the chat list shows of a payload.
pub open spec fn preview_of(payload: PayloadModel) -> Seq<char> {
    match payload {
        PayloadModel::Text { body, .. } => prefix(body, PAYLOAD_PREVIEW_CHARS as nat),
        PayloadModel::Edit { body, .. } => prefix(body, PAYLOAD_PREVIEW_CHARS as nat),
        PayloadModel::Delete { .. } => "Message deleted"@,
        PayloadModel::FileOffer { file, .. } => "File: "@ + file.filename,
        PayloadModel::GroupMeta { name, .. } => "Group renamed to "@ + name,
        _ => Seq::empty(),
    }
}

/// What the chat list shows of a payload.
pub fn payload_preview(payload: &ChatPayload) -> (preview: String)
    ensures
        preview@ == preview_of(payload@),
{
    match payload {
        ChatPayload::Text { body, .. } => take_chars(body.as_str(), PAYLOAD_PREVIEW_CHARS),
        ChatPayload::Edit { body, .. } => take_chars(body.as_str(), PAYLOAD_PREVIEW_CHARS),
        ChatPayload::Delete { .. } => "Message deleted".to_owned(),
        ChatPayload::FileOffer { file, .. } => {
            let mut text = "File: ".to_owned();
            text.append(file.filename.as_str());
            text
        },
        ChatPayload::GroupMeta { name, .. } => {
            let mut text = "Group renamed to ".to_owned();
            text.append(name.as_str());
            text
        },
        _ => String::new(),
    }
}

} // verus!
