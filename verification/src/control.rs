//! What is sent without becoming a message of a thread: acknowledgements, typing,
//! presence, the flow of file chunks; and the handshakes that were stashed.

use vstd::prelude::*;
use vstd::string::*;
use vstd::utf8::*;

use crate::bytes::{array_32, bytes_between, signed_bits, to_signed};
use crate::crypto::{
    aead_fits, group_nonce_bytes, group_opened, group_sealed, law_group_nonces_differ, opened_view,
};
use crate::database::laws::law_used_number_is_not_given_again;
use crate::database::model::file_is;
use crate::database::{Database, DbModel};
use crate::envelope::{
    build_envelope, context_between, conversation_uuid, conversation_uuid_of, envelope_checked,
    envelope_of, pair_context, seal_dm_payload, sealed_in, verify_envelope_signature,
};
use crate::error::Error;
use crate::files::{join_path, joined_path, seal_chunk, FileProgress, CHUNK_BYTES};
use crate::friends::{draft_view, Draft, DraftModel};
use crate::groups::{
    contact_key_of, contact_pub, epoch_key, epoch_sealed, lemma_number_tells, own_epoch_key,
    seal_in_epoch, share_number, CONTROL_START, SHARE_NUMBERS,
};
use crate::identity::{DeviceIdentity, IdentityModel};
use crate::ids::{uuid_text, Uuid};
use crate::payload::{ChatPayload, FileOfferBody, FileOfferModel, PayloadModel, PresenceStatus};
use crate::protocol::{EnvelopeModel, MessageType, ProtocolEnvelope};
use crate::records::{
    Contact, ContactModel, FileTransferModel, StashedEnvelope, StashedEnvelopeModel,
};
use crate::routing::{
    answer_applied, ask_applied, changed, changed_with, dm_peer_of, handle_friend_answer,
    handle_friend_ask, handshake_opened, may_have_sent, open_handshake, outcome_view, Notice,
    OutcomeModel, RouteOutcome,
};
use crate::table::{lemma_filter_rows, lemma_filter_step, lemma_first_row, views};
use crate::text::text_eq;

verus! {

// -- control messages -------------------------------------------------------------------------

/// The device's own number for a group control message: the next one of the control lane,
/// out of the way of the numbers that messages get.
pub open spec fn control_number(count: int) -> Option<u64> {
    if 0 <= count < CONTROL_START {
        Some((CONTROL_START + count) as u64)
    } else {
        None
    }
}

/// What sealing a control message comes to.
pub open spec fn control_sealed(
    db: DbModel,
    after: DbModel,
    identity: IdentityModel,
    device: Seq<u8>,
    conversation: Seq<char>,
    message_type: MessageType,
    json: Seq<u8>,
    stand_in: Seq<u8>,
    message: Seq<u8>,
    now_ms: i64,
    r: Result<ProtocolEnvelope, Error>,
) -> bool {
    let sealed = match r {
        Ok(e) => Ok(e.ciphertext),
        Err(e) => Err(e),
    };
    match (db.username(), db.conversation(conversation)) {
        (None, _) => r == Err::<ProtocolEnvelope, Error>(Error::NoProfile) && after == db,
        (Some(_), None) => r == Err::<ProtocolEnvelope, Error>(Error::UnknownConversation) && after
            == db,
        (Some(me), Some(row)) => {
            let count = db.next_control(conversation, uuid_text(device));
            let number: u64 = if row.kind == "dm"@ || control_number(count) is None {
                0
            } else {
                control_number(count)->0
            };
            &&& after == if r is Ok && row.kind != "dm"@ {
                db.use_number(conversation, uuid_text(device), true, count as i64)
            } else {
                db
            }
            &&& r is Ok ==> r->Ok_0@ == envelope_of(
                identity,
                device,
                conversation_uuid_of(conversation, stand_in),
                message,
                message_type,
                number,
                r->Ok_0@.ciphertext,
                now_ms,
            )
            &&& if row.kind == "dm"@ {
                match db.contact(db.dm_peer(conversation)) {
                    None => r == Err::<ProtocolEnvelope, Error>(Error::UnknownContact),
                    Some(contact) => match contact_key_of(contact) {
                        None => r == Err::<ProtocolEnvelope, Error>(Error::NoContactKey),
                        Some(key) => sealed_in(
                            sealed,
                            identity.x_secret,
                            key,
                            encode_utf8(conversation),
                            json,
                        ),
                    },
                }
            } else {
                match db.group(conversation) {
                    None => r == Err::<ProtocolEnvelope, Error>(Error::UnknownGroup),
                    Some(group) => match epoch_key(
                        db,
                        identity.x_secret,
                        conversation,
                        group.current_epoch,
                        me,
                    ) {
                        Err(e) => r == Err::<ProtocolEnvelope, Error>(e),
                        Ok(_) => if control_number(count) is None {
                            r == Err::<ProtocolEnvelope, Error>(Error::SequenceExhausted)
                        } else {
                            epoch_sealed(
                                db,
                                identity.x_secret,
                                conversation,
                                group.current_epoch,
                                me,
                                number,
                                json,
                                opened_view(sealed),
                            )
                        },
                    },
                }
            }
        },
    }
}

/// Seals the JSON of a control payload for a conversation under the given ids, without
/// storing a message. In a group it uses up a number of the control lane.
pub fn seal_control_as(
    db: &mut Database,
    identity: &DeviceIdentity,
    device_uuid: Uuid,
    conversation_id: &str,
    message_type: MessageType,
    json: &[u8],
    stand_in: Uuid,
    message: Uuid,
    now_ms: i64,
) -> (r: Result<ProtocolEnvelope, Error>)
    ensures
        control_sealed(
            old(db)@,
            final(db)@,
            identity@,
            device_uuid@,
            conversation_id@,
            message_type,
            json@,
            stand_in@,
            message@,
            now_ms,
            r,
        ),
{
    let me = match db.load_profile() {
        Some(p) => p.0,
        None => {
            return Err(Error::NoProfile);
        },
    };
    let conversation = match db.get_conversation(conversation_id) {
        Some(c) => c,
        None => {
            return Err(Error::UnknownConversation);
        },
    };
    let number: u64;
    let ciphertext: Vec<u8>;
    if text_eq(conversation.kind.as_str(), "dm") {
        number = 0;
        let peer = dm_peer_of(db, conversation_id);
        let contact = match db.find_contact(peer.as_str()) {
            Some(c) => c,
            None => {
                return Err(Error::UnknownContact);
            },
        };
        let key = match contact_pub(&contact) {
            Some(k) => k,
            None => {
                return Err(Error::NoContactKey);
            },
        };
        ciphertext = match seal_dm_payload(&identity.x_secret, &key, conversation_id, json) {
            Ok(c) => c,
            Err(e) => {
                return Err(e);
            },
        };
    } else {
        let group = match db.load_group(conversation_id) {
            Some(g) => g,
            None => {
                return Err(Error::UnknownGroup);
            },
        };
        match own_epoch_key(db, identity, conversation_id, group.current_epoch, me.as_str()) {
            Ok(_) => {},
            Err(e) => {
                return Err(e);
            },
        }
        let device = device_uuid.to_text();
        let count: i64 = match db.used_number(conversation_id, device.as_str(), true) {
            Some(n) => if n < CONTROL_START as i64 {
                n + 1
            } else {
                return Err(Error::SequenceExhausted);
            },
            None => 1,
        };
        if count < 0 || count >= CONTROL_START as i64 {
            return Err(Error::SequenceExhausted);
        }
        number = CONTROL_START + count as u64;
        assert(control_number(count as int) == Some(number));
        ciphertext = match seal_in_epoch(
            db,
            identity,
            conversation_id,
            group.current_epoch,
            me.as_str(),
            number,
            json,
        ) {
            Ok(c) => c,
            Err(e) => {
                return Err(e);
            },
        };
        db.use_number(conversation_id, device.as_str(), true, count);
    }
    let ghost sealed = ciphertext;
    let envelope = build_envelope(
        identity,
        device_uuid,
        conversation_uuid(conversation_id, stand_in),
        message,
        message_type,
        number,
        ciphertext,
        now_ms,
    );
    assert(envelope.ciphertext@ == sealed@);
    Ok(envelope)
}

/// Seals the JSON of a control payload for a conversation under new ids.
pub fn seal_control(
    db: &mut Database,
    identity: &DeviceIdentity,
    device_uuid: Uuid,
    conversation_id: &str,
    message_type: MessageType,
    json: &[u8],
    now_ms: i64,
) -> (r: Result<ProtocolEnvelope, Error>)
    ensures
        exists|stand_in: Seq<u8>, message: Seq<u8>|
            #[trigger] control_sealed(
                old(db)@,
                final(db)@,
                identity@,
                device_uuid@,
                conversation_id@,
                message_type,
                json@,
                stand_in,
                message,
                now_ms,
                r,
            ),
{
    let stand_in = Uuid::new_v4();
    let message = Uuid::new_v4();
    seal_control_as(
        db,
        identity,
        device_uuid,
        conversation_id,
        message_type,
        json,
        stand_in,
        message,
        now_ms,
    )
}

/// The numbers of the control lane are above those of messages: whoever seals the two, a
/// control message and a message of an epoch never have the same nonce.
pub proof fn law_control_lane_is_apart(count: int, number: u64, share: nat, other: nat)
    requires
        number < CONTROL_START,
    ensures
        control_number(count) matches Some(control) ==> {
            &&& CONTROL_START <= control < SHARE_NUMBERS
            &&& share_number(share, control) is Ok && share_number(other, number) is Ok
                ==> group_nonce_bytes(share_number(share, control)->Ok_0) != group_nonce_bytes(
                share_number(other, number)->Ok_0,
            )
        },
{
    if control_number(count) is Some {
        let control = control_number(count)->0;
        lemma_number_tells(share, control);
        lemma_number_tells(other, number);
        if share_number(share, control) is Ok && share_number(other, number) is Ok {
            law_group_nonces_differ(
                share_number(share, control)->Ok_0,
                share_number(other, number)->Ok_0,
            );
        }
    }
}

/// A device uses each number of the control lane once.
pub proof fn law_control_numbers_are_used_up(db: DbModel, conversation: Seq<char>, device: Seq<u8>)
    requires
        control_number(db.next_control(conversation, uuid_text(device))) is Some,
    ensures
        ({
            let count = db.next_control(conversation, uuid_text(device));
            let after = db.use_number(conversation, uuid_text(device), true, count as i64);
            after.next_control(conversation, uuid_text(device)) == count + 1
        }),
{
    let count = db.next_control(conversation, uuid_text(device));
    law_used_number_is_not_given_again(
        db,
        conversation,
        uuid_text(device),
        true,
        count as i64,
        conversation,
        uuid_text(device),
        true,
    );
}

// -- presence -----------------------------------------------------------------------------------

/// The heartbeat for one friend.
pub open spec fn presence_draft(
    db: DbModel,
    peer: Seq<char>,
    status: PresenceStatus,
) -> Result<DraftModel, Error> {
    match (db.username(), db.contact(peer)) {
        (None, _) => Err(Error::NoProfile),
        (Some(_), None) => Err(Error::UnknownContact),
        (Some(me), Some(contact)) => match contact_key_of(contact) {
            None => Err(Error::NoContactKey),
            Some(key) => Ok(
                DraftModel {
                    peer_username: peer,
                    recipient: key,
                    context: pair_context("presence:"@, me, peer),
                    conversation_id: Seq::empty(),
                    payload: PayloadModel::Presence { from: me, status },
                },
            ),
        },
    }
}

/// Drafts the heartbeat for one friend. It belongs to no conversation and is not
/// stored.
pub fn seal_presence_envelope(db: &Database, peer_username: &str, status: PresenceStatus) -> (draft:
    Result<Draft, Error>)
    ensures
        draft_view(draft) == presence_draft(db@, peer_username@, status),
{
    let me = match db.load_profile() {
        Some(p) => p.0,
        None => {
            return Err(Error::NoProfile);
        },
    };
    let contact = match db.find_contact(peer_username) {
        Some(c) => c,
        None => {
            return Err(Error::UnknownContact);
        },
    };
    let key = match contact_pub(&contact) {
        Some(k) => k,
        None => {
            return Err(Error::NoContactKey);
        },
    };
    Ok(
        Draft {
            peer_username: peer_username.to_owned(),
            recipient: key,
            context: context_between("presence:", me.as_str(), peer_username),
            conversation_id: String::new(),
            payload: ChatPayload::Presence { from: me, status },
        },
    )
}

// -- file chunks ----------------------------------------------------------------------------------

/// How many bytes of a file are there.
pub open spec fn bytes_there(chunks: int, size: u64) -> i64 {
    signed_bits(
        if chunks * CHUNK_BYTES < size {
            (chunks * CHUNK_BYTES) as u64
        } else {
            size
        },
    )
}

/// The transfer after a chunk was taken.
pub open spec fn file_advanced(
    file: FileTransferModel,
    offer: FileOfferModel,
    progress: FileProgress,
    files_dir: Seq<char>,
) -> FileTransferModel {
    let there = FileTransferModel {
        bytes_done: bytes_there(progress.received_chunks as int, offer.size_bytes),
        ..file
    };
    if progress.complete {
        FileTransferModel {
            state: "complete"@,
            local_path: Some(joined_path(files_dir, offer.filename)),
            ..there
        }
    } else {
        there
    }
}

/// The message that a file is complete: every chunk is there.
pub open spec fn all_received(me: Seq<char>, file_id: Seq<char>, total: usize) -> PayloadModel {
    PayloadModel::FileAccept {
        from: me,
        file_id,
        have: Seq::new((total as nat % 0x1_0000_0000) as nat, |i: int| i as u32),
    }
}

/// What the second part of taking a chunk comes to, once it was written.
pub open spec fn chunk_noted(
    before: DbModel,
    after: DbModel,
    file_id: Seq<char>,
    offer: FileOfferModel,
    progress: FileProgress,
    files_dir: Seq<char>,
    r: Result<(RouteOutcome, Option<ChatPayload>), Error>,
) -> bool {
    &&& after == match before.file(file_id) {
        Some(file) => before.save_file(file_advanced(file, offer, progress, files_dir)),
        None => before,
    }
    &&& if !progress.complete {
        r is Ok && r->Ok_0.0@ == changed() && r->Ok_0.1 is None
    } else {
        match before.username() {
            None => r == Err::<(RouteOutcome, Option<ChatPayload>), Error>(Error::NoProfile),
            Some(me) => {
                &&& r is Ok
                &&& r->Ok_0.0@ == changed_with("Download complete"@, offer.filename)
                &&& r->Ok_0.1 is Some
                &&& r->Ok_0.1->0@ == all_received(me, file_id, progress.total_chunks)
            },
        }
    }
}

/// Notes that a chunk was written. When the file is complete, the user is told, and
/// the payload for the sender is returned.
pub fn receive_file_chunk(
    db: &mut Database,
    file_id: &str,
    offer: &FileOfferBody,
    progress: FileProgress,
    files_dir: &str,
    now_ms: i64,
) -> (r: Result<(RouteOutcome, Option<ChatPayload>), Error>)
    ensures
        chunk_noted(old(db)@, final(db)@, file_id@, offer@, progress, files_dir@, r),
{
    proof {
        lemma_first_row(db@.files, file_is(file_id@));
    }
    match db.load_file(file_id) {
        Some(file) => {
            let mut row = file;
            let there: u128 = progress.received_chunks as u128 * CHUNK_BYTES as u128;
            let done: u64 = if there < offer.size_bytes as u128 {
                there as u64
            } else {
                offer.size_bytes
            };
            row.bytes_done = to_signed(done);
            if progress.complete {
                row.state = "complete".to_owned();
                row.local_path = Some(join_path(files_dir, offer.filename.as_str()));
            }
            match db.save_file(&row, now_ms) {
                Ok(_) => {},
                Err(e) => {
                    return Err(e);
                },
            }
        },
        None => {},
    }
    let mut outcome = RouteOutcome::none();
    outcome.changed = true;
    if !progress.complete {
        return Ok((outcome, None));
    }
    let me = match db.load_profile() {
        Some(p) => p.0,
        None => {
            return Err(Error::NoProfile);
        },
    };
    let total: u64 = progress.total_chunks as u64;
    let count: u32 = (total % 0x1_0000_0000) as u32;
    let mut have: Vec<u32> = Vec::new();
    let mut i: u32 = 0;
    while i < count
        invariant
            i <= count,
            have@ == Seq::new(i as nat, |k: int| k as u32),
        decreases count - i,
    {
        have.push(i);
        i += 1;
        assert(have@ =~= Seq::new(i as nat, |k: int| k as u32));
    }
    outcome.notify = Some(
        Notice { title: "Download complete".to_owned(), body: offer.filename.clone() },
    );
    let accept = ChatPayload::FileAccept { from: me, file_id: file_id.to_owned(), have };
    assert(accept@ == all_received(db@.username()->0, file_id@, progress.total_chunks)) by {
        assert(have@ =~= Seq::new((progress.total_chunks as nat % 0x1_0000_0000) as nat, |i: int|
            i as u32));
    }
    Ok((outcome, Some(accept)))
}

/// What an answer to a file offer asks for.
pub enum ChunksWanted {
    /// The other side has the whole file.
    Complete(RouteOutcome),
    /// The other side lacks some chunks.
    Missing,
}

/// How many chunks an offer lists, as far as 32 bits count.
pub open spec fn chunk_total(offer: FileOfferModel) -> int {
    offer.chunk_hashes.len() as int % 0x1_0000_0000
}

/// What an answer to a file offer comes to.
pub open spec fn accept_checked(
    before: DbModel,
    after: DbModel,
    file_id: Seq<char>,
    offer: FileOfferModel,
    have: Seq<u32>,
    wanted: Result<ChunksWanted, Error>,
) -> bool {
    if have.len() as int % 0x1_0000_0000 >= chunk_total(offer) {
        &&& wanted is Ok
        &&& wanted->Ok_0 is Complete
        &&& wanted->Ok_0->Complete_0@ == changed()
        &&& after == match before.file(file_id) {
            Some(file) => before.save_file(FileTransferModel { state: "complete"@, ..file }),
            None => before,
        }
    } else {
        wanted is Ok && wanted->Ok_0 is Missing && after == before
    }
}

/// Looks at what the other side has of a file. When it has as many chunks as the file,
/// the transfer is complete.
pub fn check_accepted(
    db: &mut Database,
    file_id: &str,
    offer: &FileOfferBody,
    have: &Vec<u32>,
    now_ms: i64,
) -> (wanted: Result<ChunksWanted, Error>)
    ensures
        accept_checked(old(db)@, final(db)@, file_id@, offer@, have@, wanted),
{
    let total: u64 = offer.manifest.chunk_hashes.len() as u64 % 0x1_0000_0000;
    assert(offer@.chunk_hashes.len() == offer.manifest.chunk_hashes@.len());
    let there: u64 = have.len() as u64 % 0x1_0000_0000;
    if there < total {
        return Ok(ChunksWanted::Missing);
    }
    proof {
        lemma_first_row(db@.files, file_is(file_id@));
    }
    match db.load_file(file_id) {
        Some(file) => {
            let mut row = file;
            row.state = "complete".to_owned();
            match db.save_file(&row, now_ms) {
                Ok(_) => {},
                Err(e) => {
                    return Err(e);
                },
            }
        },
        None => {},
    }
    let mut outcome = RouteOutcome::none();
    outcome.changed = true;
    Ok(ChunksWanted::Complete(outcome))
}

/// The chunks of the first `count` that the other side lacks.
pub open spec fn lacking(count: int, have: Seq<u32>) -> Seq<u32> {
    Seq::new(count as nat, |i: int| i as u32).filter(|i: u32| !have.contains(i))
}

/// The bytes of a source file that a chunk covers.
pub open spec fn source_chunk(src: Seq<u8>, index: u32) -> Seq<u8> {
    if (index + 1) * CHUNK_BYTES <= src.len() {
        src.subrange(index * CHUNK_BYTES, (index + 1) * CHUNK_BYTES)
    } else {
        src.subrange(index * CHUNK_BYTES, src.len() as int)
    }
}

/// The payload of a sealed chunk.
pub open spec fn chunk_payload(
    me: Seq<char>,
    file_id: Seq<char>,
    key: Seq<u8>,
    src: Seq<u8>,
    index: u32,
) -> PayloadModel {
    PayloadModel::FileChunk {
        from: me,
        file_id,
        index,
        data: group_sealed(key, index as u64, source_chunk(src, index)),
    }
}

/// What sending the missing chunks comes to: a source that ends before one of them is
/// refused; else there is one payload for each, in order, and each opens under its index.
pub open spec fn chunks_sent(
    me: Seq<char>,
    file_id: Seq<char>,
    offer: FileOfferModel,
    have: Seq<u32>,
    src: Seq<u8>,
    payloads: Result<Seq<PayloadModel>, Error>,
) -> bool {
    let wanted = lacking(chunk_total(offer), have);
    if forall|i: int|
        0 <= i < wanted.len() ==> (#[trigger] wanted[i]) * CHUNK_BYTES <= src.len() {
        &&& payloads is Ok
        &&& payloads->Ok_0.len() == wanted.len()
        &&& forall|i: int|
            0 <= i < wanted.len() ==> (#[trigger] payloads->Ok_0[i]) == chunk_payload(
                me,
                file_id,
                offer.file_key,
                src,
                wanted[i],
            ) && group_opened(
                offer.file_key,
                wanted[i] as u64,
                payloads->Ok_0[i]->FileChunk_data,
            ) == Ok::<Seq<u8>, Error>(source_chunk(src, wanted[i]))
    } else {
        payloads == Err::<Seq<PayloadModel>, Error>(Error::SourceTooShort)
    }
}

/// The payloads of the chunks that the other side lacks, in order, cut from the bytes
/// of the source file.
pub fn send_missing_chunks(
    me: &str,
    file_id: &str,
    offer: &FileOfferBody,
    have: &Vec<u32>,
    src: &[u8],
) -> (payloads: Result<Vec<ChatPayload>, Error>)
    ensures
        chunks_sent(
            me@,
            file_id@,
            offer@,
            have@,
            src@,
            match payloads {
                Ok(list) => Ok(views(list@)),
                Err(e) => Err(e),
            },
        ),
{
    let total: u64 = offer.manifest.chunk_hashes.len() as u64 % 0x1_0000_0000;
    assert(offer@.chunk_hashes.len() == offer.manifest.chunk_hashes@.len());
    let count: u32 = total as u32;
    let ghost all = Seq::new(count as nat, |i: int| i as u32);
    let ghost keep = |i: u32| !have@.contains(i);
    let ghost wanted = all.filter(keep);
    let mut payloads: Vec<ChatPayload> = Vec::new();
    let mut index: u32 = 0;
    proof {
        reveal(Seq::filter);
        assert(wanted == lacking(chunk_total(offer@), have@));
        assert(all.take(0).filter(keep).len() == 0);
    }
    while index < count
        invariant
            index <= count,
            all == Seq::new(count as nat, |i: int| i as u32),
            keep == (|i: u32| !have@.contains(i)),
            wanted == all.filter(keep),
            wanted == lacking(chunk_total(offer@), have@),
            payloads.len() == all.take(index as int).filter(keep).len(),
            forall|i: int|
                0 <= i < payloads.len() ==> (#[trigger] payloads@[i])@ == chunk_payload(
                    me@,
                    file_id@,
                    offer@.file_key,
                    src@,
                    all.take(index as int).filter(keep)[i],
                ) && group_opened(
                    offer@.file_key,
                    all.take(index as int).filter(keep)[i] as u64,
                    payloads@[i]@->FileChunk_data,
                ) == Ok::<Seq<u8>, Error>(
                    source_chunk(src@, all.take(index as int).filter(keep)[i]),
                ),
            forall|i: int|
                0 <= i < payloads.len() ==> (#[trigger] all.take(index as int).filter(keep)[i])
                    * CHUNK_BYTES <= src@.len(),
        decreases count - index,
    {
        proof {
            lemma_filter_step(all, index as int, keep);
            assert(all[index as int] == index);
        }
        if !has_index(have, index) {
            let start: u64 = index as u64 * CHUNK_BYTES as u64;
            if start > src.len() as u64 {
                proof {
                    lemma_filter_keeps(all, keep, index as int);
                    let k: int = choose|k: int|
                        0 <= k < wanted.len() && #[trigger] wanted[k] == index;
                    assert(wanted[k] * CHUNK_BYTES > src@.len());
                }
                return Err(Error::SourceTooShort);
            }
            let from: usize = start as usize;
            let end: usize = if src.len() - from > CHUNK_BYTES {
                from + CHUNK_BYTES
            } else {
                src.len()
            };
            let chunk = bytes_between(src, from, end);
            assert(chunk@ =~= source_chunk(src@, index));
            assert(aead_fits(chunk@.len()));
            match seal_chunk(&offer.file_key, index, chunk.as_slice()) {
                Ok(sealed) => {
                    payloads.push(
                        ChatPayload::FileChunk {
                            from: me.to_owned(),
                            file_id: file_id.to_owned(),
                            index,
                            data: sealed,
                        },
                    );
                },
                Err(e) => {
                    return Err(e);
                },
            }
        }
        index += 1;
    }
    assert(all.take(index as int) =~= all);
    assert forall|i: int| 0 <= i < wanted.len() implies (#[trigger] views(payloads@)[i])
        == payloads@[i]@ by {
    }
    Ok(payloads)
}

proof fn lemma_filter_keeps<V>(rows: Seq<V>, keep: spec_fn(V) -> bool, i: int)
    requires
        0 <= i < rows.len(),
        keep(rows[i]),
    ensures
        exists|k: int| 0 <= k < rows.filter(keep).len() && #[trigger] rows.filter(keep)[k] == rows[i],
{
    let same = |r: V| r == rows[i];
    let both = |r: V| keep(r) && same(r);
    assert(both(rows[i]));
    lemma_filter_rows(rows, keep, same);
    let k: int = choose|k: int|
        0 <= k < rows.filter(keep).len() && same(#[trigger] rows.filter(keep)[k]);
    assert(rows.filter(keep)[k] == rows[i]);
}

fn has_index(have: &Vec<u32>, index: u32) -> (found: bool)
    ensures
        found == have@.contains(index),
{
    let mut i: usize = 0;
    while i < have.len()
        invariant
            i <= have.len(),
            forall|j: int| 0 <= j < i ==> have@[j] != index,
        decreases have.len() - i,
    {
        if have[i] == index {
            return true;
        }
        i += 1;
    }
    false
}

// -- stashed handshakes -----------------------------------------------------------------------------

/// The contact whose stashed handshakes are to be tried, and the stashed envelopes.
#[derive(Debug)]
pub struct StashTrial {
    pub me: String,
    pub contact: Contact,
    pub stashed: Vec<StashedEnvelope>,
}

/// Whether the stash can be tried for someone: this user has a profile, and the
/// contact is known with an encryption key.
pub open spec fn trial_possible(db: DbModel, username: Seq<char>) -> bool {
    &&& db.me().len() > 0
    &&& db.contact(username) is Some
    &&& contact_key_of(db.contact(username)->0) is Some
}

/// Starts to try the stashed handshakes for someone whose invite was just imported.
/// Stashed envelopes that have expired are dropped.
pub fn drain_stash_for(db: &mut Database, username: &str, now_ms: i64) -> (trial: Option<StashTrial>)
    ensures
        if trial_possible(old(db)@, username@) {
            &&& trial is Some
            &&& final(db)@ == old(db)@.prune_stash(now_ms)
            &&& trial->0.me@ == old(db)@.me()
            &&& Some(trial->0.contact@) == old(db)@.contact(username@)
            &&& old(db)@.stash_listed(now_ms, views(trial->0.stashed@))
        } else {
            trial is None && final(db)@ == old(db)@
        },
{
    let me = match db.load_profile() {
        Some(p) => p.0,
        None => {
            return None;
        },
    };
    if me.as_str().is_empty() {
        return None;
    }
    let contact = match db.find_contact(username) {
        Some(c) => c,
        None => {
            return None;
        },
    };
    if contact_pub(&contact).is_none() {
        return None;
    }
    let stashed = db.list_stash(now_ms);
    Some(StashTrial { me, contact, stashed })
}

/// What opening a stashed envelope with the keys of one contact comes to.
pub open spec fn stashed_opened(
    secret: Seq<u8>,
    me: Seq<char>,
    contact: ContactModel,
    e: EnvelopeModel,
) -> Result<Seq<u8>, Error> {
    match contact.ed_pubkey {
        None => Err(Error::BadSigningKey),
        Some(ed) => if ed.len() != 32 {
            Err(Error::BadSigningKey)
        } else {
            match envelope_checked(ed, e) {
                Err(err) => Err(err),
                Ok(_) => handshake_opened(secret, me, contact, e),
            }
        },
    }
}

/// Tries to open a stashed envelope with the keys of one contact; the result is the
/// payload's JSON.
pub fn open_stashed(
    identity: &DeviceIdentity,
    me: &str,
    contact: &Contact,
    envelope: &ProtocolEnvelope,
) -> (json: Result<Vec<u8>, Error>)
    ensures
        opened_view(json) == stashed_opened(identity@.x_secret, me@, contact@, envelope@),
{
    match &contact.ed_pubkey {
        None => Err(Error::BadSigningKey),
        Some(ed) => {
            if ed.len() != 32 {
                return Err(Error::BadSigningKey);
            }
            let key = array_32(ed.as_slice());
            match verify_envelope_signature(&key, envelope) {
                Err(e) => Err(e),
                Ok(_) => open_handshake(identity, me, contact, envelope),
            }
        },
    }
}

/// The outcome of carrying out a stashed handshake that was opened: on success it is
/// no longer stashed.
pub open spec fn stashed_applied(
    before: DbModel,
    after: DbModel,
    from: Seq<char>,
    e: EnvelopeModel,
    payload: PayloadModel,
    item: StashedEnvelopeModel,
    fresh: Seq<char>,
    now_ms: i64,
    r: Result<OutcomeModel, Error>,
) -> bool {
    exists|mid: DbModel|
        {
            &&& #[trigger] handshake_applied(
                before,
                mid,
                from,
                e,
                payload,
                item.endpoint_id,
                fresh,
                now_ms,
                r,
            )
            &&& after == if r is Ok {
                mid.unstash(item.message_id)
            } else {
                mid
            }
        }
}

/// The outcome of carrying out a handshake.
pub open spec fn handshake_applied(
    before: DbModel,
    after: DbModel,
    from: Seq<char>,
    e: EnvelopeModel,
    payload: PayloadModel,
    endpoint: Seq<char>,
    fresh: Seq<char>,
    now_ms: i64,
    r: Result<OutcomeModel, Error>,
) -> bool {
    if e.message_type == MessageType::FriendRequest {
        ask_applied(before, after, from, payload, endpoint, fresh, now_ms, r)
    } else if e.message_type == MessageType::FriendResponse {
        answer_applied(
            before,
            after,
            from,
            payload,
            endpoint,
            uuid_text(e.conversation_id),
            fresh,
            now_ms,
            r,
        )
    } else {
        after == before && r == Err::<OutcomeModel, Error>(Error::NotAHandshake)
    }
}

/// Carries out a stashed handshake that was opened and read. Once it is carried out it
/// is not tried again. The outcome says whether anything came of it.
pub fn apply_stashed(
    db: &mut Database,
    from: &str,
    envelope: &ProtocolEnvelope,
    payload: &ChatPayload,
    item: &StashedEnvelope,
    fresh: Uuid,
    now_ms: i64,
) -> (r: Result<RouteOutcome, Error>)
    ensures
        stashed_applied(
            old(db)@,
            final(db)@,
            from@,
            envelope@,
            payload@,
            item@,
            uuid_text(fresh@),
            now_ms,
            outcome_view(r),
        ),
{
    let r = if envelope.message_type == MessageType::FriendRequest {
        handle_friend_ask(db, from, payload, item.endpoint_id.as_str(), fresh, now_ms)
    } else if envelope.message_type == MessageType::FriendResponse {
        handle_friend_answer(
            db,
            from,
            payload,
            item.endpoint_id.as_str(),
            envelope.conversation_id,
            fresh,
            now_ms,
        )
    } else {
        Err(Error::NotAHandshake)
    };
    let ghost mid = db@;
    assert(handshake_applied(
        old(db)@,
        mid,
        from@,
        envelope@,
        payload@,
        item@.endpoint_id,
        uuid_text(fresh@),
        now_ms,
        outcome_view(r),
    ));
    match r {
        Ok(outcome) => {
            db.unstash(item.message_id.as_str());
            Ok(outcome)
        },
        Err(e) => Err(e),
    }
}

/// Codes can be exchanged in either order: once the sender's invite is imported, a
/// stashed handshake opens as it would have on arrival.
pub proof fn law_stashed_opens_as_on_arrival(
    secret: Seq<u8>,
    me: Seq<char>,
    contact: ContactModel,
    e: EnvelopeModel,
)
    requires
        may_have_sent(contact, e),
    ensures
        stashed_opened(secret, me, contact, e) == handshake_opened(secret, me, contact, e),
{
}

} // verus!
