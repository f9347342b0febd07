//! Files: what an offer says, which chunks are sent, what is kept of a transfer.

use vstd::prelude::*;

use crate::bytes::hex;
use crate::control::{accept_checked, chunk_noted, chunks_sent, lacking, source_chunk, ChunksWanted};
use crate::crypto::{
    chunk_at, chunk_count, group_opened, lemma_chunk_bounds, lemma_chunk_count, sha256,
};
use crate::database::model::{conversation_is, file_is, file_with_offer};
use crate::database::DbModel;
use crate::error::Error;
use crate::files::{
    agrees, chunk_content, chunk_taken, chunk_with, chunks_missing, lemma_chunk_taken,
    lemma_chunk_with, offer_of, sanitized, FileProgress, IncomingModel, CHUNK_BYTES, MAX_FILE_BYTES,
};
use crate::identity::IdentityModel;
use crate::ids::uuid_text;
use crate::payload::{ChatPayload, FileOfferModel, PayloadModel};
use crate::promises::{is_new, stored};
use crate::protocol::EnvelopeModel;
use crate::records::{FileRowModel, FileTransferModel};
use crate::routing::{
    content_applied, in_group, inbound_row, offered_file, opened_applied, FileTaskModel,
    OpenedModel, OutcomeModel, RouteOutcome, Stage,
};
use crate::table::{lemma_first_row, some_row, updated};

verus! {

/// The bytes are those of the file in its chunk at `index`: chunks are 56 KiB long, but for
/// the last one, which ends with the file.
pub open spec fn is_chunk_of(bytes: Seq<u8>, data: Seq<u8>, index: int) -> bool {
    let start = index * 57_344;
    &&& 0 <= start < data.len()
    &&& bytes.len() == if start + 57_344 <= data.len() {
        57_344
    } else {
        data.len() - start
    }
    &&& forall|b: int| 0 <= b < bytes.len() ==> #[trigger] bytes[b] == data[start + b]
}

/// Ascending, so that nothing stands in it twice.
pub open spec fn ascending(indices: Seq<u32>) -> bool {
    forall|i: int, j: int| 0 <= i < j < indices.len() ==> #[trigger] indices[i] < #[trigger] indices[j]
}

/// Counting up and leaving some out: what is left is ascending, and holds what was not left
/// out.
proof fn lemma_lacking(count: int, have: Seq<u32>)
    requires
        0 <= count < 0x1_0000_0000,
    ensures
        ascending(lacking(count, have)),
        forall|c: u32| #[trigger]
            lacking(count, have).contains(c) <==> c < count && !have.contains(c),
    decreases count,
{
    let keep = |i: u32| !have.contains(i);
    let all = Seq::new(count as nat, |i: int| i as u32);
    reveal(Seq::filter);
    if count > 0 {
        let rest = Seq::new((count - 1) as nat, |i: int| i as u32);
        lemma_lacking(count - 1, have);
        assert(all.drop_last() =~= rest);
        let list = lacking(count, have);
        let before = lacking(count - 1, have);
        let last = (count - 1) as u32;
        assert(list == if keep(last) {
            before.push(last)
        } else {
            before
        });
        assert forall|i: int| 0 <= i < before.len() implies #[trigger] before[i] < last by {
            assert(before.contains(before[i]));
        }
        assert forall|c: u32| #[trigger] list.contains(c) <==> c < count && !have.contains(c) by {
            assert(before.contains(c) <==> c < count - 1 && !have.contains(c));
            if before.contains(c) {
                let k: int = choose|k: int| 0 <= k < before.len() && before[k] == c;
                assert(list[k] == c);
            }
            if keep(last) {
                assert(list[before.len() as int] == last);
            }
        }
    } else {
        assert(all =~= Seq::<u32>::empty());
    }
}

proof fn lemma_source_chunk(data: Seq<u8>, index: u32)
    requires
        data.len() <= MAX_FILE_BYTES,
        index < chunk_count(data.len() as int, CHUNK_BYTES as int),
    ensures
        is_chunk_of(source_chunk(data, index), data, index as int),
        source_chunk(data, index) == chunk_at(data, CHUNK_BYTES as int, index as int),
{
    lemma_chunk_bounds(data.len() as int, CHUNK_BYTES as int, index as int);
    assert(source_chunk(data, index) =~= chunk_at(data, CHUNK_BYTES as int, index as int));
}

/// The number of chunks of a file: as many as it takes to hold its bytes.
proof fn lemma_chunks_hold(len: int, count: int)
    requires
        0 <= len <= MAX_FILE_BYTES,
        count == chunk_count(len, CHUNK_BYTES as int),
    ensures
        0 <= count < 0x1_0000_0000,
        forall|c: int| 0 <= c ==> (#[trigger] (c * 57_344) < len <==> c < count),
{
    assert forall|c: int| 0 <= c implies (#[trigger] (c * 57_344) < len <==> c < count) by {
    }
}

/// Every chunk of the file that the other side lacks is sent, once, in order, and nothing
/// else is. Opened under the file's key and its index each is that chunk of the file, which
/// the offer's digests accept.
pub proof fn law_missing_chunks_are_sent(
    me: Seq<char>,
    file_id: Seq<char>,
    filename: Seq<char>,
    mime_type: Seq<char>,
    data: Seq<u8>,
    key: Seq<u8>,
    have: Seq<u32>,
    payloads: Result<Seq<PayloadModel>, Error>,
)
    requires
        data.len() <= 25 * 1024 * 1024,
        chunks_sent(
            me,
            file_id,
            offer_of(file_id, filename, mime_type, data, key),
            have,
            data,
            payloads,
        ),
    ensures
        payloads is Ok,
        ({
            let sent = payloads->Ok_0;
            let offer = offer_of(file_id, filename, mime_type, data, key);
            &&& forall|j: int|
                0 <= j < sent.len() ==> {
                    let p = #[trigger] sent[j];
                    let bytes = group_opened(key, p->FileChunk_index as u64, p->FileChunk_data);
                    &&& p is FileChunk
                    &&& p->FileChunk_from == me
                    &&& p->FileChunk_file_id == file_id
                    &&& p->FileChunk_index * 57_344 < data.len()
                    &&& !have.contains(p->FileChunk_index)
                    &&& bytes is Ok
                    &&& is_chunk_of(bytes->Ok_0, data, p->FileChunk_index as int)
                    &&& chunk_content(offer, p->FileChunk_index, bytes) == Ok::<Seq<u8>, Error>(
                        bytes->Ok_0,
                    )
                }
            &&& forall|i: int, j: int|
                0 <= i < j < sent.len() ==> (#[trigger] sent[i])->FileChunk_index < (
                #[trigger] sent[j])->FileChunk_index
            &&& forall|c: u32|
                c * 57_344 < data.len() && !#[trigger] have.contains(c) ==> exists|j: int|
                    0 <= j < sent.len() && (#[trigger] sent[j])->FileChunk_index == c
        }),
{
    let offer = offer_of(file_id, filename, mime_type, data, key);
    let count = offer.chunk_hashes.len() as int;
    let wanted = lacking(count, have);
    lemma_chunk_count(data.len() as int, CHUNK_BYTES as int);
    lemma_chunks_hold(data.len() as int, count);
    lemma_lacking(count, have);
    assert forall|i: int| 0 <= i < wanted.len() implies (#[trigger] wanted[i]) * CHUNK_BYTES
        < data.len() && wanted[i] < count && !have.contains(wanted[i]) by {
        assert(wanted.contains(wanted[i]));
    }
    let sent = payloads->Ok_0;
    assert forall|j: int| 0 <= j < sent.len() implies {
        let p = #[trigger] sent[j];
        let bytes = group_opened(key, p->FileChunk_index as u64, p->FileChunk_data);
        &&& p is FileChunk
        &&& p->FileChunk_index == wanted[j]
        &&& p->FileChunk_index * 57_344 < data.len()
        &&& bytes is Ok
        &&& is_chunk_of(bytes->Ok_0, data, p->FileChunk_index as int)
        &&& chunk_content(offer, p->FileChunk_index, bytes) == Ok::<Seq<u8>, Error>(bytes->Ok_0)
    } by {
        lemma_source_chunk(data, wanted[j]);
    }
    assert forall|c: u32| c * 57_344 < data.len() && !#[trigger] have.contains(c) implies exists|
        j: int,
    |
        0 <= j < sent.len() && (#[trigger] sent[j])->FileChunk_index == c by {
        assert(wanted.contains(c));
        let j: int = choose|j: int| 0 <= j < wanted.len() && wanted[j] == c;
        assert(sent[j]->FileChunk_index == c);
    }
}

/// The chunks that are sent complete the file: whoever had some of its chunks, and takes
/// those that are sent, has all of it.
pub proof fn law_resent_chunks_complete_the_file(
    me: Seq<char>,
    file_id: Seq<char>,
    filename: Seq<char>,
    mime_type: Seq<char>,
    data: Seq<u8>,
    key: Seq<u8>,
    payloads: Seq<PayloadModel>,
    kept: Seq<IncomingModel>,
)
    requires
        0 < data.len() <= 25 * 1024 * 1024,
        kept.len() == payloads.len() + 1,
        agrees(data, kept[0]),
        chunks_sent(
            me,
            file_id,
            offer_of(file_id, filename, mime_type, data, key),
            kept[0].have,
            data,
            Ok(payloads),
        ),
        forall|j: int|
            #![trigger payloads[j]]
            0 <= j < payloads.len() ==> chunk_taken(
                offer_of(file_id, filename, mime_type, data, key),
                payloads[j]->FileChunk_index,
                payloads[j]->FileChunk_data,
                kept[j],
                kept[j + 1],
            ),
    ensures
        kept.last().part == Some(data),
        forall|c: u32|
            c * 57_344 < data.len() ==> #[trigger] kept.last().have.contains(c),
{
    let offer = offer_of(file_id, filename, mime_type, data, key);
    let count = offer.chunk_hashes.len() as int;
    lemma_chunk_count(data.len() as int, CHUNK_BYTES as int);
    lemma_chunks_hold(data.len() as int, count);
    law_missing_chunks_are_sent(
        me,
        file_id,
        filename,
        mime_type,
        data,
        key,
        kept[0].have,
        Ok(payloads),
    );
    lemma_taking(file_id, filename, mime_type, data, key, payloads, kept, payloads.len() as int);
    let last = kept.last();
    assert forall|c: u32| c * 57_344 < data.len() implies #[trigger] last.have.contains(c) by {
        if !kept[0].have.contains(c) {
            let j: int = choose|j: int|
                0 <= j < payloads.len() && (#[trigger] payloads[j])->FileChunk_index == c;
            assert(last.have.contains(payloads[j]->FileChunk_index));
        }
    }
    let part = last.part->0;
    assert forall|i: int| 0 <= i < data.len() implies i < part.len() && #[trigger] part[i]
        == data[i] by {
        lemma_chunk_with(data.len() as int, i, chunk_with(i));
        assert(last.have.contains(chunk_with(i)));
    }
    lemma_chunk_with(data.len() as int, 0, 0);
    assert(last.have.contains(chunk_with(0)));
    assert(last.have.len() > 0);
    assert(part[data.len() - 1] == data[data.len() - 1]);
    assert(part =~= data);
}

proof fn lemma_taking(
    file_id: Seq<char>,
    filename: Seq<char>,
    mime_type: Seq<char>,
    data: Seq<u8>,
    key: Seq<u8>,
    payloads: Seq<PayloadModel>,
    kept: Seq<IncomingModel>,
    n: int,
)
    requires
        0 < data.len() <= MAX_FILE_BYTES,
        0 <= n <= payloads.len(),
        kept.len() == payloads.len() + 1,
        agrees(data, kept[0]),
        forall|j: int|
            #![trigger payloads[j]]
            0 <= j < payloads.len() ==> {
                let p = payloads[j];
                let bytes = group_opened(key, p->FileChunk_index as u64, p->FileChunk_data);
                let offer = offer_of(file_id, filename, mime_type, data, key);
                &&& p->FileChunk_index * 57_344 < data.len()
                &&& bytes is Ok
                &&& is_chunk_of(bytes->Ok_0, data, p->FileChunk_index as int)
                &&& chunk_content(offer, p->FileChunk_index, bytes) == Ok::<Seq<u8>, Error>(
                    bytes->Ok_0,
                )
                &&& chunk_taken(
                    offer,
                    p->FileChunk_index,
                    p->FileChunk_data,
                    kept[j],
                    kept[j + 1],
                )
            },
    ensures
        agrees(data, kept[n]),
        forall|c: u32| #[trigger] kept[0].have.contains(c) ==> kept[n].have.contains(c),
        forall|j: int|
            0 <= j < n ==> kept[n].have.contains((#[trigger] payloads[j])->FileChunk_index),
    decreases n,
{
    if n > 0 {
        lemma_taking(file_id, filename, mime_type, data, key, payloads, kept, n - 1);
        let p = payloads[n - 1];
        let index = p->FileChunk_index;
        let offer = offer_of(file_id, filename, mime_type, data, key);
        let bytes = group_opened(key, index as u64, p->FileChunk_data);
        lemma_chunk_count(data.len() as int, CHUNK_BYTES as int);
        lemma_chunks_hold(data.len() as int, offer.chunk_hashes.len() as int);
        assert(index < offer.chunk_hashes.len()) by {
            assert(index as int * 57_344 < data.len());
        }
        lemma_source_chunk(data, index);
        assert(bytes->Ok_0 =~= source_chunk(data, index));
        lemma_chunk_taken(offer, data, index, p->FileChunk_data, kept[n - 1], kept[n]);
    }
}

/// An offer says of a file what it is: its size and digest, and the digest of each of its
/// chunks. A file of no stated type is one of bytes.
pub proof fn law_offer_describes_the_file(
    file_id: Seq<char>,
    filename: Seq<char>,
    mime_type: Seq<char>,
    data: Seq<u8>,
    key: Seq<u8>,
)
    requires
        data.len() <= 25 * 1024 * 1024,
    ensures
        ({
            let offer = offer_of(file_id, filename, mime_type, data, key);
            &&& offer.file_id == file_id
            &&& offer.filename == sanitized(filename)
            &&& mime_type.len() > 0 ==> offer.mime_type == mime_type
            &&& mime_type.len() == 0 ==> offer.mime_type == "application/octet-stream"@
            &&& offer.size_bytes == data.len()
            &&& offer.total_bytes == data.len()
            &&& offer.sha256_hex == hex(sha256(data))
            &&& offer.chunk_bytes == 57_344
            &&& offer.file_key == key
            &&& forall|c: int|
                0 <= c ==> (#[trigger] (c * 57_344) < data.len() <==> c
                    < offer.chunk_hashes.len())
            &&& forall|c: int, bytes: Seq<u8>|
                0 <= c < offer.chunk_hashes.len() && #[trigger] is_chunk_of(bytes, data, c)
                    ==> offer.chunk_hashes[c] == hex(sha256(bytes))
        }),
{
    let offer = offer_of(file_id, filename, mime_type, data, key);
    lemma_chunk_count(data.len() as int, CHUNK_BYTES as int);
    lemma_chunks_hold(data.len() as int, offer.chunk_hashes.len() as int);
    assert forall|c: int, bytes: Seq<u8>|
        0 <= c < offer.chunk_hashes.len() && #[trigger] is_chunk_of(bytes, data, c) implies
    offer.chunk_hashes[c] == hex(sha256(bytes)) by {
        lemma_source_chunk(data, c as u32);
        assert(bytes =~= source_chunk(data, c as u32));
    }
}

/// What is missing of a file is what is not there.
pub proof fn law_missing_is_what_is_not_there(total: nat, have: Seq<u32>)
    requires
        total < 0x1_0000_0000,
    ensures
        ascending(chunks_missing(total, have)),
        forall|c: u32| #[trigger]
            chunks_missing(total, have).contains(c) <==> c < total && !have.contains(c),
{
    lemma_lacking(total as int, have);
    assert(total % 0x1_0000_0000 == total);
    assert(chunks_missing(total, have) == lacking(total as int, have));
}

/// The same transfer but for its state, how much of it is there, and where it is kept.
pub open spec fn same_transfer(before: FileTransferModel, after: FileTransferModel) -> bool {
    &&& after.id == before.id
    &&& after.conversation_id == before.conversation_id
    &&& after.filename == before.filename
    &&& after.mime_type == before.mime_type
    &&& after.size_bytes == before.size_bytes
    &&& after.sha256_hex == before.sha256_hex
    &&& after.created_at_ms == before.created_at_ms
}

/// The transfer at `at` changes its state, how much is there and where it is kept; every
/// other transfer, and every offer, is as it was.
pub open spec fn one_transfer_changed(before: DbModel, after: DbModel, at: int) -> bool {
    &&& after.files.len() == before.files.len()
    &&& same_transfer(before.files[at].file, after.files[at].file)
    &&& forall|i: int|
        0 <= i < before.files.len() ==> (#[trigger] after.files[i]).offer_json
            == before.files[i].offer_json
    &&& forall|i: int|
        0 <= i < before.files.len() && i != at ==> #[trigger] after.files[i] == before.files[i]
    &&& after == (DbModel { files: after.files, ..before })
}

pub(crate) proof fn lemma_file_at(db: DbModel, at: int)
    requires
        db.consistent(),
        0 <= at < db.files.len(),
    ensures
        db.file(db.files[at].file.id) == Some(db.files[at].file),
        db.offer_json(db.files[at].file.id) == db.files[at].offer_json,
        some_row(db.files, file_is(db.files[at].file.id)),
        forall|i: int|
            0 <= i < db.files.len() && i != at ==> (#[trigger] db.files[i]).file.id
                != db.files[at].file.id,
{
    let p = file_is(db.files[at].file.id);
    let key = crate::database::model::file_key_id();
    lemma_first_row(db.files, p);
    assert(p(db.files[at]));
    assert forall|i: int| 0 <= i < db.files.len() && i != at implies (#[trigger] db.files[i]).file.id
        != db.files[at].file.id by {
        if i < at {
            assert(key(db.files[i]) != key(db.files[at]));
        } else {
            assert(key(db.files[at]) != key(db.files[i]));
        }
    }
    let row = crate::table::first_row(db.files, p)->0;
    let k: int = choose|k: int| 0 <= k < db.files.len() && db.files[k] == row;
    assert(db.files[k].file.id == db.files[at].file.id);
    assert(k == at);
}

/// A file offer that is new is noted as an incoming transfer of which nothing is there yet,
/// with its offer, and shown as a message; the user is told who sent which file.
pub proof fn law_offer_is_noted(
    before: DbModel,
    after: DbModel,
    identity: IdentityModel,
    device: Seq<u8>,
    opened: OpenedModel,
    e: EnvelopeModel,
    offer: FileOfferModel,
    offer_json: Seq<char>,
    endpoint: Seq<char>,
    fresh: Seq<char>,
    now_ms: i64,
    r: Result<OutcomeModel, Error>,
)
    requires
        opened.stage == Stage::Direct || opened.stage == Stage::Group,
        opened_applied(
            before,
            after,
            identity,
            device,
            opened,
            e,
            Some(PayloadModel::FileOffer { from: opened.from, file: offer }),
            offer_json,
            endpoint,
            fresh,
            now_ms,
            r,
        ),
        e.sequence <= i64::MAX,
        offer.size_bytes <= i64::MAX,
        stored(before, opened.conversation_id),
        forall|i: int|
            0 <= i < before.files.len() ==> (#[trigger] before.files[i]).file.id != offer.file_id,
        is_new(
            before,
            uuid_text(e.message_id),
            opened.conversation_id,
            uuid_text(e.sender_device_id),
            e.sequence as i64,
        ),
    ensures
        after.files.len() == before.files.len() + 1,
        forall|i: int|
            0 <= i < before.files.len() ==> #[trigger] after.files[i] == before.files[i],
        ({
            let row = after.files.last();
            &&& row.offer_json == Some(offer_json)
            &&& row.file.id == offer.file_id
            &&& row.file.conversation_id == opened.conversation_id
            &&& row.file.filename == offer.filename
            &&& row.file.mime_type == offer.mime_type
            &&& row.file.size_bytes == offer.size_bytes
            &&& row.file.sha256_hex == offer.sha256_hex
            &&& row.file.state == "incoming"@
            &&& row.file.bytes_done == 0
            &&& row.file.local_path is None
            &&& row.file.created_at_ms == now_ms
        }),
        after.messages.len() == before.messages.len() + 1,
        ({
            let m = after.messages.last();
            &&& m.id == uuid_text(e.message_id)
            &&& m.conversation_id == opened.conversation_id
            &&& m.sender_username == opened.from
            &&& m.sender_device_id == uuid_text(e.sender_device_id)
            &&& m.message_type == "FileOffer"@
            &&& m.body == "File: "@ + offer.filename
            &&& m.ciphertext == e.ciphertext
            &&& m.sequence == e.sequence
            &&& m.status == "delivered"@
            &&& m.created_at_ms == e.created_at_ms
            &&& m.deleted_at_ms is None
        }),
        r is Ok,
        r->Ok_0.changed,
        r->Ok_0.notify == Some(("@"@ + opened.from, "Sent file "@ + offer.filename)),
{
    let payload = PayloadModel::FileOffer { from: opened.from, file: offer };
    let row = inbound_row(
        e,
        opened.conversation_id,
        opened.from,
        "FileOffer"@,
        "File: "@ + offer.filename,
        None,
    );
    let mid = choose|mid: DbModel| #[trigger]
        content_applied(
            before,
            mid,
            identity,
            device,
            opened.from,
            opened.conversation_id,
            e,
            payload,
            in_group(opened.stage),
            offer_json,
            now_ms,
            r,
        ) && after.messages == mid.messages && after.files == mid.files;
    let i: int = choose|i: int|
        0 <= i < before.conversations.len() && (#[trigger] before.conversations[i]).id
            == opened.conversation_id;
    assert(conversation_is(opened.conversation_id)(before.conversations[i]));
    let p = file_is(offer.file_id);
    lemma_first_row(before.files, p);
    assert(!before.clashes(row));
    let file = offered_file(offer, opened.conversation_id, "incoming"@, now_ms);
    let pushed = before.files.push(FileRowModel { file, offer_json: None });
    assert(!some_row(before.files, p));
    assert(mid.files == updated(pushed, p, file_with_offer(offer_json)));
    assert forall|k: int| 0 <= k < before.files.len() implies #[trigger] after.files[k]
        == before.files[k] by {
        assert(!p(pushed[k]));
    }
    assert(p(pushed[before.files.len() as int]));
}

/// A chunk of a file whose offer is known is handed on with that offer, and so is what the
/// other side has of a file; the store stays as it is. Without an offer both are refused.
pub proof fn law_chunks_go_with_their_offer(
    before: DbModel,
    after: DbModel,
    identity: IdentityModel,
    device: Seq<u8>,
    from: Seq<char>,
    conversation: Seq<char>,
    e: EnvelopeModel,
    file_id: Seq<char>,
    index: u32,
    data: Seq<u8>,
    group: bool,
    offer_json: Seq<char>,
    now_ms: i64,
    r: Result<OutcomeModel, Error>,
    at: int,
)
    requires
        before.consistent(),
        content_applied(
            before,
            after,
            identity,
            device,
            from,
            conversation,
            e,
            PayloadModel::FileChunk { from, file_id, index, data },
            group,
            offer_json,
            now_ms,
            r,
        ),
    ensures
        after == before,
        (forall|i: int|
            0 <= i < before.files.len() ==> (#[trigger] before.files[i]).file.id != file_id)
            ==> r == Err::<OutcomeModel, Error>(Error::NoOffer),
        0 <= at < before.files.len() && before.files[at].file.id == file_id
            && before.files[at].offer_json is Some ==> r is Ok && r->Ok_0.task
            == (FileTaskModel::TakeChunk {
            file_id,
            offer_json: before.files[at].offer_json->0,
            index,
            sealed: data,
        }),
{
    lemma_first_row(before.files, file_is(file_id));
    if 0 <= at < before.files.len() && before.files[at].file.id == file_id {
        lemma_file_at(before, at);
    }
}

/// Whoever says what they have of a file is sent the rest of it.
pub proof fn law_haves_go_with_their_offer(
    before: DbModel,
    after: DbModel,
    identity: IdentityModel,
    device: Seq<u8>,
    from: Seq<char>,
    conversation: Seq<char>,
    e: EnvelopeModel,
    file_id: Seq<char>,
    have: Seq<u32>,
    group: bool,
    offer_json: Seq<char>,
    now_ms: i64,
    r: Result<OutcomeModel, Error>,
    at: int,
)
    requires
        before.consistent(),
        content_applied(
            before,
            after,
            identity,
            device,
            from,
            conversation,
            e,
            PayloadModel::FileAccept { from, file_id, have },
            group,
            offer_json,
            now_ms,
            r,
        ),
    ensures
        after == before,
        (forall|i: int|
            0 <= i < before.files.len() ==> (#[trigger] before.files[i]).file.id != file_id)
            ==> r == Err::<OutcomeModel, Error>(Error::UnknownFile),
        0 <= at < before.files.len() && before.files[at].file.id == file_id
            && before.files[at].offer_json is Some ==> r is Ok && r->Ok_0.task
            == (FileTaskModel::SendChunks {
            file_id,
            offer_json: before.files[at].offer_json->0,
            have,
        }),
{
    lemma_first_row(before.files, file_is(file_id));
    if 0 <= at < before.files.len() && before.files[at].file.id == file_id {
        lemma_file_at(before, at);
    }
}

/// A transfer that the other side cancelled is cancelled here, and what there is of it is
/// dropped.
pub proof fn law_cancelled_transfer_is_dropped(
    before: DbModel,
    after: DbModel,
    identity: IdentityModel,
    device: Seq<u8>,
    from: Seq<char>,
    conversation: Seq<char>,
    e: EnvelopeModel,
    group: bool,
    offer_json: Seq<char>,
    now_ms: i64,
    r: Result<OutcomeModel, Error>,
    at: int,
)
    requires
        before.consistent(),
        0 <= at < before.files.len(),
        content_applied(
            before,
            after,
            identity,
            device,
            from,
            conversation,
            e,
            PayloadModel::FileCancel { from, file_id: before.files[at].file.id },
            group,
            offer_json,
            now_ms,
            r,
        ),
    ensures
        one_transfer_changed(before, after, at),
        after.files[at].file.state == "cancelled"@,
        after.files[at].file.bytes_done == before.files[at].file.bytes_done,
        r is Ok,
        r->Ok_0.changed,
        r->Ok_0.task == (FileTaskModel::DropParts { file_id: before.files[at].file.id }),
{
    lemma_file_at(before, at);
}

/// A chunk that was written counts: what is there grows to the chunks received, and not
/// beyond the file. A file of which all is there is complete and has its place; its sender
/// is then told that every chunk is there.
pub proof fn law_progress_is_noted(
    before: DbModel,
    after: DbModel,
    offer: FileOfferModel,
    progress: FileProgress,
    files_dir: Seq<char>,
    r: Result<(RouteOutcome, Option<ChatPayload>), Error>,
    at: int,
)
    requires
        before.consistent(),
        0 <= at < before.files.len(),
        chunk_noted(before, after, before.files[at].file.id, offer, progress, files_dir, r),
        offer.size_bytes <= 25 * 1024 * 1024,
        progress.total_chunks < 0x1_0000_0000,
        before.profile is Some,
    ensures
        one_transfer_changed(before, after, at),
        ({
            let file = after.files[at].file;
            let received = progress.received_chunks * 57_344;
            &&& file.bytes_done == if received < offer.size_bytes {
                received
            } else {
                offer.size_bytes as int
            }
            &&& progress.complete ==> file.state == "complete"@ && file.local_path is Some
            &&& progress.complete && files_dir.len() > 0 && files_dir.last() != '/'
                && offer.filename.len() > 0 && offer.filename[0] != '/' ==> file.local_path == Some(
                files_dir + "/"@ + offer.filename,
            )
            &&& !progress.complete ==> file.state == before.files[at].file.state
                && file.local_path == before.files[at].file.local_path
        }),
        r is Ok,
        r->Ok_0.0@.changed,
        !progress.complete ==> r->Ok_0.1 is None && r->Ok_0.0@.notify is None,
        progress.complete ==> {
            &&& r->Ok_0.0@.notify == Some(("Download complete"@, offer.filename))
            &&& r->Ok_0.1 is Some
            &&& r->Ok_0.1->0@ is FileAccept
            &&& r->Ok_0.1->0@->FileAccept_from == before.profile->0.username
            &&& r->Ok_0.1->0@->FileAccept_file_id == before.files[at].file.id
            &&& r->Ok_0.1->0@->FileAccept_have.len() == progress.total_chunks
            &&& forall|c: int|
                0 <= c < progress.total_chunks ==> #[trigger] r->Ok_0.1->0@->FileAccept_have[c]
                    == c
        },
{
    lemma_file_at(before, at);
}

/// The sender of a file is done once the other side has as many chunks as there are, and
/// not before.
pub proof fn law_sender_is_done_when_all_is_there(
    before: DbModel,
    after: DbModel,
    offer: FileOfferModel,
    have: Seq<u32>,
    wanted: Result<ChunksWanted, Error>,
    at: int,
)
    requires
        before.consistent(),
        0 <= at < before.files.len(),
        accept_checked(before, after, before.files[at].file.id, offer, have, wanted),
        have.len() < 0x1_0000_0000,
        offer.chunk_hashes.len() < 0x1_0000_0000,
    ensures
        wanted is Ok,
        have.len() >= offer.chunk_hashes.len() ==> wanted->Ok_0 is Complete
            && wanted->Ok_0->Complete_0@.changed && one_transfer_changed(before, after, at)
            && after.files[at].file.state == "complete"@ && after.files[at].file.bytes_done
            == before.files[at].file.bytes_done && after.files[at].file.local_path
            == before.files[at].file.local_path,
        have.len() < offer.chunk_hashes.len() ==> wanted->Ok_0 is Missing && after == before,
{
    lemma_file_at(before, at);
}

/// A chunk that is accepted is one of the file, was authentic, and has the digest that the
/// offer gives for its place.
pub proof fn law_accepted_chunk_has_its_digest(
    offer: FileOfferModel,
    index: u32,
    opened: Result<Seq<u8>, Error>,
)
    ensures
        chunk_content(offer, index, opened) is Ok <==> index < offer.chunk_hashes.len()
            && opened is Ok && offer.chunk_hashes[index as int] == hex(sha256(opened->Ok_0)),
        chunk_content(offer, index, opened) is Ok ==> chunk_content(offer, index, opened)->Ok_0
            == opened->Ok_0,
        index >= offer.chunk_hashes.len() ==> chunk_content(offer, index, opened) == Err::<
            Seq<u8>,
            Error,
        >(Error::ChunkIndex),
        index < offer.chunk_hashes.len() && opened is Err ==> chunk_content(offer, index, opened)
            == Err::<Seq<u8>, Error>(Error::ChunkAuthentication),
{
}

/// A file that is assembled has the digest that was offered, and no more bytes than offered;
/// the file itself is accepted.
pub proof fn law_assembled_file_has_its_digest(
    offer: FileOfferModel,
    bytes: Seq<u8>,
    file_id: Seq<char>,
    filename: Seq<char>,
    mime_type: Seq<char>,
    data: Seq<u8>,
    key: Seq<u8>,
)
    requires
        data.len() <= 25 * 1024 * 1024,
    ensures
        ({
            let file = crate::files::assembled(offer, bytes);
            &&& file is Ok ==> hex(sha256(file->Ok_0)) == offer.sha256_hex && file->Ok_0.len()
                <= offer.size_bytes && file->Ok_0.len() <= bytes.len() && forall|i: int|
                0 <= i < file->Ok_0.len() ==> #[trigger] file->Ok_0[i] == bytes[i]
            &&& file is Err ==> file == Err::<Seq<u8>, Error>(Error::FileDigest)
        }),
        crate::files::assembled(offer_of(file_id, filename, mime_type, data, key), data) == Ok::<
            Seq<u8>,
            Error,
        >(data),
{
}

/// A file is refused if it is larger than 25 MiB, or its name is blank or longer than 255
/// bytes, and otherwise not.
pub proof fn law_files_are_refused_by_size_and_name(filename: Seq<char>, data: Seq<u8>)
    ensures
        crate::files::offer_refused(filename, data) is None <==> data.len() <= 25 * 1024 * 1024
            && crate::text::trimmed(filename).len() > 0 && vstd::utf8::encode_utf8(filename).len()
            <= 255,
        data.len() > 25 * 1024 * 1024 ==> crate::files::offer_refused(filename, data) == Some(
            Error::FileTooLarge,
        ),
{
}

/// Whatever the source holds, each chunk that the other side lacks is sent as it stands there;
/// where it ends before one of them, nothing is sent.
pub proof fn law_chunks_are_read_from_the_source(
    me: Seq<char>,
    file_id: Seq<char>,
    offer: FileOfferModel,
    have: Seq<u32>,
    src: Seq<u8>,
    payloads: Result<Seq<PayloadModel>, Error>,
    j: int,
)
    requires
        offer.chunk_hashes.len() < 0x1_0000_0000,
        chunks_sent(me, file_id, offer, have, src, payloads),
    ensures
        (exists|c: u32|
            c < offer.chunk_hashes.len() && !#[trigger] have.contains(c) && c * 57_344 > src.len())
            ==> payloads == Err::<Seq<PayloadModel>, Error>(Error::SourceTooShort),
        (forall|c: u32|
            c < offer.chunk_hashes.len() && !#[trigger] have.contains(c) ==> c * 57_344
                <= src.len()) ==> payloads is Ok,
        payloads is Ok && 0 <= j < payloads->Ok_0.len() ==> {
            let p = payloads->Ok_0[j];
            let start = p->FileChunk_index * 57_344;
            &&& p is FileChunk
            &&& p->FileChunk_index < offer.chunk_hashes.len()
            &&& !have.contains(p->FileChunk_index)
            &&& start <= src.len()
            &&& group_opened(offer.file_key, p->FileChunk_index as u64, p->FileChunk_data) == Ok::<
                Seq<u8>,
                Error,
            >(
                src.subrange(
                    start,
                    if start + 57_344 <= src.len() {
                        start + 57_344
                    } else {
                        src.len() as int
                    },
                ),
            )
        },
{
    let count = offer.chunk_hashes.len() as int;
    let wanted = lacking(count, have);
    lemma_lacking(count, have);
    assert forall|i: int| 0 <= i < wanted.len() implies wanted[i] < count && !have.contains(
        #[trigger] wanted[i],
    ) by {
        assert(wanted.contains(wanted[i]));
    }
    if exists|c: u32|
        c < count && !#[trigger] have.contains(c) && c * 57_344 > src.len() {
        let c = choose|c: u32|
            c < count && !#[trigger] have.contains(c) && c * 57_344 > src.len();
        assert(wanted.contains(c));
        let i: int = choose|i: int| 0 <= i < wanted.len() && wanted[i] == c;
        assert(wanted[i] * CHUNK_BYTES > src.len());
    }
}

proof fn lemma_no_slash(path: Seq<char>, end: int)
    requires
        0 <= end <= path.len(),
        forall|i: int| 0 <= i < end ==> #[trigger] path[i] != '/',
    ensures
        crate::files::segment_start(path, end) == 0,
    decreases end,
{
    if end > 0 {
        lemma_no_slash(path, end - 1);
    }
}

/// A name that is one plain name already, and not too long, stays as it is.
pub proof fn law_plain_names_stay(name: Seq<char>)
    requires
        1 <= name.len() <= 255,
        name != seq!['.'],
        name != seq!['.', '.'],
        forall|i: int|
            0 <= i < name.len() ==> #[trigger] name[i] != '/' && name[i] != '\\' && name[i]
                != '\0',
    ensures
        sanitized(name) == name,
{
    let n = name.len() as int;
    lemma_no_slash(name, n);
    assert(name.subrange(0, n) =~= name);
    assert(crate::files::name_up_to(name, n) == Some(name));
    lemma_all_kept(name, crate::files::name_char());
}

proof fn lemma_all_kept(rows: Seq<char>, keep: spec_fn(char) -> bool)
    requires
        forall|i: int| 0 <= i < rows.len() ==> keep(#[trigger] rows[i]),
    ensures
        rows.filter(keep) == rows,
    decreases rows.len(),
{
    reveal(Seq::filter);
    if rows.len() > 0 {
        lemma_all_kept(rows.drop_last(), keep);
        assert(rows.drop_last().push(rows.last()) =~= rows);
    }
}

proof fn lemma_dot(stem: Seq<char>, ending: Seq<char>, end: int)
    requires
        stem.len() > 0,
        stem.len() < end <= stem.len() + 1 + ending.len(),
        forall|i: int| 0 <= i < ending.len() ==> #[trigger] ending[i] != '.',
    ensures
        crate::files::dot_place(stem + seq!['.'] + ending, end) == Some(stem.len() as int),
    decreases end,
{
    let name = stem + seq!['.'] + ending;
    if end - 1 == stem.len() {
        assert(name[end - 1] == '.');
    } else {
        assert(name[end - 1] == ending[end - 2 - stem.len()]);
        lemma_dot(stem, ending, end - 1);
    }
}

/// A file whose name is taken gets a number before its ending.
pub proof fn law_number_stands_before_the_ending(
    stem: Seq<char>,
    ending: Seq<char>,
    counter: nat,
)
    requires
        stem.len() > 0,
        ending.len() > 0,
        forall|i: int| 0 <= i < ending.len() ==> #[trigger] ending[i] != '.',
    ensures
        crate::files::numbered(stem + seq!['.'] + ending, counter) == stem + " ("@
            + crate::text::decimal(counter) + ")"@ + seq!['.'] + ending,
{
    let name = stem + seq!['.'] + ending;
    let dot = stem.len() as int;
    lemma_dot(stem, ending, name.len() as int);
    assert(name.take(dot) =~= stem);
    assert(name.skip(dot) =~= seq!['.'] + ending);
    assert(crate::files::numbered(name, counter) =~= stem + " ("@ + crate::text::decimal(counter)
        + ")"@ + seq!['.'] + ending);
}

} // verus!
