//! Sending: what goes out, to whom, and what is stored of it.

use vstd::prelude::*;
use vstd::utf8::*;

use crate::control::control_sealed;
use crate::crypto::{dm_opened, opens_for, x25519_public};
use crate::database::model::{conversation_is, file_is, file_with_offer};
use crate::database::DbModel;
use crate::envelope::message_staged;
use crate::error::Error;
use crate::friends::Draft;
use crate::groups::{contact_key_of, epoch_key, group_created, share_opened};
use crate::identity::IdentityModel;
use crate::ids::uuid_text;
use crate::messaging::{
    cancels_file, content_sealed, deletion_of, edit_of, file_sent, ids_read, marks_read,
    not_writable, text_finished, text_of, ControlPlan, Sending,
};
use crate::payload::{FileOfferModel, PayloadModel};
use crate::promises::files::one_transfer_changed;
use crate::promises::messages::{everyone_but, lemma_message_at, lemma_others_differ, lemma_peers};
use crate::promises::{restated, stored};
use crate::protocol::{MessageType, ProtocolEnvelope};
use crate::records::{FileRowModel, Message};
use crate::table::{lemma_first_row, some_row, updated};
use crate::text::{texts, trimmed};

verus! {

/// A conversation is stored exactly if one with its id is found.
pub(crate) proof fn lemma_stored(db: DbModel, id: Seq<char>)
    ensures
        stored(db, id) <==> db.has_conversation(id),
        stored(db, id) <==> db.conversation(id) is Some,
        db.conversation(id) is Some ==> db.conversation(id)->0.id == id,
{
    let p = conversation_is(id);
    lemma_first_row(db.conversations, p);
    if stored(db, id) {
        let k: int = choose|k: int|
            0 <= k < db.conversations.len() && (#[trigger] db.conversations[k]).id == id;
        assert(p(db.conversations[k]));
    }
    if db.has_conversation(id) {
        let k: int = choose|k: int|
            0 <= k < db.conversations.len() && p(#[trigger] db.conversations[k]);
        assert(db.conversations[k].id == id);
    }
}

/// A text is said by this user, trimmed, with what it answers; in a group it names the epoch
/// that the group is in, in a direct conversation none.
pub proof fn law_text_is_drafted_as_written(
    db: DbModel,
    conversation: Seq<char>,
    body: Seq<char>,
    reply_to: Option<Seq<char>>,
)
    ensures
        ({
            let r = text_of(db, conversation, body, reply_to);
            &&& !(1 <= trimmed(body).len() <= 2000) ==> r == Err::<PayloadModel, Error>(
                Error::MessageLength,
            )
            &&& 1 <= trimmed(body).len() <= 2000 && db.profile is None ==> r == Err::<
                PayloadModel,
                Error,
            >(Error::NoProfile)
            &&& 1 <= trimmed(body).len() <= 2000 && db.profile is Some && db.conversation(
                conversation,
            ) is None ==> r == Err::<PayloadModel, Error>(Error::UnknownConversation)
            &&& 1 <= trimmed(body).len() <= 2000 && db.profile is Some && db.conversation(
                conversation,
            ) is Some && (db.conversation(conversation)->0.kind == "dm"@ || db.group(
                conversation,
            ) is Some) ==> {
                &&& r is Ok
                &&& r->Ok_0 is Text
                &&& r->Ok_0->Text_from == db.profile->0.username
                &&& r->Ok_0->Text_body == trimmed(body)
                &&& r->Ok_0->Text_reply_to == reply_to
                &&& db.conversation(conversation)->0.kind == "dm"@ ==> r->Ok_0->Text_epoch is None
                &&& db.conversation(conversation)->0.kind != "dm"@ ==> r->Ok_0->Text_epoch == Some(
                    db.group(conversation)->0.current_epoch,
                )
            }
        }),
{
}

/// An edit or a deletion names the message that it is of, which must be this user's own; an
/// edit gives the trimmed new text.
pub proof fn law_revisions_are_of_own_messages(db: DbModel, at: int, body: Seq<char>)
    requires
        db.consistent(),
        0 <= at < db.messages.len(),
        db.profile is Some,
    ensures
        ({
            let m = db.messages[at];
            let e = edit_of(db, m.id, body);
            let d = deletion_of(db, m.id);
            &&& m.sender_username != db.profile->0.username ==> e is Err && d == Err::<
                PayloadModel,
                Error,
            >(Error::NotYourMessage)
            &&& e is Ok ==> m.sender_username == db.profile->0.username && 1 <= trimmed(body).len()
                <= 2000 && e->Ok_0 is Edit && e->Ok_0->Edit_ref_id == m.id && e->Ok_0->Edit_body
                == trimmed(body) && e->Ok_0->Edit_from == db.profile->0.username
            &&& d is Ok ==> m.sender_username == db.profile->0.username && d->Ok_0 is Delete
                && d->Ok_0->Delete_ref_id == m.id && d->Ok_0->Delete_from
                == db.profile->0.username
            &&& m.sender_username == db.profile->0.username && db.conversation(
                m.conversation_id,
            ) is Some && (db.conversation(m.conversation_id)->0.kind == "dm"@ || db.group(
                m.conversation_id,
            ) is Some) ==> d is Ok && (1 <= trimmed(body).len() <= 2000 ==> e is Ok)
        }),
{
    lemma_message_at(db, at);
}

/// In a group one can always write; in a direct conversation only to a friend.
pub proof fn law_only_friends_are_written_to(db: DbModel, conversation: Seq<char>)
    ensures
        db.conversation(conversation) is None ==> not_writable(db, conversation) == Some(
            Error::UnknownConversation,
        ),
        db.conversation(conversation) is Some && db.conversation(conversation)->0.kind != "dm"@
            ==> not_writable(db, conversation) is None,
        db.conversation(conversation) is Some && db.conversation(conversation)->0.kind == "dm"@ ==> (
        not_writable(db, conversation) is None ==> db.contact(db.dm_peer(conversation)) is Some
            && db.contact(db.dm_peer(conversation))->0.status == "friend"@),
        db.conversation(conversation) is Some && db.conversation(conversation)->0.kind == "dm"@
            && db.contact(db.dm_peer(conversation)) is Some && db.contact(
            db.dm_peer(conversation),
        )->0.status != "friend"@ ==> not_writable(db, conversation) is Some,
{
}

/// A message is delivered once every peer has it, and queued while one of them failed.
pub proof fn law_finished_text_is_delivered_or_queued(db: DbModel, at: int, failures: nat)
    requires
        db.consistent(),
        0 <= at < db.messages.len(),
    ensures
        ({
            let after = text_finished(db, db.messages[at].id, failures);
            &&& failures == 0 ==> restated(db.messages[at], after.messages[at], "delivered"@)
            &&& failures > 0 ==> restated(db.messages[at], after.messages[at], "queued"@)
            &&& forall|i: int|
                0 <= i < db.messages.len() && i != at ==> #[trigger] after.messages[i]
                    == db.messages[i]
            &&& after == (DbModel { messages: after.messages, ..db })
        }),
{
    lemma_others_differ(db, at);
}

proof fn lemma_ids_read(db: DbModel, ids: Seq<Seq<char>>, at: int)
    requires
        0 <= at < db.messages.len(),
    ensures
        ({
            let after = ids_read(db, ids);
            &&& after == (DbModel { messages: after.messages, ..db })
            &&& after.messages.len() == db.messages.len()
            &&& after.messages[at].id == db.messages[at].id
            &&& ids.contains(db.messages[at].id) ==> restated(
                db.messages[at],
                after.messages[at],
                "read"@,
            )
            &&& !ids.contains(db.messages[at].id) ==> after.messages[at] == db.messages[at]
        }),
    decreases ids.len(),
{
    if ids.len() > 0 {
        let rest = ids.drop_last();
        lemma_ids_read(db, rest, at);
        assert(ids =~= rest.push(ids.last()));
        if rest.contains(db.messages[at].id) {
            let k: int = choose|k: int| 0 <= k < rest.len() && rest[k] == db.messages[at].id;
            assert(ids[k] == db.messages[at].id);
        }
        assert(ids[ids.len() - 1] == ids.last());
    }
}

/// The messages that are marked as read are read, and no others; everyone else in the
/// conversation is told which.
pub proof fn law_read_messages_are_told(
    before: DbModel,
    after: DbModel,
    conversation: Seq<char>,
    ids: Seq<Seq<char>>,
    plan: Result<ControlPlan, Error>,
    at: int,
)
    requires
        before.consistent(),
        before.profile is Some,
        0 <= at < before.messages.len(),
        marks_read(before, after, conversation, ids, plan),
    ensures
        after == (DbModel { messages: after.messages, ..before }),
        after.messages.len() == before.messages.len(),
        ids.contains(before.messages[at].id) ==> restated(
            before.messages[at],
            after.messages[at],
            "read"@,
        ),
        !ids.contains(before.messages[at].id) ==> after.messages[at] == before.messages[at],
        stored(before, conversation) ==> {
            &&& plan is Ok
            &&& plan->Ok_0.conversation_id@ == conversation
            &&& plan->Ok_0.payload@ == (PayloadModel::Read {
                from: before.profile->0.username,
                ref_ids: ids,
            })
            &&& everyone_but(
                before,
                conversation,
                before.profile->0.username,
                texts(plan->Ok_0.peers@),
            )
        },
{
    lemma_ids_read(before, ids, at);
    lemma_stored(before, conversation);
    if stored(before, conversation) {
        lemma_peers(
            before,
            conversation,
            before.profile->0.username,
            texts(plan->Ok_0.peers@),
        );
    }
}

/// A transfer that is cancelled is cancelled here, and everyone else in its conversation is
/// told.
pub proof fn law_cancelled_transfer_is_told(
    before: DbModel,
    after: DbModel,
    plan: Result<ControlPlan, Error>,
    at: int,
)
    requires
        before.consistent(),
        before.profile is Some,
        0 <= at < before.files.len(),
        cancels_file(before, after, before.files[at].file.id, plan),
    ensures
        one_transfer_changed(before, after, at),
        after.files[at].file.state == "cancelled"@,
        after.files[at].file.bytes_done == before.files[at].file.bytes_done,
        stored(before, before.files[at].file.conversation_id) ==> {
            &&& plan is Ok
            &&& plan->Ok_0.conversation_id@ == before.files[at].file.conversation_id
            &&& plan->Ok_0.payload@ == (PayloadModel::FileCancel {
                from: before.profile->0.username,
                file_id: before.files[at].file.id,
            })
            &&& everyone_but(
                before,
                before.files[at].file.conversation_id,
                before.profile->0.username,
                texts(plan->Ok_0.peers@),
            )
        },
{
    let conversation = before.files[at].file.conversation_id;
    crate::promises::files::lemma_file_at(before, at);
    lemma_stored(before, conversation);
    if stored(before, conversation) {
        lemma_peers(
            before,
            conversation,
            before.profile->0.username,
            texts(plan->Ok_0.peers@),
        );
    }
}

/// A file that is offered is noted as one that is being sent, with its offer and its source,
/// and shown as a message; the offer goes to everyone else in the conversation.
pub proof fn law_file_is_offered(
    before: DbModel,
    after: DbModel,
    identity: IdentityModel,
    device: Seq<u8>,
    conversation: Seq<char>,
    me: Seq<char>,
    offer: FileOfferModel,
    json: Seq<u8>,
    offer_json: Seq<char>,
    files_dir: Seq<char>,
    message: Seq<u8>,
    stand_in: Seq<u8>,
    now_ms: i64,
    r: Result<Sending, Error>,
)
    requires
        file_sent(
            before,
            after,
            identity,
            device,
            conversation,
            PayloadModel::FileOffer { from: me, file: offer },
            json,
            offer_json,
            files_dir,
            message,
            stand_in,
            now_ms,
            r,
        ),
        r is Ok,
        before.consistent(),
        before.profile is Some,
        before.profile->0.username == me,
        !before.has_message(uuid_text(message)),
        offer.size_bytes <= i64::MAX,
        forall|i: int|
            0 <= i < before.files.len() ==> (#[trigger] before.files[i]).file.id != offer.file_id,
    ensures
        after.files.len() == before.files.len() + 1,
        forall|i: int|
            0 <= i < before.files.len() ==> #[trigger] after.files[i] == before.files[i],
        ({
            let row = after.files.last();
            &&& row.offer_json == Some(offer_json)
            &&& row.file.id == offer.file_id
            &&& row.file.conversation_id == conversation
            &&& row.file.filename == offer.filename
            &&& row.file.mime_type == offer.mime_type
            &&& row.file.size_bytes == offer.size_bytes
            &&& row.file.sha256_hex == offer.sha256_hex
            &&& row.file.state == "sending"@
            &&& row.file.bytes_done == 0
            &&& row.file.local_path is Some
            &&& row.file.created_at_ms == now_ms
        }),
        after.messages.len() == before.messages.len() + 1,
        ({
            let m = after.messages.last();
            let e = r->Ok_0.envelope@;
            &&& m.id == uuid_text(message) && e.message_id == message
            &&& r->Ok_0.message_id@ == m.id
            &&& m.conversation_id == conversation
            &&& m.sender_username == me
            &&& m.sender_device_id == uuid_text(device)
            &&& m.message_type == "FileOffer"@ && e.message_type == MessageType::FileOffer
            &&& m.body == "File: "@ + offer.filename
            &&& m.ciphertext == e.ciphertext
            &&& m.status == "local"@
            &&& m.created_at_ms == now_ms
        }),
        everyone_but(before, conversation, me, texts(r->Ok_0.peers@)),
{
    let payload = PayloadModel::FileOffer { from: me, file: offer };
    let shown = "File: "@ + offer.filename;
    let sealed = choose|sealed: Result<(Seq<u8>, i64), Error>|
        {
            let row = crate::envelope::staged_row(
                device,
                me,
                conversation,
                payload,
                shown,
                sealed->Ok_0.0,
                message,
                sealed->Ok_0.1,
                now_ms,
            );
            &&& #[trigger] content_sealed(
                before,
                identity,
                device,
                me,
                conversation,
                json,
                sealed,
            )
            &&& sealed is Ok
            &&& r->Ok_0.envelope@.ciphertext == sealed->Ok_0.0
            &&& after == crate::messaging::seal_counted(
                before,
                before.insert_message(row),
                conversation,
                uuid_text(device),
                sealed->Ok_0.1,
            ).save_file(
                crate::messaging::sending_file(offer, conversation, files_dir, now_ms),
            ).save_offer_json(offer.file_id, offer_json)
        };
    let row = crate::envelope::staged_row(
        device,
        me,
        conversation,
        payload,
        shown,
        sealed->Ok_0.0,
        message,
        sealed->Ok_0.1,
        now_ms,
    );
    crate::database::laws::law_next_number_is_free(before, conversation, uuid_text(device), row);
    lemma_peers(before, conversation, me, texts(r->Ok_0.peers@));
    reveal_strlit("FileOffer");
    let p = file_is(offer.file_id);
    let file = crate::messaging::sending_file(offer, conversation, files_dir, now_ms);
    let pushed = before.files.push(FileRowModel { file, offer_json: None });
    assert(!some_row(before.files, p));
    assert(after.files == updated(pushed, p, file_with_offer(offer_json)));
    assert forall|k: int| 0 <= k < before.files.len() implies #[trigger] after.files[k]
        == before.files[k] by {
        assert(!p(pushed[k]));
    }
    assert(p(pushed[before.files.len() as int]));
}

/// What is sealed as a control message in a direct conversation is what its peer opens; it
/// leaves the store as it is.
pub proof fn law_direct_control_opens(
    db: DbModel,
    after: DbModel,
    identity: IdentityModel,
    device: Seq<u8>,
    conversation: Seq<char>,
    message_type: MessageType,
    json: Seq<u8>,
    stand_in: Seq<u8>,
    message: Seq<u8>,
    now_ms: i64,
    r: Result<ProtocolEnvelope, Error>,
    peer_secret: Seq<u8>,
)
    requires
        control_sealed(
            db,
            after,
            identity,
            device,
            conversation,
            message_type,
            json,
            stand_in,
            message,
            now_ms,
            r,
        ),
        r is Ok,
        db.conversation(conversation) is Some,
        db.conversation(conversation)->0.kind == "dm"@,
        peer_secret.len() == 32,
        contact_key_of(db.contact(db.dm_peer(conversation))->0) == Some(
            x25519_public(peer_secret),
        ),
    ensures
        after == db,
        r->Ok_0@.message_type == message_type,
        r->Ok_0@.message_id == message,
        r->Ok_0@.sender_device_id == device,
        dm_opened(
            peer_secret,
            x25519_public(identity.x_secret),
            encode_utf8(conversation),
            r->Ok_0@.ciphertext,
        ) == Ok::<Seq<u8>, Error>(json),
{
    assert(opens_for(
        identity.x_secret,
        x25519_public(peer_secret),
        encode_utf8(conversation),
        json,
        r->Ok_0@.ciphertext,
    ));
}

/// What is sealed as a control message in a group is what whoever has the key of its epoch
/// opens, under the number on its envelope.
pub proof fn law_group_control_opens(
    db: DbModel,
    after: DbModel,
    identity: IdentityModel,
    device: Seq<u8>,
    conversation: Seq<char>,
    message_type: MessageType,
    json: Seq<u8>,
    stand_in: Seq<u8>,
    message: Seq<u8>,
    now_ms: i64,
    r: Result<ProtocolEnvelope, Error>,
)
    requires
        control_sealed(
            db,
            after,
            identity,
            device,
            conversation,
            message_type,
            json,
            stand_in,
            message,
            now_ms,
            r,
        ),
        r is Ok,
        db.profile is Some,
        db.conversation(conversation) is Some,
        db.conversation(conversation)->0.kind != "dm"@,
    ensures
        db.group(conversation) is Some,
        r->Ok_0@.message_type == message_type,
        r->Ok_0@.message_id == message,
        ({
            let key = epoch_key(
                db,
                identity.x_secret,
                conversation,
                db.group(conversation)->0.current_epoch,
                db.profile->0.username,
            );
            &&& key is Ok
            &&& share_opened(key->Ok_0, r->Ok_0@.sequence, r->Ok_0@.ciphertext) == Ok::<
                Seq<u8>,
                Error,
            >(json)
        }),
        after == (DbModel { numbers: after.numbers, ..db }),
{
}

/// A message is staged before it is sent: it is stored as this device's own under the next
/// number, and its envelope carries the same.
pub proof fn law_staged_message_is_stored_first(
    before: DbModel,
    after: DbModel,
    identity: IdentityModel,
    device: Seq<u8>,
    me: Seq<char>,
    conversation: Seq<char>,
    payload: PayloadModel,
    body: Seq<char>,
    ciphertext: Seq<u8>,
    message: Seq<u8>,
    stand_in: Seq<u8>,
    now_ms: i64,
    staged: Result<(Message, crate::protocol::ProtocolEnvelope), Error>,
)
    requires
        message_staged(
            before,
            after,
            identity,
            device,
            me,
            conversation,
            payload,
            body,
            ciphertext,
            message,
            stand_in,
            now_ms,
            staged,
        ),
        staged is Ok,
        !before.has_message(uuid_text(message)),
    ensures
        after.messages.len() == before.messages.len() + 1,
        after.messages.last() == staged->Ok_0.0@,
        ({
            let m = staged->Ok_0.0@;
            let e = staged->Ok_0.1@;
            &&& m.id == uuid_text(message) && e.message_id == message
            &&& m.conversation_id == conversation
            &&& m.sender_device_id == uuid_text(device) && e.sender_device_id == device
            &&& m.sender_username == me
            &&& m.body == body
            &&& m.ciphertext == ciphertext && e.ciphertext == ciphertext
            &&& m.status == "local"@
            &&& m.created_at_ms == now_ms && e.created_at_ms == now_ms
            &&& m.sequence >= 0 ==> e.sequence == m.sequence
            &&& payload is Text ==> m.reply_to == payload->Text_reply_to
        }),
{
    let row = staged->Ok_0.0@;
    crate::database::laws::law_next_number_is_free(before, conversation, uuid_text(device), row);
}

/// A group needs a name of 1 to 64 characters, someone else in it, and friends only: whoever
/// is not is named by their place, and nothing is made.
pub proof fn law_groups_need_friends(
    before: DbModel,
    after: DbModel,
    identity: IdentityModel,
    me: Seq<char>,
    name: Seq<char>,
    members: Seq<Seq<char>>,
    id: Seq<char>,
    key: Seq<u8>,
    now_ms: i64,
    made: Result<(String, Vec<Draft>), Error>,
    at: int,
)
    requires
        group_created(before, after, identity, me, name, members, id, key, now_ms, made),
    ensures
        !(1 <= trimmed(name).len() <= 64) ==> made == Err::<(String, Vec<Draft>), Error>(
            Error::GroupNameLength,
        ) && after == before,
        1 <= trimmed(name).len() <= 64 && members.len() == 0 ==> made == Err::<
            (String, Vec<Draft>),
            Error,
        >(Error::GroupEmpty) && after == before,
        1 <= trimmed(name).len() <= 64 && 0 <= at < members.len() && members[at] != me && (
        before.contact(members[at]) is None || before.contact(members[at])->0.status != "friend"@)
            ==> made is Err && after == before && made->Err_0 is MemberNotFriend
            && made->Err_0->MemberNotFriend_0 <= at,
{
    let all = crate::groups::with_me(members, me);
    if 0 <= at < members.len() {
        assert(all[at] == members[at]);
    }
}

/// Whoever leaves a group says so, in the epoch that the group is in.
pub proof fn law_farewell_is_said(db: DbModel, group: Seq<char>)
    ensures
        db.profile is None ==> crate::messaging::farewell_to(db, group) == Err::<
            PayloadModel,
            Error,
        >(Error::NoProfile),
        db.profile is Some && db.group(group) is None ==> crate::messaging::farewell_to(db, group)
            == Err::<PayloadModel, Error>(Error::UnknownGroup),
        db.profile is Some && db.group(group) is Some ==> crate::messaging::farewell_to(db, group)
            == Ok::<PayloadModel, Error>(
            PayloadModel::Text {
                from: db.profile->0.username,
                body: "@"@ + db.profile->0.username + " left the group"@,
                reply_to: None,
                epoch: Some(db.group(group)->0.current_epoch),
            },
        ),
{
}

/// Of a file that is not refused an offer is made, in this user's name: it names the file by
/// the id, the key and the trimmed name that it was given, and says how long it is; its chunks
/// are those of the file, sealed under the key.
pub proof fn law_offer_is_made(
    db: DbModel,
    conversation: Seq<char>,
    filename: Seq<char>,
    mime_type: Seq<char>,
    data: Seq<u8>,
    file_id: Seq<u8>,
    file_key: Seq<u8>,
    offer: Result<(crate::payload::ChatPayload, Vec<Vec<u8>>), Error>,
    c: int,
)
    requires
        crate::messaging::offer_made(
            db,
            conversation,
            filename,
            mime_type,
            data,
            file_id,
            file_key,
            offer,
        ),
        db.profile is Some,
    ensures
        !stored(db, conversation) ==> offer is Err && offer->Err_0 == Error::UnknownConversation,
        offer is Ok <==> stored(db, conversation) && data.len() <= 25 * 1024 * 1024 && trimmed(
            trimmed(filename),
        ).len() > 0 && encode_utf8(trimmed(filename)).len() <= 255,
        offer is Ok ==> {
            let said = offer->Ok_0.0@;
            &&& said is FileOffer
            &&& said->FileOffer_from == db.profile->0.username
            &&& said->FileOffer_file.file_id == uuid_text(file_id)
            &&& said->FileOffer_file.filename == crate::files::sanitized(trimmed(filename))
            &&& said->FileOffer_file.size_bytes == data.len()
            &&& said->FileOffer_file.sha256_hex == crate::bytes::hex(crate::crypto::sha256(data))
            &&& said->FileOffer_file.file_key == file_key
            &&& said->FileOffer_file.chunk_hashes.len() == offer->Ok_0.1@.len()
            &&& 0 <= c < offer->Ok_0.1@.len() ==> crate::crypto::group_opened(
                file_key,
                c as u64,
                offer->Ok_0.1@[c]@,
            ) == Ok::<Seq<u8>, Error>(
                data.subrange(
                    c * 57_344,
                    if (c + 1) * 57_344 < data.len() {
                        (c + 1) * 57_344
                    } else {
                        data.len() as int
                    },
                ),
            )
        },
{
    lemma_stored(db, conversation);
    crate::promises::files::law_files_are_refused_by_size_and_name(trimmed(filename), data);
    if offer is Ok {
        crate::promises::files::law_offer_describes_the_file(
            uuid_text(file_id),
            trimmed(filename),
            mime_type,
            data,
            file_key,
        );
    }
}

/// A file whose chunks were sent is shown as sent in its conversation; one that is not being
/// sent any more is not.
pub proof fn law_sent_file_is_shown_as_sent(
    db: DbModel,
    conversation: Seq<char>,
    now_ms: i64,
    at: int,
    i: int,
)
    requires
        db.consistent(),
        0 <= at < db.files.len(),
        0 <= i < db.conversations.len(),
    ensures
        ({
            let file = db.files[at].file;
            let after = crate::messaging::file_finished(db, conversation, file.id, now_ms);
            &&& after == (DbModel { conversations: after.conversations, ..db })
            &&& after.conversations.len() == db.conversations.len()
            &&& file.state == "sending"@ && db.conversations[i].id == conversation
                ==> after.conversations[i].last_message_preview == Some(
                "File sent: "@ + file.filename,
            ) && after.conversations[i].updated_at_ms == now_ms
                && after.conversations[i].name == db.conversations[i].name
            &&& file.state != "sending"@ || db.conversations[i].id != conversation
                ==> after.conversations[i] == db.conversations[i]
        }),
{
    crate::promises::files::lemma_file_at(db, at);
}

/// Everyone else in a conversation is told that this user types, or stopped.
pub proof fn law_typing_is_told(
    db: DbModel,
    conversation: Seq<char>,
    typing: bool,
    plan: Result<Option<ControlPlan>, Error>,
)
    requires
        db.consistent(),
        crate::messaging::typing_planned(db, conversation, typing, plan),
        db.profile is Some,
        db.profile->0.username.len() > 0,
    ensures
        !stored(db, conversation) ==> plan is Err && plan->Err_0 == Error::UnknownConversation,
        stored(db, conversation) ==> {
            &&& plan is Ok
            &&& plan->Ok_0 is Some
            &&& plan->Ok_0->0.conversation_id@ == conversation
            &&& plan->Ok_0->0.payload@ == (PayloadModel::Typing {
                from: db.profile->0.username,
                typing,
            })
            &&& everyone_but(
                db,
                conversation,
                db.profile->0.username,
                texts(plan->Ok_0->0.peers@),
            )
        },
{
    lemma_stored(db, conversation);
    if stored(db, conversation) {
        lemma_peers(
            db,
            conversation,
            db.profile->0.username,
            texts(plan->Ok_0->0.peers@),
        );
    }
}

/// What is said in a direct conversation can be sealed: the key of who is there is known, the
/// conversation's id fits in a box, and there is a number left.
pub open spec fn direct_is_open(db: DbModel, device: Seq<u8>, conversation: Seq<char>) -> bool {
    &&& db.conversation(conversation) is Some
    &&& db.conversation(conversation)->0.kind == "dm"@
    &&& db.contact(db.dm_peer(conversation)) is Some
    &&& db.contact(db.dm_peer(conversation))->0.x25519_pubkey is Some
    &&& db.contact(db.dm_peer(conversation))->0.x25519_pubkey->0.len() == 32
    &&& encode_utf8(conversation).len() <= 65_535
    &&& db.next_number(conversation, uuid_text(device)) <= i64::MAX
}

/// What is said in a group can be sealed: the key of its epoch is held, it is short enough for
/// a box, and a number and a share of the numbers are left.
pub open spec fn group_is_open(
    db: DbModel,
    identity: IdentityModel,
    device: Seq<u8>,
    me: Seq<char>,
    group: Seq<char>,
    json: Seq<u8>,
) -> bool {
    &&& db.group(group) is Some
    &&& epoch_key(
        db,
        identity.x_secret,
        group,
        db.group(group)->0.current_epoch,
        me,
    ) is Ok
    &&& 0 <= db.next_number(group, uuid_text(device)) < 140_737_488_355_328
    &&& db.share_of(group, db.group(group)->0.current_epoch, me) < 65_536
    &&& crate::crypto::aead_fits(json.len())
}

/// What is said in a conversation can be sealed.
pub open spec fn conversation_is_open(
    db: DbModel,
    identity: IdentityModel,
    device: Seq<u8>,
    me: Seq<char>,
    conversation: Seq<char>,
    json: Seq<u8>,
) -> bool {
    direct_is_open(db, device, conversation) || (db.conversation(conversation) is Some
        && db.conversation(conversation)->0.kind != "dm"@ && group_is_open(
        db,
        identity,
        device,
        me,
        conversation,
        json,
    ))
}

/// A text is sent wherever it can be sealed, in a group, or to a friend.
pub proof fn law_text_is_sent(
    before: DbModel,
    after: DbModel,
    identity: IdentityModel,
    device: Seq<u8>,
    conversation: Seq<char>,
    payload: PayloadModel,
    json: Seq<u8>,
    message: Seq<u8>,
    stand_in: Seq<u8>,
    now_ms: i64,
    r: Result<Sending, Error>,
    k: int,
)
    requires
        crate::messaging::text_sent(
            before,
            after,
            identity,
            device,
            conversation,
            payload,
            json,
            message,
            stand_in,
            now_ms,
            r,
        ),
        payload is Text,
        before.profile is Some,
        conversation_is_open(
            before,
            identity,
            device,
            before.profile->0.username,
            conversation,
            json,
        ),
        before.conversation(conversation)->0.kind == "dm"@ ==> {
            &&& 0 <= k < before.members.len()
            &&& before.members[k].conversation_id == conversation
            &&& before.contact(before.dm_peer(conversation))->0.status == "friend"@
        },
    ensures
        r is Ok,
{
    let p = crate::database::model::member_of(conversation);
    if before.conversation(conversation)->0.kind == "dm"@ {
        before.members.lemma_filter_contains(p, k);
        assert(before.members.filter(p).len() > 0);
        assert(crate::routing::least_name(before.members.filter(p)) is Some);
    }
}

/// An edit or a deletion of a message of one's own is sent wherever it can be sealed.
pub proof fn law_revision_is_sent(
    db: DbModel,
    identity: IdentityModel,
    device: Seq<u8>,
    message_id: Seq<char>,
    payload: PayloadModel,
    json: Seq<u8>,
    message: Seq<u8>,
    stand_in: Seq<u8>,
    now_ms: i64,
    r: Result<Sending, Error>,
)
    requires
        crate::messaging::revision_sealed(
            db,
            identity,
            device,
            message_id,
            payload,
            json,
            message,
            stand_in,
            now_ms,
            r,
        ),
        db.profile is Some,
        db.message(message_id) is Some,
        db.message(message_id)->0.sender_username == db.profile->0.username,
        conversation_is_open(
            db,
            identity,
            device,
            db.profile->0.username,
            db.message(message_id)->0.conversation_id,
            json,
        ),
    ensures
        r is Ok,
{
}

/// A file is offered wherever the offer can be sealed.
pub proof fn law_file_offer_is_sent(
    before: DbModel,
    after: DbModel,
    identity: IdentityModel,
    device: Seq<u8>,
    conversation: Seq<char>,
    payload: PayloadModel,
    json: Seq<u8>,
    offer_json: Seq<char>,
    files_dir: Seq<char>,
    message: Seq<u8>,
    stand_in: Seq<u8>,
    now_ms: i64,
    r: Result<Sending, Error>,
)
    requires
        file_sent(
            before,
            after,
            identity,
            device,
            conversation,
            payload,
            json,
            offer_json,
            files_dir,
            message,
            stand_in,
            now_ms,
            r,
        ),
        payload is FileOffer,
        before.profile is Some,
        conversation_is_open(
            before,
            identity,
            device,
            before.profile->0.username,
            conversation,
            json,
        ),
    ensures
        r is Ok,
{
}

/// Whoever holds the key of a group's epoch can leave it; what they say on leaving goes out
/// as a message of theirs, and opens under that key.
pub proof fn law_farewell_is_sent(
    before: DbModel,
    after: DbModel,
    identity: IdentityModel,
    device: Seq<u8>,
    group: Seq<char>,
    json: Seq<u8>,
    message: Seq<u8>,
    stand_in: Seq<u8>,
    now_ms: i64,
    r: Result<Sending, Error>,
)
    requires
        crate::messaging::group_left(
            before,
            after,
            identity,
            device,
            group,
            json,
            message,
            stand_in,
            now_ms,
            r,
        ),
        before.profile is Some,
        group_is_open(before, identity, device, before.profile->0.username, group, json),
    ensures
        r is Ok,
        r->Ok_0.message_id@ == uuid_text(message),
        r->Ok_0.envelope@.message_id == message,
        r->Ok_0.envelope@.sender_device_id == device,
        r->Ok_0.envelope@.message_type == MessageType::Message,
        r->Ok_0.envelope@.created_at_ms == now_ms,
        share_opened(
            epoch_key(
                before,
                identity.x_secret,
                group,
                before.group(group)->0.current_epoch,
                before.profile->0.username,
            )->Ok_0,
            r->Ok_0.envelope@.sequence,
            r->Ok_0.envelope@.ciphertext,
        ) == Ok::<Seq<u8>, Error>(json),
{
}

/// A group box is opened under the number that it carries, where that number is the one that
/// the envelope tells, or the same in some member's share of the numbers.
pub proof fn law_group_box_is_opened_under_its_number(key: Seq<u8>, sequence: u64, boxed: Seq<u8>)
    requires
        boxed.len() >= 28,
    ensures
        ({
            let carried = crate::bytes::from_be64(boxed.subrange(4, 12));
            let told = carried == sequence || carried % 281_474_976_710_656 == sequence;
            &&& told ==> share_opened(key, sequence, boxed) == crate::crypto::group_opened(
                key,
                carried as u64,
                boxed,
            )
            &&& !told ==> share_opened(key, sequence, boxed) == Err::<Seq<u8>, Error>(
                Error::GroupSequenceMismatch,
            )
        }),
{
}

/// A group whose name will do is made of friends whose keys are known.
pub proof fn law_group_is_made(
    before: DbModel,
    after: DbModel,
    identity: IdentityModel,
    me: Seq<char>,
    name: Seq<char>,
    members: Seq<Seq<char>>,
    id: Seq<char>,
    key: Seq<u8>,
    now_ms: i64,
    made: Result<(String, Vec<Draft>), Error>,
)
    requires
        group_created(before, after, identity, me, name, members, id, key, now_ms, made),
        1 <= trimmed(name).len() <= 64,
        members.len() > 0,
        forall|i: int|
            0 <= i < members.len() && #[trigger] members[i] != me ==> {
                let c = before.contact(members[i]);
                &&& c is Some
                &&& c->0.status == "friend"@
                &&& c->0.x25519_pubkey is Some
                &&& c->0.x25519_pubkey->0.len() == 32
            },
    ensures
        made is Ok,
{
    let all = crate::groups::with_me(members, me);
    assert forall|j: int| 0 <= j < all.len() implies #[trigger] all[j] == me
        || crate::groups::is_friend(before, all[j]) by {
        if j < members.len() {
            assert(all[j] == members[j]);
        }
    }
    let title = trimmed(name);
    let rotation = crate::groups::rotation(identity, me, id, title, all, 1, key);
    let from = crate::groups::group_made(before, id, title, all, now_ms);
    assert(from.contacts == before.contacts);
    assert forall|j: int| 0 <= j < all.len() implies #[trigger] crate::groups::member_key(
        from,
        rotation.my_key(),
        me,
        all,
        j,
    ) is Ok by {
        if j < members.len() {
            assert(all[j] == members[j]);
        }
        assert(from.contact(all[j]) == before.contact(all[j]));
    }
}

/// A group that is there is rotated where the keys of all its members are known and its
/// epochs are not used up.
pub proof fn law_group_is_rotated(
    identity: IdentityModel,
    me: Seq<char>,
    group: Seq<char>,
    key: Seq<u8>,
    now_ms: i64,
    before: DbModel,
    after: DbModel,
    outcome: Result<Seq<crate::friends::DraftModel>, Error>,
)
    requires
        before.consistent(),
        crate::groups::epoch_rotated(identity, me, group, key, now_ms, before, after, outcome),
        before.group(group) is Some,
        before.group(group)->0.current_epoch < i64::MAX,
        forall|u: Seq<char>|
            #[trigger] crate::promises::belongs(before, group, u) && u != me ==> {
                let c = before.contact(u);
                &&& c is Some
                &&& c->0.x25519_pubkey is Some
                &&& c->0.x25519_pubkey->0.len() == 32
            },
    ensures
        outcome is Ok,
{
    let g = before.group(group)->0;
    let epoch = (g.current_epoch + 1) as i64;
    let from = before.save_group(group, g.name, epoch, now_ms);
    let names = choose|names: Seq<Seq<char>>|
        #![trigger before.members_listed(group, names)]
        {
            &&& before.members_listed(group, names)
            &&& crate::groups::rotation(
                identity,
                me,
                group,
                g.name,
                names,
                epoch,
                key,
            ).distributed(from, after, outcome)
        };
    let rotation = crate::groups::rotation(identity, me, group, g.name, names, epoch, key);
    crate::promises::lists::law_members_are_everyone(before, group, names);
    assert forall|j: int| 0 <= j < names.len() implies #[trigger] crate::groups::member_key(
        from,
        rotation.my_key(),
        me,
        names,
        j,
    ) is Ok by {
        assert(names.contains(names[j]));
        assert(crate::promises::belongs(before, group, names[j]));
        assert(from.contact(names[j]) == before.contact(names[j]));
    }
}

/// A group that is not made for want of a friend names somebody who is none.
pub proof fn law_named_stranger_is_none(
    before: DbModel,
    after: DbModel,
    identity: IdentityModel,
    me: Seq<char>,
    name: Seq<char>,
    members: Seq<Seq<char>>,
    id: Seq<char>,
    key: Seq<u8>,
    now_ms: i64,
    made: Result<(String, Vec<Draft>), Error>,
)
    requires
        group_created(before, after, identity, me, name, members, id, key, now_ms, made),
        made is Err,
        made->Err_0 is MemberNotFriend,
        after == before,
        1 <= trimmed(name).len() <= 64,
        members.len() > 0,
        !stored(before, id),
    ensures
        ({
            let at = made->Err_0->MemberNotFriend_0;
            &&& at < members.len()
            &&& members[at as int] != me
            &&& before.contact(members[at as int]) is None || before.contact(
                members[at as int],
            )->0.status != "friend"@
        }),
{
    let all = crate::groups::with_me(members, me);
    if crate::groups::all_friends(before, me, all) {
        let title = trimmed(name);
        let from = crate::groups::group_made(before, id, title, all, now_ms);
        let rotation = crate::groups::rotation(identity, me, id, title, all, 1, key);
        lemma_stored(before, id);
        lemma_keys_keep_conversations(
            from,
            choose|rows: Seq<crate::records::GroupKeyModel>|
                {
                    &&& #[trigger] rotation.wrapped_first(from, rows)
                    &&& after == from.save_keys(rows)
                },
        );
        assert(from.conversations.len() == before.conversations.len() + 1);
        assert(false);
    } else {
        let at = made->Err_0->MemberNotFriend_0 as int;
        assert(all[at] != me);
        assert(all[at] == members[at]);
    }
}

proof fn lemma_keys_keep_conversations(
    db: DbModel,
    rows: Seq<crate::records::GroupKeyModel>,
)
    ensures
        db.save_keys(rows).conversations == db.conversations,
    decreases rows.len(),
{
    if rows.len() > 0 {
        lemma_keys_keep_conversations(db, rows.drop_last());
    }
}

/// A group that is there can be renamed by whoever holds the key of its epoch.
pub proof fn law_rename_is_told(
    before: DbModel,
    after: DbModel,
    identity: IdentityModel,
    device: Seq<u8>,
    me: Seq<char>,
    group: Seq<char>,
    name: Seq<char>,
    now_ms: i64,
    draft: Result<crate::groups::GroupDraft, Error>,
)
    requires
        crate::groups::rename_done(
            before,
            after,
            identity,
            device,
            me,
            group,
            name,
            now_ms,
            draft,
        ),
    ensures
        1 <= trimmed(name).len() <= 64 && group_is_open(
            before,
            identity,
            device,
            me,
            group,
            Seq::empty(),
        ) ==> draft is Ok,
        !(1 <= trimmed(name).len() <= 64) ==> draft is Err && draft->Err_0
            == Error::GroupNameLength && after == before,
        1 <= trimmed(name).len() <= 64 && before.group(group) is None ==> draft is Err
            && draft->Err_0 == Error::UnknownGroup && after == before,
{
    if before.group(group) is Some {
        let g = before.group(group)->0;
        let renamed = crate::groups::group_renamed(
            before,
            group,
            trimmed(name),
            g.current_epoch,
            now_ms,
        );
        assert(renamed.group_keys == before.group_keys);
        assert(renamed.members == before.members);
        assert(renamed.share_of(group, g.current_epoch, me) == before.share_of(
            group,
            g.current_epoch,
            me,
        ));
    }
}

/// A control payload is sealed wherever it can be.
pub proof fn law_control_is_sealed(
    db: DbModel,
    after: DbModel,
    identity: IdentityModel,
    device: Seq<u8>,
    conversation: Seq<char>,
    message_type: MessageType,
    json: Seq<u8>,
    stand_in: Seq<u8>,
    message: Seq<u8>,
    now_ms: i64,
    r: Result<ProtocolEnvelope, Error>,
)
    requires
        control_sealed(
            db,
            after,
            identity,
            device,
            conversation,
            message_type,
            json,
            stand_in,
            message,
            now_ms,
            r,
        ),
    ensures
        db.profile is None ==> r is Err && r->Err_0 == Error::NoProfile,
        r is Err ==> after == db,
        db.profile is Some && direct_is_open(db, device, conversation) ==> r is Ok && after == db,
        db.profile is Some && db.conversation(conversation) is Some && db.conversation(
            conversation,
        )->0.kind != "dm"@ && group_is_open(
            db,
            identity,
            device,
            db.profile->0.username,
            conversation,
            json,
        ) && 0 <= db.next_control(conversation, uuid_text(device)) < 140_737_488_355_328 ==> r
            is Ok,
        r is Ok ==> r->Ok_0@.message_type == message_type && r->Ok_0@.message_id == message
            && r->Ok_0@.sender_device_id == device && r->Ok_0@.created_at_ms == now_ms,
{
}

/// The number that a device seals under in a group is one that it does not use again.
pub open spec fn number_is_used_up(
    before: DbModel,
    after: DbModel,
    device: Seq<u8>,
    group: Seq<char>,
    sequence: u64,
) -> bool {
    let number = before.next_number(group, uuid_text(device));
    &&& 0 <= number
    &&& sequence == number
    &&& after.next_number(group, uuid_text(device)) > number
}

proof fn lemma_sealed_number(
    db: DbModel,
    identity: IdentityModel,
    device: Seq<u8>,
    me: Seq<char>,
    group: Seq<char>,
    epoch: i64,
    json: Seq<u8>,
    sealed: (Seq<u8>, i64),
)
    requires
        crate::messaging::group_content_sealed(
            db,
            identity,
            device,
            me,
            group,
            epoch,
            json,
            Ok(sealed),
        ),
    ensures
        sealed.1 == db.next_number(group, uuid_text(device)),
        0 <= sealed.1,
        crate::bytes::unsigned_bits(sealed.1 as int) == sealed.1,
        crate::bytes::signed_bits(crate::bytes::unsigned_bits(sealed.1 as int)) == sealed.1,
{
}

/// A text in a group uses up its number.
pub proof fn law_text_uses_up_its_number(
    before: DbModel,
    after: DbModel,
    identity: IdentityModel,
    device: Seq<u8>,
    conversation: Seq<char>,
    payload: PayloadModel,
    json: Seq<u8>,
    message: Seq<u8>,
    stand_in: Seq<u8>,
    now_ms: i64,
    r: Result<Sending, Error>,
)
    requires
        crate::messaging::text_sent(
            before,
            after,
            identity,
            device,
            conversation,
            payload,
            json,
            message,
            stand_in,
            now_ms,
            r,
        ),
        r is Ok,
        before.conversation(conversation) is Some,
        before.conversation(conversation)->0.kind != "dm"@,
    ensures
        number_is_used_up(before, after, device, conversation, r->Ok_0.envelope@.sequence),
{
    let me = before.username()->0;
    let body = payload->Text_body;
    let sealed = choose|sealed: Result<(Seq<u8>, i64), Error>|
        {
            &&& #[trigger] content_sealed(
                before,
                identity,
                device,
                me,
                conversation,
                json,
                sealed,
            )
            &&& sealed is Ok
            &&& after == crate::messaging::seal_counted(
                before,
                before.insert_message(
                    crate::envelope::staged_row(
                        device,
                        me,
                        conversation,
                        payload,
                        body,
                        sealed->Ok_0.0,
                        message,
                        sealed->Ok_0.1,
                        now_ms,
                    ),
                ),
                conversation,
                uuid_text(device),
                sealed->Ok_0.1,
            )
            &&& r->Ok_0.envelope@.sequence == crate::bytes::unsigned_bits(sealed->Ok_0.1 as int)
        };
    let s = sealed->Ok_0;
    lemma_sealed_number(
        before,
        identity,
        device,
        me,
        conversation,
        before.group(conversation)->0.current_epoch,
        json,
        s,
    );
    let row = crate::envelope::staged_row(
        device,
        me,
        conversation,
        payload,
        body,
        s.0,
        message,
        s.1,
        now_ms,
    );
    crate::database::laws::law_used_number_is_not_given_again(
        before.insert_message(row),
        conversation,
        uuid_text(device),
        false,
        s.1,
        conversation,
        uuid_text(device),
        false,
    );
}

/// An edit or a deletion in a group uses up its number.
pub proof fn law_revision_uses_up_its_number(
    before: DbModel,
    after: DbModel,
    identity: IdentityModel,
    device: Seq<u8>,
    message_id: Seq<char>,
    payload: PayloadModel,
    json: Seq<u8>,
    message: Seq<u8>,
    stand_in: Seq<u8>,
    now_ms: i64,
    r: Result<Sending, Error>,
)
    requires
        crate::messaging::own_edited(
            before,
            after,
            identity,
            device,
            message_id,
            payload,
            json,
            message,
            stand_in,
            now_ms,
            r,
        ) || crate::messaging::own_deleted(
            before,
            after,
            identity,
            device,
            message_id,
            payload,
            json,
            message,
            stand_in,
            now_ms,
            r,
        ),
        r is Ok,
        before.message(message_id) is Some,
        before.conversation(before.message(message_id)->0.conversation_id) is Some,
        before.conversation(before.message(message_id)->0.conversation_id)->0.kind != "dm"@,
    ensures
        number_is_used_up(
            before,
            after,
            device,
            before.message(message_id)->0.conversation_id,
            r->Ok_0.envelope@.sequence,
        ),
{
    let m = before.message(message_id)->0;
    let me = before.username()->0;
    let sealed = choose|sealed: Result<(Seq<u8>, i64), Error>|
        {
            &&& #[trigger] content_sealed(
                before,
                identity,
                device,
                me,
                m.conversation_id,
                json,
                sealed,
            )
            &&& sealed is Ok
            &&& r->Ok_0.envelope@.sequence == crate::bytes::unsigned_bits(sealed->Ok_0.1 as int)
        };
    let s = sealed->Ok_0;
    lemma_sealed_number(
        before,
        identity,
        device,
        me,
        m.conversation_id,
        before.group(m.conversation_id)->0.current_epoch,
        json,
        s,
    );
    let changed = if payload is Edit {
        before.edit_message(
            message_id,
            payload->Edit_body,
            r->Ok_0.envelope@.ciphertext,
            now_ms,
        )
    } else {
        before.tombstone_message(message_id, now_ms)
    };
    crate::database::laws::law_used_number_is_not_given_again(
        changed,
        m.conversation_id,
        uuid_text(device),
        false,
        s.1,
        m.conversation_id,
        uuid_text(device),
        false,
    );
}

/// The offer of a file in a group uses up its number.
pub proof fn law_file_offer_uses_up_its_number(
    before: DbModel,
    after: DbModel,
    identity: IdentityModel,
    device: Seq<u8>,
    conversation: Seq<char>,
    payload: PayloadModel,
    json: Seq<u8>,
    offer_json: Seq<char>,
    files_dir: Seq<char>,
    message: Seq<u8>,
    stand_in: Seq<u8>,
    now_ms: i64,
    r: Result<Sending, Error>,
)
    requires
        file_sent(
            before,
            after,
            identity,
            device,
            conversation,
            payload,
            json,
            offer_json,
            files_dir,
            message,
            stand_in,
            now_ms,
            r,
        ),
        r is Ok,
        before.conversation(conversation) is Some,
        before.conversation(conversation)->0.kind != "dm"@,
    ensures
        number_is_used_up(before, after, device, conversation, r->Ok_0.envelope@.sequence),
{
    let me = before.username()->0;
    let file = payload->FileOffer_file;
    let sealed = choose|sealed: Result<(Seq<u8>, i64), Error>|
        {
            &&& #[trigger] content_sealed(
                before,
                identity,
                device,
                me,
                conversation,
                json,
                sealed,
            )
            &&& sealed is Ok
            &&& after == crate::messaging::seal_counted(
                before,
                before.insert_message(
                    crate::envelope::staged_row(
                        device,
                        me,
                        conversation,
                        payload,
                        "File: "@ + file.filename,
                        sealed->Ok_0.0,
                        message,
                        sealed->Ok_0.1,
                        now_ms,
                    ),
                ),
                conversation,
                uuid_text(device),
                sealed->Ok_0.1,
            ).save_file(
                crate::messaging::sending_file(file, conversation, files_dir, now_ms),
            ).save_offer_json(file.file_id, offer_json)
            &&& r->Ok_0.envelope@.sequence == crate::bytes::unsigned_bits(sealed->Ok_0.1 as int)
        };
    let s = sealed->Ok_0;
    lemma_sealed_number(
        before,
        identity,
        device,
        me,
        conversation,
        before.group(conversation)->0.current_epoch,
        json,
        s,
    );
    let row = crate::envelope::staged_row(
        device,
        me,
        conversation,
        payload,
        "File: "@ + file.filename,
        s.0,
        message,
        s.1,
        now_ms,
    );
    let counted = before.insert_message(row).use_number(
        conversation,
        uuid_text(device),
        false,
        s.1,
    );
    crate::database::laws::law_used_number_is_not_given_again(
        before.insert_message(row),
        conversation,
        uuid_text(device),
        false,
        s.1,
        conversation,
        uuid_text(device),
        false,
    );
    assert(after.messages == counted.messages && after.numbers == counted.numbers);
    assert(after.next_number(conversation, uuid_text(device)) == counted.next_number(
        conversation,
        uuid_text(device),
    ));
}

/// Leaving a group uses up the number of what is said on leaving.
pub proof fn law_farewell_uses_up_its_number(
    before: DbModel,
    after: DbModel,
    identity: IdentityModel,
    device: Seq<u8>,
    group: Seq<char>,
    json: Seq<u8>,
    message: Seq<u8>,
    stand_in: Seq<u8>,
    now_ms: i64,
    r: Result<Sending, Error>,
)
    requires
        crate::messaging::group_left(
            before,
            after,
            identity,
            device,
            group,
            json,
            message,
            stand_in,
            now_ms,
            r,
        ),
        r is Ok,
    ensures
        number_is_used_up(before, after, device, group, r->Ok_0.envelope@.sequence),
{
    let me = before.username()->0;
    let epoch = before.group(group)->0.current_epoch;
    let left = before.delete_wrapped_keys_for(group, me).remove_conversation_member(group, me);
    let sealed = choose|sealed: Result<(Seq<u8>, i64), Error>|
        {
            &&& #[trigger] crate::messaging::group_content_sealed(
                before,
                identity,
                device,
                me,
                group,
                epoch,
                json,
                sealed,
            )
            &&& sealed is Ok
            &&& after == left.use_number(group, uuid_text(device), false, sealed->Ok_0.1)
            &&& r->Ok_0.envelope@.sequence == crate::bytes::unsigned_bits(sealed->Ok_0.1 as int)
        };
    lemma_sealed_number(before, identity, device, me, group, epoch, json, sealed->Ok_0);
    crate::database::laws::law_used_number_is_not_given_again(
        left,
        group,
        uuid_text(device),
        false,
        sealed->Ok_0.1,
        group,
        uuid_text(device),
        false,
    );
}

/// Renaming a group uses up the number that the new name is told under.
pub proof fn law_rename_uses_up_its_number(
    before: DbModel,
    after: DbModel,
    identity: IdentityModel,
    device: Seq<u8>,
    me: Seq<char>,
    group: Seq<char>,
    name: Seq<char>,
    now_ms: i64,
    draft: Result<crate::groups::GroupDraft, Error>,
)
    requires
        crate::groups::rename_done(
            before,
            after,
            identity,
            device,
            me,
            group,
            name,
            now_ms,
            draft,
        ),
        draft is Ok,
    ensures
        number_is_used_up(before, after, device, group, draft->Ok_0.sequence),
{
    let number = before.next_number(group, uuid_text(device));
    let renamed = crate::groups::group_renamed(
        before,
        group,
        trimmed(name),
        before.group(group)->0.current_epoch,
        now_ms,
    );
    crate::database::laws::law_used_number_is_not_given_again(
        renamed,
        group,
        uuid_text(device),
        false,
        number as i64,
        group,
        uuid_text(device),
        false,
    );
}

} // verus!
