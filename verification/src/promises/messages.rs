//! Texts: what is sent, what is kept of what came in, edits and deletions.

use vstd::prelude::*;
use vstd::utf8::*;

use crate::bytes::unsigned_bits;
use crate::crypto::{dm_opened, opens_for, x25519_public};
use crate::database::model::{conversation_is, message_is};
use crate::database::DbModel;
use crate::error::Error;
use crate::groups::{contact_key_of, lemma_members_listed_once, other_than, others};
use crate::identity::IdentityModel;
use crate::ids::uuid_text;
use crate::messaging::{
    content_sealed, own_deleted, own_edited, peers_are, revision_sealed, text_sent, Sending,
};
use crate::payload::PayloadModel;
use crate::promises::{belongs, cut_at_80, erased, is_new, only_messages_changed, revised, stored};
use crate::protocol::{EnvelopeModel, MessageType};
use crate::routing::{
    content_applied, in_group, inbound_row, opened_applied, OpenedModel, OutcomeModel, Stage,
};
use crate::table::lemma_first_row;
use crate::text::texts;

verus! {

/// A text that is new is stored whole, with its sender, place, time and number, under the
/// id of its envelope; nothing else that was stored changes. The user is told who wrote and
/// how the text begins.
pub proof fn law_text_is_kept_as_written(
    before: DbModel,
    after: DbModel,
    identity: IdentityModel,
    device: Seq<u8>,
    opened: OpenedModel,
    e: EnvelopeModel,
    body: Seq<char>,
    reply_to: Option<Seq<char>>,
    epoch: Option<i64>,
    offer_json: Seq<char>,
    endpoint: Seq<char>,
    fresh: Seq<char>,
    now_ms: i64,
    r: Result<OutcomeModel, Error>,
)
    requires
        opened.stage == Stage::Direct || opened.stage == Stage::Group,
        opened_applied(
            before,
            after,
            identity,
            device,
            opened,
            e,
            Some(PayloadModel::Text { from: opened.from, body, reply_to, epoch }),
            offer_json,
            endpoint,
            fresh,
            now_ms,
            r,
        ),
        e.sequence <= i64::MAX,
        stored(before, opened.conversation_id),
        is_new(
            before,
            uuid_text(e.message_id),
            opened.conversation_id,
            uuid_text(e.sender_device_id),
            e.sequence as i64,
        ),
    ensures
        after.messages.len() == before.messages.len() + 1,
        forall|i: int|
            0 <= i < before.messages.len() ==> #[trigger] after.messages[i] == before.messages[i],
        ({
            let m = after.messages.last();
            &&& m.id == uuid_text(e.message_id)
            &&& m.conversation_id == opened.conversation_id
            &&& m.sender_device_id == uuid_text(e.sender_device_id)
            &&& m.sender_username == opened.from
            &&& m.message_type == "Message"@
            &&& m.body == body
            &&& m.ciphertext == e.ciphertext
            &&& m.sequence == e.sequence
            &&& m.status == "delivered"@
            &&& m.reply_to == reply_to
            &&& m.created_at_ms == e.created_at_ms
            &&& m.edited_at_ms is None
            &&& m.deleted_at_ms is None
        }),
        only_messages_changed(before, after),
        after.conversations.len() == before.conversations.len(),
        forall|i: int|
            0 <= i < before.conversations.len() ==> {
                let old_row = before.conversations[i];
                let row = #[trigger] after.conversations[i];
                &&& row.id == old_row.id && row.kind == old_row.kind && row.name == old_row.name
                &&& old_row.id != opened.conversation_id ==> row == old_row
                &&& old_row.id == opened.conversation_id ==> row.last_message_id == Some(
                    uuid_text(e.message_id),
                ) && row.last_message_preview == Some(cut_at_80(body)) && row.updated_at_ms
                    == e.created_at_ms
            },
        r is Ok,
        r->Ok_0.changed,
        r->Ok_0.works.len() == 0,
        r->Ok_0.notify == Some(("@"@ + opened.from, cut_at_80(body))),
{
    let payload = PayloadModel::Text { from: opened.from, body, reply_to, epoch };
    let row = inbound_row(e, opened.conversation_id, opened.from, "Message"@, body, reply_to);
    let mid = choose|mid: DbModel| #[trigger]
        content_applied(
            before,
            mid,
            identity,
            device,
            opened.from,
            opened.conversation_id,
            e,
            payload,
            in_group(opened.stage),
            offer_json,
            now_ms,
            r,
        ) && after.messages == mid.messages && after.conversations == mid.conversations
            && only_messages_changed(mid, after);
    assert(before.has_conversation(opened.conversation_id)) by {
        let i: int = choose|i: int|
            0 <= i < before.conversations.len() && (#[trigger] before.conversations[i]).id
                == opened.conversation_id;
        assert(conversation_is(opened.conversation_id)(before.conversations[i]));
    }
    assert(!before.clashes(row));
    assert(cut_at_80(body) =~= crate::text::prefix(body, 80));
    assert(mid.messages == before.messages.push(row));
}

/// Whoever wrote a message can edit it: it then has the new text and the time of the edit,
/// and is otherwise as it was, as every other message is.
pub proof fn law_edit_changes_one_message(
    before: DbModel,
    after: DbModel,
    identity: IdentityModel,
    device: Seq<u8>,
    opened: OpenedModel,
    e: EnvelopeModel,
    ref_id: Seq<char>,
    body: Seq<char>,
    epoch: Option<i64>,
    offer_json: Seq<char>,
    endpoint: Seq<char>,
    fresh: Seq<char>,
    now_ms: i64,
    r: Result<OutcomeModel, Error>,
    at: int,
)
    requires
        opened.stage == Stage::Direct || opened.stage == Stage::Group,
        opened_applied(
            before,
            after,
            identity,
            device,
            opened,
            e,
            Some(PayloadModel::Edit { from: opened.from, ref_id, body, epoch }),
            offer_json,
            endpoint,
            fresh,
            now_ms,
            r,
        ),
        before.consistent(),
        0 <= at < before.messages.len(),
        before.messages[at].id == ref_id,
    ensures
        r is Ok,
        after.messages.len() == before.messages.len(),
        before.messages[at].sender_username == opened.from ==> r->Ok_0.changed && revised(
            before.messages[at],
            after.messages[at],
            body,
            e.ciphertext,
            now_ms,
        ),
        before.messages[at].sender_username != opened.from ==> !r->Ok_0.changed
            && after.messages[at] == before.messages[at],
        forall|i: int|
            0 <= i < before.messages.len() && i != at ==> #[trigger] after.messages[i]
                == before.messages[i],
        only_messages_changed(before, after),
        after.conversations == before.conversations,
{
    lemma_message_at(before, at);
    lemma_others_differ(before, at);
}

/// Whoever wrote a message can delete it: its text is gone, and it is otherwise as it was,
/// as every other message is.
pub proof fn law_delete_erases_one_message(
    before: DbModel,
    after: DbModel,
    identity: IdentityModel,
    device: Seq<u8>,
    opened: OpenedModel,
    e: EnvelopeModel,
    ref_id: Seq<char>,
    epoch: Option<i64>,
    offer_json: Seq<char>,
    endpoint: Seq<char>,
    fresh: Seq<char>,
    now_ms: i64,
    r: Result<OutcomeModel, Error>,
    at: int,
)
    requires
        opened.stage == Stage::Direct || opened.stage == Stage::Group,
        opened_applied(
            before,
            after,
            identity,
            device,
            opened,
            e,
            Some(PayloadModel::Delete { from: opened.from, ref_id, epoch }),
            offer_json,
            endpoint,
            fresh,
            now_ms,
            r,
        ),
        before.consistent(),
        0 <= at < before.messages.len(),
        before.messages[at].id == ref_id,
    ensures
        r is Ok,
        after.messages.len() == before.messages.len(),
        before.messages[at].sender_username == opened.from ==> r->Ok_0.changed && erased(
            before.messages[at],
            after.messages[at],
            now_ms,
        ),
        before.messages[at].sender_username != opened.from ==> !r->Ok_0.changed
            && after.messages[at] == before.messages[at],
        forall|i: int|
            0 <= i < before.messages.len() && i != at ==> #[trigger] after.messages[i]
                == before.messages[i],
        only_messages_changed(before, after),
        after.conversations == before.conversations,
{
    lemma_message_at(before, at);
    lemma_others_differ(before, at);
}

/// A message is found under its id.
pub(crate) proof fn lemma_message_at(db: DbModel, at: int)
    requires
        db.consistent(),
        0 <= at < db.messages.len(),
    ensures
        db.message(db.messages[at].id) == Some(db.messages[at]),
{
    let p = message_is(db.messages[at].id);
    lemma_first_row(db.messages, p);
    assert(p(db.messages[at]));
    let found = first_index(db, at);
    assert(db.messages[found] == db.message(db.messages[at].id)->0);
    lemma_others_differ(db, at);
}

spec fn first_index(db: DbModel, at: int) -> int {
    choose|i: int|
        0 <= i < db.messages.len() && db.messages[i] == db.message(db.messages[at].id)->0
}

/// No two messages have the same id.
pub(crate) proof fn lemma_others_differ(db: DbModel, at: int)
    requires
        db.consistent(),
        0 <= at < db.messages.len(),
    ensures
        forall|i: int|
            0 <= i < db.messages.len() && i != at ==> (#[trigger] db.messages[i]).id
                != db.messages[at].id,
{
    let key = crate::database::model::message_key();
    assert forall|i: int| 0 <= i < db.messages.len() && i != at implies (
    #[trigger] db.messages[i]).id != db.messages[at].id by {
        if i < at {
            assert(key(db.messages[i]) != key(db.messages[at]));
        } else {
            assert(key(db.messages[at]) != key(db.messages[i]));
        }
    }
}

/// `peers` are everyone who belongs to a conversation but one, each once.
pub open spec fn everyone_but(
    db: DbModel,
    conversation: Seq<char>,
    me: Seq<char>,
    peers: Seq<Seq<char>>,
) -> bool {
    &&& peers.no_duplicates()
    &&& forall|u: Seq<char>| #[trigger]
        peers.contains(u) <==> u != me && belongs(db, conversation, u)
}

/// What is sent to a conversation is for everyone in it but its sender, once.
pub(crate) proof fn lemma_peers(
    db: DbModel,
    conversation: Seq<char>,
    me: Seq<char>,
    peers: Seq<Seq<char>>,
)
    requires
        db.consistent(),
        peers_are(db, conversation, me, peers),
    ensures
        everyone_but(db, conversation, me, peers),
{
    let all = choose|all: Seq<Seq<char>>| #[trigger]
        db.members_listed(conversation, all) && peers == others(all, me);
    let keep = other_than(me);
    lemma_members_listed_once(db, conversation, all, me);
    lemma_no_duplicates_filtered(all, keep);
    assert forall|u: Seq<char>| #[trigger] peers.contains(u) <==> u != me && belongs(
        db,
        conversation,
        u,
    ) by {
        lemma_members_listed_once(db, conversation, all, u);
        lemma_belongs(db, conversation, u);
        if peers.contains(u) {
            let i: int = choose|i: int| 0 <= i < peers.len() && peers[i] == u;
            all.lemma_filter_pred(keep, i);
            lemma_filtered_from(all, keep, i);
        }
        if u != me && all.contains(u) {
            let i: int = choose|i: int| 0 <= i < all.len() && all[i] == u;
            all.lemma_filter_contains(keep, i);
        }
    }
}

/// Being a member, in other words.
pub(crate) proof fn lemma_belongs(db: DbModel, conversation: Seq<char>, user: Seq<char>)
    ensures
        belongs(db, conversation, user) <==> db.is_member(conversation, user),
{
    let p = crate::database::model::member_is(conversation, user);
    if belongs(db, conversation, user) {
        let i: int = choose|i: int|
            0 <= i < db.members.len() && (#[trigger] db.members[i]).conversation_id == conversation
                && db.members[i].username == user;
        assert(p(db.members[i]));
    }
}

pub(crate) proof fn lemma_filtered_from<V>(rows: Seq<V>, keep: spec_fn(V) -> bool, i: int)
    requires
        0 <= i < rows.filter(keep).len(),
    ensures
        rows.contains(rows.filter(keep)[i]),
        keep(rows.filter(keep)[i]),
    decreases rows.len(),
{
    reveal(Seq::filter);
    if rows.len() > 0 {
        let rest = rows.drop_last();
        if i < rest.filter(keep).len() {
            lemma_filtered_from(rest, keep, i);
            let k: int = choose|k: int| 0 <= k < rest.len() && rest[k] == rest.filter(keep)[i];
            assert(rows[k] == rest[k]);
        } else {
            assert(rows[rows.len() - 1] == rows.filter(keep)[i]);
        }
    }
}

pub(crate) proof fn lemma_no_duplicates_filtered<V>(rows: Seq<V>, keep: spec_fn(V) -> bool)
    requires
        rows.no_duplicates(),
    ensures
        rows.filter(keep).no_duplicates(),
    decreases rows.len(),
{
    reveal(Seq::filter);
    if rows.len() > 0 {
        let rest = rows.drop_last();
        lemma_no_duplicates_filtered(rest, keep);
        let kept = rest.filter(keep);
        assert forall|i: int| 0 <= i < kept.len() implies kept[i] != rows.last() by {
            lemma_filtered_from(rest, keep, i);
            let k: int = choose|k: int| 0 <= k < rest.len() && rest[k] == kept[i];
            assert(rows[k] != rows[rows.len() - 1]);
        }
    }
}

/// A text that was sent is stored whole, as this user's own, under a number that no message
/// of the device in the conversation had; it goes to everyone else in the conversation, and
/// the envelope carries what is stored.
pub proof fn law_text_is_sent_as_written(
    before: DbModel,
    after: DbModel,
    identity: IdentityModel,
    device: Seq<u8>,
    conversation: Seq<char>,
    me: Seq<char>,
    body: Seq<char>,
    reply_to: Option<Seq<char>>,
    epoch: Option<i64>,
    json: Seq<u8>,
    message: Seq<u8>,
    stand_in: Seq<u8>,
    now_ms: i64,
    r: Result<Sending, Error>,
)
    requires
        text_sent(
            before,
            after,
            identity,
            device,
            conversation,
            PayloadModel::Text { from: me, body, reply_to, epoch },
            json,
            message,
            stand_in,
            now_ms,
            r,
        ),
        r is Ok,
        before.consistent(),
        before.profile is Some,
        before.profile->0.username == me,
        !before.has_message(uuid_text(message)),
    ensures
        after.messages.len() == before.messages.len() + 1,
        forall|i: int|
            0 <= i < before.messages.len() ==> #[trigger] after.messages[i] == before.messages[i],
        forall|i: int|
            0 <= i < before.messages.len() && (#[trigger] before.messages[i]).conversation_id
                == conversation && before.messages[i].sender_device_id == uuid_text(device)
                ==> before.messages[i].sequence < after.messages.last().sequence,
        ({
            let m = after.messages.last();
            let e = r->Ok_0.envelope@;
            &&& r->Ok_0.message_id@ == m.id
            &&& m.id == uuid_text(message) && e.message_id == message
            &&& m.conversation_id == conversation
            &&& m.sender_device_id == uuid_text(device) && e.sender_device_id == device
            &&& m.sender_username == me
            &&& m.message_type == "Message"@ && e.message_type == MessageType::Message
            &&& m.body == body
            &&& m.ciphertext == e.ciphertext
            &&& m.sequence >= 0 ==> m.sequence == e.sequence
            &&& m.status == "local"@
            &&& m.reply_to == reply_to
            &&& m.created_at_ms == now_ms && e.created_at_ms == now_ms
            &&& m.edited_at_ms is None
            &&& m.deleted_at_ms is None
        }),
        only_messages_changed(before, after),
        everyone_but(before, conversation, me, texts(r->Ok_0.peers@)),
{
    let payload = PayloadModel::Text { from: me, body, reply_to, epoch };
    let sealed = choose|sealed: Result<(Seq<u8>, i64), Error>|
        {
            &&& #[trigger] content_sealed(
                before,
                identity,
                device,
                me,
                conversation,
                json,
                sealed,
            )
            &&& sealed is Ok
            &&& r->Ok_0.envelope@.ciphertext == sealed->Ok_0.0
            &&& r->Ok_0.envelope@.sequence == unsigned_bits(sealed->Ok_0.1 as int)
            &&& after.messages == before.insert_message(
                crate::envelope::staged_row(
                    device,
                    me,
                    conversation,
                    payload,
                    body,
                    sealed->Ok_0.0,
                    message,
                    sealed->Ok_0.1,
                    now_ms,
                ),
            ).messages
        };
    let row = crate::envelope::staged_row(
        device,
        me,
        conversation,
        payload,
        body,
        sealed->Ok_0.0,
        message,
        sealed->Ok_0.1,
        now_ms,
    );
    crate::database::laws::law_next_number_is_free(before, conversation, uuid_text(device), row);
    lemma_peers(before, conversation, me, texts(r->Ok_0.peers@));
    reveal_strlit("Message");
}

/// Only one's own messages can be edited. An edit gives the message its new text and is
/// otherwise invisible here; it goes to everyone else in the conversation, as an edit that
/// carries what is stored.
pub proof fn law_own_edit(
    before: DbModel,
    after: DbModel,
    identity: IdentityModel,
    device: Seq<u8>,
    at: int,
    me: Seq<char>,
    body: Seq<char>,
    epoch: Option<i64>,
    json: Seq<u8>,
    message: Seq<u8>,
    stand_in: Seq<u8>,
    now_ms: i64,
    r: Result<Sending, Error>,
)
    requires
        before.consistent(),
        0 <= at < before.messages.len(),
        before.profile is Some,
        before.profile->0.username == me,
        own_edited(
            before,
            after,
            identity,
            device,
            before.messages[at].id,
            PayloadModel::Edit { from: me, ref_id: before.messages[at].id, body, epoch },
            json,
            message,
            stand_in,
            now_ms,
            r,
        ),
    ensures
        before.messages[at].sender_username != me ==> r == Err::<Sending, Error>(
            Error::NotYourMessage,
        ),
        r is Err ==> after == before,
        r is Ok ==> {
            let e = r->Ok_0.envelope@;
            &&& after.messages.len() == before.messages.len()
            &&& revised(before.messages[at], after.messages[at], body, e.ciphertext, now_ms)
            &&& forall|i: int|
                0 <= i < before.messages.len() && i != at ==> #[trigger] after.messages[i]
                    == before.messages[i]
            &&& only_messages_changed(before, after)
            &&& after.conversations == before.conversations
            &&& r->Ok_0.message_id@ == before.messages[at].id
            &&& e.message_type == MessageType::MessageEdit
            &&& e.message_id == message
            &&& e.sender_device_id == device
            &&& e.created_at_ms == now_ms
            &&& everyone_but(
                before,
                before.messages[at].conversation_id,
                me,
                texts(r->Ok_0.peers@),
            )
        },
{
    lemma_message_at(before, at);
    lemma_others_differ(before, at);
    if r is Ok {
        lemma_peers(before, before.messages[at].conversation_id, me, texts(r->Ok_0.peers@));
    }
}

/// Only one's own messages can be deleted. The text is then gone here, and everyone else in
/// the conversation is sent the deletion.
pub proof fn law_own_delete(
    before: DbModel,
    after: DbModel,
    identity: IdentityModel,
    device: Seq<u8>,
    at: int,
    me: Seq<char>,
    epoch: Option<i64>,
    json: Seq<u8>,
    message: Seq<u8>,
    stand_in: Seq<u8>,
    now_ms: i64,
    r: Result<Sending, Error>,
)
    requires
        before.consistent(),
        0 <= at < before.messages.len(),
        before.profile is Some,
        before.profile->0.username == me,
        own_deleted(
            before,
            after,
            identity,
            device,
            before.messages[at].id,
            PayloadModel::Delete { from: me, ref_id: before.messages[at].id, epoch },
            json,
            message,
            stand_in,
            now_ms,
            r,
        ),
    ensures
        before.messages[at].sender_username != me ==> r == Err::<Sending, Error>(
            Error::NotYourMessage,
        ),
        r is Err ==> after == before,
        r is Ok ==> {
            let e = r->Ok_0.envelope@;
            &&& after.messages.len() == before.messages.len()
            &&& erased(before.messages[at], after.messages[at], now_ms)
            &&& forall|i: int|
                0 <= i < before.messages.len() && i != at ==> #[trigger] after.messages[i]
                    == before.messages[i]
            &&& only_messages_changed(before, after)
            &&& after.conversations == before.conversations
            &&& r->Ok_0.message_id@ == before.messages[at].id
            &&& e.message_type == MessageType::MessageDelete
            &&& e.message_id == message
            &&& e.sender_device_id == device
            &&& e.created_at_ms == now_ms
            &&& everyone_but(
                before,
                before.messages[at].conversation_id,
                me,
                texts(r->Ok_0.peers@),
            )
        },
{
    lemma_message_at(before, at);
    lemma_others_differ(before, at);
    if r is Ok {
        lemma_peers(before, before.messages[at].conversation_id, me, texts(r->Ok_0.peers@));
    }
}

/// What is sent of an edit or a deletion in a direct conversation is what the peer opens.
pub proof fn law_direct_revision_opens(
    db: DbModel,
    identity: IdentityModel,
    device: Seq<u8>,
    message_id: Seq<char>,
    payload: PayloadModel,
    json: Seq<u8>,
    message: Seq<u8>,
    stand_in: Seq<u8>,
    now_ms: i64,
    r: Result<Sending, Error>,
    peer_secret: Seq<u8>,
)
    requires
        revision_sealed(
            db,
            identity,
            device,
            message_id,
            payload,
            json,
            message,
            stand_in,
            now_ms,
            r,
        ),
        r is Ok,
        db.message(message_id) is Some,
        db.conversation(db.message(message_id)->0.conversation_id)->0.kind == "dm"@,
        peer_secret.len() == 32,
        contact_key_of(
            db.contact(db.dm_peer(db.message(message_id)->0.conversation_id))->0,
        ) == Some(x25519_public(peer_secret)),
    ensures
        dm_opened(
            peer_secret,
            x25519_public(identity.x_secret),
            encode_utf8(db.message(message_id)->0.conversation_id),
            r->Ok_0.envelope@.ciphertext,
        ) == Ok::<Seq<u8>, Error>(json),
{
    let m = db.message(message_id)->0;
    assert(opens_for(
        identity.x_secret,
        x25519_public(peer_secret),
        encode_utf8(m.conversation_id),
        json,
        r->Ok_0.envelope@.ciphertext,
    ));
}

/// What is sent of an edit or a deletion in a group is what whoever has the key of its epoch
/// opens, under the number on its envelope.
pub proof fn law_group_revision_opens(
    db: DbModel,
    identity: IdentityModel,
    device: Seq<u8>,
    message_id: Seq<char>,
    payload: PayloadModel,
    json: Seq<u8>,
    message: Seq<u8>,
    stand_in: Seq<u8>,
    now_ms: i64,
    r: Result<Sending, Error>,
)
    requires
        revision_sealed(
            db,
            identity,
            device,
            message_id,
            payload,
            json,
            message,
            stand_in,
            now_ms,
            r,
        ),
        r is Ok,
        db.profile is Some,
        db.message(message_id) is Some,
        db.conversation(db.message(message_id)->0.conversation_id) is Some,
        db.conversation(db.message(message_id)->0.conversation_id)->0.kind != "dm"@,
    ensures
        ({
            let group = db.message(message_id)->0.conversation_id;
            let key = crate::groups::epoch_key(
                db,
                identity.x_secret,
                group,
                db.group(group)->0.current_epoch,
                db.profile->0.username,
            );
            &&& db.group(group) is Some
            &&& key is Ok
            &&& crate::groups::share_opened(
                key->Ok_0,
                r->Ok_0.envelope@.sequence,
                r->Ok_0.envelope@.ciphertext,
            ) == Ok::<Seq<u8>, Error>(json)
            &&& r->Ok_0.envelope@.message_type == payload.message_type()
        }),
{
    let m = db.message(message_id)->0;
    let sealed = choose|sealed: Result<(Seq<u8>, i64), Error>|
        {
            &&& #[trigger] content_sealed(
                db,
                identity,
                device,
                db.profile->0.username,
                m.conversation_id,
                json,
                sealed,
            )
            &&& sealed is Ok
            &&& r->Ok_0.envelope@.ciphertext == sealed->Ok_0.0
            &&& r->Ok_0.envelope@.sequence == unsigned_bits(sealed->Ok_0.1 as int)
        };
}

/// What is shown of a payload: the beginning of its text, or what it does.
pub proof fn law_previews(payload: PayloadModel)
    ensures
        ({
            let shown = crate::sync::preview_of(payload);
            &&& payload is Text && payload->Text_body.len() <= 120 ==> shown == payload->Text_body
            &&& payload is Text && payload->Text_body.len() > 120 ==> shown
                == payload->Text_body.take(120)
            &&& payload is Edit && payload->Edit_body.len() <= 120 ==> shown == payload->Edit_body
            &&& payload is Edit && payload->Edit_body.len() > 120 ==> shown
                == payload->Edit_body.take(120)
            &&& payload is Delete ==> shown == "Message deleted"@
            &&& payload is FileOffer ==> shown == "File: "@ + payload->FileOffer_file.filename
            &&& payload is GroupMeta ==> shown == "Group renamed to "@ + payload->GroupMeta_name
            &&& !(payload is Text) && !(payload is Edit) && !(payload is Delete) && !(payload
                is FileOffer) && !(payload is GroupMeta) ==> shown.len() == 0
        }),
{
}

} // verus!
