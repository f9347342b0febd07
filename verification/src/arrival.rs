//! What is sent arrives: what holds across the stores of the sender and of whoever it was
//! sent to.

use vstd::prelude::*;
use vstd::utf8::*;

use crate::bytes::{law_hex_round_trip, signed_bits, unsigned_bits};
use crate::crypto::{dm_opened, group_key_context, opens_for, x25519_public};
use crate::database::laws::{law_stored_contact_is_found, law_stored_message_is_found};
use crate::database::model::{
    contact_is, contact_key, contact_with_status, conversation_is, conversation_renamed, group_is,
    group_key_is, group_resaved, joined, member_beyond, member_is, member_of, request_is,
};
use crate::database::DbModel;
use crate::envelope::{carried, conversation_uuid_of, envelope_checked, envelope_of, OutboundWork};
use crate::error::Error;
use crate::friends::{
    accepts_request, ask_contact, ask_draft, befriended, draft_sealed, has_open_request,
    law_accepted_is_friend, law_dm_is_found_again, newest_request, open_request, open_request_is,
    request_answered, request_staged, Draft, DraftModel,
};
use crate::groups::{
    contact_key_of, epoch_key, epoch_known, epoch_rotated, first_place, group_created, group_made,
    group_name_of, group_synced, law_wrapped_key_reaches_member, lemma_listed_is_member,
    lemma_members_listed_once, lemma_save_keys_frame, lemma_saved_key_found, rotation, with_me,
    RotationModel,
};
use crate::identity::{ed25519_public, IdentityModel};
use crate::ids::uuid_text;
use crate::messaging::{
    content_sealed, law_direct_content_arrives, law_group_content_arrives, text_sent, Sending,
};
use crate::payload::{PayloadModel, PresenceStatus};
use crate::presence::PresenceState;
use crate::promises::routing::law_heartbeat_is_shown;
use crate::promises::shell::law_friends_get_heartbeats;
use crate::protocol::{EnvelopeModel, MessageType};
use crate::records::{
    ContactModel, ConversationRowModel, FriendRequestModel, GroupKeyModel, GroupModel, MemberModel,
    MessageModel,
};
use crate::routing::{
    content_applied, content_routed, file_work_left, handshake_routed, in_group, inbound_routed,
    inbound_row, is_content, least_name, may_have_sent, opened_applied, presence_applied,
    presence_routed, sender_found, OpenedModel, OutcomeModel, RoutedModel, Stage,
};
use crate::shell::{gets_heartbeats, heartbeat, heartbeats_are};
use crate::table::{
    first_row, lemma_filter_rows, lemma_first_row, lemma_first_row_pushed, lemma_first_row_updated,
    lemma_first_row_without, some_row, views, without,
};

verus! {

// -- who is known -------------------------------------------------------------------------

/// A store knows someone by the keys of their device, and has not blocked them.
pub open spec fn knows(db: DbModel, name: Seq<char>, device: IdentityModel) -> bool {
    match db.contact(name) {
        Some(c) => {
            &&& c.status != "blocked"@
            &&& c.ed_pubkey == Some(ed25519_public(device.ed_secret))
            &&& ed25519_public(device.ed_secret).len() == 32
            &&& c.x25519_pubkey == Some(x25519_public(device.x_secret))
            &&& x25519_public(device.x_secret).len() == 32
        },
        None => false,
    }
}

/// Nobody else whom a store knows may have sent an envelope.
pub open spec fn only_from(db: DbModel, name: Seq<char>, e: EnvelopeModel) -> bool {
    forall|i: int|
        0 <= i < db.contacts.len() && may_have_sent((#[trigger] db.contacts[i]).contact, e)
            ==> db.contacts[i].contact.username == name
}

/// What a device signed is found to be from whoever has that device.
proof fn lemma_sender_is_found(
    db: DbModel,
    name: Seq<char>,
    device: IdentityModel,
    e: EnvelopeModel,
    endpoint: Seq<char>,
    found: Option<ContactModel>,
)
    requires
        db.consistent(),
        knows(db, name, device),
        only_from(db, name, e),
        envelope_checked(ed25519_public(device.ed_secret), e) is Ok,
        sender_found(db.contacts, e, endpoint, found),
    ensures
        found is Some,
        found == db.contact(name),
        found->0.username == name,
        contact_key_of(found->0) == Some(x25519_public(device.x_secret)),
{
    let p = contact_is(name);
    lemma_first_row(db.contacts, p);
    let row = first_row(db.contacts, p)->0;
    let k: int = choose|k: int| 0 <= k < db.contacts.len() && db.contacts[k] == row;
    assert(may_have_sent(db.contacts[k].contact, e));
    assert(found is Some);
    let i: int = choose|i: int|
        0 <= i < db.contacts.len() && (#[trigger] db.contacts[i]).contact == found->0;
    assert(may_have_sent(db.contacts[i].contact, e));
    assert(contact_key()(db.contacts[i]) == contact_key()(db.contacts[k]));
    assert(i == k) by {
        if i < k {
            assert(contact_key()(db.contacts[i]) != contact_key()(db.contacts[k]));
        } else if k < i {
            assert(contact_key()(db.contacts[k]) != contact_key()(db.contacts[i]));
        }
    }
}

/// A store has someone as a friend, with the key of their device.
pub open spec fn befriends(db: DbModel, name: Seq<char>, device: IdentityModel) -> bool {
    match db.contact(name) {
        Some(c) => c.status == "friend"@ && contact_key_of(c) == Some(
            x25519_public(device.x_secret),
        ),
        None => false,
    }
}

/// An envelope that came in: it was routed, its payload was read, and carried out.
pub struct ReceivedModel {
    pub identity: IdentityModel,
    pub device: Seq<u8>,
    pub before: DbModel,
    pub routed_db: DbModel,
    pub after: DbModel,
    pub envelope: EnvelopeModel,
    pub endpoint: Seq<char>,
    pub envelope_json: Seq<char>,
    pub payload: PayloadModel,
    pub offer_json: Seq<char>,
    pub fresh: Seq<char>,
    pub now_ms: i64,
    pub routed: Result<RoutedModel, Error>,
    pub outcome: Result<OutcomeModel, Error>,
}

impl ReceivedModel {
    pub open spec fn received(self) -> bool {
        &&& inbound_routed(
            self.before,
            self.identity.x_secret,
            self.envelope,
            self.endpoint,
            self.envelope_json,
            self.now_ms,
            self.routed_db,
            self.routed,
        )
        &&& opened_applied(
            self.routed_db,
            self.after,
            self.identity,
            self.device,
            self.routed->Ok_0->Open_0,
            self.envelope,
            Some(self.payload),
            self.offer_json,
            self.endpoint,
            self.fresh,
            self.now_ms,
            self.outcome,
        )
    }
}

// -- direct conversations --------------------------------------------------------------------

/// A store has the direct conversation with someone under this id.
pub open spec fn direct_with(db: DbModel, id: Seq<char>, peer: Seq<char>) -> bool {
    &&& db.dm_with(peer) == Some(id)
    &&& db.conversation(id) is Some
    &&& db.conversation(id)->0.kind == "dm"@
    &&& db.dm_peer(id) == peer
}

proof fn lemma_dm_made(db: DbModel, peer: Seq<char>, id: Seq<char>, now_ms: i64)
    requires
        db.dm_with(peer) is None,
        !db.has_conversation(id),
        !some_row(db.members, member_of(id)),
    ensures
        direct_with(db.ensure_dm(peer, id, now_ms), id, peer),
{
    let after = db.ensure_dm(peer, id, now_ms);
    let row = after.conversations.last();
    law_dm_is_found_again(db, peer, id, now_ms, id, now_ms);
    lemma_first_row(db.conversations, conversation_is(id));
    lemma_first_row_pushed(db.conversations, conversation_is(id), row);
    assert(after.conversations =~= db.conversations.push(row));
    assert(seq![peer].drop_last() =~= Seq::<Seq<char>>::empty());
    reveal_with_fuel(joined, 2);
    assert(!some_row(db.members, member_is(id, peer))) by {
        if some_row(db.members, member_is(id, peer)) {
            let k: int = choose|k: int|
                0 <= k < db.members.len() && member_is(id, peer)(#[trigger] db.members[k]);
            assert(member_of(id)(db.members[k]));
        }
    }
    let member = MemberModel { conversation_id: id, username: peer, added_at_ms: now_ms };
    assert(after.members =~= db.members.push(member));
    let here = db.members.filter(member_of(id));
    lemma_filter_rows(db.members, member_of(id), member_of(id));
    assert(here.len() == 0) by {
        if here.len() > 0 {
            db.members.lemma_filter_pred(member_of(id), 0);
            assert(some_row(here, member_of(id)));
            let both = |r: MemberModel| member_of(id)(r) && member_of(id)(r);
            let k: int = choose|k: int| 0 <= k < db.members.len() && both(#[trigger] db.members[k]);
            assert(member_of(id)(db.members[k]));
        }
    }
    reveal(Seq::filter);
    assert(after.members.drop_last() =~= db.members);
    assert(after.members.filter(member_of(id)) =~= seq![member]);
    reveal_with_fuel(least_name, 2);
    assert(seq![member].drop_last() =~= Seq::<MemberModel>::empty());
}

/// A friend ask arrives: whoever knows the asker, and has not decided on them yet, has an
/// open request of theirs after it came in, and their key.
pub proof fn law_friend_ask_arrives(
    db: DbModel,
    asker: IdentityModel,
    device: Seq<u8>,
    name: Seq<char>,
    display_name: Seq<char>,
    bundle: Seq<char>,
    peer: Seq<char>,
    json: Seq<u8>,
    sealed_ms: i64,
    work: OutboundWork,
    got: ReceivedModel,
)
    requires
        ask_draft(db, asker, name, display_name, bundle, peer) is Ok,
        draft_sealed(
            Ok(work),
            asker,
            device,
            ask_draft(db, asker, name, display_name, bundle, peer)->Ok_0,
            json,
            sealed_ms,
        ),
        got.received(),
        got.envelope == work.envelope@,
        got.payload == ask_draft(db, asker, name, display_name, bundle, peer)->Ok_0.payload,
        contact_key_of(db.contact(peer)->0) == Some(x25519_public(got.identity.x_secret)),
        got.identity.x_secret.len() == 32,
        got.before.consistent(),
        got.before.me() == peer,
        knows(got.before, name, asker),
        only_from(got.before, name, got.envelope),
        got.before.contact(name)->0.status != "friend"@,
        !some_row(got.before.requests, request_is(got.fresh)),
    ensures
        got.routed == Ok::<RoutedModel, Error>(
            RoutedModel::Open(
                OpenedModel {
                    stage: Stage::FriendAsk,
                    from: name,
                    conversation_id: uuid_text(got.envelope.conversation_id),
                    json,
                },
            ),
        ),
        got.outcome is Ok,
        has_open_request(got.after, "in"@, name),
        got.after.contact(name) is Some,
        contact_key_of(got.after.contact(name)->0) == Some(x25519_public(asker.x_secret)),
{
    let e = got.envelope;
    let draft = ask_draft(db, asker, name, display_name, bundle, peer)->Ok_0;
    let found = choose|found: Option<ContactModel>|
        {
            &&& #[trigger] sender_found(got.before.contacts, e, got.endpoint, found)
            &&& found is Some ==> got.routed_db == got.before && got.routed == handshake_routed(
                got.identity.x_secret,
                peer,
                found->0,
                e,
            )
        };
    lemma_sender_is_found(got.before, name, asker, e, got.endpoint, found);
    let context = encode_utf8(draft.context);
    assert(opens_for(
        asker.x_secret,
        x25519_public(got.identity.x_secret),
        context,
        json,
        e.ciphertext,
    ));
    assert(dm_opened(
        got.identity.x_secret,
        x25519_public(asker.x_secret),
        context,
        e.ciphertext,
    ) == Ok::<Seq<u8>, Error>(json));
    law_hex_round_trip(x25519_public(asker.x_secret));
    law_hex_round_trip(ed25519_public(asker.ed_secret));
    let contact = ask_contact(got.before, draft.payload)->Ok_0;
    assert(ask_contact(got.before, draft.payload) is Ok);
    let staged = request_staged(got.before, contact, "in"@, got.fresh, got.now_ms);
    law_stored_contact_is_found(got.before, contact, got.now_ms, name);
    assert(staged.contact(name) == Some(contact));
    let bundled = staged.bundle_noted(name, bundle, got.now_ms);
    law_stored_contact_is_found(
        staged,
        ContactModel { endpoint_bundle: Some(bundle), ..contact },
        got.now_ms,
        name,
    );
    law_stored_contact_is_found(
        bundled,
        ContactModel { endpoint_id: Some(got.endpoint), ..bundled.contact(name)->0 },
        got.now_ms,
        name,
    );
    assert(got.after.requests == staged.requests);
    let open = open_request("in"@, name);
    if has_open_request(got.before, "in"@, name) {
        let i: int = choose|i: int|
            0 <= i < got.before.requests.len() && open((#[trigger] got.before.requests[i]).request);
        assert(open(got.after.requests[i].request));
    } else {
        let n = got.before.requests.len() as int;
        assert(open(got.after.requests[n].request));
    }
}

/// A heartbeat arrives: a friend who knows its sender opens it, and shows them as they said.
pub proof fn law_heartbeat_arrives(
    db: DbModel,
    status: PresenceStatus,
    drafts: Seq<DraftModel>,
    index: int,
    sender: IdentityModel,
    device: Seq<u8>,
    json: Seq<u8>,
    sealed_ms: i64,
    work: OutboundWork,
    got: ReceivedModel,
    seen_before: PresenceState,
    seen_after: PresenceState,
)
    requires
        heartbeats_are(db, status, drafts),
        db.profile is Some,
        0 <= index < drafts.len(),
        draft_sealed(Ok(work), sender, device, drafts[index], json, sealed_ms),
        got.received(),
        got.envelope == work.envelope@,
        got.payload == drafts[index].payload,
        presence_applied(
            seen_before,
            seen_after,
            got.routed->Ok_0->Open_0,
            Some(drafts[index].payload),
        ),
        drafts[index].recipient == x25519_public(got.identity.x_secret),
        got.identity.x_secret.len() == 32,
        got.before.consistent(),
        got.before.me() == drafts[index].peer_username,
        got.before.me() != db.profile->0.username,
        knows(got.before, db.profile->0.username, sender),
        only_from(got.before, db.profile->0.username, got.envelope),
    ensures
        got.routed is Ok,
        got.routed->Ok_0 is Open,
        got.routed->Ok_0->Open_0.stage == Stage::Presence,
        got.routed->Ok_0->Open_0.from == db.profile->0.username,
        got.routed->Ok_0->Open_0.json == json,
        got.outcome is Ok,
        exists|now: u128|
            {
                let shown = #[trigger] seen_after.peer_status(db.profile->0.username, now);
                shown.fresh && shown.status == status
            },
{
    let e = got.envelope;
    let name = db.profile->0.username;
    let peer = got.before.me();
    law_friends_get_heartbeats(db, status, drafts, 0);
    let contacts = choose|contacts: Seq<ContactModel>| #[trigger]
        db.contacts_listed(contacts) && drafts == contacts.filter(gets_heartbeats()).map_values(
            heartbeat(name, status),
        );
    let chosen = contacts.filter(gets_heartbeats());
    assert(drafts[index] == heartbeat(name, status)(chosen[index]));
    let found = choose|found: Option<ContactModel>|
        {
            &&& #[trigger] sender_found(got.before.contacts, e, got.endpoint, found)
            &&& found is Some ==> got.routed_db == got.before && got.routed == presence_routed(
                got.identity.x_secret,
                peer,
                found->0,
                e,
            )
        };
    lemma_sender_is_found(got.before, name, sender, e, got.endpoint, found);
    let context = encode_utf8(drafts[index].context);
    assert(opens_for(
        sender.x_secret,
        x25519_public(got.identity.x_secret),
        context,
        json,
        e.ciphertext,
    ));
    assert(dm_opened(
        got.identity.x_secret,
        x25519_public(sender.x_secret),
        context,
        e.ciphertext,
    ) == Ok::<Seq<u8>, Error>(json));
    law_heartbeat_is_shown(
        seen_before,
        seen_after,
        got.routed->Ok_0->Open_0,
        name,
        status,
    );
}

/// A friend ask that was accepted: what the acceptor did, the envelope of the answer, and
/// what the asker made of it.
pub struct HandshakeModel {
    pub acceptor: IdentityModel,
    pub device: Seq<u8>,
    pub acceptor_name: Seq<char>,
    pub before: DbModel,
    pub after: DbModel,
    pub bundle: Seq<char>,
    pub request_id: Seq<char>,
    pub fresh: Seq<char>,
    pub now_ms: i64,
    pub accepted: Result<(String, Draft), Error>,
    pub json: Seq<u8>,
    pub sealed_ms: i64,
    pub work: OutboundWork,
    pub asker: ReceivedModel,
}

impl HandshakeModel {
    /// The draft of the answer.
    pub open spec fn answer(self) -> DraftModel {
        self.accepted->Ok_0.1@
    }

    /// The conversation that the acceptor has from it.
    pub open spec fn id(self) -> Seq<char> {
        self.accepted->Ok_0.0@
    }

    pub open spec fn asker_name(self) -> Seq<char> {
        self.answer().peer_username
    }

    /// The ask was accepted, the answer was sealed, and the asker received it.
    pub open spec fn carried_out(self) -> bool {
        &&& accepts_request(
            self.before,
            self.after,
            self.acceptor_name,
            self.bundle,
            self.request_id,
            self.fresh,
            self.now_ms,
            self.accepted,
        )
        &&& self.accepted is Ok
        &&& draft_sealed(
            Ok(self.work),
            self.acceptor,
            self.device,
            self.answer(),
            self.json,
            self.sealed_ms,
        )
        &&& self.asker.received()
        &&& self.asker.envelope == self.work.envelope@
        &&& self.asker.payload == self.answer().payload
    }

    /// Both know each other's device, and neither had a direct conversation with the other.
    pub open spec fn between_newcomers(self) -> bool {
        &&& self.before.consistent()
        &&& self.before.dm_with(self.asker_name()) is None
        &&& !self.before.has_conversation(self.fresh)
        &&& self.answer().recipient == x25519_public(self.asker.identity.x_secret)
        &&& self.asker.identity.x_secret.len() == 32
        &&& self.asker.before.consistent()
        &&& self.asker.before.me() == self.asker_name()
        &&& self.asker.before.dm_with(self.acceptor_name) is None
        &&& !self.asker.before.has_conversation(self.id())
        &&& knows(self.asker.before, self.acceptor_name, self.acceptor)
        &&& only_from(self.asker.before, self.acceptor_name, self.work.envelope@)
    }
}

proof fn lemma_answer_opens(h: HandshakeModel)
    requires
        h.carried_out(),
        h.between_newcomers(),
    ensures
        h.asker.routed_db == h.asker.before,
        h.asker.routed == Ok::<RoutedModel, Error>(
            RoutedModel::Open(
                OpenedModel {
                    stage: Stage::FriendAnswer,
                    from: h.acceptor_name,
                    conversation_id: h.id(),
                    json: h.json,
                },
            ),
        ),
        uuid_text(h.work.envelope@.conversation_id) == h.id(),
        h.id() == h.fresh,
        h.answer().payload == (PayloadModel::FriendAnswer {
            from: h.acceptor_name,
            accepted: true,
            endpoint_bundle: h.bundle,
        }),
{
    let e = h.work.envelope@;
    let asker = h.asker_name();
    let row = first_row(h.before.requests, open_request_is(h.request_id))->0;
    lemma_first_row(h.after.contacts, contact_is(row.request.peer_username));
    assert(asker == row.request.peer_username);
    let found = choose|found: Option<ContactModel>|
        {
            &&& #[trigger] sender_found(h.asker.before.contacts, e, h.asker.endpoint, found)
            &&& found is Some ==> h.asker.routed_db == h.asker.before && h.asker.routed
                == handshake_routed(h.asker.identity.x_secret, asker, found->0, e)
        };
    lemma_sender_is_found(
        h.asker.before,
        h.acceptor_name,
        h.acceptor,
        e,
        h.asker.endpoint,
        found,
    );
    let context = encode_utf8(h.answer().context);
    assert(opens_for(
        h.acceptor.x_secret,
        x25519_public(h.asker.identity.x_secret),
        context,
        h.json,
        e.ciphertext,
    ));
    assert(dm_opened(
        h.asker.identity.x_secret,
        x25519_public(h.acceptor.x_secret),
        context,
        e.ciphertext,
    ) == Ok::<Seq<u8>, Error>(h.json));
}

/// The asker of an ask that was accepted opens the answer, and then both have the direct
/// conversation with each other under the same id, as friends who have each other's key.
pub proof fn law_accepting_joins_two_stores(h: HandshakeModel)
    requires
        h.carried_out(),
        h.between_newcomers(),
    ensures
        h.asker.outcome is Ok,
        direct_with(h.after, h.id(), h.asker_name()),
        direct_with(h.asker.after, h.id(), h.acceptor_name),
        befriends(h.after, h.asker_name(), h.asker.identity),
        befriends(h.asker.after, h.acceptor_name, h.acceptor),
{
    let asker = h.asker_name();
    let row = first_row(h.before.requests, open_request_is(h.request_id))->0;
    let told = h.before.set_contact_status(
        row.request.peer_username,
        "friend"@,
    ).set_friend_request_status(row.request.id, "accepted"@, h.now_ms);
    lemma_first_row(h.after.contacts, contact_is(row.request.peer_username));
    assert(asker == row.request.peer_username);
    lemma_answer_opens(h);
    law_accepted_is_friend(
        h.before,
        h.after,
        h.acceptor_name,
        h.bundle,
        h.request_id,
        h.fresh,
        h.now_ms,
        h.accepted,
    );
    assert(told.members == h.before.members);
    assert(told.conversations == h.before.conversations);
    lemma_no_members(h.before, h.fresh);
    lemma_dm_made(told, asker, h.fresh, h.now_ms);
    lemma_answer_taken(h);
}

proof fn lemma_answer_taken(h: HandshakeModel)
    requires
        h.carried_out(),
        h.between_newcomers(),
    ensures
        h.asker.outcome is Ok,
        direct_with(h.asker.after, h.id(), h.acceptor_name),
        befriends(h.asker.after, h.acceptor_name, h.acceptor),
{
    let db = h.asker.before;
    let peer = h.acceptor_name;
    let now_ms = h.asker.now_ms;
    lemma_answer_opens(h);
    let request = choose|request: Option<FriendRequestModel>|
        {
            let answered = request_answered(db, request, true, now_ms);
            &&& #[trigger] newest_request(db.requests, open_request("out"@, peer), request)
            &&& h.asker.after == befriended(answered, peer, h.bundle, now_ms).ensure_dm(
                peer,
                db.shared_id(h.id(), h.asker.fresh),
                now_ms,
            ).endpoint_noted(peer, h.asker.endpoint, now_ms)
        };
    let answered = request_answered(db, request, true, now_ms);
    let friend = befriended(answered, peer, h.bundle, now_ms);
    assert(friend.members == db.members);
    assert(friend.conversations == db.conversations);
    lemma_no_members(db, h.id());
    lemma_dm_made(friend, peer, h.id(), now_ms);
    let made = friend.ensure_dm(peer, h.id(), now_ms);
    assert(h.asker.after.members == made.members);
    assert(h.asker.after.conversations == made.conversations);

    let status = answered.set_contact_status(peer, "friend"@);
    let contact = db.contact(peer)->0;
    let kept = ContactModel { status: "friend"@, ..contact };
    assert(answered.contacts == db.contacts);
    lemma_first_row(db.contacts, contact_is(peer));
    lemma_first_row_updated(db.contacts, contact_is(peer), contact_with_status("friend"@));
    assert(status.contact(peer) == Some(kept));
    law_stored_contact_is_found(
        status,
        ContactModel { endpoint_bundle: Some(h.bundle), ..kept },
        now_ms,
        peer,
    );
    assert(made.contacts == friend.contacts);
    let known = made.contact(peer)->0;
    law_stored_contact_is_found(
        made,
        ContactModel { endpoint_id: Some(h.asker.endpoint), ..known },
        now_ms,
        peer,
    );
}

/// A text that was sent.
pub struct SentModel {
    pub identity: IdentityModel,
    pub device: Seq<u8>,
    pub before: DbModel,
    pub after: DbModel,
    pub conversation: Seq<char>,
    pub payload: PayloadModel,
    pub json: Seq<u8>,
    pub message: Seq<u8>,
    pub stand_in: Seq<u8>,
    pub now_ms: i64,
    pub sending: Result<Sending, Error>,
}

impl SentModel {
    pub open spec fn sent(self) -> bool {
        &&& text_sent(
            self.before,
            self.after,
            self.identity,
            self.device,
            self.conversation,
            self.payload,
            self.json,
            self.message,
            self.stand_in,
            self.now_ms,
            self.sending,
        )
        &&& self.sending is Ok
    }

    /// The text came in where it was sent to, from the device that it was sent from.
    pub open spec fn reaches(self, got: ReceivedModel) -> bool {
        let from = self.before.me();
        &&& self.sent()
        &&& self.payload.sender() == from
        &&& got.received()
        &&& got.envelope == self.sending->Ok_0.envelope@
        &&& got.payload == self.payload
        &&& got.before.consistent()
        &&& got.before.me() != from
        &&& got.identity.x_secret.len() == 32
        &&& knows(got.before, from, self.identity)
        &&& only_from(got.before, from, got.envelope)
    }

    /// The row under which a text is kept where it arrived.
    pub open spec fn arrived_row(self) -> MessageModel {
        inbound_row(
            self.sending->Ok_0.envelope@,
            self.conversation,
            self.before.me(),
            "Message"@,
            self.payload->Text_body,
            self.payload->Text_reply_to,
        )
    }

    /// The text was opened, and is stored unless it was there already.
    pub open spec fn arrived(self, got: ReceivedModel, stage: Stage) -> bool {
        let row = self.arrived_row();
        &&& got.routed == Ok::<RoutedModel, Error>(
            RoutedModel::Open(
                OpenedModel {
                    stage,
                    from: self.before.me(),
                    conversation_id: self.conversation,
                    json: self.json,
                },
            ),
        )
        &&& got.outcome is Ok
        &&& !got.before.clashes(row) ==> got.after.message(row.id) == Some(row)
    }
}

/// What was opened as it was sent is stored.
proof fn lemma_text_stored(t: SentModel, got: ReceivedModel, stage: Stage)
    requires
        t.reaches(got),
        is_content(stage),
        got.routed_db.messages == got.before.messages,
        got.routed_db.has_conversation(t.conversation),
        got.routed == Ok::<RoutedModel, Error>(
            RoutedModel::Open(
                OpenedModel {
                    stage,
                    from: t.before.me(),
                    conversation_id: t.conversation,
                    json: t.json,
                },
            ),
        ),
    ensures
        t.arrived(got, stage),
{
    let row = t.arrived_row();
    let opened = got.routed->Ok_0->Open_0;
    let mid = choose|mid: DbModel|
        {
            &&& #[trigger] content_applied(
                got.routed_db,
                mid,
                got.identity,
                got.device,
                opened.from,
                opened.conversation_id,
                got.envelope,
                got.payload,
                in_group(opened.stage),
                got.offer_json,
                got.now_ms,
                got.outcome,
            )
            &&& got.after == if got.outcome is Ok && !file_work_left(got.outcome->Ok_0) {
                mid.update_sync_cursor(
                    opened.from,
                    opened.conversation_id,
                    signed_bits(got.envelope.sequence),
                    got.now_ms,
                )
            } else {
                mid
            }
        };
    assert(t.payload is Text);
    if !got.before.clashes(row) {
        law_stored_message_is_found(got.routed_db, row);
    }
}

proof fn lemma_content_is_routed(t: SentModel, got: ReceivedModel)
    requires
        t.reaches(got),
    ensures
        got.routed_db == got.before.endpoint_noted(t.before.me(), got.endpoint, got.now_ms),
        got.routed == content_routed(
            got.routed_db,
            got.identity.x_secret,
            got.before.me(),
            t.before.me(),
            x25519_public(t.identity.x_secret),
            got.envelope,
        ),
{
    let e = got.envelope;
    let from = t.before.me();
    let sealed = choose|sealed: Result<(Seq<u8>, i64), Error>| #[trigger]
        content_sealed(
            t.before,
            t.identity,
            t.device,
            from,
            t.conversation,
            t.json,
            sealed,
        ) && sealed is Ok;
    assert(e.message_type == MessageType::Message);
    assert(envelope_checked(ed25519_public(t.identity.ed_secret), e) is Ok);
    let found = choose|found: Option<ContactModel>|
        {
            &&& #[trigger] sender_found(got.before.contacts, e, got.endpoint, found)
            &&& found is Some && found->0.username == from && contact_key_of(found->0) is Some
                ==> {
                &&& got.routed_db == got.before.endpoint_noted(from, got.endpoint, got.now_ms)
                &&& got.routed == content_routed(
                    got.routed_db,
                    got.identity.x_secret,
                    got.before.me(),
                    from,
                    contact_key_of(found->0)->0,
                    e,
                )
            }
        };
    lemma_sender_is_found(got.before, from, t.identity, e, got.endpoint, found);
}

/// What friends who have a direct conversation under the same id write each other arrives:
/// the other one opens it and has it stored.
pub proof fn law_direct_text_arrives(t: SentModel, got: ReceivedModel)
    requires
        t.reaches(got),
        carried(t.conversation),
        direct_with(t.before, t.conversation, got.before.me()),
        befriends(t.before, got.before.me(), got.identity),
        direct_with(got.before, t.conversation, t.before.me()),
    ensures
        t.arrived(got, Stage::Direct),
{
    let from = t.before.me();
    let sealed = choose|sealed: Result<(Seq<u8>, i64), Error>|
        {
            &&& #[trigger] content_sealed(
                t.before,
                t.identity,
                t.device,
                from,
                t.conversation,
                t.json,
                sealed,
            )
            &&& sealed is Ok && t.sending->Ok_0.envelope@ == envelope_of(
                t.identity,
                t.device,
                conversation_uuid_of(t.conversation, t.stand_in),
                t.message,
                t.payload.message_type(),
                unsigned_bits(sealed->Ok_0.1 as int),
                sealed->Ok_0.0,
                t.now_ms,
            )
        };
    lemma_content_is_routed(t, got);
    assert(got.routed_db.members == got.before.members);
    assert(got.routed_db.conversations == got.before.conversations);
    law_direct_content_arrives(
        t.before,
        t.identity,
        t.device,
        from,
        t.conversation,
        t.json,
        sealed->Ok_0,
        got.routed_db,
        got.identity.x_secret,
        got.before.me(),
        got.envelope,
    );
    lemma_first_row(got.before.conversations, conversation_is(t.conversation));
    lemma_text_stored(t, got, Stage::Direct);
}

/// New friends write each other: after an ask was accepted and the answer came in, what
/// either sends the other in their direct conversation arrives.
pub proof fn law_new_friends_write_each_other(
    h: HandshakeModel,
    there: SentModel,
    got_there: ReceivedModel,
    back: SentModel,
    got_back: ReceivedModel,
)
    requires
        h.carried_out(),
        h.between_newcomers(),
        h.acceptor.x_secret.len() == 32,
        h.after.me() == h.acceptor_name,
        there.reaches(got_there),
        there.before == h.after,
        there.identity == h.acceptor,
        there.conversation == h.id(),
        got_there.before == h.asker.after,
        got_there.identity == h.asker.identity,
        back.reaches(got_back),
        back.before == h.asker.after,
        back.identity == h.asker.identity,
        back.conversation == h.id(),
        got_back.before == h.after,
        got_back.identity == h.acceptor,
    ensures
        there.arrived(got_there, Stage::Direct),
        back.arrived(got_back, Stage::Direct),
{
    law_accepting_joins_two_stores(h);
    lemma_answer_opens(h);
    assert(h.asker.after.me() == h.asker_name()) by {
        assert(h.asker.after.profile == h.asker.before.profile);
    }
    assert(carried(h.id()));
    law_direct_text_arrives(there, got_there);
    law_direct_text_arrives(back, got_back);
}

/// A conversation that is not there has no members.
proof fn lemma_no_members(db: DbModel, id: Seq<char>)
    requires
        db.consistent(),
        !db.has_conversation(id),
    ensures
        !some_row(db.members, member_of(id)),
{
    if some_row(db.members, member_of(id)) {
        let k: int = choose|k: int| 0 <= k < db.members.len() && member_of(id)(#[trigger] db.members[k]);
        assert(db.has_conversation(db.members[k].conversation_id));
    }
}

// -- groups ----------------------------------------------------------------------------------

/// A store is in an epoch of a group: it has the epoch's key, and these people as members.
pub open spec fn in_epoch(
    db: DbModel,
    secret: Seq<u8>,
    me: Seq<char>,
    group: Seq<char>,
    epoch: i64,
    key: Seq<u8>,
    members: Seq<Seq<char>>,
) -> bool {
    &&& group_shell(db, group, epoch, members)
    &&& epoch_key(db, secret, group, epoch, me) == Ok::<Seq<u8>, Error>(key)
}

/// A store has a group in this epoch, with these members.
pub open spec fn group_shell(
    db: DbModel,
    group: Seq<char>,
    epoch: i64,
    members: Seq<Seq<char>>,
) -> bool {
    &&& db.conversation(group) is Some
    &&& db.conversation(group)->0.kind != "dm"@
    &&& db.group(group) is Some
    &&& db.group(group)->0.current_epoch == epoch
    &&& forall|i: int| 0 <= i < members.len() ==> db.is_member(group, #[trigger] members[i])
}

/// Whoever is listed has joined, and whoever was there is still there.
pub(crate) proof fn lemma_joined_members(
    members: Seq<MemberModel>,
    id: Seq<char>,
    names: Seq<Seq<char>>,
    now_ms: i64,
    user: Seq<char>,
)
    ensures
        some_row(members, member_is(id, user)) || names.contains(user) ==> some_row(
            joined(members, id, names, now_ms),
            member_is(id, user),
        ),
    decreases names.len(),
{
    if names.len() > 0 {
        let p = member_is(id, user);
        let before = joined(members, id, names.drop_last(), now_ms);
        let after = joined(members, id, names, now_ms);
        lemma_joined_members(members, id, names.drop_last(), now_ms, user);
        if names.contains(user) && names.last() != user {
            let k: int = choose|k: int| 0 <= k < names.len() && names[k] == user;
            assert(names.drop_last()[k] == user);
        }
        if some_row(before, p) {
            let k: int = choose|k: int| 0 <= k < before.len() && p(#[trigger] before[k]);
            assert(p(after[k]));
        } else if names.last() == user {
            assert(p(after[before.len() as int]));
        }
    }
}

/// A group that a rotation told of is there as it was told, unless a direct conversation
/// has its id.
proof fn lemma_group_synced(
    db: DbModel,
    group: Seq<char>,
    name: Seq<char>,
    members: Seq<Seq<char>>,
    epoch: i64,
    now_ms: i64,
)
    requires
        db.conversation(group) is Some ==> db.conversation(group)->0.kind != "dm"@,
    ensures
        group_shell(group_synced(db, group, name, members, epoch, now_ms), group, epoch, members),
{
    let made = db.create_conversation(group, "group"@, name, members, now_ms);
    let set = made.set_conversation_members(group, members, now_ms);
    let after = group_synced(db, group, name, members, epoch, now_ms);
    lemma_conversation_made(db, group, name, members, now_ms);
    lemma_group_resaved(set, group, name, epoch, now_ms);
    assert(after.conversations == made.conversations);
    assert(after.members == set.members);
    assert forall|i: int| 0 <= i < members.len() implies after.is_member(
        group,
        #[trigger] members[i],
    ) by {
        let user = members[i];
        let p = member_is(group, user);
        let all = joined(made.members, group, members, now_ms);
        assert(members.contains(user));
        lemma_joined_members(made.members, group, members, now_ms, user);
        lemma_first_row(all, p);
        lemma_first_row_without(all, member_beyond(group, members), p);
        lemma_first_row(set.members, p);
    }
}

proof fn lemma_conversation_made(
    db: DbModel,
    group: Seq<char>,
    name: Seq<char>,
    members: Seq<Seq<char>>,
    now_ms: i64,
)
    requires
        db.conversation(group) is Some ==> db.conversation(group)->0.kind != "dm"@,
    ensures
        ({
            let made = db.create_conversation(group, "group"@, name, members, now_ms);
            made.conversation(group) is Some && made.conversation(group)->0.kind != "dm"@
        }),
{
    let p = conversation_is(group);
    let row = ConversationRowModel {
        id: group,
        kind: "group"@,
        name,
        created_at_ms: now_ms,
        updated_at_ms: now_ms,
        last_message_id: None,
        last_message_preview: None,
    };
    lemma_first_row(db.conversations, p);
    lemma_first_row_updated(db.conversations, p, conversation_renamed(name, now_ms));
    lemma_first_row_pushed(db.conversations, p, row);
    reveal_strlit("dm");
    reveal_strlit("group");
    assert("dm"@.len() != "group"@.len());
}

proof fn lemma_group_resaved(
    db: DbModel,
    group: Seq<char>,
    name: Seq<char>,
    epoch: i64,
    now_ms: i64,
)
    ensures
        db.save_group(group, name, epoch, now_ms).group(group) is Some,
        db.save_group(group, name, epoch, now_ms).group(group)->0.current_epoch == epoch,
{
    let p = group_is(group);
    let row = GroupModel {
        group_id: group,
        name,
        current_epoch: epoch,
        created_at_ms: now_ms,
        updated_at_ms: now_ms,
    };
    lemma_first_row(db.groups, p);
    lemma_first_row_updated(db.groups, p, group_resaved(name, epoch, now_ms));
    lemma_first_row_pushed(db.groups, p, row);
}

/// Each draft of a rotation is the one for some other member.
pub(crate) proof fn lemma_draft_is_for_member(
    r: RotationModel,
    db: DbModel,
    rows: Seq<GroupKeyModel>,
    index: int,
) -> (k: int)
    requires
        rows.len() <= r.members.len(),
        0 <= index < r.key_drafts(db, rows).len(),
    ensures
        0 <= k < rows.len(),
        r.members[k] != r.me,
        r.key_drafts(db, rows)[index] == r.key_draft(db, rows[k].wrapped_key, k),
    decreases rows.len(),
{
    let rest = rows.drop_last();
    let before = r.key_drafts(db, rest);
    if index < before.len() {
        let k: int = lemma_draft_is_for_member(r, db, rest, index);
        assert(rest[k] == rows[k]);
        k
    } else {
        rows.len() - 1
    }
}

/// A rotation's key that was sent to a member.
pub struct KeySentModel {
    pub rotation: RotationModel,
    pub device: Seq<u8>,
    pub before: DbModel,
    pub after: DbModel,
    pub drafts: Seq<DraftModel>,
    pub index: int,
    pub json: Seq<u8>,
    pub sealed_ms: i64,
    pub work: OutboundWork,
}

impl KeySentModel {
    pub open spec fn draft(self) -> DraftModel {
        self.drafts[self.index]
    }

    /// The key was handed out, and one of the drafts was sealed.
    pub open spec fn sent(self) -> bool {
        &&& self.rotation.distributed(self.before, self.after, Ok(self.drafts))
        &&& 0 <= self.index < self.drafts.len()
        &&& draft_sealed(
            Ok(self.work),
            self.rotation.identity,
            self.device,
            self.draft(),
            self.json,
            self.sealed_ms,
        )
        &&& self.rotation.group_key.len() == 32
    }

    /// The draft came in where it was sent to. Both know each other's device, and the
    /// recipient was in an earlier epoch of the group, as who rotated it was, or was not in
    /// the group yet.
    pub open spec fn reaches(self, got: ReceivedModel) -> bool {
        let r = self.rotation;
        &&& self.sent()
        &&& got.received()
        &&& got.envelope == self.work.envelope@
        &&& got.payload == self.draft().payload
        &&& got.identity.x_secret.len() == 32
        &&& self.draft().recipient == x25519_public(got.identity.x_secret)
        &&& got.before.consistent()
        &&& got.before.me() == self.draft().peer_username
        &&& knows(got.before, r.me, r.identity)
        &&& only_from(got.before, r.me, got.envelope)
        &&& epoch_known(got.before, r.group_id) < r.epoch
        &&& got.before.conversation(r.group_id) is Some ==> {
            &&& got.before.conversation(r.group_id)->0.kind != "dm"@
            &&& got.before.is_member(r.group_id, r.me)
        }
    }
}

proof fn lemma_key_is_routed(s: KeySentModel, got: ReceivedModel)
    requires
        s.reaches(got),
        carried(s.rotation.group_id),
    ensures
        got.routed_db == got.before.endpoint_noted(s.rotation.me, got.endpoint, got.now_ms),
        got.routed == Ok::<RoutedModel, Error>(
            RoutedModel::Open(
                OpenedModel {
                    stage: Stage::GroupKey,
                    from: s.rotation.me,
                    conversation_id: s.rotation.group_id,
                    json: s.json,
                },
            ),
        ),
{
    let r = s.rotation;
    let e = got.envelope;
    let rows = choose|rows: Seq<GroupKeyModel>|
        {
            &&& #[trigger] r.wrapped_first(s.before, rows)
            &&& rows.len() == r.members.len()
            &&& s.drafts == r.key_drafts(s.before, rows)
        };
    let k: int = lemma_draft_is_for_member(r, s.before, rows, s.index);
    assert(e.message_type == MessageType::GroupCommit);
    let found = choose|found: Option<ContactModel>|
        {
            &&& #[trigger] sender_found(got.before.contacts, e, got.endpoint, found)
            &&& found is Some && found->0.username == r.me && contact_key_of(found->0) is Some
                ==> {
                &&& got.routed_db == got.before.endpoint_noted(r.me, got.endpoint, got.now_ms)
                &&& got.routed == content_routed(
                    got.routed_db,
                    got.identity.x_secret,
                    got.before.me(),
                    r.me,
                    contact_key_of(found->0)->0,
                    e,
                )
            }
        };
    lemma_sender_is_found(got.before, r.me, r.identity, e, got.endpoint, found);
    let context = encode_utf8(r.group_id);
    assert(opens_for(
        r.identity.x_secret,
        x25519_public(got.identity.x_secret),
        context,
        s.json,
        e.ciphertext,
    ));
    assert(dm_opened(
        got.identity.x_secret,
        x25519_public(r.identity.x_secret),
        context,
        e.ciphertext,
    ) == Ok::<Seq<u8>, Error>(s.json));
    assert(got.routed_db.conversations == got.before.conversations);
    assert(got.routed_db.members == got.before.members);
}

/// The key of a rotation reaches each member that it was sent to, whether they were in the
/// group already or are taken into it: having received it they are in the epoch, with the
/// key that was handed out.
pub proof fn law_group_key_arrives(s: KeySentModel, got: ReceivedModel)
    requires
        s.reaches(got),
        carried(s.rotation.group_id),
    ensures
        got.outcome is Ok,
        epoch_key(
            got.after,
            got.identity.x_secret,
            s.rotation.group_id,
            s.rotation.epoch,
            got.before.me(),
        ) == Ok::<Seq<u8>, Error>(s.rotation.group_key),
        in_epoch(
            got.after,
            got.identity.x_secret,
            got.before.me(),
            s.rotation.group_id,
            s.rotation.epoch,
            s.rotation.group_key,
            s.rotation.members,
        ),
        got.after.me() == got.before.me(),
{
    let r = s.rotation;
    let me = got.before.me();
    let rows = choose|rows: Seq<GroupKeyModel>|
        {
            &&& #[trigger] r.wrapped_first(s.before, rows)
            &&& rows.len() == r.members.len()
            &&& s.drafts == r.key_drafts(s.before, rows)
        };
    let k: int = lemma_draft_is_for_member(r, s.before, rows, s.index);
    assert(r.wraps(s.before, rows[k], k));
    assert(r.members.contains(me));
    lemma_key_is_routed(s, got);
    let mid = got.routed_db;
    assert(mid.conversations == got.before.conversations);
    assert(mid.groups == got.before.groups);
    assert(mid.profile == got.before.profile);
    lemma_first_row(mid.conversations, conversation_is(r.group_id));
    let synced = group_synced(mid, r.group_id, r.group_name, r.members, r.epoch, got.now_ms);
    law_wrapped_key_reaches_member(
        r.identity.x_secret,
        got.identity.x_secret,
        r.group_key,
        rows[k].wrapped_key,
        synced,
        r.group_id,
        r.epoch,
        me,
        Some(first_place(r.members, me) as u64),
    );
    lemma_group_synced(mid, r.group_id, r.group_name, r.members, r.epoch, got.now_ms);
    assert(got.after.conversations == synced.conversations);
    assert(got.after.groups == synced.groups);
    assert(got.after.members == synced.members);
    assert(got.after.profile == mid.profile);
    assert forall|i: int| 0 <= i < r.members.len() implies got.after.is_member(
        r.group_id,
        #[trigger] r.members[i],
    ) by {
        assert(synced.is_member(r.group_id, r.members[i]));
    }
}

/// The key that is found for a member after a rotation is one that was wrapped for them.
proof fn lemma_wrap_is_found(
    r: RotationModel,
    db: DbModel,
    rows: Seq<GroupKeyModel>,
    index: int,
) -> (k: int)
    requires
        0 <= index < rows.len(),
        r.wrapped_first(db, rows),
    ensures
        0 <= k < rows.len(),
        r.members[k] == r.members[index],
        db.save_keys(rows).group_key(r.group_id, r.epoch, r.members[index]) == Some(rows[k]),
    decreases rows.len(),
{
    let n = rows.len() - 1;
    let name = r.members[index];
    let rest = rows.drop_last();
    let last = rows[n];
    let before = db.save_keys(rest);
    assert(r.wraps(db, last, n));
    if r.members[n] == name {
        lemma_saved_key_found(before, last);
        n
    } else {
        assert forall|i: int| 0 <= i < rest.len() implies r.wraps(db, #[trigger] rest[i], i) by {
            assert(rest[i] == rows[i]);
        }
        let k: int = lemma_wrap_is_found(r, db, rest, index);
        assert(rest[k] == rows[k]);
        let p = group_key_is(r.group_id, r.epoch, name);
        let gone = group_key_is(last.group_id, last.epoch, last.wrapped_for);
        lemma_first_row_without(before.group_keys, gone, p);
        lemma_first_row_pushed(without(before.group_keys, gone), p, last);
        k
    }
}

/// Whoever hands out the key of an epoch is in it.
proof fn lemma_rotator_is_in_epoch(
    r: RotationModel,
    db: DbModel,
    after: DbModel,
    drafts: Seq<DraftModel>,
)
    requires
        r.distributed(db, after, Ok(drafts)),
        r.members.contains(r.me),
        r.group_key.len() == 32,
        r.identity.x_secret.len() == 32,
        r.my_key().len() == 32,
        group_shell(db, r.group_id, r.epoch, r.members),
    ensures
        in_epoch(
            after,
            r.identity.x_secret,
            r.me,
            r.group_id,
            r.epoch,
            r.group_key,
            r.members,
        ),
{
    let rows = choose|rows: Seq<GroupKeyModel>|
        {
            &&& #[trigger] r.wrapped_first(db, rows)
            &&& rows.len() == r.members.len()
            &&& after == db.save_keys(rows)
        };
    let index: int = choose|index: int| 0 <= index < r.members.len() && r.members[index] == r.me;
    let k: int = lemma_wrap_is_found(r, db, rows, index);
    assert(r.wraps(db, rows[k], k));
    lemma_save_keys_frame(db, rows);
    assert(after.conversations == db.conversations);
    assert(after.groups == db.groups);
    assert(after.members == db.members);
    assert(opens_for(
        r.identity.x_secret,
        r.my_key(),
        group_key_context(),
        r.group_key,
        rows[k].wrapped_key,
    ));
    assert(dm_opened(
        r.identity.x_secret,
        x25519_public(r.identity.x_secret),
        group_key_context(),
        rows[k].wrapped_key,
    ) == Ok::<Seq<u8>, Error>(r.group_key));
    assert forall|i: int| 0 <= i < r.members.len() implies after.is_member(
        r.group_id,
        #[trigger] r.members[i],
    ) by {
        assert(db.is_member(r.group_id, r.members[i]));
    }
}

/// Whoever makes a group is in its first epoch, and the group has an id that envelopes
/// carry.
pub proof fn law_creator_is_in_epoch(
    before: DbModel,
    after: DbModel,
    identity: IdentityModel,
    me: Seq<char>,
    name: Seq<char>,
    members: Seq<Seq<char>>,
    id: Seq<char>,
    key: Seq<u8>,
    now_ms: i64,
    made: Result<(String, Vec<Draft>), Error>,
)
    requires
        group_created(before, after, identity, me, name, members, id, key, now_ms, made),
        made is Ok,
        !before.has_conversation(id),
        key.len() == 32,
        identity.x_secret.len() == 32,
        x25519_public(identity.x_secret).len() == 32,
    ensures
        made->Ok_0.0@ == id,
        carried(id),
        in_epoch(after, identity.x_secret, me, id, 1, key, with_me(members, me)),
{
    let title = group_name_of(name)->Ok_0;
    let all = with_me(members, me);
    let r = rotation(identity, me, id, title, all, 1, key);
    let conversation = before.create_conversation(id, "group"@, title, all, now_ms);
    let shell = group_made(before, id, title, all, now_ms);
    assert(all.contains(me)) by {
        if !members.contains(me) {
            assert(all[members.len() as int] == me);
        }
    }
    lemma_first_row(before.conversations, conversation_is(id));
    lemma_conversation_made(before, id, title, all, now_ms);
    lemma_group_resaved(conversation, id, title, 1, now_ms);
    assert(shell.conversations == conversation.conversations);
    assert(shell.members == conversation.members);
    assert forall|i: int| 0 <= i < all.len() implies shell.is_member(id, #[trigger] all[i]) by {
        assert(all.contains(all[i]));
        lemma_joined_members(before.members, id, all, now_ms, all[i]);
    }
    lemma_rotator_is_in_epoch(r, shell, after, views(made->Ok_0.1@));
}

/// A member who rotates a group is in its next epoch, with all its members.
pub proof fn law_rotator_is_in_epoch(
    identity: IdentityModel,
    me: Seq<char>,
    group: Seq<char>,
    key: Seq<u8>,
    now_ms: i64,
    before: DbModel,
    after: DbModel,
    drafts: Seq<DraftModel>,
)
    requires
        epoch_rotated(identity, me, group, key, now_ms, before, after, Ok(drafts)),
        before.consistent(),
        before.conversation(group) is Some,
        before.conversation(group)->0.kind != "dm"@,
        before.is_member(group, me),
        key.len() == 32,
        identity.x_secret.len() == 32,
        x25519_public(identity.x_secret).len() == 32,
    ensures
        exists|names: Seq<Seq<char>>| #[trigger]
            before.members_listed(group, names) && in_epoch(
                after,
                identity.x_secret,
                me,
                group,
                (before.group(group)->0.current_epoch + 1) as i64,
                key,
                names,
            ),
{
    let g = before.group(group)->0;
    let epoch = (g.current_epoch + 1) as i64;
    let saved = before.save_group(group, g.name, epoch, now_ms);
    let names = choose|names: Seq<Seq<char>>|
        #![trigger before.members_listed(group, names)]
        before.members_listed(group, names) && rotation(
            identity,
            me,
            group,
            g.name,
            names,
            epoch,
            key,
        ).distributed(saved, after, Ok(drafts));
    let r = rotation(identity, me, group, g.name, names, epoch, key);
    lemma_members_listed_once(before, group, names, me);
    lemma_group_resaved(before, group, g.name, epoch, now_ms);
    assert(saved.conversations == before.conversations);
    assert forall|i: int| 0 <= i < names.len() implies saved.is_member(
        group,
        #[trigger] names[i],
    ) by {
        assert(names.contains(names[i]));
        lemma_listed_is_member(before, group, names, names[i]);
        assert(saved.members == before.members);
    }
    lemma_rotator_is_in_epoch(r, saved, after, drafts);
    assert(before.members_listed(group, names));
}

/// What is written in a group arrives at everyone who is in the same epoch of it: they open
/// it and have it stored.
pub proof fn law_group_text_arrives(
    t: SentModel,
    got: ReceivedModel,
    epoch: i64,
    key: Seq<u8>,
    members: Seq<Seq<char>>,
)
    requires
        t.reaches(got),
        carried(t.conversation),
        in_epoch(
            t.before,
            t.identity.x_secret,
            t.before.me(),
            t.conversation,
            epoch,
            key,
            members,
        ),
        in_epoch(
            got.before,
            got.identity.x_secret,
            got.before.me(),
            t.conversation,
            epoch,
            key,
            members,
        ),
        members.contains(t.before.me()),
    ensures
        t.arrived(got, Stage::Group),
{
    let from = t.before.me();
    let sealed = choose|sealed: Result<(Seq<u8>, i64), Error>|
        {
            &&& #[trigger] content_sealed(
                t.before,
                t.identity,
                t.device,
                from,
                t.conversation,
                t.json,
                sealed,
            )
            &&& sealed is Ok && t.sending->Ok_0.envelope@ == envelope_of(
                t.identity,
                t.device,
                conversation_uuid_of(t.conversation, t.stand_in),
                t.message,
                t.payload.message_type(),
                unsigned_bits(sealed->Ok_0.1 as int),
                sealed->Ok_0.0,
                t.now_ms,
            )
        };
    lemma_content_is_routed(t, got);
    let i: int = choose|i: int| 0 <= i < members.len() && members[i] == from;
    assert(got.before.is_member(t.conversation, members[i]));
    assert(got.routed_db.members == got.before.members);
    assert(got.routed_db.conversations == got.before.conversations);
    assert(got.routed_db.groups == got.before.groups);
    assert(got.routed_db.group_keys == got.before.group_keys);
    law_group_content_arrives(
        t.before,
        t.identity,
        t.device,
        from,
        t.conversation,
        t.json,
        sealed->Ok_0,
        got.routed_db,
        got.identity.x_secret,
        got.before.me(),
        x25519_public(t.identity.x_secret),
        got.envelope,
    );
    lemma_first_row(got.before.conversations, conversation_is(t.conversation));
    lemma_text_stored(t, got, Stage::Group);
}

/// An epoch works for three: two members who received the key of one rotation read what
/// either of them writes.
pub proof fn law_members_of_an_epoch_write_each_other(
    sent_a: KeySentModel,
    got_a: ReceivedModel,
    sent_b: KeySentModel,
    got_b: ReceivedModel,
    t: SentModel,
    got: ReceivedModel,
)
    requires
        sent_a.rotation == sent_b.rotation,
        carried(sent_a.rotation.group_id),
        sent_a.reaches(got_a),
        sent_b.reaches(got_b),
        t.reaches(got),
        t.conversation == sent_a.rotation.group_id,
        t.before == got_a.after,
        t.identity == got_a.identity,
        got.before == got_b.after,
        got.identity == got_b.identity,
    ensures
        t.arrived(got, Stage::Group),
{
    let r = sent_a.rotation;
    law_group_key_arrives(sent_a, got_a);
    law_group_key_arrives(sent_b, got_b);
    let rows = choose|rows: Seq<GroupKeyModel>|
        {
            &&& #[trigger] r.wrapped_first(sent_a.before, rows)
            &&& rows.len() == r.members.len()
            &&& sent_a.drafts == r.key_drafts(sent_a.before, rows)
        };
    let k: int = lemma_draft_is_for_member(r, sent_a.before, rows, sent_a.index);
    assert(r.members[k] == t.before.me());
    assert(r.members.contains(t.before.me()));
    law_group_text_arrives(t, got, r.epoch, r.group_key, r.members);
}

} // verus!
