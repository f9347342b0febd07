//! Routing: who is heard, and what is noted of them.

use vstd::prelude::*;

use crate::database::laws::law_stored_contact_is_found;
use crate::database::model::{contact_is, conversation_is};
use crate::database::DbModel;
use crate::error::Error;
use crate::identity::IdentityModel;
use crate::ids::uuid_text;
use crate::payload::PayloadModel;
use crate::presence::PresenceState;
use crate::promises::messages::{lemma_belongs, lemma_filtered_from};
use crate::promises::{belongs, is_new, stored};
use crate::protocol::{EnvelopeModel, MessageType};
use crate::records::{ContactModel, MemberModel};
use crate::routing::{
    content_applied, content_routed, inbound_routed, inbound_row, least_name, presence_applied,
    sender_found, stash_row, OpenedModel, OutcomeModel, RoutedModel, Stage,
};
use crate::table::lemma_first_row;

verus! {

proof fn lemma_least_is_one(rows: Seq<MemberModel>)
    ensures
        least_name(rows) is Some ==> exists|i: int|
            0 <= i < rows.len() && (#[trigger] rows[i]).username == least_name(rows)->0,
    decreases rows.len(),
{
    if rows.len() > 0 {
        let rest = rows.drop_last();
        lemma_least_is_one(rest);
        if least_name(rest) is Some {
            let i: int = choose|i: int|
                0 <= i < rest.len() && (#[trigger] rest[i]).username == least_name(rest)->0;
            assert(rows[i] == rest[i]);
        }
        assert(rows[rows.len() - 1] == rows.last());
    }
}

/// Whoever is heard in a conversation belongs to it: a text or the like is only opened from
/// someone in the conversation that its envelope names. Only a group's key may come before
/// the group.
pub proof fn law_only_members_are_heard(
    before: DbModel,
    secret: Seq<u8>,
    e: EnvelopeModel,
    endpoint: Seq<char>,
    envelope_json: Seq<char>,
    now_ms: i64,
    after: DbModel,
    opened: OpenedModel,
)
    requires
        inbound_routed(
            before,
            secret,
            e,
            endpoint,
            envelope_json,
            now_ms,
            after,
            Ok(RoutedModel::Open(opened)),
        ),
        opened.stage == Stage::Direct || opened.stage == Stage::Group || opened.stage
            == Stage::GroupKey,
        opened.from.len() > 0,
    ensures
        opened.conversation_id == uuid_text(e.conversation_id),
        opened.stage != Stage::GroupKey ==> stored(before, opened.conversation_id) && belongs(
            before,
            opened.conversation_id,
            opened.from,
        ),
        opened.stage == Stage::GroupKey ==> !stored(before, opened.conversation_id) || belongs(
            before,
            opened.conversation_id,
            opened.from,
        ),
        opened.from != before.me(),
        after == (DbModel { contacts: after.contacts, ..before }),
{
    let id = uuid_text(e.conversation_id);
    let r = Ok::<RoutedModel, Error>(RoutedModel::Open(opened));
    let p = conversation_is(id);
    lemma_first_row(before.conversations, p);
    assert(before.conversation(id) is Some <==> stored(before, id)) by {
        if before.conversation(id) is Some {
            let k: int = choose|k: int|
                0 <= k < before.conversations.len() && before.conversations[k]
                    == before.conversation(id)->0;
            assert(before.conversations[k].id == id);
        }
        if stored(before, id) {
            let k: int = choose|k: int|
                0 <= k < before.conversations.len() && (#[trigger] before.conversations[k]).id
                    == id;
            assert(p(before.conversations[k]));
        }
    }
    lemma_belongs(before, id, opened.from);
    let here = before.members.filter(crate::database::model::member_of(id));
    lemma_least_is_one(here);
    if before.dm_peer(id) == opened.from {
        let i: int = choose|i: int|
            0 <= i < here.len() && (#[trigger] here[i]).username == least_name(here)->0;
        lemma_filtered_from(before.members, crate::database::model::member_of(id), i);
        let k: int = choose|k: int| 0 <= k < before.members.len() && before.members[k] == here[i];
        assert(before.members[k].conversation_id == id && before.members[k].username
            == opened.from);
        assert(belongs(before, id, opened.from));
    }
    let sender = choose|sender: Option<ContactModel>|
        {
            &&& #[trigger] sender_found(before.contacts, e, endpoint, sender)
            &&& sender is Some && e.message_type != MessageType::FriendRequest && e.message_type
                != MessageType::FriendResponse && e.message_type != MessageType::Presence ==> {
                let c = sender->0;
                &&& c.username != before.me()
                &&& after == before.endpoint_noted(c.username, endpoint, now_ms)
                &&& r == content_routed(
                    after,
                    secret,
                    before.me(),
                    c.username,
                    crate::groups::contact_key_of(c)->0,
                    e,
                )
            }
            &&& sender is None ==> r is Err || !(r->Ok_0 is Open)
            &&& e.message_type == MessageType::FriendRequest || e.message_type
                == MessageType::FriendResponse || e.message_type == MessageType::Presence
                ==> r is Err || !(r->Ok_0 is Open) || r->Ok_0->Open_0.stage == Stage::FriendAsk
                || r->Ok_0->Open_0.stage == Stage::FriendAnswer || r->Ok_0->Open_0.stage
                == Stage::Presence
        };
    assert(after.members == before.members);
    assert(after.conversations == before.conversations);
}

/// Where a contact was heard from last is noted, of that contact alone.
pub proof fn law_endpoint_is_noted(
    db: DbModel,
    name: Seq<char>,
    endpoint: Seq<char>,
    now_ms: i64,
    u: Seq<char>,
)
    ensures
        ({
            let after = db.endpoint_noted(name, endpoint, now_ms);
            &&& db.contact(name) is Some ==> after.contact(name) == Some(
                ContactModel { endpoint_id: Some(endpoint), ..db.contact(name)->0 },
            )
            &&& db.contact(name) is None ==> after == db
            &&& u != name ==> after.contact(u) == db.contact(u)
            &&& after == (DbModel { contacts: after.contacts, ..db })
        }),
{
    lemma_first_row(db.contacts, contact_is(name));
    if db.contact(name) is Some {
        law_stored_contact_is_found(
            db,
            ContactModel { endpoint_id: Some(endpoint), ..db.contact(name)->0 },
            now_ms,
            u,
        );
    }
}

/// A handshake of someone unknown is kept as it came, for seven days.
pub proof fn law_unknown_handshake_is_kept_a_week(
    e: EnvelopeModel,
    endpoint: Seq<char>,
    envelope_json: Seq<char>,
    now_ms: i64,
)
    requires
        now_ms <= i64::MAX - 604_800_000,
    ensures
        ({
            let row = stash_row(e, endpoint, envelope_json, now_ms);
            &&& row.message_id == uuid_text(e.message_id)
            &&& row.endpoint_id == endpoint
            &&& row.envelope_json == envelope_json
            &&& row.received_at_ms == now_ms
            &&& row.expires_at_ms == now_ms + 604_800_000
        }),
{
}

/// A group that a member renamed has the name that they gave, and shows who gave it.
pub proof fn law_told_name_is_taken(
    before: DbModel,
    after: DbModel,
    identity: IdentityModel,
    device: Seq<u8>,
    from: Seq<char>,
    group_id: Seq<char>,
    e: EnvelopeModel,
    name: Seq<char>,
    epoch: Option<i64>,
    offer_json: Seq<char>,
    now_ms: i64,
    r: Result<OutcomeModel, Error>,
    at: int,
)
    requires
        content_applied(
            before,
            after,
            identity,
            device,
            from,
            group_id,
            e,
            PayloadModel::GroupMeta { from, group_id, name, epoch },
            true,
            offer_json,
            now_ms,
            r,
        ),
        0 <= at < before.conversations.len(),
        before.conversations[at].id == group_id,
        e.sequence <= i64::MAX,
        is_new(
            before,
            uuid_text(e.message_id),
            group_id,
            uuid_text(e.sender_device_id),
            e.sequence as i64,
        ),
    ensures
        r is Ok,
        r->Ok_0.changed,
        after.conversations.len() == before.conversations.len(),
        after.conversations[at].id == group_id,
        after.conversations[at].name == name,
        after.conversations[at].kind == before.conversations[at].kind,
        after.messages.len() == before.messages.len() + 1,
        after.messages.last().body == "@"@ + from + " renamed the group to "@ + name,
        after.messages.last().sender_username == from,
        after.messages.last().conversation_id == group_id,
        after.messages.last().id == uuid_text(e.message_id),
        after.members == before.members,
        after.groups == before.groups,
{
    let renamed = before.rename_conversation(group_id, name, now_ms);
    let row = inbound_row(
        e,
        group_id,
        from,
        "GroupMessage"@,
        "@"@ + from + " renamed the group to "@ + name,
        None,
    );
    assert(conversation_is(group_id)(renamed.conversations[at]));
    assert(!renamed.clashes(row));
}

/// A heartbeat that was carried out is what is then shown of its sender, as it arrives.
pub proof fn law_heartbeat_is_shown(
    before: PresenceState,
    after: PresenceState,
    opened: OpenedModel,
    from: Seq<char>,
    status: crate::payload::PresenceStatus,
)
    requires
        opened.stage == Stage::Presence,
        presence_applied(
            before,
            after,
            opened,
            Some(PayloadModel::Presence { from, status }),
        ),
        status != crate::payload::PresenceStatus::Offline,
    ensures
        exists|now: u128|
            {
                let shown = #[trigger] after.peer_status(opened.from, now);
                shown.fresh && shown.status == status && shown.username == opened.from
            },
{
    let now = choose|now: u128| after == #[trigger] before.peer_update(opened.from, status, now);
    let p = crate::presence::heartbeat_of(opened.from);
    lemma_first_row(before.peers, p);
    crate::table::lemma_first_row_updated(
        before.peers,
        p,
        crate::presence::heartbeat_now(status, now),
    );
    crate::table::lemma_first_row_pushed(
        before.peers,
        p,
        crate::presence::HeartbeatModel { username: opened.from, status, at: now },
    );
    assert(after.peer_status(opened.from, now).fresh);
}

/// Whoever says that they type is then among those who type in that conversation, and whoever
/// says that they stopped is not; nobody else is touched, nor other conversations.
pub proof fn law_typing_is_noted(
    before: crate::presence::TypingState,
    after: crate::presence::TypingState,
    conversation: Seq<char>,
    from: Seq<char>,
    typing: bool,
    c: Seq<char>,
    u: Seq<char>,
)
    requires
        crate::routing::typing_applied(
            before,
            after,
            conversation,
            from,
            PayloadModel::Typing { from, typing },
        ),
    ensures
        ({
            let named = |s: crate::presence::TypingState|
                exists|i: int|
                    0 <= i < s.entries.len() && (#[trigger] s.entries[i]).conversation_id == c
                        && s.entries[i].username == u;
            &&& c == conversation && u == from ==> named(after) == typing
            &&& !(c == conversation && u == from) ==> named(after) == named(before)
        }),
{
    let now = choose|now: u128|
        after == #[trigger] before.set_typing(conversation, from, typing, now);
    let p = crate::presence::typing_is(c, u);
    let q = crate::presence::typing_is(conversation, from);
    lemma_first_row(before.entries, p);
    lemma_first_row(after.entries, p);
    lemma_named(before, c, u);
    lemma_named(after, c, u);
    if typing {
        lemma_first_row(before.entries, q);
        let row = crate::presence::TypingModel {
            conversation_id: conversation,
            username: from,
            at: now,
        };
        crate::table::lemma_first_row_updated(before.entries, q, crate::presence::typing_at(now));
        crate::table::lemma_first_row_pushed(before.entries, p, row);
        if !(c == conversation && u == from) {
            crate::table::lemma_first_row_kept(
                before.entries,
                q,
                crate::presence::typing_at(now),
                p,
            );
        }
    } else {
        crate::table::lemma_without(before.entries, q);
        if !(c == conversation && u == from) {
            crate::table::lemma_first_row_without(before.entries, q, p);
        }
    }
}

proof fn lemma_named(s: crate::presence::TypingState, c: Seq<char>, u: Seq<char>)
    ensures
        (exists|i: int|
            0 <= i < s.entries.len() && (#[trigger] s.entries[i]).conversation_id == c
                && s.entries[i].username == u) <==> crate::table::some_row(
            s.entries,
            crate::presence::typing_is(c, u),
        ),
{
    let p = crate::presence::typing_is(c, u);
    if exists|i: int|
        0 <= i < s.entries.len() && (#[trigger] s.entries[i]).conversation_id == c
            && s.entries[i].username == u {
        let i: int = choose|i: int|
            0 <= i < s.entries.len() && (#[trigger] s.entries[i]).conversation_id == c
                && s.entries[i].username == u;
        assert(p(s.entries[i]));
    }
}

/// A payload must name its sender: one that names somebody else is refused and changes
/// nothing, and so is what cannot be read.
pub proof fn law_payload_must_name_its_sender(
    before: DbModel,
    after: DbModel,
    identity: IdentityModel,
    device: Seq<u8>,
    opened: OpenedModel,
    e: EnvelopeModel,
    payload: Option<PayloadModel>,
    offer_json: Seq<char>,
    endpoint: Seq<char>,
    fresh: Seq<char>,
    now_ms: i64,
    r: Result<OutcomeModel, Error>,
)
    requires
        crate::routing::opened_applied(
            before,
            after,
            identity,
            device,
            opened,
            e,
            payload,
            offer_json,
            endpoint,
            fresh,
            now_ms,
            r,
        ),
    ensures
        payload is None ==> r == Err::<OutcomeModel, Error>(Error::BadPayload) && after == before,
        payload is Some && payload->0.sender() != opened.from && opened.stage != Stage::Presence
            && opened.stage != Stage::GroupKey ==> r == Err::<OutcomeModel, Error>(
            Error::SenderMismatch,
        ) && after == before,
        payload is Some && opened.stage == Stage::Presence && !(payload->0 is Presence) ==> r
            == Err::<OutcomeModel, Error>(Error::NotPresence) && after == before,
{
}

/// In a direct conversation nobody renames a group, and in a group nobody is sent what they
/// missed.
pub proof fn law_some_payloads_are_for_one_kind(
    before: DbModel,
    after: DbModel,
    identity: IdentityModel,
    device: Seq<u8>,
    from: Seq<char>,
    conversation: Seq<char>,
    e: EnvelopeModel,
    payload: PayloadModel,
    group: bool,
    offer_json: Seq<char>,
    now_ms: i64,
    r: Result<OutcomeModel, Error>,
)
    requires
        content_applied(
            before,
            after,
            identity,
            device,
            from,
            conversation,
            e,
            payload,
            group,
            offer_json,
            now_ms,
            r,
        ),
        (payload is GroupMeta && !group) || (payload is SyncRequest && group),
    ensures
        after == before,
        r is Ok,
        r->Ok_0.works.len() == 0,
        !r->Ok_0.changed,
        r->Ok_0.notify is None,
{
}

/// Where several contacts could have signed an envelope, one who was last heard from the
/// endpoint that it came from is taken to have sent it, and of those the first by name.
pub proof fn law_sender_is_who_was_heard_there(
    contacts: Seq<crate::records::ContactRowModel>,
    e: EnvelopeModel,
    endpoint: Seq<char>,
    found: Option<ContactModel>,
    i: int,
)
    requires
        sender_found(contacts, e, endpoint, found),
        0 <= i < contacts.len(),
        contacts[i].contact.status != "blocked"@,
        contacts[i].contact.ed_pubkey is Some,
        contacts[i].contact.ed_pubkey->0.len() == 32,
        crate::envelope::envelope_checked(contacts[i].contact.ed_pubkey->0, e) is Ok,
    ensures
        found is Some,
        found->0.status != "blocked"@,
        found->0.ed_pubkey is Some,
        crate::envelope::envelope_checked(found->0.ed_pubkey->0, e) is Ok,
        contacts[i].contact.endpoint_id == Some(endpoint) ==> found->0.endpoint_id == Some(
            endpoint,
        ),
        contacts[i].contact.endpoint_id == Some(endpoint) || found->0.endpoint_id != Some(
            endpoint,
        ) ==> crate::text::text_le(found->0.username, contacts[i].contact.username),
{
    assert(crate::routing::may_have_sent(contacts[i].contact, e));
}

/// A handshake that no contact signed is put with those that wait, for a week, and the user is
/// asked for the invite code; anything else that no contact signed is refused and leaves no
/// trace.
pub proof fn law_unsigned_is_kept_or_refused(
    before: DbModel,
    secret: Seq<u8>,
    e: EnvelopeModel,
    endpoint: Seq<char>,
    envelope_json: Seq<char>,
    now_ms: i64,
    after: DbModel,
    r: Result<RoutedModel, Error>,
)
    requires
        inbound_routed(before, secret, e, endpoint, envelope_json, now_ms, after, r),
        now_ms <= i64::MAX - 604_800_000,
        forall|i: int|
            0 <= i < before.contacts.len() ==> !crate::routing::may_have_sent(
                (#[trigger] before.contacts[i]).contact,
                e,
            ),
    ensures
        e.message_type == MessageType::FriendRequest || e.message_type
            == MessageType::FriendResponse ==> {
            &&& r is Ok
            &&& r->Ok_0 is Done
            &&& r->Ok_0->Done_0.toast == Some(
                "Got a friend request from an unknown device — paste their invite code to read it."@,
            )
            &&& r->Ok_0->Done_0.changed
            &&& r->Ok_0->Done_0.works.len() == 0
            &&& before.stashed(
                (crate::records::StashModel {
                    message_id: uuid_text(e.message_id),
                    endpoint_id: endpoint,
                    envelope_json,
                    received_at_ms: now_ms,
                    expires_at_ms: (now_ms + 604_800_000) as i64,
                }),
                after,
            )
        },
        e.message_type != MessageType::FriendRequest && e.message_type
            != MessageType::FriendResponse ==> r == Err::<RoutedModel, Error>(
            Error::UnknownSender,
        ) && after == before,
{
}

/// A heartbeat leaves word of where its sender was heard from, and nothing else in the store;
/// the screen is drawn anew.
pub proof fn law_heartbeat_notes_where(
    before: DbModel,
    after: DbModel,
    identity: IdentityModel,
    device: Seq<u8>,
    opened: OpenedModel,
    e: EnvelopeModel,
    status: crate::payload::PresenceStatus,
    from: Seq<char>,
    offer_json: Seq<char>,
    endpoint: Seq<char>,
    fresh: Seq<char>,
    now_ms: i64,
    r: Result<OutcomeModel, Error>,
    u: Seq<char>,
)
    requires
        crate::routing::opened_applied(
            before,
            after,
            identity,
            device,
            opened,
            e,
            Some(PayloadModel::Presence { from, status }),
            offer_json,
            endpoint,
            fresh,
            now_ms,
            r,
        ),
        opened.stage == Stage::Presence,
        before.contact(opened.from) is Some,
    ensures
        r is Ok,
        r->Ok_0.changed,
        r->Ok_0.notify is None,
        after.contact(opened.from) is Some,
        after.contact(opened.from)->0.endpoint_id == Some(endpoint),
        u != opened.from ==> after.contact(u) == before.contact(u),
        after == (DbModel { contacts: after.contacts, ..before }),
{
    law_endpoint_is_noted(before, opened.from, endpoint, now_ms, u);
}

/// Whoever types is shown at once: the screen is drawn anew, and the messages stay as they are.
pub proof fn law_typing_redraws(
    before: DbModel,
    after: DbModel,
    identity: IdentityModel,
    device: Seq<u8>,
    from: Seq<char>,
    conversation: Seq<char>,
    e: EnvelopeModel,
    typing: bool,
    group: bool,
    offer_json: Seq<char>,
    now_ms: i64,
    r: Result<OutcomeModel, Error>,
)
    requires
        content_applied(
            before,
            after,
            identity,
            device,
            from,
            conversation,
            e,
            PayloadModel::Typing { from, typing },
            group,
            offer_json,
            now_ms,
            r,
        ),
    ensures
        after == before,
        r is Ok,
        r->Ok_0.changed,
        r->Ok_0.notify is None,
        r->Ok_0.works.len() == 0,
{
}

/// A key that was taken is told to the user; one that was refused is not.
pub proof fn law_taken_key_is_told(
    before: DbModel,
    after: DbModel,
    identity: IdentityModel,
    device: Seq<u8>,
    opened: OpenedModel,
    e: EnvelopeModel,
    payload: PayloadModel,
    offer_json: Seq<char>,
    endpoint: Seq<char>,
    fresh: Seq<char>,
    now_ms: i64,
    r: Result<OutcomeModel, Error>,
)
    requires
        crate::routing::opened_applied(
            before,
            after,
            identity,
            device,
            opened,
            e,
            Some(payload),
            offer_json,
            endpoint,
            fresh,
            now_ms,
            r,
        ),
        opened.stage == Stage::GroupKey,
    ensures
        r is Ok ==> payload is GroupKey && r->Ok_0.notify == Some(
            ("Group updated"@, "Encryption rotated for a group"@),
        ) && r->Ok_0.changed && r->Ok_0.works.len() == 0,
        !stored(before, opened.conversation_id) && payload is GroupKey && payload->GroupKey_group_id
            != opened.conversation_id ==> r == Err::<OutcomeModel, Error>(
            Error::UnknownConversation,
        ) && after == before,
{
    let p = conversation_is(opened.conversation_id);
    if before.has_conversation(opened.conversation_id) {
        let k: int = choose|k: int|
            0 <= k < before.conversations.len() && p(#[trigger] before.conversations[k]);
        assert(before.conversations[k].id == opened.conversation_id);
    }
}

/// A chunk, or word of the chunks that are there, changes nothing in the store until it was
/// dealt with: what was heard last stays as it was.
pub proof fn law_file_work_waits(
    before: DbModel,
    after: DbModel,
    identity: IdentityModel,
    device: Seq<u8>,
    opened: OpenedModel,
    e: EnvelopeModel,
    payload: PayloadModel,
    offer_json: Seq<char>,
    endpoint: Seq<char>,
    fresh: Seq<char>,
    now_ms: i64,
    r: Result<OutcomeModel, Error>,
)
    requires
        crate::routing::opened_applied(
            before,
            after,
            identity,
            device,
            opened,
            e,
            Some(payload),
            offer_json,
            endpoint,
            fresh,
            now_ms,
            r,
        ),
        opened.stage == Stage::Direct || opened.stage == Stage::Group,
        payload is FileChunk || payload is FileAccept,
    ensures
        after == before,
{
}

} // verus!
