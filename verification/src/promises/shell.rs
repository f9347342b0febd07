//! What the user is shown, and what goes out to friends on its own.

use vstd::prelude::*;

use crate::database::laws::law_written_setting_is_read;
use crate::database::model::requests_of;
use crate::database::DbModel;
use crate::error::Error;
use crate::friends::DraftModel;
use crate::identity::{ed25519_public, IdentityModel};
use crate::ids::uuid_text;
use crate::payload::{PayloadModel, PresenceStatus};
use crate::promises::messages::lemma_filtered_from;
use crate::promises::store::{law_contacts_are_listed_once, law_requests_are_listed};
use crate::records::{ContactModel, ConversationModel, FriendRequestModel};
use crate::shell::{
    chat_name, chat_opened, coordinator_set, device_of, friends_shown, gets_heartbeats, heartbeat,
    heartbeats_are, newly_read, summary_of, worker_of, ChatDetail, FriendModel,
};
use crate::table::views;
use crate::text::{texts, trimmed};

verus! {

/// A group is shown under its name, or by how many people are in it; a direct conversation
/// under what its peer calls themselves, or under their username.
pub proof fn law_chats_are_named(db: DbModel, c: ConversationModel)
    ensures
        c.kind == "group"@ && c.name.len() > 0 ==> chat_name(db, c) == c.name,
        c.kind == "group"@ && c.name.len() == 0 && c.members.len() > 0 ==> chat_name(db, c)
            == "Group ("@ + crate::text::decimal(c.members.len()) + " members)"@,
        c.kind != "group"@ && c.members.len() > 0 ==> {
            let peer = db.contact(c.members[0]);
            &&& peer is Some && peer->0.display_name.len() > 0 ==> chat_name(db, c)
                == peer->0.display_name
            &&& peer is None || peer->0.display_name.len() == 0 ==> chat_name(db, c) == "@"@
                + c.members[0]
        },
{
}

/// The chat list shows of a conversation what is stored of it, and how much of it is unread.
pub proof fn law_summaries_show_what_is_stored(db: DbModel, me: Seq<char>, c: ConversationModel)
    requires
        db.messages.len() <= u64::MAX,
    ensures
        ({
            let s = summary_of(db, me, c);
            &&& s.id == c.id
            &&& s.kind == c.kind
            &&& s.members == c.members
            &&& s.preview == c.last_message_preview
            &&& s.updated_at_ms == c.updated_at_ms
            &&& s.name == chat_name(db, c)
            &&& s.unread == db.unread(c.id, me)
        }),
{
    db.messages.lemma_filter_len(crate::database::model::message_unread(c.id, me));
}

/// Opening a conversation reads those messages that it shows, that others wrote and that
/// were delivered: their ids, and no others, are told.
pub proof fn law_opening_reads_what_others_wrote(
    db: DbModel,
    id: Seq<char>,
    detail: Result<ChatDetail, Error>,
    message: Seq<char>,
)
    requires
        chat_opened(db, id, detail),
        detail is Ok,
        db.profile is Some,
    ensures
        texts(detail->Ok_0.newly_read@).contains(message) <==> exists|i: int|
            {
                let m = #[trigger] detail->Ok_0.messages@[i];
                &&& 0 <= i < detail->Ok_0.messages@.len()
                &&& m@.id == message
                &&& m@.sender_username != db.profile->0.username
                &&& m@.status == "delivered"@
            },
        detail->Ok_0.conversation@.id == id ==> db.conversation(id) is Some,
{
    let shown = views(detail->Ok_0.messages@);
    let p = newly_read(db.me());
    let kept = shown.filter(p);
    let ids = texts(detail->Ok_0.newly_read@);
    if ids.contains(message) {
        let k: int = choose|k: int| 0 <= k < ids.len() && ids[k] == message;
        lemma_filtered_from(shown, p, k);
        let i: int = choose|i: int| 0 <= i < shown.len() && shown[i] == kept[k];
        assert(detail->Ok_0.messages@[i]@ == shown[i]);
    }
    if exists|i: int|
        {
            let m = #[trigger] detail->Ok_0.messages@[i];
            &&& 0 <= i < detail->Ok_0.messages@.len()
            &&& m@.id == message
            &&& m@.sender_username != db.profile->0.username
            &&& m@.status == "delivered"@
        } {
        let i: int = choose|i: int|
            {
                let m = #[trigger] detail->Ok_0.messages@[i];
                &&& 0 <= i < detail->Ok_0.messages@.len()
                &&& m@.id == message
                &&& m@.sender_username != db.profile->0.username
                &&& m@.status == "delivered"@
            };
        assert(shown[i] == detail->Ok_0.messages@[i]@);
        shown.lemma_filter_contains(p, i);
        let k: int = choose|k: int| 0 <= k < kept.len() && kept[k] == shown[i];
        assert(ids[k] == message);
    }
}

/// The friends list shows every contact with their name and status, and the requests that
/// are open, each in its direction; a request that is closed is not shown.
pub proof fn law_friends_list_shows_who_and_what_is_open(
    db: DbModel,
    endpoints: Seq<Seq<char>>,
    contacts: Seq<FriendModel>,
    incoming: Seq<FriendRequestModel>,
    outgoing: Seq<FriendRequestModel>,
    at: int,
)
    requires
        friends_shown(db, endpoints, contacts, incoming, outgoing),
    ensures
        contacts.len() == db.contacts.len(),
        0 <= at < db.contacts.len() ==> exists|j: int|
            {
                let c = db.contacts[at].contact;
                let f = #[trigger] contacts[j];
                &&& 0 <= j < contacts.len()
                &&& f.username == c.username
                &&& f.status == c.status
                &&& c.display_name.len() > 0 ==> f.display_name == c.display_name
                &&& c.display_name.len() == 0 ==> f.display_name == c.username
                &&& f.seen <==> c.endpoint_id is Some && endpoints.contains(c.endpoint_id->0)
            },
        0 <= at < db.requests.len() && db.requests[at].request.status == "pending"@ ==> {
            let r = db.requests[at].request;
            &&& r.direction == "in"@ ==> incoming.contains(r)
            &&& r.direction != "in"@ ==> outgoing.contains(r)
        },
        forall|j: int|
            0 <= j < incoming.len() ==> (#[trigger] incoming[j]).status == "pending"@
                && incoming[j].direction == "in"@ && requests_of(db.requests).contains(incoming[j]),
        forall|j: int|
            0 <= j < outgoing.len() ==> (#[trigger] outgoing[j]).status == "pending"@
                && outgoing[j].direction != "in"@ && requests_of(db.requests).contains(outgoing[j]),
{
    let all = choose|all: Seq<ContactModel>|
        {
            &&& #[trigger] db.contacts_listed(all)
            &&& contacts.len() == all.len()
            &&& forall|i: int|
                0 <= i < all.len() ==> (#[trigger] contacts[i]) == crate::shell::friend_shown(
                    all[i],
                    endpoints,
                )
        };
    law_contacts_are_listed_once(db, all);
    if 0 <= at < db.contacts.len() {
        let j: int = choose|j: int| 0 <= j < all.len() && all[j] == db.contacts[at].contact;
        assert(contacts[j] == crate::shell::friend_shown(all[j], endpoints));
    }
    let open = choose|open: Seq<FriendRequestModel>|
        {
            &&& #[trigger] db.requests_listed(Some("pending"@), open)
            &&& incoming == open.filter(crate::shell::comes_in())
            &&& outgoing == open.filter(crate::shell::goes_out())
        };
    law_requests_are_listed(db, Some("pending"@), open);
    if 0 <= at < db.requests.len() && db.requests[at].request.status == "pending"@ {
        let r = db.requests[at].request;
        assert(open.contains(r));
        let k: int = choose|k: int| 0 <= k < open.len() && open[k] == r;
        if r.direction == "in"@ {
            open.lemma_filter_contains(crate::shell::comes_in(), k);
        } else {
            open.lemma_filter_contains(crate::shell::goes_out(), k);
        }
    }
    assert forall|j: int| 0 <= j < incoming.len() implies (#[trigger] incoming[j]).status
        == "pending"@ && incoming[j].direction == "in"@ && requests_of(db.requests).contains(
        incoming[j],
    ) by {
        lemma_filtered_from(open, crate::shell::comes_in(), j);
        let k: int = choose|k: int| 0 <= k < open.len() && open[k] == incoming[j];
        assert(open[k].status == "pending"@);
    }
    assert forall|j: int| 0 <= j < outgoing.len() implies (#[trigger] outgoing[j]).status
        == "pending"@ && outgoing[j].direction != "in"@ && requests_of(db.requests).contains(
        outgoing[j],
    ) by {
        lemma_filtered_from(open, crate::shell::goes_out(), j);
        let k: int = choose|k: int| 0 <= k < open.len() && open[k] == outgoing[j];
        assert(open[k].status == "pending"@);
    }
}

/// Every friend with a key gets the heartbeat, which says how this user is and is sealed for
/// that key; nobody else does. Someone who is offline says nothing.
pub proof fn law_friends_get_heartbeats(
    db: DbModel,
    status: PresenceStatus,
    drafts: Seq<DraftModel>,
    at: int,
)
    requires
        heartbeats_are(db, status, drafts),
        db.profile is Some,
    ensures
        status == PresenceStatus::Offline ==> drafts.len() == 0,
        forall|j: int|
            0 <= j < drafts.len() ==> (#[trigger] drafts[j]).payload == (PayloadModel::Presence {
                from: db.profile->0.username,
                status,
            }),
        status != PresenceStatus::Offline && 0 <= at < db.contacts.len()
            && db.contacts[at].contact.status == "friend"@
            && db.contacts[at].contact.x25519_pubkey is Some
            && db.contacts[at].contact.x25519_pubkey->0.len() == 32 ==> exists|j: int|
            0 <= j < drafts.len() && (#[trigger] drafts[j]).peer_username
                == db.contacts[at].contact.username && Some(drafts[j].recipient)
                == db.contacts[at].contact.x25519_pubkey,
        forall|j: int|
            0 <= j < drafts.len() ==> exists|i: int|
                {
                    let c = (#[trigger] db.contacts[i]).contact;
                    &&& 0 <= i < db.contacts.len()
                    &&& c.username == (#[trigger] drafts[j]).peer_username
                    &&& c.status == "friend"@
                    &&& c.x25519_pubkey == Some(drafts[j].recipient)
                },
{
    if status != PresenceStatus::Offline {
        let me = db.profile->0.username;
        let contacts = choose|contacts: Seq<ContactModel>| #[trigger]
            db.contacts_listed(contacts) && drafts == contacts.filter(
                gets_heartbeats(),
            ).map_values(heartbeat(me, status));
        let chosen = contacts.filter(gets_heartbeats());
        law_contacts_are_listed_once(db, contacts);
        assert forall|j: int| 0 <= j < drafts.len() implies exists|i: int|
            {
                let c = (#[trigger] db.contacts[i]).contact;
                &&& 0 <= i < db.contacts.len()
                &&& c.username == (#[trigger] drafts[j]).peer_username
                &&& c.status == "friend"@
                &&& c.x25519_pubkey == Some(drafts[j].recipient)
            } by {
            lemma_filtered_from(contacts, gets_heartbeats(), j);
            let k: int = choose|k: int| 0 <= k < contacts.len() && contacts[k] == chosen[j];
            let i: int = choose|i: int|
                0 <= i < db.contacts.len() && (#[trigger] db.contacts[i]).contact == contacts[k];
            assert(drafts[j] == heartbeat(me, status)(chosen[j]));
            assert(db.contacts[i].contact.username == drafts[j].peer_username);
        }
        if 0 <= at < db.contacts.len() && db.contacts[at].contact.status == "friend"@
            && db.contacts[at].contact.x25519_pubkey is Some
            && db.contacts[at].contact.x25519_pubkey->0.len() == 32 {
            let c = db.contacts[at].contact;
            let k: int = choose|k: int| 0 <= k < contacts.len() && contacts[k] == c;
            contacts.lemma_filter_contains(gets_heartbeats(), k);
            let j: int = choose|j: int| 0 <= j < chosen.len() && chosen[j] == c;
            assert(drafts[j] == heartbeat(me, status)(c));
        }
    }
}

/// A coordinator that was set up is the one that is used: the cloud one at its trimmed
/// address, and none after the local one was chosen. The cloud one needs an address.
pub proof fn law_set_coordinator_is_used(
    before: DbModel,
    after: DbModel,
    kind: Seq<char>,
    worker_url: Seq<char>,
    r: Result<(), Error>,
)
    requires
        coordinator_set(before, after, kind, worker_url, r),
    ensures
        r is Ok <==> kind == "local"@ || (kind == "cloudflare"@ && trimmed(worker_url).len() > 0),
        r is Err ==> after == before,
        r is Ok && kind == "cloudflare"@ ==> worker_of(after) == Some(trimmed(worker_url)),
        r is Ok && kind == "local"@ ==> worker_of(after) is None,
        r is Ok ==> after == (DbModel { settings: after.settings, ..before }),
{
    reveal_strlit("coordinator");
    reveal_strlit("worker_url");
    reveal_strlit("cloudflare");
    reveal_strlit("local");
    assert("coordinator"@.len() != "worker_url"@.len());
    assert("cloudflare"@.len() != "local"@.len());
    let once = before.set_setting("coordinator"@, kind);
    law_written_setting_is_read(before, "coordinator"@, kind, "worker_url"@);
    law_written_setting_is_read(once, "worker_url"@, trimmed(worker_url), "coordinator"@);
}

/// The record of this device names its keys, its user and where it is reached.
pub proof fn law_device_record_is_true(
    identity: IdentityModel,
    device: Seq<u8>,
    username: Seq<char>,
    endpoint: Seq<char>,
    now_ms: i64,
)
    ensures
        ({
            let d = device_of(identity, device, username, endpoint, now_ms);
            &&& d.id == uuid_text(device)
            &&& d.username == username
            &&& d.ed25519_pubkey == ed25519_public(identity.ed_secret)
            &&& d.x25519_pubkey == crate::crypto::x25519_public(identity.x_secret)
            &&& d.iroh_endpoint_id == endpoint
            &&& d.created_at_ms == now_ms
            &&& d.revoked_at_ms is None
        }),
{
}

/// A device that starts is on record with its keys and its endpoint. The first start sets up
/// the local coordinator and relays; later ones leave the settings as they are.
pub proof fn law_started_device_is_on_record(
    db: DbModel,
    identity: IdentityModel,
    device: Seq<u8>,
    endpoint: Seq<char>,
    now_ms: i64,
)
    requires
        forall|i: int|
            0 <= i < db.devices.len() ==> (#[trigger] db.devices[i]).id != uuid_text(device),
    ensures
        ({
            let after = crate::shell::started(db, identity, device, endpoint, now_ms);
            &&& after.devices.len() == db.devices.len() + 1
            &&& after.devices.last().id == uuid_text(device)
            &&& after.devices.last().iroh_endpoint_id == endpoint
            &&& after.devices.last().ed25519_pubkey == ed25519_public(identity.ed_secret)
            &&& db.profile is Some ==> after.settings == db.settings
                && after.devices.last().username == db.profile->0.username
            &&& db.profile is None ==> after.setting("coordinator"@) == Some("local"@)
                && after.setting("relay_enabled"@) == Some("1"@)
            &&& after.messages == db.messages
            &&& after.contacts == db.contacts
            &&& after.profile == db.profile
        }),
{
    reveal_strlit("coordinator");
    reveal_strlit("relay_enabled");
    assert("coordinator"@.len() != "relay_enabled"@.len());
    let recorded = db.save_device(device_of(identity, device, db.me(), endpoint, now_ms));
    assert(!crate::table::some_row(
        db.devices,
        crate::database::model::device_is(uuid_text(device)),
    ));
    let once = recorded.set_setting("coordinator"@, "local"@);
    law_written_setting_is_read(recorded, "coordinator"@, "local"@, "relay_enabled"@);
    law_written_setting_is_read(once, "relay_enabled"@, "1"@, "coordinator"@);
}

/// A profile is made of a name that may be used, in its normal form, and a display name that
/// is neither empty nor too long; otherwise nothing is stored.
pub proof fn law_profile_is_made(
    before: DbModel,
    after: DbModel,
    username: Seq<char>,
    display_name: Seq<char>,
    now_ms: i64,
    r: Result<(), Error>,
)
    requires
        crate::validation::profile_created(before, after, username, display_name, now_ms, r),
    ensures
        r is Err ==> after == before,
        r is Ok ==> {
            &&& after == (DbModel { profile: after.profile, ..before })
            &&& after.profile is Some
            &&& crate::validation::username_of(username) == Ok::<Seq<char>, Error>(
                after.profile->0.username,
            )
            &&& after.profile->0.display_name == crate::text::trimmed(display_name)
            &&& 1 <= after.profile->0.display_name.len() <= 64
        },
        r is Ok <==> crate::validation::username_of(username) is Ok && 1 <= crate::text::trimmed(
            display_name,
        ).len() <= 64,
{
}

/// A profile that is made on a device is as asked for, and the device is recorded as its
/// user's under the keys that it holds; otherwise nothing is stored.
pub proof fn law_local_profile_is_made(
    before: DbModel,
    after: DbModel,
    identity: IdentityModel,
    device: Seq<u8>,
    username: Seq<char>,
    display_name: Seq<char>,
    now_ms: i64,
    r: Result<(), Error>,
)
    requires
        crate::shell::local_profile_created(
            before,
            after,
            identity,
            device,
            username,
            display_name,
            now_ms,
            r,
        ),
    ensures
        r is Err ==> after == before,
        r is Ok <==> crate::validation::username_of(username) is Ok && 1 <= crate::text::trimmed(
            display_name,
        ).len() <= 64,
        r is Ok ==> {
            &&& after == (DbModel { profile: after.profile, devices: after.devices, ..before })
            &&& after.profile is Some
            &&& crate::validation::username_of(username) == Ok::<Seq<char>, Error>(
                after.profile->0.username,
            )
            &&& after.profile->0.display_name == crate::text::trimmed(display_name)
            &&& (forall|i: int|
                0 <= i < before.devices.len() ==> (#[trigger] before.devices[i]).id
                    != crate::ids::uuid_text(device)) ==> {
                &&& after.devices.len() == before.devices.len() + 1
                &&& after.devices.last().id == crate::ids::uuid_text(device)
                &&& after.devices.last().username == after.profile->0.username
                &&& after.devices.last().ed25519_pubkey == crate::identity::ed25519_public(
                    identity.ed_secret,
                )
                &&& after.devices.last().x25519_pubkey == crate::crypto::x25519_public(
                    identity.x_secret,
                )
            }
        },
{
    if r is Ok {
        let named = before.save_profile(
            crate::validation::username_of(username)->Ok_0,
            crate::validation::display_name_of(display_name)->Ok_0,
            now_ms,
        );
        crate::promises::store::law_device_keeps_its_keys(
            named,
            crate::shell::device_of(
                identity,
                device,
                crate::validation::username_of(username)->Ok_0,
                ""@,
                now_ms,
            ),
        );
    }
}

/// The record and the ask that others get of this user name them as their profile does, and
/// give the keys that this device holds. Without a profile there is neither, and without a
/// shared server no ask is published.
pub proof fn law_published_is_true(
    db: DbModel,
    identity: IdentityModel,
    endpoint_id: Seq<char>,
    endpoint_bundle: Seq<char>,
    id: Seq<u8>,
    now_ms: i64,
)
    ensures
        ({
            let record = crate::shell::self_record(
                db,
                identity,
                endpoint_id,
                endpoint_bundle,
                now_ms,
            );
            let ask = crate::shell::published_ask(db, identity, id, now_ms);
            let signs = crate::bytes::hex(crate::identity::ed25519_public(identity.ed_secret));
            let opens = crate::bytes::hex(crate::crypto::x25519_public(identity.x_secret));
            &&& db.profile is None ==> record is Err && record->Err_0 == Error::NoProfile && ask
                is Err
            &&& db.profile is Some ==> {
                &&& record is Ok
                &&& record->Ok_0.username == db.profile->0.username
                &&& record->Ok_0.display_name == db.profile->0.display_name
                &&& record->Ok_0.ed_pubkey_hex == signs
                &&& record->Ok_0.x_pubkey_hex == opens
                &&& record->Ok_0.endpoint_id == endpoint_id
                &&& record->Ok_0.endpoint_bundle == endpoint_bundle
                &&& record->Ok_0.updated_at_ms == now_ms
            }
            &&& ask is Ok <==> db.profile is Some && db.setting("coordinator"@) == Some(
                "cloudflare"@,
            ) && db.setting("worker_url"@) is Some && db.setting("worker_url"@)->0.len() > 0
            &&& ask is Ok ==> {
                &&& ask->Ok_0.id == crate::ids::uuid_text(id)
                &&& ask->Ok_0.from_username == db.profile->0.username
                &&& ask->Ok_0.from_display_name == db.profile->0.display_name
                &&& ask->Ok_0.from_ed_pubkey_hex == signs
                &&& ask->Ok_0.from_x_pubkey_hex == opens
                &&& ask->Ok_0.status == "pending"@
                &&& ask->Ok_0.created_at_ms == now_ms
            }
        }),
{
}

/// Nothing is shown to a user who looks already, or who is not to be disturbed; to others at
/// most the first hundred and twenty characters.
pub proof fn law_notices_spare_the_busy(
    body: Seq<char>,
    status: crate::payload::PresenceStatus,
    focused: bool,
)
    ensures
        ({
            let shown = crate::shell::notice_of(body, status, focused);
            &&& shown is None <==> focused || status == crate::payload::PresenceStatus::Dnd
            &&& shown is Some && body.len() <= 120 ==> shown->0 == body
            &&& shown is Some && body.len() > 120 ==> shown->0 == body.take(120)
        }),
{
}

/// A contact is dialled at the bundle that they told, where it can be read; else at their
/// endpoint, by the address that was seen last where one was; and not at all where neither is
/// known.
pub proof fn law_best_address_is_dialled(
    db: DbModel,
    username: Seq<char>,
    options: Result<crate::shell::DialOptions, Error>,
    bundle_readable: bool,
    has_endpoint: bool,
    cached: bool,
)
    requires
        crate::shell::dial_options(db, username, options),
    ensures
        options is Ok <==> db.contact(username) is Some,
        options is Err ==> options->Err_0 == Error::UnknownContact,
        options is Ok ==> {
            let c = db.contact(username)->0;
            &&& crate::text::opt_text(options->Ok_0.endpoint_id) == c.endpoint_id
            &&& c.endpoint_bundle is None ==> options->Ok_0.address_json is None
            &&& c.endpoint_bundle is Some ==> crate::text::opt_bytes(options->Ok_0.address_json)
                == crate::transport::bundle_bytes(crate::text::trimmed(c.endpoint_bundle->0))
        },
        ({
            let choice = crate::shell::dial_choice(bundle_readable, has_endpoint, cached);
            &&& choice == Ok::<crate::shell::DialChoice, Error>(crate::shell::DialChoice::Bundle)
                <==> bundle_readable
            &&& choice is Err <==> !bundle_readable && !has_endpoint
            &&& choice == Ok::<crate::shell::DialChoice, Error>(crate::shell::DialChoice::Cached)
                <==> !bundle_readable && has_endpoint && cached
            &&& choice is Err ==> choice->Err_0 == Error::NoAddress
        }),
{
}

/// A device keeps the identity that it has: the keyring's, else the file's. A new one is made
/// only where neither holds any and the file could be read.
pub proof fn law_identity_is_kept(
    keyring: crate::identity::StoredSecret,
    file: crate::identity::StoredSecret,
    start: Result<crate::identity::StartingIdentity, Error>,
    held: IdentityModel,
)
    requires
        crate::identity::starts_as(keyring, file, start),
    ensures
        keyring is Found && crate::identity::identity_of(keyring->Found_0@) == Ok::<
            IdentityModel,
            Error,
        >(held) ==> start is Ok && start->Ok_0 is Kept && start->Ok_0->Kept_0@ == held
            && start->Ok_0->Kept_1 == crate::identity::KeyBackend::OsKeyring,
        !(keyring is Found) && file is Found && crate::identity::identity_of(file->Found_0@)
            == Ok::<IdentityModel, Error>(held) ==> start is Ok && start->Ok_0 is Kept
            && start->Ok_0->Kept_0@ == held && start->Ok_0->Kept_1
            == crate::identity::KeyBackend::File,
        start is Ok && start->Ok_0 is New ==> file is Absent && (keyring is Found
            ==> crate::identity::identity_of(keyring->Found_0@) is Err),
        !(keyring is Found) && file is Absent ==> start is Ok && start->Ok_0 is New,
        !(keyring is Found) && file is Unreadable ==> start is Err && start->Err_0
            == Error::KeyFileUnreadable,
{
}

/// A device that starts is the one that was recorded last, by the id that it was recorded
/// under; the first one gets the id that was drawn for it.
pub proof fn law_last_device_starts(db: DbModel, fresh: Seq<u8>, device: Seq<u8>)
    requires
        crate::shell::device_found(db, fresh, device),
    ensures
        db.devices.len() == 0 ==> device == fresh,
        db.devices.len() > 0 ==> exists|i: int|
            {
                &&& 0 <= i < db.devices.len()
                &&& crate::ids::uuid_parsed((#[trigger] db.devices[i]).id) is Some ==> Some(device)
                    == crate::ids::uuid_parsed(db.devices[i].id)
                &&& forall|j: int|
                    0 <= j < db.devices.len() ==> (#[trigger] db.devices[j]).created_at_ms
                        <= db.devices[i].created_at_ms
            },
{
    if db.devices.len() > 0 {
        let i: int = choose|i: int|
            {
                &&& 0 <= i < db.devices.len()
                &&& device == crate::envelope::conversation_uuid_of(
                    (#[trigger] db.devices[i]).id,
                    fresh,
                )
                &&& forall|j: int|
                    0 <= j < db.devices.len() ==> (#[trigger] db.devices[j]).created_at_ms
                        <= db.devices[i].created_at_ms
            };
        assert(crate::ids::uuid_parsed(db.devices[i].id) is Some ==> Some(device)
            == crate::ids::uuid_parsed(db.devices[i].id));
    }
}

/// A device that starts again is noted at its new endpoint, under the keys and the time that
/// it was recorded with.
pub proof fn law_restarted_device_keeps_its_keys(
    db: DbModel,
    identity: IdentityModel,
    device: Seq<u8>,
    endpoint: Seq<char>,
    now_ms: i64,
    at: int,
)
    requires
        0 <= at < db.devices.len(),
        db.devices[at].id == uuid_text(device),
    ensures
        ({
            let after = crate::shell::started(db, identity, device, endpoint, now_ms);
            &&& after.devices.len() == db.devices.len()
            &&& after.devices[at].id == db.devices[at].id
            &&& after.devices[at].iroh_endpoint_id == endpoint
            &&& after.devices[at].ed25519_pubkey == db.devices[at].ed25519_pubkey
            &&& after.devices[at].x25519_pubkey == db.devices[at].x25519_pubkey
            &&& after.devices[at].created_at_ms == db.devices[at].created_at_ms
            &&& db.profile is Some ==> after.settings == db.settings && after.devices[at].username
                == db.profile->0.username
            &&& after.messages == db.messages
            &&& after.profile == db.profile
        }),
{
    crate::promises::store::law_device_keeps_its_keys(
        db,
        device_of(identity, device, db.me(), endpoint, now_ms),
    );
    assert(exists|i: int|
        0 <= i < db.devices.len() && (#[trigger] db.devices[i]).id == uuid_text(device));
}

} // verus!
