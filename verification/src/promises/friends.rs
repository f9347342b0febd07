//! Friends: what becomes of asks and answers, and of those who are blocked or removed.

use vstd::prelude::*;
use vstd::utf8::*;

use crate::bytes::hex_decoded_32;
use crate::database::laws::law_stored_contact_is_found;
use crate::database::model::{contact_is, contact_with_status, request_is, request_key};
use crate::database::DbModel;
use crate::error::Error;
use crate::friends::{
    accepts_request, ask_contact, befriended, invite_imported, invite_name, newest_request,
    open_request, open_request_is, rejects_request, request_answered, request_staged, takes_answer,
    takes_ask, Draft, InviteModel,
};
use crate::identity::IdentityModel;
use crate::payload::PayloadModel;
use crate::promises::messages::lemma_belongs;
use crate::promises::{belongs, stored};
use crate::protocol::EnvelopeModel;
use crate::records::{ContactModel, FriendRequest, FriendRequestModel, RequestRowModel};
use crate::routing::{opened_applied, OpenedModel, OutcomeModel, Stage};
use crate::table::{
    first_row, lemma_first_row, lemma_first_row_kept, lemma_first_row_updated,
    lemma_first_row_without, lemma_without, some_row,
};
use crate::text::{lowered, trimmed};

verus! {

/// An open request in this direction with this person.
pub open spec fn is_open(r: FriendRequestModel, direction: Seq<char>, peer: Seq<char>) -> bool {
    r.status == "pending"@ && r.direction == direction && r.peer_username == peer
}

/// The same request but for its status.
pub open spec fn same_request(a: FriendRequestModel, b: FriendRequestModel) -> bool {
    &&& a.id == b.id
    &&& a.direction == b.direction
    &&& a.peer_username == b.peer_username
    &&& a.peer_display_name == b.peer_display_name
    &&& a.created_at_ms == b.created_at_ms
}

/// The newest open request with someone has got this status, and nothing else of the
/// requests has changed. So where there was one open request with them, none is left.
#[verifier::opaque]
pub open spec fn newest_is_closed(
    before: Seq<RequestRowModel>,
    after: Seq<RequestRowModel>,
    direction: Seq<char>,
    peer: Seq<char>,
    status: Seq<char>,
) -> bool {
    &&& after.len() == before.len()
    &&& forall|i: int|
        0 <= i < before.len() ==> same_request((#[trigger] after[i]).request, before[i].request)
    &&& forall|i: int|
        0 <= i < before.len() && (#[trigger] after[i]).request.status != before[i].request.status
            ==> is_open(before[i].request, direction, peer) && after[i].request.status == status
    &&& forall|i: int|
        0 <= i < before.len() && is_open((#[trigger] before[i]).request, direction, peer)
            ==> exists|k: int|
            0 <= k < before.len() && is_open((#[trigger] before[k]).request, direction, peer)
                && before[k].request.created_at_ms >= before[i].request.created_at_ms
                && after[k].request.status == status
    &&& one_open_at_most(before, direction, peer) ==> none_open(after, direction, peer)
}

pub open spec fn one_open_at_most(
    rows: Seq<RequestRowModel>,
    direction: Seq<char>,
    peer: Seq<char>,
) -> bool {
    forall|i: int, j: int|
        0 <= i < j < rows.len() ==> !(is_open((#[trigger] rows[i]).request, direction, peer)
            && is_open((#[trigger] rows[j]).request, direction, peer))
}

pub open spec fn none_open(
    rows: Seq<RequestRowModel>,
    direction: Seq<char>,
    peer: Seq<char>,
) -> bool {
    forall|i: int| 0 <= i < rows.len() ==> !is_open((#[trigger] rows[i]).request, direction, peer)
}

proof fn lemma_one_changed(
    before: Seq<RequestRowModel>,
    after: Seq<RequestRowModel>,
    k: int,
    direction: Seq<char>,
    peer: Seq<char>,
    status: Seq<char>,
)
    requires
        0 <= k < before.len(),
        after.len() == before.len(),
        forall|i: int| 0 <= i < before.len() && i != k ==> #[trigger] after[i] == before[i],
        same_request(after[k].request, before[k].request),
        after[k].request.status == status,
        status != "pending"@,
        is_open(before[k].request, direction, peer),
        forall|i: int|
            0 <= i < before.len() && is_open((#[trigger] before[i]).request, direction, peer)
                ==> before[i].request.created_at_ms <= before[k].request.created_at_ms,
    ensures
        newest_is_closed(before, after, direction, peer, status),
{
    reveal(newest_is_closed);
    assert forall|i: int| 0 <= i < before.len() implies same_request(
        (#[trigger] after[i]).request,
        before[i].request,
    ) by {
    }
    if one_open_at_most(before, direction, peer) {
        assert forall|i: int| 0 <= i < after.len() implies !is_open(
            (#[trigger] after[i]).request,
            direction,
            peer,
        ) by {
            if i < k {
                assert(before[i] == after[i] && before[k] == before[k]);
            } else if i > k {
                assert(before[k] == before[k] && before[i] == after[i]);
            }
        }
    }
}

proof fn lemma_request_closed(
    db: DbModel,
    request: Option<FriendRequestModel>,
    direction: Seq<char>,
    peer: Seq<char>,
    status: Seq<char>,
    now_ms: i64,
)
    requires
        db.consistent(),
        newest_request(db.requests, open_request(direction, peer), request),
        status != "pending"@,
    ensures
        newest_is_closed(
            db.requests,
            match request {
                Some(r) => db.set_friend_request_status(r.id, status, now_ms).requests,
                None => db.requests,
            },
            direction,
            peer,
            status,
        ),
{
    let p = open_request(direction, peer);
    let before = db.requests;
    assert forall|i: int| 0 <= i < before.len() implies p(before[i].request) == is_open(
        (#[trigger] before[i]).request,
        direction,
        peer,
    ) by {
    }
    if request is Some {
        let r = request->0;
        let k: int = choose|k: int| 0 <= k < before.len() && (#[trigger] before[k]).request == r;
        lemma_one_closed(db, k, status, now_ms);
        lemma_one_changed(
            before,
            db.set_friend_request_status(r.id, status, now_ms).requests,
            k,
            direction,
            peer,
            status,
        );
    } else {
        reveal(newest_is_closed);
    }
}

/// What becomes of the contact of someone who accepted: a friend who can be reached as they
/// said, with the keys that were known.
pub open spec fn now_a_friend(
    before: ContactModel,
    after: ContactModel,
    bundle: Seq<char>,
) -> bool {
    &&& after.status == "friend"@
    &&& bundle.len() > 0 ==> after.endpoint_bundle == Some(bundle)
    &&& bundle.len() == 0 ==> after.endpoint_bundle == before.endpoint_bundle
    &&& after.username == before.username
    &&& after.display_name == before.display_name
    &&& after.x25519_pubkey == before.x25519_pubkey
    &&& after.ed_pubkey == before.ed_pubkey
}

proof fn lemma_befriended(
    db: DbModel,
    answered: DbModel,
    peer: Seq<char>,
    bundle: Seq<char>,
    now_ms: i64,
    u: Seq<char>,
)
    requires
        answered.contacts == db.contacts,
    ensures
        ({
            let friend = befriended(answered, peer, bundle, now_ms);
            &&& db.contact(peer) is Some ==> friend.contact(peer) is Some && now_a_friend(
                db.contact(peer)->0,
                friend.contact(peer)->0,
                bundle,
            ) && friend.contact(peer)->0.endpoint_id == db.contact(peer)->0.endpoint_id
            &&& u != peer ==> friend.contact(u) == db.contact(u)
            &&& friend.requests == answered.requests
            &&& friend.conversations == answered.conversations
            &&& friend.members == answered.members
            &&& friend.messages == answered.messages
        }),
{
    let p = contact_is(peer);
    let f = contact_with_status("friend"@);
    let status = answered.set_contact_status(peer, "friend"@);
    lemma_first_row(db.contacts, p);
    lemma_first_row_updated(db.contacts, p, f);
    if u != peer {
        lemma_first_row_kept(db.contacts, p, f, contact_is(u));
    }
    if status.contact(peer) is Some {
        let told = ContactModel { endpoint_bundle: Some(bundle), ..status.contact(peer)->0 };
        lemma_first_row(status.contacts, p);
        law_stored_contact_is_found(status, told, now_ms, u);
    }
}

/// An answer closes the ask that it answers. If it was accepted, its sender is a friend who
/// can be reached as they say, and there is a direct conversation with them; if it was
/// declined, nothing else changes.
pub proof fn law_answer_closes_the_ask(
    before: DbModel,
    after: DbModel,
    from: Seq<char>,
    accepted: bool,
    bundle: Seq<char>,
    named: Seq<char>,
    fresh: Seq<char>,
    now_ms: i64,
    dm: Option<String>,
    u: Seq<char>,
)
    requires
        before.consistent(),
        takes_answer(before, after, from, accepted, bundle, named, fresh, now_ms, dm),
    ensures
        newest_is_closed(
            before.requests,
            after.requests,
            "out"@,
            from,
            if accepted {
                "accepted"@
            } else {
                "rejected"@
            },
        ),
        u != from ==> after.contact(u) == before.contact(u),
        accepted && before.contact(from) is Some ==> after.contact(from) is Some && now_a_friend(
            before.contact(from)->0,
            after.contact(from)->0,
            bundle,
        ),
        accepted ==> dm is Some,
        !accepted ==> dm is None && after == (DbModel { requests: after.requests, ..before }),
        after.messages == before.messages,
{
    reveal_strlit("pending");
    reveal_strlit("accepted");
    reveal_strlit("rejected");
    assert("pending"@.len() != "accepted"@.len());
    assert("pending"@.len() != "rejected"@.len());
    let status = if accepted {
        "accepted"@
    } else {
        "rejected"@
    };
    let request = choose|request: Option<FriendRequestModel>|
        {
            let answered = request_answered(before, request, accepted, now_ms);
            let friend = befriended(answered, from, bundle, now_ms);
            let id = before.shared_id(named, fresh);
            &&& #[trigger] newest_request(before.requests, open_request("out"@, from), request)
            &&& accepted ==> after == friend.ensure_dm(from, id, now_ms)
            &&& !accepted ==> after == answered
        };
    lemma_request_closed(before, request, "out"@, from, status, now_ms);
    let answered = request_answered(before, request, accepted, now_ms);
    lemma_befriended(before, answered, from, bundle, now_ms, u);
    let friend = befriended(answered, from, bundle, now_ms);
    assert(accepted ==> after.contacts == friend.contacts);
}

/// The same of an answer that came in by an envelope. The user is told who accepted or
/// declined.
pub proof fn law_arrived_answer_closes_the_ask(
    before: DbModel,
    after: DbModel,
    identity: IdentityModel,
    device: Seq<u8>,
    opened: OpenedModel,
    e: EnvelopeModel,
    accepted: bool,
    bundle: Seq<char>,
    offer_json: Seq<char>,
    endpoint: Seq<char>,
    fresh: Seq<char>,
    now_ms: i64,
    r: Result<OutcomeModel, Error>,
    u: Seq<char>,
)
    requires
        before.consistent(),
        opened.stage == Stage::FriendAnswer,
        opened_applied(
            before,
            after,
            identity,
            device,
            opened,
            e,
            Some(PayloadModel::FriendAnswer { from: opened.from, accepted, endpoint_bundle: bundle }),
            offer_json,
            endpoint,
            fresh,
            now_ms,
            r,
        ),
    ensures
        newest_is_closed(
            before.requests,
            after.requests,
            "out"@,
            opened.from,
            if accepted {
                "accepted"@
            } else {
                "rejected"@
            },
        ),
        u != opened.from ==> after.contact(u) == before.contact(u),
        accepted && before.contact(opened.from) is Some ==> after.contact(opened.from) is Some
            && now_a_friend(
            before.contact(opened.from)->0,
            after.contact(opened.from)->0,
            bundle,
        ) && after.contact(opened.from)->0.endpoint_id == Some(endpoint),
        !accepted ==> after == (DbModel { requests: after.requests, ..before }),
        r is Ok,
        r->Ok_0.changed,
        accepted ==> r->Ok_0.notify == Some(
            ("Friend added"@, "@"@ + opened.from + " accepted your request"@),
        ),
        !accepted ==> r->Ok_0.notify == Some(
            ("Request declined"@, "@"@ + opened.from + " declined"@),
        ),
        after.messages == before.messages,
{
    reveal_strlit("pending");
    reveal_strlit("accepted");
    reveal_strlit("rejected");
    assert("pending"@.len() != "accepted"@.len());
    assert("pending"@.len() != "rejected"@.len());
    let from = opened.from;
    let status = if accepted {
        "accepted"@
    } else {
        "rejected"@
    };
    let request = choose|request: Option<FriendRequestModel>|
        {
            let answered = request_answered(before, request, accepted, now_ms);
            let id = before.shared_id(crate::ids::uuid_text(e.conversation_id), fresh);
            &&& #[trigger] newest_request(before.requests, open_request("out"@, from), request)
            &&& accepted ==> after == befriended(answered, from, bundle, now_ms).ensure_dm(
                from,
                id,
                now_ms,
            ).endpoint_noted(from, endpoint, now_ms)
            &&& !accepted ==> after == answered
        };
    lemma_request_closed(before, request, "out"@, from, status, now_ms);
    let answered = request_answered(before, request, accepted, now_ms);
    lemma_befriended(before, answered, from, bundle, now_ms, u);
    let friend = befriended(answered, from, bundle, now_ms);
    let id = before.shared_id(crate::ids::uuid_text(e.conversation_id), fresh);
    let made = friend.ensure_dm(from, id, now_ms);
    assert(made.contacts == friend.contacts);
    lemma_first_row(made.contacts, contact_is(from));
    if accepted && made.contact(from) is Some {
        law_stored_contact_is_found(
            made,
            ContactModel { endpoint_id: Some(endpoint), ..made.contact(from)->0 },
            now_ms,
            u,
        );
    }
}

/// The status of the request at `at` has become this one, and nothing else of the requests
/// has changed.
pub open spec fn one_closed(
    before: Seq<RequestRowModel>,
    after: Seq<RequestRowModel>,
    at: int,
    status: Seq<char>,
) -> bool {
    &&& after.len() == before.len()
    &&& same_request(after[at].request, before[at].request)
    &&& after[at].request.status == status
    &&& forall|i: int| 0 <= i < before.len() && i != at ==> #[trigger] after[i] == before[i]
}

proof fn lemma_one_closed(db: DbModel, at: int, status: Seq<char>, now_ms: i64)
    requires
        db.consistent(),
        0 <= at < db.requests.len(),
    ensures
        one_closed(
            db.requests,
            db.set_friend_request_status(db.requests[at].request.id, status, now_ms).requests,
            at,
            status,
        ),
        db.requests[at].request.status == "pending"@ ==> first_row(
            db.requests,
            open_request_is(db.requests[at].request.id),
        ) == Some(db.requests[at]),
{
    let p = open_request_is(db.requests[at].request.id);
    assert forall|i: int| 0 <= i < db.requests.len() && i != at implies (
    #[trigger] db.requests[i]).request.id != db.requests[at].request.id by {
        if i < at {
            assert(request_key()(db.requests[i]) != request_key()(db.requests[at]));
        } else {
            assert(request_key()(db.requests[at]) != request_key()(db.requests[i]));
        }
    }
    lemma_first_row(db.requests, p);
    if db.requests[at].request.status == "pending"@ {
        assert(p(db.requests[at]));
        let row = first_row(db.requests, p)->0;
        let k: int = choose|k: int| 0 <= k < db.requests.len() && db.requests[k] == row;
        assert(k == at);
    }
}

/// Accepting an incoming request closes it, makes its sender a friend, and answers them that
/// it was accepted. Nothing else changes but that there is a direct conversation.
pub proof fn law_accepting_makes_a_friend(
    before: DbModel,
    after: DbModel,
    me: Seq<char>,
    bundle: Seq<char>,
    fresh: Seq<char>,
    now_ms: i64,
    r: Result<(String, Draft), Error>,
    at: int,
    u: Seq<char>,
)
    requires
        before.consistent(),
        0 <= at < before.requests.len(),
        accepts_request(
            before,
            after,
            me,
            bundle,
            before.requests[at].request.id,
            fresh,
            now_ms,
            r,
        ),
        before.requests[at].request.status == "pending"@,
    ensures
        before.requests[at].request.direction != "in"@ ==> r == Err::<(String, Draft), Error>(
            Error::NotIncoming,
        ) && after == before,
        before.requests[at].request.direction == "in"@ ==> {
            let peer = before.requests[at].request.peer_username;
            &&& one_closed(before.requests, after.requests, at, "accepted"@)
            &&& u != peer ==> after.contact(u) == before.contact(u)
            &&& before.contact(peer) is Some ==> after.contact(peer) == Some(
                ContactModel { status: "friend"@, ..before.contact(peer)->0 },
            )
            &&& after.messages == before.messages
            &&& before.contact(peer) is Some && before.contact(peer)->0.x25519_pubkey is Some
                && before.contact(peer)->0.x25519_pubkey->0.len() == 32 ==> {
                &&& r is Ok
                &&& r->Ok_0.1@.peer_username == peer
                &&& Some(r->Ok_0.1@.recipient) == before.contact(peer)->0.x25519_pubkey
                &&& r->Ok_0.1@.conversation_id == r->Ok_0.0@
                &&& r->Ok_0.1@.payload == (PayloadModel::FriendAnswer {
                    from: me,
                    accepted: true,
                    endpoint_bundle: bundle,
                })
            }
        },
{
    let peer = before.requests[at].request.peer_username;
    let p = contact_is(peer);
    let f = contact_with_status("friend"@);
    lemma_one_closed(before, at, "accepted"@, now_ms);
    lemma_first_row(before.contacts, p);
    lemma_first_row_updated(before.contacts, p, f);
    if u != peer {
        lemma_first_row_kept(before.contacts, p, f, contact_is(u));
    }
}

/// Rejecting a request closes it. Whoever was only pending is forgotten; a friend stays one.
pub proof fn law_rejecting_forgets_who_was_pending(
    before: DbModel,
    after: DbModel,
    now_ms: i64,
    r: Result<(), Error>,
    at: int,
    u: Seq<char>,
)
    requires
        before.consistent(),
        0 <= at < before.requests.len(),
        rejects_request(before, after, before.requests[at].request.id, now_ms, r),
        before.requests[at].request.status == "pending"@,
    ensures
        r is Ok,
        one_closed(before.requests, after.requests, at, "rejected"@),
        ({
            let request = before.requests[at].request;
            let peer = request.peer_username;
            &&& u != peer ==> after.contact(u) == before.contact(u)
            &&& request.direction == "in"@ && before.contact(peer) is Some && before.contact(
                peer,
            )->0.status == "pending"@ ==> after.contact(peer) is None
            &&& !(request.direction == "in"@ && before.contact(peer) is Some && before.contact(
                peer,
            )->0.status == "pending"@) ==> after.contact(peer) == before.contact(peer)
        }),
        after.messages == before.messages,
        after.conversations == before.conversations,
{
    let peer = before.requests[at].request.peer_username;
    lemma_one_closed(before, at, "rejected"@, now_ms);
    lemma_without(before.contacts, contact_is(peer));
    lemma_first_row(crate::table::without(before.contacts, contact_is(peer)), contact_is(peer));
    if u != peer {
        lemma_first_row_without(before.contacts, contact_is(peer), contact_is(u));
    }
}

/// The requests with one more, an open one; or as they were, if there was an open one.
pub open spec fn request_opened(
    before: Seq<RequestRowModel>,
    after: Seq<RequestRowModel>,
    direction: Seq<char>,
    peer: Seq<char>,
    display_name: Seq<char>,
    id: Seq<char>,
    now_ms: i64,
) -> bool {
    if exists|i: int| 0 <= i < before.len() && is_open((#[trigger] before[i]).request, direction, peer) {
        after == before
    } else {
        &&& after.len() == before.len() + 1
        &&& forall|i: int| 0 <= i < before.len() ==> #[trigger] after[i] == before[i]
        &&& is_open(after.last().request, direction, peer)
        &&& after.last().request.id == id
        &&& after.last().request.peer_display_name == display_name
        &&& after.last().request.created_at_ms == now_ms
    }
}

proof fn lemma_request_staged(
    db: DbModel,
    contact: ContactModel,
    direction: Seq<char>,
    id: Seq<char>,
    now_ms: i64,
    u: Seq<char>,
)
    requires
        forall|i: int| 0 <= i < db.requests.len() ==> (#[trigger] db.requests[i]).request.id != id,
    ensures
        ({
            let after = request_staged(db, contact, direction, id, now_ms);
            &&& request_opened(
                db.requests,
                after.requests,
                direction,
                contact.username,
                contact.display_name,
                id,
                now_ms,
            )
            &&& after.contact(contact.username) == Some(contact)
            &&& u != contact.username ==> after.contact(u) == db.contact(u)
            &&& after == (DbModel { contacts: after.contacts, requests: after.requests, ..db })
        }),
{
    law_stored_contact_is_found(db, contact, now_ms, u);
    let p = request_is(id);
    assert(!some_row(db.requests, p));
    let open = open_request(direction, contact.username);
    assert forall|i: int| 0 <= i < db.requests.len() implies open(db.requests[i].request)
        == is_open((#[trigger] db.requests[i]).request, direction, contact.username) by {
    }
}

/// An ask that can be taken opens a request of its sender's, who becomes a pending contact
/// with the keys and the address that the ask gives.
pub proof fn law_ask_opens_a_request(
    before: DbModel,
    after: DbModel,
    from: Seq<char>,
    display_name: Seq<char>,
    ed_pubkey_hex: Seq<char>,
    x_pubkey_hex: Seq<char>,
    endpoint_bundle: Seq<char>,
    fresh: Seq<char>,
    now_ms: i64,
    row: Result<FriendRequest, Error>,
    u: Seq<char>,
)
    requires
        takes_ask(
            before,
            after,
            PayloadModel::FriendAsk {
                from,
                display_name,
                ed_pubkey_hex,
                x_pubkey_hex,
                endpoint_bundle,
            },
            fresh,
            now_ms,
            row,
        ),
        forall|i: int|
            0 <= i < before.requests.len() ==> (#[trigger] before.requests[i]).request.id != fresh,
    ensures
        row is Err ==> after == before,
        before.contact(from) is Some && (before.contact(from)->0.status == "friend"@
            || before.contact(from)->0.status == "blocked"@) ==> row == Err::<
            FriendRequest,
            Error,
        >(Error::AlreadyDecided),
        before.contact(from) is None && hex_decoded_32(x_pubkey_hex) is Ok && hex_decoded_32(
            ed_pubkey_hex,
        ) is Ok ==> row is Ok,
        row is Ok ==> {
            &&& hex_decoded_32(x_pubkey_hex) is Ok && hex_decoded_32(ed_pubkey_hex) is Ok
            &&& request_opened(
                before.requests,
                after.requests,
                "in"@,
                from,
                display_name,
                fresh,
                now_ms,
            )
            &&& is_open(row->Ok_0@, "in"@, from)
            &&& after.contact(from) is Some
            &&& after.contact(from)->0.username == from
            &&& after.contact(from)->0.display_name == display_name
            &&& after.contact(from)->0.x25519_pubkey == Some(hex_decoded_32(x_pubkey_hex)->Ok_0)
            &&& after.contact(from)->0.ed_pubkey == Some(hex_decoded_32(ed_pubkey_hex)->Ok_0)
            &&& after.contact(from)->0.status == "pending"@
            &&& endpoint_bundle.len() > 0 ==> after.contact(from)->0.endpoint_bundle == Some(
                endpoint_bundle,
            )
            &&& before.contact(from) is Some ==> (before.contact(from)->0.x25519_pubkey is None
                || before.contact(from)->0.x25519_pubkey == after.contact(from)->0.x25519_pubkey)
                && (before.contact(from)->0.ed_pubkey is None || before.contact(from)->0.ed_pubkey
                == after.contact(from)->0.ed_pubkey)
            &&& u != from ==> after.contact(u) == before.contact(u)
            &&& after.messages == before.messages
            &&& after.conversations == before.conversations
        },
{
    let ask = PayloadModel::FriendAsk {
        from,
        display_name,
        ed_pubkey_hex,
        x_pubkey_hex,
        endpoint_bundle,
    };
    match ask_contact(before, ask) {
        Ok(contact) => {
            lemma_request_staged(before, contact, "in"@, fresh, now_ms, u);
        },
        Err(_) => {},
    }
}

/// An invite that can be imported makes its owner a contact with the keys and the address of
/// the invite, and opens an outgoing request to them. Names are kept trimmed and in lower
/// case.
pub proof fn law_invite_opens_a_request(
    before: DbModel,
    after: DbModel,
    invite: InviteModel,
    fresh: Seq<char>,
    now_ms: i64,
    r: Result<bool, Error>,
    u: Seq<char>,
)
    requires
        invite_imported(before, after, invite, fresh, now_ms, r),
        forall|i: int|
            0 <= i < before.requests.len() ==> (#[trigger] before.requests[i]).request.id != fresh,
    ensures
        r is Err ==> after == before,
        r is Ok <==> encode_utf8(lowered(trimmed(invite.username))).len() >= 3 && hex_decoded_32(
            invite.x_pubkey_hex,
        ) is Ok && hex_decoded_32(invite.ed_pubkey_hex) is Ok,
        r is Ok ==> {
            let name = lowered(trimmed(invite.username));
            &&& r->Ok_0 == (before.contact(name) is None)
            &&& request_opened(
                before.requests,
                after.requests,
                "out"@,
                name,
                invite.display_name,
                fresh,
                now_ms,
            )
            &&& after.contact(name) is Some
            &&& after.contact(name)->0.username == name
            &&& after.contact(name)->0.display_name == invite.display_name
            &&& after.contact(name)->0.x25519_pubkey == Some(
                hex_decoded_32(invite.x_pubkey_hex)->Ok_0,
            )
            &&& after.contact(name)->0.ed_pubkey == Some(
                hex_decoded_32(invite.ed_pubkey_hex)->Ok_0,
            )
            &&& after.contact(name)->0.endpoint_id == Some(invite.endpoint_id)
            &&& after.contact(name)->0.endpoint_bundle == Some(invite.endpoint_bundle)
            &&& after.contact(name)->0.status == "requested"@
            &&& u != name ==> after.contact(u) == before.contact(u)
            &&& after.messages == before.messages
            &&& after.conversations == before.conversations
        },
{
    let name = invite_name(invite);
    if r is Ok {
        let contact = crate::friends::invite_contact(invite)->Ok_0;
        lemma_request_staged(before, contact, "out"@, fresh, now_ms, u);
    }
}

/// Whoever is blocked is a blocked contact, known before or not, with the keys that were
/// known; nobody else is touched. Being made a friend again undoes it.
pub proof fn law_blocking_blocks_one(db: DbModel, name: Seq<char>, now_ms: i64, u: Seq<char>)
    ensures
        ({
            let after = db.blocked(name, now_ms);
            let again = after.set_contact_status(name, "friend"@);
            &&& after.contact(name) is Some
            &&& after.contact(name)->0.status == "blocked"@
            &&& after.contact(name)->0.username == name
            &&& db.contact(name) is Some ==> after.contact(name) == Some(
                ContactModel { status: "blocked"@, ..db.contact(name)->0 },
            )
            &&& db.contact(name) is None ==> after.contact(name)->0.x25519_pubkey is None
                && after.contact(name)->0.ed_pubkey is None
            &&& again.contact(name) == Some(
                ContactModel { status: "friend"@, ..after.contact(name)->0 },
            )
            &&& u != name ==> after.contact(u) == db.contact(u) && again.contact(u) == db.contact(u)
            &&& after == (DbModel { contacts: after.contacts, ..db })
        }),
{
    let p = contact_is(name);
    let after = db.blocked(name, now_ms);
    lemma_first_row(db.contacts, p);
    lemma_first_row_updated(db.contacts, p, contact_with_status("blocked"@));
    law_stored_contact_is_found(db, crate::friends::stranger_blocked(name), now_ms, u);
    if u != name {
        lemma_first_row_kept(db.contacts, p, contact_with_status("blocked"@), contact_is(u));
        lemma_first_row_kept(after.contacts, p, contact_with_status("friend"@), contact_is(u));
    }
    lemma_first_row(after.contacts, p);
    lemma_first_row_updated(after.contacts, p, contact_with_status("friend"@));
}

/// Whoever is removed is no contact any more; nobody else is touched.
pub proof fn law_removing_forgets_one(db: DbModel, name: Seq<char>, u: Seq<char>)
    ensures
        db.remove_contact(name).contact(name) is None,
        u != name ==> db.remove_contact(name).contact(u) == db.contact(u),
        db.remove_contact(name) == (DbModel { contacts: db.remove_contact(name).contacts, ..db }),
{
    let p = contact_is(name);
    lemma_without(db.contacts, p);
    lemma_first_row(db.remove_contact(name).contacts, p);
    if u != name {
        lemma_first_row_without(db.contacts, p, contact_is(u));
    }
}

/// An ask that came in by an envelope opens a request of its sender's, who becomes a pending
/// contact with the keys that the ask gives and can be reached where they were heard from.
pub proof fn law_arrived_ask_opens_a_request(
    before: DbModel,
    after: DbModel,
    identity: IdentityModel,
    device: Seq<u8>,
    opened: OpenedModel,
    e: EnvelopeModel,
    display_name: Seq<char>,
    ed_pubkey_hex: Seq<char>,
    x_pubkey_hex: Seq<char>,
    endpoint_bundle: Seq<char>,
    offer_json: Seq<char>,
    endpoint: Seq<char>,
    fresh: Seq<char>,
    now_ms: i64,
    r: Result<OutcomeModel, Error>,
    u: Seq<char>,
)
    requires
        opened.stage == Stage::FriendAsk,
        opened_applied(
            before,
            after,
            identity,
            device,
            opened,
            e,
            Some(
                PayloadModel::FriendAsk {
                    from: opened.from,
                    display_name,
                    ed_pubkey_hex,
                    x_pubkey_hex,
                    endpoint_bundle,
                },
            ),
            offer_json,
            endpoint,
            fresh,
            now_ms,
            r,
        ),
        r is Ok,
        forall|i: int|
            0 <= i < before.requests.len() ==> (#[trigger] before.requests[i]).request.id != fresh,
    ensures
        request_opened(
            before.requests,
            after.requests,
            "in"@,
            opened.from,
            display_name,
            fresh,
            now_ms,
        ),
        hex_decoded_32(x_pubkey_hex) is Ok && hex_decoded_32(ed_pubkey_hex) is Ok,
        ({
            let c = after.contact(opened.from);
            &&& c is Some
            &&& c->0.username == opened.from
            &&& c->0.display_name == display_name
            &&& c->0.x25519_pubkey == Some(hex_decoded_32(x_pubkey_hex)->Ok_0)
            &&& c->0.ed_pubkey == Some(hex_decoded_32(ed_pubkey_hex)->Ok_0)
            &&& c->0.status == "pending"@
            &&& c->0.endpoint_id == Some(endpoint)
            &&& endpoint_bundle.len() > 0 ==> c->0.endpoint_bundle == Some(endpoint_bundle)
        }),
        u != opened.from ==> after.contact(u) == before.contact(u),
        after.messages == before.messages,
        after.conversations == before.conversations,
        r->Ok_0.changed,
        r->Ok_0.notify == Some(("Friend request"@, "@"@ + opened.from + " wants to chat"@)),
{
    let from = opened.from;
    let ask = PayloadModel::FriendAsk {
        from,
        display_name,
        ed_pubkey_hex,
        x_pubkey_hex,
        endpoint_bundle,
    };
    let contact = ask_contact(before, ask)->Ok_0;
    assert(ask_contact(before, ask) is Ok);
    lemma_request_staged(before, contact, "in"@, fresh, now_ms, u);
    let staged = request_staged(before, contact, "in"@, fresh, now_ms);
    let bundled = staged.bundle_noted(from, endpoint_bundle, now_ms);
    law_stored_contact_is_found(
        staged,
        ContactModel { endpoint_bundle: Some(endpoint_bundle), ..contact },
        now_ms,
        u,
    );
    assert(bundled.contact(from) is Some);
    crate::promises::routing::law_endpoint_is_noted(bundled, from, endpoint, now_ms, u);
}

/// An ask says who asks, by which keys they are known and where they can be reached. It is
/// for the key of the person asked, who must be known and not blocked.
pub proof fn law_asks_say_who_asks(
    db: DbModel,
    identity: IdentityModel,
    me: Seq<char>,
    display_name: Seq<char>,
    bundle: Seq<char>,
    peer: Seq<char>,
)
    ensures
        ({
            let d = crate::friends::ask_draft(db, identity, me, display_name, bundle, peer);
            &&& db.contact(peer) is None ==> d == Err::<crate::friends::DraftModel, Error>(
                Error::UnknownContact,
            )
            &&& db.contact(peer) is Some && db.contact(peer)->0.status == "blocked"@ ==> d == Err::<
                crate::friends::DraftModel,
                Error,
            >(Error::UserBlocked)
            &&& db.contact(peer) is Some && db.contact(peer)->0.status != "blocked"@ && db.contact(
                peer,
            )->0.x25519_pubkey is Some && db.contact(peer)->0.x25519_pubkey->0.len() == 32 ==> {
                &&& d is Ok
                &&& d->Ok_0.peer_username == peer
                &&& Some(d->Ok_0.recipient) == db.contact(peer)->0.x25519_pubkey
                &&& d->Ok_0.context == "friend-ask:"@ + me + ">"@ + peer
                &&& d->Ok_0.payload is FriendAsk
                &&& d->Ok_0.payload->FriendAsk_from == me
                &&& d->Ok_0.payload->FriendAsk_display_name == display_name
                &&& d->Ok_0.payload->FriendAsk_ed_pubkey_hex == crate::bytes::hex(
                    crate::identity::ed25519_public(identity.ed_secret),
                )
                &&& d->Ok_0.payload->FriendAsk_x_pubkey_hex == crate::bytes::hex(
                    crate::crypto::x25519_public(identity.x_secret),
                )
                &&& d->Ok_0.payload->FriendAsk_endpoint_bundle == bundle
            }
        }),
{
}

/// A stashed handshake that could be carried out is off the stash, whatever else it did; one
/// that could not stays for another time.
pub proof fn law_tried_handshake_leaves_the_stash(
    before: DbModel,
    after: DbModel,
    from: Seq<char>,
    e: EnvelopeModel,
    payload: PayloadModel,
    item: crate::records::StashedEnvelopeModel,
    fresh: Seq<char>,
    now_ms: i64,
    r: Result<OutcomeModel, Error>,
)
    requires
        crate::control::stashed_applied(
            before,
            after,
            from,
            e,
            payload,
            item,
            fresh,
            now_ms,
            r,
        ),
    ensures
        r is Ok ==> crate::promises::store::left_over(
            before.stash,
            after.stash,
            |s: crate::records::StashModel| s.message_id == item.message_id,
        ),
        r is Err ==> after.stash == before.stash,
        after.messages == before.messages,
{
    let mid = choose|mid: DbModel|
        {
            &&& #[trigger] crate::control::handshake_applied(
                before,
                mid,
                from,
                e,
                payload,
                item.endpoint_id,
                fresh,
                now_ms,
                r,
            )
            &&& after == if r is Ok {
                mid.unstash(item.message_id)
            } else {
                mid
            }
        };
    assert(mid.stash == before.stash);
    crate::promises::store::lemma_left_over(
        before.stash,
        crate::database::model::stash_is(item.message_id),
    );
}

/// An invite tells who invites, and under which keys and at which address they are reached.
pub proof fn law_invite_tells_who(
    username: Seq<char>,
    display_name: Seq<char>,
    identity: IdentityModel,
    endpoint_id: Seq<char>,
    endpoint_bundle: Seq<char>,
)
    ensures
        ({
            let invite = crate::friends::invite_of(
                username,
                display_name,
                identity,
                endpoint_id,
                endpoint_bundle,
            );
            &&& invite.username == username
            &&& invite.display_name == display_name
            &&& invite.ed_pubkey_hex == crate::bytes::hex(
                crate::identity::ed25519_public(identity.ed_secret),
            )
            &&& invite.x_pubkey_hex == crate::bytes::hex(
                crate::crypto::x25519_public(identity.x_secret),
            )
            &&& invite.endpoint_id == endpoint_id
            &&& invite.endpoint_bundle == endpoint_bundle
        }),
{
}

/// Whoever is unblocked is a friend, with the keys that were known of them; nobody else is
/// touched. Of someone who is no contact nothing changes.
pub proof fn law_unblocking_befriends_one(
    before: DbModel,
    after: DbModel,
    name: Seq<char>,
    r: Result<(), Error>,
    u: Seq<char>,
)
    requires
        crate::friends::unblocked(before, after, name, r),
    ensures
        before.contact(name) is None ==> r == Err::<(), Error>(Error::NotInList) && after
            == before,
        before.contact(name) is Some ==> r is Ok && after.contact(name) == Some(
            ContactModel { status: "friend"@, ..before.contact(name)->0 },
        ),
        u != name ==> after.contact(u) == before.contact(u),
        after == (DbModel { contacts: after.contacts, ..before }),
{
    let p = contact_is(name);
    lemma_first_row(before.contacts, p);
    lemma_first_row_updated(before.contacts, p, contact_with_status("friend"@));
    if u != name {
        lemma_first_row_kept(before.contacts, p, contact_with_status("friend"@), contact_is(u));
    }
}

/// A direct conversation with someone.
pub open spec fn direct_with(db: DbModel, id: Seq<char>, peer: Seq<char>) -> bool {
    &&& belongs(db, id, peer)
    &&& exists|i: int|
        0 <= i < db.conversations.len() && (#[trigger] db.conversations[i]).id == id
            && db.conversations[i].kind == "dm"@
}

/// Nobody's place in a conversation has changed, but that of someone in one.
pub open spec fn nobody_else_moved(
    before: DbModel,
    after: DbModel,
    id: Seq<char>,
    peer: Seq<char>,
) -> bool {
    forall|c: Seq<char>, u: Seq<char>|
        !(c == id && u == peer) ==> (#[trigger] belongs(after, c, u) <==> belongs(before, c, u))
}

/// There is a direct conversation with a friend: the one that there was, or a new one under
/// the id that was given; nobody else is moved.
pub proof fn law_direct_conversation_is_there(
    db: DbModel,
    peer: Seq<char>,
    fresh: Seq<char>,
    now_ms: i64,
)
    requires
        !stored(db, fresh),
    ensures
        ({
            let after = db.ensure_dm(peer, fresh, now_ms);
            let id = db.dm_id(peer, fresh);
            &&& direct_with(after, id, peer)
            &&& (exists|c: Seq<char>| #[trigger] direct_with(db, c, peer)) ==> after == db
            &&& (forall|c: Seq<char>| !#[trigger] direct_with(db, c, peer)) ==> {
                &&& id == fresh
                &&& after.conversations.len() == db.conversations.len() + 1
                &&& after.conversations.last().id == fresh
                &&& after.conversations.last().kind == "dm"@
                &&& after.conversations.drop_last() == db.conversations
            }
            &&& nobody_else_moved(db, after, id, peer)
            &&& after == (DbModel {
                conversations: after.conversations,
                members: after.members,
                ..db
            })
        }),
{
    let p = crate::database::model::dm_with(db.members, peer);
    let after = db.ensure_dm(peer, fresh, now_ms);
    let id = db.dm_id(peer, fresh);
    lemma_first_row(db.conversations, p);
    if db.dm_with(peer) is Some {
        let i: int = choose|i: int|
            0 <= i < db.conversations.len() && db.conversations[i].id == id && p(
                #[trigger] db.conversations[i],
            );
        lemma_belongs(db, id, peer);
        assert(db.conversations[i].id == id && db.conversations[i].kind == "dm"@);
        assert(direct_with(db, id, peer));
    } else {
        assert forall|c: Seq<char>| !#[trigger] direct_with(db, c, peer) by {
            if direct_with(db, c, peer) {
                let i: int = choose|i: int|
                    0 <= i < db.conversations.len() && (#[trigger] db.conversations[i]).id == c
                        && db.conversations[i].kind == "dm"@;
                lemma_belongs(db, c, peer);
                assert(p(db.conversations[i]));
            }
        }
        crate::promises::store::law_conversation_is_made_or_renamed(
            db,
            fresh,
            "dm"@,
            ""@,
            seq![peer],
            now_ms,
        );
        crate::promises::groups::law_created_members_are_added(
            db,
            fresh,
            "dm"@,
            ""@,
            seq![peer],
            now_ms,
        );
        assert(seq![peer].contains(peer)) by {
            assert(seq![peer][0] == peer);
        }
        assert(belongs(after, fresh, peer));
        let n = after.conversations.len() - 1;
        assert(after.conversations[n].id == fresh && after.conversations[n].kind == "dm"@);
        assert(after.conversations.drop_last() =~= db.conversations);
        assert(direct_with(after, fresh, peer));
        assert forall|c: Seq<char>, u: Seq<char>| !(c == id && u == peer) implies (
        #[trigger] belongs(after, c, u) <==> belongs(db, c, u)) by {
            if seq![peer].contains(u) {
                assert(u == peer);
            }
        }
    }
}

/// Once a friend has accepted, there is a direct conversation with them, the one that there
/// was, or one under the id that the friend named. Where that id is taken, it gets one of its
/// own.
pub proof fn law_answer_opens_the_named_conversation(
    before: DbModel,
    after: DbModel,
    from: Seq<char>,
    bundle: Seq<char>,
    named: Seq<char>,
    fresh: Seq<char>,
    now_ms: i64,
    dm: Option<String>,
)
    requires
        takes_answer(before, after, from, true, bundle, named, fresh, now_ms, dm),
        !stored(before, fresh),
    ensures
        dm is Some,
        direct_with(after, dm->0@, from),
        nobody_else_moved(before, after, dm->0@, from),
        (exists|c: Seq<char>| #[trigger] direct_with(before, c, from)) ==> after.conversations
            == before.conversations,
        (forall|c: Seq<char>| !#[trigger] direct_with(before, c, from)) ==> {
            &&& dm->0@ == if stored(before, named) {
                fresh
            } else {
                named
            }
            &&& after.conversations.len() == before.conversations.len() + 1
            &&& after.conversations.last().id == dm->0@
            &&& after.conversations.drop_last() == before.conversations
        },
{
    let request = choose|request: Option<FriendRequestModel>|
        {
            let answered = request_answered(before, request, true, now_ms);
            let friend = befriended(answered, from, bundle, now_ms);
            let id = before.shared_id(named, fresh);
            &&& #[trigger] newest_request(before.requests, open_request("out"@, from), request)
            &&& dm is Some && dm->0@ == friend.dm_id(from, id) && after == friend.ensure_dm(
                from,
                id,
                now_ms,
            )
        };
    let answered = request_answered(before, request, true, now_ms);
    let friend = befriended(answered, from, bundle, now_ms);
    let id = before.shared_id(named, fresh);
    assert(friend.conversations == before.conversations && friend.members == before.members);
    crate::promises::sending::lemma_stored(before, named);
    assert(!stored(before, id));
    assert(!stored(friend, id));
    law_direct_conversation_is_there(friend, from, id, now_ms);
    assert forall|c: Seq<char>|
        #![trigger direct_with(before, c, from)]
        #![trigger direct_with(friend, c, from)]
        direct_with(before, c, from) == direct_with(friend, c, from) by {
        lemma_belongs(before, c, from);
        lemma_belongs(friend, c, from);
    }
    assert forall|c: Seq<char>, u: Seq<char>|
        #![trigger belongs(before, c, u)]
        #![trigger belongs(friend, c, u)]
        belongs(before, c, u) == belongs(friend, c, u) by {
        lemma_belongs(before, c, u);
        lemma_belongs(friend, c, u);
    }
}

/// Once a request was accepted, there is a direct conversation with who asked.
pub proof fn law_accepting_opens_a_conversation(
    before: DbModel,
    after: DbModel,
    me: Seq<char>,
    bundle: Seq<char>,
    fresh: Seq<char>,
    now_ms: i64,
    r: Result<(String, Draft), Error>,
    at: int,
)
    requires
        before.consistent(),
        0 <= at < before.requests.len(),
        accepts_request(
            before,
            after,
            me,
            bundle,
            before.requests[at].request.id,
            fresh,
            now_ms,
            r,
        ),
        r is Ok,
        !stored(before, fresh),
    ensures
        ({
            let peer = before.requests[at].request.peer_username;
            &&& direct_with(after, r->Ok_0.0@, peer)
            &&& nobody_else_moved(before, after, r->Ok_0.0@, peer)
            &&& (exists|c: Seq<char>| #[trigger] direct_with(before, c, peer))
                ==> after.conversations == before.conversations
            &&& (forall|c: Seq<char>| !#[trigger] direct_with(before, c, peer)) ==> {
                &&& r->Ok_0.0@ == fresh
                &&& after.conversations.len() == before.conversations.len() + 1
                &&& after.conversations.last().id == fresh
                &&& after.conversations.drop_last() == before.conversations
            }
        }),
{
    let peer = before.requests[at].request.peer_username;
    let p = open_request_is(before.requests[at].request.id);
    lemma_first_row(before.requests, p);
    let row = first_row(before.requests, p)->0;
    let k: int = choose|k: int| 0 <= k < before.requests.len() && before.requests[k] == row;
    assert(request_key()(before.requests[k]) == request_key()(before.requests[at]));
    assert(k == at);
    let friend = before.set_contact_status(peer, "friend"@).set_friend_request_status(
        row.request.id,
        "accepted"@,
        now_ms,
    );
    assert(!stored(friend, fresh));
    law_direct_conversation_is_there(friend, peer, fresh, now_ms);
    assert forall|c: Seq<char>|
        #![trigger direct_with(before, c, peer)]
        #![trigger direct_with(friend, c, peer)]
        direct_with(before, c, peer) == direct_with(friend, c, peer) by {
        lemma_belongs(before, c, peer);
        lemma_belongs(friend, c, peer);
    }
    assert forall|c: Seq<char>, u: Seq<char>|
        #![trigger belongs(before, c, u)]
        #![trigger belongs(friend, c, u)]
        belongs(before, c, u) == belongs(friend, c, u) by {
        lemma_belongs(before, c, u);
        lemma_belongs(friend, c, u);
    }
}

/// A stashed handshake is only opened if the contact that is tried signed it.
pub proof fn law_stashed_must_be_signed(
    secret: Seq<u8>,
    me: Seq<char>,
    contact: ContactModel,
    e: EnvelopeModel,
)
    ensures
        crate::control::stashed_opened(secret, me, contact, e) is Ok ==> contact.ed_pubkey is Some
            && contact.ed_pubkey->0.len() == 32 && crate::envelope::envelope_checked(
            contact.ed_pubkey->0,
            e,
        ) is Ok && (e.message_type == crate::protocol::MessageType::FriendRequest
            || e.message_type == crate::protocol::MessageType::FriendResponse),
        contact.ed_pubkey is None ==> crate::control::stashed_opened(secret, me, contact, e)
            == Err::<Seq<u8>, Error>(Error::BadSigningKey),
{
}

} // verus!
