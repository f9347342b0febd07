//! Friends: invites, asks, answers, blocking.
//!
//! An invite carries a person's signing and encryption keys. Importing one is
//! trust on first use: the user is shown the name and a fingerprint of the key
//! and confirms them out of band before anything sensitive is sent.

use vstd::prelude::*;
use vstd::string::*;
use vstd::utf8::*;

use crate::bytes::{
    array_32, base64, base64_decoded, base64_url, hex, hex_decode_32, hex_decoded_32, hex_encode,
    law_base64_round_trip, unbase64_url,
};
use crate::crypto::{dm_opened, open_dm, opened_view, seal_dm, x25519_public};
use crate::database::model::{
    contact_is, contact_with_status, conversation_is, dm_with, joined, member_is,
};
use crate::database::{Database, DbModel};
use crate::envelope::{
    box_of, build_envelope, carried, context_between, conversation_uuid, envelope_checked,
    envelope_of, pair_context, OutboundWork,
};
use crate::error::Error;
use crate::identity::{ed25519_public, DeviceIdentity, IdentityModel};
use crate::ids::{uuid_parsed, uuid_text, Uuid};
use crate::payload::{ChatPayload, PayloadModel};
use crate::records::{
    Contact, ContactModel, FriendRequest, FriendRequestModel, RequestRow, RequestRowModel,
};
use crate::table::{
    find_row, first_row, lemma_first_row, lemma_first_row_pushed, lemma_first_row_updated, some_row,
    Row,
};
use crate::text::{
    bytes_eq, chars_of, copy_bytes, lowered, opt_bytes, string_of, text_eq, texts, to_lower, trim,
    trimmed,
};

verus! {

// -- invites ----------------------------------------------------------------------

/// A self-contained invite, handed over out of band: who someone is and where
/// they can be reached.
#[derive(Debug, Clone)]
pub struct InviteCode {
    pub username: String,
    pub display_name: String,
    pub ed_pubkey_hex: String,
    pub x_pubkey_hex: String,
    pub endpoint_id: String,
    pub endpoint_bundle: String,
}

/// What an [`InviteCode`] holds.
pub struct InviteModel {
    pub username: Seq<char>,
    pub display_name: Seq<char>,
    pub ed_pubkey_hex: Seq<char>,
    pub x_pubkey_hex: Seq<char>,
    pub endpoint_id: Seq<char>,
    pub endpoint_bundle: Seq<char>,
}

impl View for InviteCode {
    type V = InviteModel;

    open spec fn view(&self) -> InviteModel {
        InviteModel {
            username: self.username@,
            display_name: self.display_name@,
            ed_pubkey_hex: self.ed_pubkey_hex@,
            x_pubkey_hex: self.x_pubkey_hex@,
            endpoint_id: self.endpoint_id@,
            endpoint_bundle: self.endpoint_bundle@,
        }
    }
}

/// What every invite code starts with.
pub const INVITE_PREFIX: &'static str = "hearth1";

/// The code of an invite whose JSON is given.
pub open spec fn invite_text(json: Seq<u8>) -> Seq<char> {
    INVITE_PREFIX@ + base64(json)
}

/// The JSON that an invite code holds.
pub open spec fn invite_json(code: Seq<char>) -> Result<Seq<u8>, Error> {
    let n = INVITE_PREFIX@.len() as int;
    if code.len() < n || code.take(n) != INVITE_PREFIX@ {
        Err(Error::NotAnInvite)
    } else {
        base64_decoded(code.skip(n))
    }
}

impl InviteCode {
    /// The code of the invite with the given JSON.
    pub fn encode(json: &[u8]) -> (code: String)
        ensures
            code@ == invite_text(json@),
    {
        let mut code = INVITE_PREFIX.to_owned();
        let tail = base64_url(json);
        code.append(tail.as_str());
        code
    }

    /// The JSON of the invite that a code holds.
    pub fn decode(code: &str) -> (json: Result<Vec<u8>, Error>)
        ensures
            opened_view(json) == invite_json(code@),
    {
        let chars = chars_of(code);
        let start = chars_of(INVITE_PREFIX);
        let n: usize = start.len();
        if chars.len() < n {
            return Err(Error::NotAnInvite);
        }
        let head = string_of(vstd::slice::slice_subrange(chars.as_slice(), 0, n));
        assert(head@ =~= code@.take(n as int));
        if !text_eq(head.as_str(), INVITE_PREFIX) {
            return Err(Error::NotAnInvite);
        }
        let tail = string_of(vstd::slice::slice_subrange(chars.as_slice(), n, chars.len()));
        assert(tail@ =~= code@.skip(n as int));
        unbase64_url(tail.as_str())
    }
}

/// A code gives back the JSON that it was made of.
pub proof fn law_invite_round_trip(json: Seq<u8>)
    ensures
        invite_json(invite_text(json)) == Ok::<Seq<u8>, Error>(json),
{
    let code = invite_text(json);
    let n = INVITE_PREFIX@.len() as int;
    assert(code.take(n) =~= INVITE_PREFIX@);
    assert(code.skip(n) =~= base64(json));
    law_base64_round_trip(json);
}

/// The invite of this user.
pub open spec fn invite_of(
    username: Seq<char>,
    display_name: Seq<char>,
    identity: IdentityModel,
    endpoint_id: Seq<char>,
    endpoint_bundle: Seq<char>,
) -> InviteModel {
    InviteModel {
        username,
        display_name,
        ed_pubkey_hex: hex(ed25519_public(identity.ed_secret)),
        x_pubkey_hex: hex(x25519_public(identity.x_secret)),
        endpoint_id,
        endpoint_bundle,
    }
}

/// This device's invite.
pub fn my_invite_code(
    username: &str,
    display_name: &str,
    identity: &DeviceIdentity,
    endpoint_id: &str,
    endpoint_bundle: &str,
) -> (invite: InviteCode)
    ensures
        invite@ == invite_of(
            username@,
            display_name@,
            identity@,
            endpoint_id@,
            endpoint_bundle@,
        ),

{
    let public = identity.public();
    InviteCode {
        username: username.to_owned(),
        display_name: display_name.to_owned(),
        ed_pubkey_hex: hex_encode(public.ed_pubkey.as_slice()),
        x_pubkey_hex: hex_encode(public.x_pubkey.as_slice()),
        endpoint_id: endpoint_id.to_owned(),
        endpoint_bundle: endpoint_bundle.to_owned(),
    }
}

// -- requests ---------------------------------------------------------------------

/// The open requests in one direction with one person.
pub open spec fn open_request(
    direction: Seq<char>,
    peer: Seq<char>,
) -> spec_fn(FriendRequestModel) -> bool {
    |r: FriendRequestModel|
        r.status == "pending"@ && r.direction == direction && r.peer_username == peer
}

/// The open request with an id.
pub open spec fn open_request_is(id: Seq<char>) -> spec_fn(RequestRowModel) -> bool {
    |r: RequestRowModel| r.request.status == "pending"@ && r.request.id == id
}

/// `found` is a newest one of the requests that satisfy `p`, if there is one.
pub open spec fn newest_request(
    rows: Seq<RequestRowModel>,
    p: spec_fn(FriendRequestModel) -> bool,
    found: Option<FriendRequestModel>,
) -> bool {
    match found {
        Some(r) => {
            &&& p(r)
            &&& exists|i: int| 0 <= i < rows.len() && (#[trigger] rows[i]).request == r
            &&& forall|i: int|
                0 <= i < rows.len() && p((#[trigger] rows[i]).request)
                    ==> rows[i].request.created_at_ms <= r.created_at_ms
        },
        None => forall|i: int| 0 <= i < rows.len() ==> !p((#[trigger] rows[i]).request),
    }
}

/// Some open request in this direction with this person is stored.
pub open spec fn has_open_request(db: DbModel, direction: Seq<char>, peer: Seq<char>) -> bool {
    exists|i: int|
        0 <= i < db.requests.len() && open_request(direction, peer)(
            (#[trigger] db.requests[i]).request,
        )
}

/// The request that was found.
pub open spec fn opt_request(r: Option<FriendRequest>) -> Option<FriendRequestModel> {
    match r {
        Some(r) => Some(r@),
        None => None,
    }
}

/// The newest open request in one direction with one person.
pub fn find_open_request(db: &Database, direction: &str, peer: &str) -> (found: Option<FriendRequest>)
    ensures
        newest_request(db@.requests, open_request(direction@, peer@), opt_request(found)),
{
    let ghost rows = db@.requests;
    let ghost p = open_request(direction@, peer@);
    let mut best: Option<usize> = None;
    let mut i: usize = 0;
    while i < db.requests.len()
        invariant
            i <= db.requests.len(),
            rows == db@.requests,
            p == open_request(direction@, peer@),
            best is None ==> forall|j: int| 0 <= j < i ==> !p((#[trigger] rows[j]).request),
            best is Some ==> best->0 < i && p(rows[best->0 as int].request),
            best is Some ==> forall|j: int|
                0 <= j < i && p((#[trigger] rows[j]).request) ==> rows[j].request.created_at_ms
                    <= rows[best->0 as int].request.created_at_ms,
        decreases db.requests.len() - i,
    {
        let r = &db.requests[i].request;
        assert(rows[i as int].request == r@);
        if text_eq(r.status.as_str(), "pending") && text_eq(r.direction.as_str(), direction)
            && text_eq(r.peer_username.as_str(), peer) {
            assert(p(rows[i as int].request));
            match best {
                Some(b) => {
                    if r.created_at_ms > db.requests[b].request.created_at_ms {
                        best = Some(i);
                    }
                },
                None => {
                    best = Some(i);
                },
            }
        }
        i += 1;
    }
    match best {
        Some(b) => {
            assert(rows[b as int].request == db.requests@[b as int].request@);
            Some(db.requests[b].request.duplicate())
        },
        None => None,
    }
}

/// The open request with an id.
pub fn find_open_request_by_id(db: &Database, id: &str) -> (found: Option<FriendRequest>)
    ensures
        match (found, first_row(db@.requests, open_request_is(id@))) {
            (Some(r), Some(m)) => r@ == m.request,
            (None, None) => true,
            _ => false,
        },
{
    let test = |r: &RequestRow| -> (b: bool)
        ensures
            b == open_request_is(id@)(r@),
        { text_eq(r.request.status.as_str(), "pending") && text_eq(r.request.id.as_str(), id) };
    match find_row(&db.requests, test, Ghost(open_request_is(id@))) {
        Some(r) => Some(r.request.duplicate()),
        None => None,
    }
}

/// The name under which an invite is stored.
pub open spec fn invite_name(invite: InviteModel) -> Seq<char> {
    lowered(trimmed(invite.username))
}

/// The contact that an invite stores, if its name and keys are acceptable.
pub open spec fn invite_contact(invite: InviteModel) -> Result<ContactModel, Error> {
    if encode_utf8(invite_name(invite)).len() < 3 {
        Err(Error::InviteUsername)
    } else {
        match (hex_decoded_32(invite.x_pubkey_hex), hex_decoded_32(invite.ed_pubkey_hex)) {
            (Ok(x), Ok(ed)) => Ok(
                ContactModel {
                    username: invite_name(invite),
                    display_name: invite.display_name,
                    x25519_pubkey: Some(x),
                    ed_pubkey: Some(ed),
                    endpoint_id: Some(invite.endpoint_id),
                    endpoint_bundle: Some(invite.endpoint_bundle),
                    status: "requested"@,
                },
            ),
            (Err(e), _) => Err(e),
            (Ok(_), Err(e)) => Err(e),
        }
    }
}

/// A friend request that was just made.
pub open spec fn new_request(
    id: Seq<char>,
    direction: Seq<char>,
    peer: Seq<char>,
    display_name: Seq<char>,
    now_ms: i64,
) -> FriendRequestModel {
    FriendRequestModel {
        id,
        direction,
        peer_username: peer,
        peer_display_name: display_name,
        status: "pending"@,
        created_at_ms: now_ms,
    }
}

/// The store after a contact was staged and, unless there is one, a request was
/// opened.
pub open spec fn request_staged(
    db: DbModel,
    contact: ContactModel,
    direction: Seq<char>,
    id: Seq<char>,
    now_ms: i64,
) -> DbModel {
    let staged = db.upsert_contact(contact, now_ms);
    if has_open_request(db, direction, contact.username) {
        staged
    } else {
        staged.save_friend_request(
            new_request(id, direction, contact.username, contact.display_name, now_ms),
            now_ms,
        )
    }
}

/// What importing an invite does: an unacceptable one changes nothing; else its contact is
/// stored and an outgoing request is opened, under the id `fresh` if there is none yet.
pub open spec fn invite_imported(
    before: DbModel,
    after: DbModel,
    invite: InviteModel,
    fresh: Seq<char>,
    now_ms: i64,
    r: Result<bool, Error>,
) -> bool {
    match invite_contact(invite) {
        Err(e) => r == Err::<bool, Error>(e) && after == before,
        Ok(contact) => {
            &&& r == Ok::<bool, Error>(before.contact(contact.username) is None)
            &&& after == request_staged(before, contact, "out"@, fresh, now_ms)
        },
    }
}

/// Stores the keys of an invite as a `requested` contact and opens an outgoing
/// request, under the id `fresh` if there is none yet. Says whether the person
/// was unknown.
pub fn import_invite_as(db: &mut Database, invite: &InviteCode, fresh: Uuid, now_ms: i64) -> (r:
    Result<bool, Error>)
    ensures
        invite_imported(old(db)@, final(db)@, invite@, uuid_text(fresh@), now_ms, r),
{
    let username = to_lower(trim(invite.username.as_str()).as_str());
    if username.as_str().as_bytes().len() < 3 {
        return Err(Error::InviteUsername);
    }
    let x = match hex_decode_32(invite.x_pubkey_hex.as_str()) {
        Ok(k) => k,
        Err(e) => {
            return Err(e);
        },
    };
    let ed = match hex_decode_32(invite.ed_pubkey_hex.as_str()) {
        Ok(k) => k,
        Err(e) => {
            return Err(e);
        },
    };
    let is_new = db.find_contact(username.as_str()).is_none();
    let contact = Contact {
        username: username.clone(),
        display_name: invite.display_name.clone(),
        x25519_pubkey: Some(copy_bytes(x.as_slice())),
        ed_pubkey: Some(copy_bytes(ed.as_slice())),
        endpoint_id: Some(invite.endpoint_id.clone()),
        endpoint_bundle: Some(invite.endpoint_bundle.clone()),
        status: "requested".to_owned(),
    };
    assert(contact@ == invite_contact(invite@)->Ok_0);
    let ghost before = db@;
    let open = find_open_request(db, "out", username.as_str());
    proof {
        lemma_open_request_found(before, "out"@, username@, opt_request(open));
    }
    db.upsert_contact(&contact, now_ms);
    if open.is_none() {
        db.save_friend_request(
            &FriendRequest {
                id: fresh.to_text(),
                direction: "out".to_owned(),
                peer_username: username,
                peer_display_name: invite.display_name.clone(),
                status: "pending".to_owned(),
                created_at_ms: now_ms,
            },
            now_ms,
        );
    }
    Ok(is_new)
}

proof fn lemma_open_request_found(
    db: DbModel,
    direction: Seq<char>,
    peer: Seq<char>,
    found: Option<FriendRequestModel>,
)
    requires
        newest_request(db.requests, open_request(direction, peer), found),
    ensures
        found is Some <==> has_open_request(db, direction, peer),
{
}

/// Stores the keys of an invite as a `requested` contact and opens an outgoing
/// request if there is none yet. Says whether the person was unknown.
pub fn import_invite(db: &mut Database, invite: &InviteCode, now_ms: i64) -> (r: Result<bool, Error>)
    ensures
        exists|id: Seq<u8>|
            invite_imported(
                old(db)@,
                final(db)@,
                invite@,
                #[trigger] uuid_text(id),
                now_ms,
                r,
            ),
{
    let fresh = Uuid::new_v4();
    let r = import_invite_as(db, invite, fresh, now_ms);
    assert(uuid_text(fresh@).len() >= 0);
    r
}

// -- asks and answers ---------------------------------------------------------------

/// A payload to be sealed for one person.
#[derive(Debug, Clone)]
pub struct Draft {
    pub peer_username: String,
    pub recipient: [u8; 32],
    /// What the sealed payload is bound to.
    pub context: String,
    /// The conversation that the envelope names; empty where it belongs to none.
    pub conversation_id: String,
    pub payload: ChatPayload,
}

/// What a [`Draft`] holds.
pub struct DraftModel {
    pub peer_username: Seq<char>,
    pub recipient: Seq<u8>,
    pub context: Seq<char>,
    pub conversation_id: Seq<char>,
    pub payload: PayloadModel,
}

impl View for Draft {
    type V = DraftModel;

    open spec fn view(&self) -> DraftModel {
        DraftModel {
            peer_username: self.peer_username@,
            recipient: self.recipient@,
            context: self.context@,
            conversation_id: self.conversation_id@,
            payload: self.payload@,
        }
    }
}

/// The outcome, with the draft taken by its view.
pub open spec fn draft_view(r: Result<Draft, Error>) -> Result<DraftModel, Error> {
    match r {
        Ok(d) => Ok(d@),
        Err(e) => Err(e),
    }
}

/// Seals the JSON of a draft's payload and builds its envelope under the given
/// ids.
pub fn seal_draft_as(
    identity: &DeviceIdentity,
    device_uuid: Uuid,
    draft: &Draft,
    json: &[u8],
    conversation: Uuid,
    message: Uuid,
    now_ms: i64,
) -> (work: Result<OutboundWork, Error>)
    ensures
        encode_utf8(draft@.context).len() > u16::MAX ==> work == Err::<OutboundWork, Error>(
            Error::DmContextTooLong,
        ),
        encode_utf8(draft@.context).len() <= u16::MAX ==> work is Ok && draft_sent(
            work->Ok_0,
            identity@,
            device_uuid@,
            draft@,
            json@,
            conversation@,
            message@,
            now_ms,
        ),
{
    match seal_dm(
        &identity.x_secret,
        &draft.recipient,
        draft.context.as_str().as_bytes(),
        json,
    ) {
        Ok(ciphertext) => {
            let envelope = build_envelope(
                identity,
                device_uuid,
                conversation,
                message,
                draft.payload.message_type(),
                0,
                ciphertext,
                now_ms,
            );
            Ok(OutboundWork { peer_username: draft.peer_username.clone(), envelope })
        },
        Err(e) => Err(e),
    }
}

/// `work` sends the sealed JSON of a draft to its recipient.
pub open spec fn draft_sent(
    work: OutboundWork,
    identity: IdentityModel,
    device: Seq<u8>,
    draft: DraftModel,
    json: Seq<u8>,
    conversation: Seq<u8>,
    message: Seq<u8>,
    now_ms: i64,
) -> bool {
    &&& work.peer_username@ == draft.peer_username
    &&& box_of(
        work.envelope@.ciphertext,
        identity.x_secret,
        draft.recipient,
        encode_utf8(draft.context),
        json,
    )
    &&& work.envelope@ == envelope_of(
        identity,
        device,
        conversation,
        message,
        draft.payload.message_type(),
        0,
        work.envelope@.ciphertext,
        now_ms,
    )
    &&& envelope_checked(ed25519_public(identity.ed_secret), work.envelope@) is Ok
}

/// What sealing a draft comes to: a context that is too long is refused; else the envelope
/// names the draft's conversation, if the draft has one.
pub open spec fn draft_sealed(
    work: Result<OutboundWork, Error>,
    identity: IdentityModel,
    device: Seq<u8>,
    draft: DraftModel,
    json: Seq<u8>,
    now_ms: i64,
) -> bool {
    if encode_utf8(draft.context).len() > u16::MAX {
        work == Err::<OutboundWork, Error>(Error::DmContextTooLong)
    } else {
        &&& work is Ok
        &&& draft_sent(
            work->Ok_0,
            identity,
            device,
            draft,
            json,
            work->Ok_0.envelope@.conversation_id,
            work->Ok_0.envelope@.message_id,
            now_ms,
        )
        &&& uuid_parsed(draft.conversation_id) matches Some(id)
            ==> work->Ok_0.envelope@.conversation_id == id
    }
}

/// Seals the JSON of a draft's payload and builds its envelope under a new id. The
/// envelope names the draft's conversation, or a new one where the draft has none.
pub fn seal_draft(
    identity: &DeviceIdentity,
    device_uuid: Uuid,
    draft: &Draft,
    json: &[u8],
    now_ms: i64,
) -> (work: Result<OutboundWork, Error>)
    ensures
        draft_sealed(work, identity@, device_uuid@, draft@, json@, now_ms),
{
    let conversation = conversation_uuid(draft.conversation_id.as_str(), Uuid::new_v4());
    seal_draft_as(identity, device_uuid, draft, json, conversation, Uuid::new_v4(), now_ms)
}

/// The encryption key of a contact.
pub open spec fn key_of(contact: ContactModel, missing: Error) -> Result<Seq<u8>, Error> {
    match contact.x25519_pubkey {
        None => Err(missing),
        Some(k) => if k.len() == 32 {
            Ok(k)
        } else {
            Err(Error::ContactKeyLength)
        },
    }
}

fn contact_key(contact: &Contact, missing: Error) -> (key: Result<[u8; 32], Error>)
    ensures
        match (key, key_of(contact@, missing)) {
            (Ok(k), Ok(m)) => k@ == m,
            (Err(a), Err(b)) => a == b,
            _ => false,
        },
{
    match &contact.x25519_pubkey {
        None => Err(missing),
        Some(k) => if k.len() == 32 {
            Ok(array_32(k.as_slice()))
        } else {
            Err(Error::ContactKeyLength)
        },
    }
}

/// The friend ask for a person whose invite was imported.
pub open spec fn ask_draft(
    db: DbModel,
    identity: IdentityModel,
    me: Seq<char>,
    display_name: Seq<char>,
    bundle: Seq<char>,
    peer: Seq<char>,
) -> Result<DraftModel, Error> {
    match db.contact(peer) {
        None => Err(Error::UnknownContact),
        Some(contact) => if contact.status == "blocked"@ {
            Err(Error::UserBlocked)
        } else {
            match key_of(contact, Error::NoContactKey) {
                Err(e) => Err(e),
                Ok(key) => Ok(
                    DraftModel {
                        peer_username: peer,
                        recipient: key,
                        context: pair_context("friend-ask:"@, me, peer),
                        conversation_id: Seq::empty(),
                        payload: PayloadModel::FriendAsk {
                            from: me,
                            display_name,
                            ed_pubkey_hex: hex(ed25519_public(identity.ed_secret)),
                            x_pubkey_hex: hex(x25519_public(identity.x_secret)),
                            endpoint_bundle: bundle,
                        },
                    },
                ),
            }
        },
    }
}

/// Drafts the friend ask for a person whose invite was imported. The context
/// names both, so that the ask cannot be shown to another user.
pub fn build_friend_ask(
    db: &Database,
    identity: &DeviceIdentity,
    my_username: &str,
    my_display_name: &str,
    my_bundle: &str,
    peer_username: &str,
) -> (draft: Result<Draft, Error>)
    ensures
        draft_view(draft) == ask_draft(
            db@,
            identity@,
            my_username@,
            my_display_name@,
            my_bundle@,
            peer_username@,
        ),
{
    let peer = match db.find_contact(peer_username) {
        Some(c) => c,
        None => {
            return Err(Error::UnknownContact);
        },
    };
    if text_eq(peer.status.as_str(), "blocked") {
        return Err(Error::UserBlocked);
    }
    let recipient = match contact_key(&peer, Error::NoContactKey) {
        Ok(k) => k,
        Err(e) => {
            return Err(e);
        },
    };
    let public = identity.public();
    Ok(
        Draft {
            peer_username: peer_username.to_owned(),
            recipient,
            context: context_between("friend-ask:", my_username, peer_username),
            conversation_id: String::new(),
            payload: ChatPayload::FriendAsk {
                from: my_username.to_owned(),
                display_name: my_display_name.to_owned(),
                ed_pubkey_hex: hex_encode(public.ed_pubkey.as_slice()),
                x_pubkey_hex: hex_encode(public.x_pubkey.as_slice()),
                endpoint_bundle: my_bundle.to_owned(),
            },
        },
    )
}

/// A known key is the one that is given.
pub open spec fn key_agrees(known: Option<Seq<u8>>, given: Seq<u8>) -> bool {
    known is None || known == Some(given)
}

/// The contact that a friend ask stores, if the ask is acceptable: the person has
/// not been decided on yet, and the keys are the ones already known, if any.
pub open spec fn ask_contact(db: DbModel, ask: PayloadModel) -> Result<ContactModel, Error> {
    match ask {
        PayloadModel::FriendAsk {
            from,
            display_name,
            ed_pubkey_hex,
            x_pubkey_hex,
            endpoint_bundle,
        } => {
            let known = db.contact(from);
            if known is Some && (known->0.status == "friend"@ || known->0.status == "blocked"@) {
                Err(Error::AlreadyDecided)
            } else {
                match (hex_decoded_32(x_pubkey_hex), hex_decoded_32(ed_pubkey_hex)) {
                    (Err(e), _) => Err(e),
                    (Ok(_), Err(e)) => Err(e),
                    (Ok(x), Ok(ed)) => if known is Some && !(key_agrees(
                        known->0.x25519_pubkey,
                        x,
                    ) && key_agrees(known->0.ed_pubkey, ed)) {
                        Err(Error::FriendKeyMismatch)
                    } else {
                        Ok(
                            ContactModel {
                                username: from,
                                display_name,
                                x25519_pubkey: Some(x),
                                ed_pubkey: Some(ed),
                                endpoint_id: None,
                                endpoint_bundle: if endpoint_bundle.len() == 0 {
                                    None
                                } else {
                                    Some(endpoint_bundle)
                                },
                                status: "pending"@,
                            },
                        )
                    },
                }
            }
        },
        _ => Err(Error::NotAFriendAsk),
    }
}

fn agrees(known: &Option<Vec<u8>>, given: &[u8; 32]) -> (b: bool)
    ensures
        b == key_agrees(opt_bytes(*known), given@),
{
    match known {
        None => true,
        Some(k) => bytes_eq(k.as_slice(), given.as_slice()),
    }
}

/// What taking a friend ask does: a refused one changes nothing; else its sender is staged,
/// and the request is the newest open one of theirs, or a new one with the id `fresh`.
pub open spec fn takes_ask(
    before: DbModel,
    after: DbModel,
    ask: PayloadModel,
    fresh: Seq<char>,
    now_ms: i64,
    row: Result<FriendRequest, Error>,
) -> bool {
    match ask_contact(before, ask) {
        Err(e) => row == Err::<FriendRequest, Error>(e) && after == before,
        Ok(contact) => {
            &&& row is Ok
            &&& after == request_staged(before, contact, "in"@, fresh, now_ms)
            &&& if has_open_request(before, "in"@, contact.username) {
                newest_request(
                    before.requests,
                    open_request("in"@, contact.username),
                    Some(row->Ok_0@),
                )
            } else {
                row->Ok_0@ == new_request(
                    fresh,
                    "in"@,
                    contact.username,
                    contact.display_name,
                    now_ms,
                )
            }
        },
    }
}

/// Takes an incoming friend ask: checks its keys against what is known of the
/// sender, stages the sender as a `pending` contact and opens an incoming
/// request, under the id `fresh` if there is none yet.
pub fn receive_friend_ask_as(db: &mut Database, ask: &ChatPayload, fresh: Uuid, now_ms: i64) -> (row:
    Result<FriendRequest, Error>)
    ensures
        takes_ask(old(db)@, final(db)@, ask@, uuid_text(fresh@), now_ms, row),
{
    match ask {
        ChatPayload::FriendAsk {
            from,
            display_name,
            ed_pubkey_hex,
            x_pubkey_hex,
            endpoint_bundle,
        } => {
            let known = db.find_contact(from.as_str());
            match &known {
                Some(c) => {
                    if text_eq(c.status.as_str(), "friend") || text_eq(
                        c.status.as_str(),
                        "blocked",
                    ) {
                        return Err(Error::AlreadyDecided);
                    }
                },
                None => {},
            }
            let x = match hex_decode_32(x_pubkey_hex.as_str()) {
                Ok(k) => k,
                Err(e) => {
                    return Err(e);
                },
            };
            let ed = match hex_decode_32(ed_pubkey_hex.as_str()) {
                Ok(k) => k,
                Err(e) => {
                    return Err(e);
                },
            };
            match &known {
                Some(c) => {
                    if !(agrees(&c.x25519_pubkey, &x) && agrees(&c.ed_pubkey, &ed)) {
                        return Err(Error::FriendKeyMismatch);
                    }
                },
                None => {},
            }
            let contact = Contact {
                username: from.clone(),
                display_name: display_name.clone(),
                x25519_pubkey: Some(copy_bytes(x.as_slice())),
                ed_pubkey: Some(copy_bytes(ed.as_slice())),
                endpoint_id: None,
                endpoint_bundle: if text_eq(endpoint_bundle.as_str(), "") {
                    None
                } else {
                    Some(endpoint_bundle.clone())
                },
                status: "pending".to_owned(),
            };
            proof {
                reveal_strlit("");
                assert(endpoint_bundle@.len() == 0 ==> endpoint_bundle@ =~= ""@);
                assert(contact@ == ask_contact(db@, ask@)->Ok_0);
            }
            let ghost before = db@;
            let open = find_open_request(db, "in", from.as_str());
            proof {
                lemma_open_request_found(before, "in"@, from@, opt_request(open));
            }
            db.upsert_contact(&contact, now_ms);
            match open {
                Some(row) => Ok(row),
                None => {
                    let row = FriendRequest {
                        id: fresh.to_text(),
                        direction: "in".to_owned(),
                        peer_username: from.clone(),
                        peer_display_name: display_name.clone(),
                        status: "pending".to_owned(),
                        created_at_ms: now_ms,
                    };
                    db.save_friend_request(&row, now_ms);
                    Ok(row)
                },
            }
        },
        _ => Err(Error::NotAFriendAsk),
    }
}

/// [`receive_friend_ask_as`] with a new id.
pub fn receive_friend_ask(db: &mut Database, ask: &ChatPayload, now_ms: i64) -> (row: Result<
    FriendRequest,
    Error,
>)
    ensures
        exists|fresh: Seq<u8>|
            takes_ask(old(db)@, final(db)@, ask@, #[trigger] uuid_text(fresh), now_ms, row),
{
    let fresh = Uuid::new_v4();
    receive_friend_ask_as(db, ask, fresh, now_ms)
}

/// The answer to a friend ask.
pub open spec fn answer_draft(
    me: Seq<char>,
    bundle: Seq<char>,
    peer: ContactModel,
    conversation: Seq<char>,
    accepted: bool,
) -> Result<DraftModel, Error> {
    match key_of(peer, Error::NoContactKey) {
        Err(e) => Err(e),
        Ok(key) => Ok(
            DraftModel {
                peer_username: peer.username,
                recipient: key,
                context: pair_context("friend-answer:"@, me, peer.username),
                conversation_id: conversation,
                payload: PayloadModel::FriendAnswer { from: me, accepted, endpoint_bundle: bundle },
            },
        ),
    }
}

/// Drafts the answer to a friend ask. Its envelope names the direct conversation with
/// the peer, so that they keep it under the same id.
pub fn answer_envelope(
    my_username: &str,
    my_bundle: &str,
    peer: &Contact,
    conversation_id: &str,
    accepted: bool,
) -> (draft: Result<Draft, Error>)
    ensures
        draft_view(draft) == answer_draft(
            my_username@,
            my_bundle@,
            peer@,
            conversation_id@,
            accepted,
        ),
{
    let recipient = match contact_key(peer, Error::NoContactKey) {
        Ok(k) => k,
        Err(e) => {
            return Err(e);
        },
    };
    Ok(
        Draft {
            peer_username: peer.username.clone(),
            recipient,
            context: context_between("friend-answer:", my_username, peer.username.as_str()),
            conversation_id: conversation_id.to_owned(),
            payload: ChatPayload::FriendAnswer {
                from: my_username.to_owned(),
                accepted,
                endpoint_bundle: my_bundle.to_owned(),
            },
        },
    )
}

impl DbModel {
    /// The direct conversation with someone, which gets the id `fresh` if there
    /// is none yet.
    pub open spec fn dm_id(self, peer: Seq<char>, fresh: Seq<char>) -> Seq<char> {
        match self.dm_with(peer) {
            Some(id) => id,
            None => fresh,
        }
    }

    /// The store with a direct conversation with someone.
    pub open spec fn ensure_dm(self, peer: Seq<char>, fresh: Seq<char>, now_ms: i64) -> DbModel {
        match self.dm_with(peer) {
            Some(_) => self,
            None => self.create_conversation(fresh, "dm"@, ""@, seq![peer], now_ms),
        }
    }
}

impl DbModel {
    /// The id for a direct conversation that someone else named: their own, so that both
    /// keep it under the same one, or `fresh` where another conversation has it.
    pub open spec fn shared_id(self, named: Seq<char>, fresh: Seq<char>) -> Seq<char> {
        if self.has_conversation(named) {
            fresh
        } else {
            named
        }
    }
}

/// The direct conversation with someone; it is made, with the id `fresh`, if
/// there is none yet.
pub fn ensure_dm_as(db: &mut Database, peer_username: &str, fresh: Uuid, now_ms: i64) -> (id: String)
    ensures
        id@ == old(db)@.dm_id(peer_username@, uuid_text(fresh@)),
        final(db)@ == old(db)@.ensure_dm(peer_username@, uuid_text(fresh@), now_ms),
        old(db)@.dm_with(peer_username@) is None ==> carried(id@),
{
    match db.find_dm_with(peer_username) {
        Some(id) => id,
        None => {
            let id = fresh.to_text();
            let mut members: Vec<String> = Vec::new();
            members.push(peer_username.to_owned());
            assert(texts(members@) =~= seq![peer_username@]);
            db.create_conversation(id.as_str(), "dm", "", &members, now_ms);
            id
        },
    }
}

/// The direct conversation with someone; it is made if there is none yet.
pub fn ensure_dm(db: &mut Database, peer_username: &str, now_ms: i64) -> (id: String)
    ensures
        exists|fresh: Seq<u8>|
            {
                &&& id@ == old(db)@.dm_id(peer_username@, #[trigger] uuid_text(fresh))
                &&& final(db)@ == old(db)@.ensure_dm(peer_username@, uuid_text(fresh), now_ms)
            },
{
    let fresh = Uuid::new_v4();
    let id = ensure_dm_as(db, peer_username, fresh, now_ms);
    assert(uuid_text(fresh@).len() >= 0);
    id
}

/// There is one direct conversation with each person: the one that was made is found
/// again.
pub proof fn law_dm_is_found_again(
    db: DbModel,
    peer: Seq<char>,
    fresh: Seq<char>,
    now_ms: i64,
    other: Seq<char>,
    later_ms: i64,
)
    requires
        !db.has_conversation(fresh),
    ensures
        db.ensure_dm(peer, fresh, now_ms).dm_with(peer) == Some(db.dm_id(peer, fresh)),
        db.ensure_dm(peer, fresh, now_ms).ensure_dm(peer, other, later_ms) == db.ensure_dm(
            peer,
            fresh,
            now_ms,
        ),
{
    if db.dm_with(peer) is None {
        let after = db.ensure_dm(peer, fresh, now_ms);
        let row = after.conversations.last();
        let p = dm_with(db.members, peer);
        let q = dm_with(after.members, peer);
        lemma_first_row(db.conversations, p);
        assert(seq![peer].drop_last() =~= Seq::<Seq<char>>::empty());
        reveal_with_fuel(joined, 2);
        assert(some_row(after.members, member_is(fresh, peer))) by {
            if !some_row(db.members, member_is(fresh, peer)) {
                assert(member_is(fresh, peer)(after.members[db.members.len() as int]));
            }
        }
        assert forall|i: int| 0 <= i < db.conversations.len() implies !q(
            #[trigger] db.conversations[i],
        ) by {
            let c = db.conversations[i];
            assert(!conversation_is(fresh)(c));
            assert(!p(c));
            if q(c) {
                let k: int = choose|k: int|
                    0 <= k < after.members.len() && member_is(c.id, peer)(
                        #[trigger] after.members[k],
                    );
                assert(k < db.members.len());
                assert(member_is(c.id, peer)(db.members[k]));
            }
        }
        lemma_first_row(db.conversations, q);
        lemma_first_row_pushed(db.conversations, q, row);
        assert(after.conversations =~= db.conversations.push(row));
    }
}

/// The store after a request of `peer` was accepted.
pub open spec fn accepted_db(
    db: DbModel,
    request: FriendRequestModel,
    fresh: Seq<char>,
    now_ms: i64,
) -> DbModel {
    db.set_contact_status(request.peer_username, "friend"@).set_friend_request_status(
        request.id,
        "accepted"@,
        now_ms,
    ).ensure_dm(request.peer_username, fresh, now_ms)
}

/// What accepting a request does: an unknown or outgoing request changes
/// nothing; an incoming one makes its sender a friend with a direct conversation
/// (named `fresh` where there was none), and the answer, whose envelope names that
/// conversation, is drafted to the key of that contact.
pub open spec fn accepts_request(
    before: DbModel,
    after: DbModel,
    me: Seq<char>,
    bundle: Seq<char>,
    request_id: Seq<char>,
    fresh: Seq<char>,
    now_ms: i64,
    r: Result<(String, Draft), Error>,
) -> bool {
    match first_row(before.requests, open_request_is(request_id)) {
        None => r == Err::<(String, Draft), Error>(Error::RequestNotFound) && after == before,
        Some(row) => if row.request.direction != "in"@ {
            r == Err::<(String, Draft), Error>(Error::NotIncoming) && after == before
        } else {
            &&& after == accepted_db(before, row.request, fresh, now_ms)
            &&& match after.contact(row.request.peer_username) {
                None => r == Err::<(String, Draft), Error>(Error::ContactVanished),
                Some(peer) => {
                    let dm = before.dm_id(row.request.peer_username, fresh);
                    match answer_draft(me, bundle, peer, dm, true) {
                        Err(e) => r == Err::<(String, Draft), Error>(e),
                        Ok(draft) => {
                            &&& r is Ok
                            &&& r->Ok_0.0@ == dm
                            &&& r->Ok_0.1@ == draft
                            &&& before.dm_with(row.request.peer_username) is None ==> carried(dm)
                        },
                    }
                },
            }
        },
    }
}

/// Accepts an incoming request: the sender becomes a friend with a direct
/// conversation, which gets the id `fresh` if it is new, and the answer to them
/// is drafted.
pub fn accept_request_as(
    db: &mut Database,
    my_username: &str,
    my_bundle: &str,
    request_id: &str,
    fresh: Uuid,
    now_ms: i64,
) -> (r: Result<(String, Draft), Error>)
    ensures
        accepts_request(
            old(db)@,
            final(db)@,
            my_username@,
            my_bundle@,
            request_id@,
            uuid_text(fresh@),
            now_ms,
            r,
        ),
{
    let row = match find_open_request_by_id(db, request_id) {
        Some(r) => r,
        None => {
            return Err(Error::RequestNotFound);
        },
    };
    if !text_eq(row.direction.as_str(), "in") {
        return Err(Error::NotIncoming);
    }
    db.set_contact_status(row.peer_username.as_str(), "friend");
    db.set_friend_request_status(row.id.as_str(), "accepted", now_ms);
    let conversation = ensure_dm_as(db, row.peer_username.as_str(), fresh, now_ms);
    let peer = match db.find_contact(row.peer_username.as_str()) {
        Some(c) => c,
        None => {
            return Err(Error::ContactVanished);
        },
    };
    match answer_envelope(my_username, my_bundle, &peer, conversation.as_str(), true) {
        Ok(draft) => Ok((conversation, draft)),
        Err(e) => Err(e),
    }
}

/// Accepts an incoming request: the sender becomes a friend with a direct
/// conversation, and the answer to them is drafted.
pub fn accept_request(
    db: &mut Database,
    my_username: &str,
    my_bundle: &str,
    request_id: &str,
    now_ms: i64,
) -> (r: Result<(String, Draft), Error>)
    ensures
        exists|fresh: Seq<u8>|
            accepts_request(
                old(db)@,
                final(db)@,
                my_username@,
                my_bundle@,
                request_id@,
                #[trigger] uuid_text(fresh),
                now_ms,
                r,
            ),
{
    let fresh = Uuid::new_v4();
    accept_request_as(db, my_username, my_bundle, request_id, fresh, now_ms)
}

/// Whoever's request was accepted is a friend, and the conversation that is returned is
/// the direct one with them.
pub proof fn law_accepted_is_friend(
    before: DbModel,
    after: DbModel,
    me: Seq<char>,
    bundle: Seq<char>,
    request_id: Seq<char>,
    fresh: Seq<char>,
    now_ms: i64,
    r: Result<(String, Draft), Error>,
)
    requires
        accepts_request(before, after, me, bundle, request_id, fresh, now_ms, r),
        !before.has_conversation(fresh),
        r is Ok,
    ensures
        ({
            let peer = r->Ok_0.1@.peer_username;
            &&& after.contact(peer) is Some
            &&& after.contact(peer)->0.status == "friend"@
            &&& after.dm_with(peer) == Some(r->Ok_0.0@)
        }),
{
    let row = first_row(before.requests, open_request_is(request_id))->0;
    let peer = row.request.peer_username;
    let p = contact_is(peer);
    let f = contact_with_status("friend"@);
    lemma_first_row(before.contacts, p);
    lemma_first_row_updated(before.contacts, p, f);
    let told = before.set_contact_status(peer, "friend"@).set_friend_request_status(
        row.request.id,
        "accepted"@,
        now_ms,
    );
    law_dm_is_found_again(told, peer, fresh, now_ms, fresh, now_ms);
}

/// What rejecting a request does.
pub open spec fn rejects_request(
    before: DbModel,
    done: DbModel,
    request_id: Seq<char>,
    now_ms: i64,
    r: Result<(), Error>,
) -> bool {
    match first_row(before.requests, open_request_is(request_id)) {
        None => r == Err::<(), Error>(Error::RequestNotFound) && done == before,
        Some(row) => {
            let after = before.set_friend_request_status(
                row.request.id,
                "rejected"@,
                now_ms,
            );
            let peer = row.request.peer_username;
            &&& r is Ok
            &&& done == if row.request.direction == "in"@ && after.contact(peer) is Some
                && after.contact(peer)->0.status == "pending"@ {
                after.remove_contact(peer)
            } else {
                after
            }
        },
    }
}

/// Rejects an open request; a sender who was only `pending` is forgotten.
pub fn reject_request(db: &mut Database, request_id: &str, now_ms: i64) -> (r: Result<(), Error>)
    ensures
        rejects_request(old(db)@, final(db)@, request_id@, now_ms, r),
{
    let row = match find_open_request_by_id(db, request_id) {
        Some(r) => r,
        None => {
            return Err(Error::RequestNotFound);
        },
    };
    db.set_friend_request_status(row.id.as_str(), "rejected", now_ms);
    if text_eq(row.direction.as_str(), "in") {
        match db.find_contact(row.peer_username.as_str()) {
            Some(contact) => {
                if text_eq(contact.status.as_str(), "pending") {
                    let _gone = db.remove_contact(row.peer_username.as_str());
                }
            },
            None => {},
        }
    }
    Ok(())
}

/// The store after the newest outgoing request to someone was answered.
pub open spec fn request_answered(
    db: DbModel,
    request: Option<FriendRequestModel>,
    accepted: bool,
    now_ms: i64,
) -> DbModel {
    match request {
        Some(r) => db.set_friend_request_status(
            r.id,
            if accepted {
                "accepted"@
            } else {
                "rejected"@
            },
            now_ms,
        ),
        None => db,
    }
}

/// The store after someone became a friend and told where they can be reached.
pub open spec fn befriended(db: DbModel, peer: Seq<char>, bundle: Seq<char>, now_ms: i64) -> DbModel {
    let friend = db.set_contact_status(peer, "friend"@);
    match friend.contact(peer) {
        Some(contact) => if bundle.len() > 0 {
            friend.upsert_contact(
                ContactModel { endpoint_bundle: Some(bundle), ..contact },
                now_ms,
            )
        } else {
            friend
        },
        None => friend,
    }
}

/// What an answer to an outgoing ask does: the newest open ask to its sender is
/// closed; on acceptance the sender becomes a friend with a direct conversation, which
/// is kept under the id that the answer names where there was none.
pub open spec fn takes_answer(
    before: DbModel,
    after: DbModel,
    from: Seq<char>,
    accepted: bool,
    bundle: Seq<char>,
    named: Seq<char>,
    fresh: Seq<char>,
    now_ms: i64,
    dm: Option<String>,
) -> bool {
    exists|request: Option<FriendRequestModel>|
        {
            let answered = request_answered(before, request, accepted, now_ms);
            let friend = befriended(answered, from, bundle, now_ms);
            let id = before.shared_id(named, fresh);
            &&& #[trigger] newest_request(before.requests, open_request("out"@, from), request)
            &&& accepted ==> dm is Some && dm->0@ == friend.dm_id(from, id) && after
                == friend.ensure_dm(from, id, now_ms)
            &&& !accepted ==> dm is None && after == answered
        }
}

/// Applies an answer to an outgoing ask. On acceptance the sender becomes a
/// friend, and the direct conversation with them is returned. A new one gets the id
/// `named`, which the answer's envelope carries, so that both sides share it; where
/// another conversation has that id, `fresh`.
pub fn receive_friend_answer_as(
    db: &mut Database,
    from: &str,
    accepted: bool,
    endpoint_bundle: &str,
    named: Uuid,
    fresh: Uuid,
    now_ms: i64,
) -> (dm: Option<String>)
    ensures
        takes_answer(
            old(db)@,
            final(db)@,
            from@,
            accepted,
            endpoint_bundle@,
            uuid_text(named@),
            uuid_text(fresh@),
            now_ms,
            dm,
        ),
{
    let id = if db.has_conversation(named.to_text().as_str()) {
        fresh
    } else {
        named
    };
    let outgoing = find_open_request(db, "out", from);
    let ghost request = opt_request(outgoing);
    let ghost before = db@;
    assert(newest_request(before.requests, open_request("out"@, from@), request));
    match &outgoing {
        Some(row) => {
            let status = if accepted {
                "accepted"
            } else {
                "rejected"
            };
            db.set_friend_request_status(row.id.as_str(), status, now_ms);
        },
        None => {},
    }
    assert(db@ == request_answered(before, request, accepted, now_ms));
    if !accepted {
        return None;
    }
    db.set_contact_status(from, "friend");
    proof {
        reveal_strlit("");
        assert(endpoint_bundle@.len() == 0 ==> endpoint_bundle@ =~= ""@);
    }
    if !text_eq(endpoint_bundle, "") {
        match db.find_contact(from) {
            Some(contact) => {
                let mut told = contact;
                told.endpoint_bundle = Some(endpoint_bundle.to_owned());
                db.upsert_contact(&told, now_ms);
            },
            None => {},
        }
    }
    Some(ensure_dm_as(db, from, id, now_ms))
}

/// Applies an answer to an outgoing ask. On acceptance the sender becomes a
/// friend, and the direct conversation with them is returned: the one that the answer's
/// envelope names, if there was none yet.
pub fn receive_friend_answer(
    db: &mut Database,
    from: &str,
    accepted: bool,
    endpoint_bundle: &str,
    named: Uuid,
    now_ms: i64,
) -> (dm: Option<String>)
    ensures
        exists|fresh: Seq<u8>|
            takes_answer(
                old(db)@,
                final(db)@,
                from@,
                accepted,
                endpoint_bundle@,
                uuid_text(named@),
                #[trigger] uuid_text(fresh),
                now_ms,
                dm,
            ),
{
    let fresh = Uuid::new_v4();
    receive_friend_answer_as(db, from, accepted, endpoint_bundle, named, fresh, now_ms)
}

/// Forgets a contact.
pub fn remove_friend(db: &mut Database, username: &str) -> (r: Result<(), Error>)
    ensures
        final(db)@ == old(db)@.remove_contact(username@),
        r == if some_row(old(db)@.contacts, contact_is(username@)) {
            Ok::<(), Error>(())
        } else {
            Err(Error::NotAFriend)
        },
{
    if db.remove_contact(username) {
        Ok(())
    } else {
        Err(Error::NotAFriend)
    }
}

/// The contact of someone who was blocked before anything was known of them.
pub open spec fn stranger_blocked(username: Seq<char>) -> ContactModel {
    ContactModel {
        username,
        display_name: username,
        x25519_pubkey: None,
        ed_pubkey: None,
        endpoint_id: None,
        endpoint_bundle: None,
        status: "blocked"@,
    }
}

impl DbModel {
    /// The store with someone blocked.
    pub open spec fn blocked(self, username: Seq<char>, now_ms: i64) -> DbModel {
        match self.contact(username) {
            Some(_) => self.set_contact_status(username, "blocked"@),
            None => self.upsert_contact(stranger_blocked(username), now_ms),
        }
    }
}

/// Blocks someone, known or not.
pub fn block_user(db: &mut Database, username: &str, now_ms: i64)
    ensures
        final(db)@ == old(db)@.blocked(username@, now_ms),
{
    match db.find_contact(username) {
        Some(_) => {
            db.set_contact_status(username, "blocked");
        },
        None => {
            db.upsert_contact(
                &Contact {
                    username: username.to_owned(),
                    display_name: username.to_owned(),
                    x25519_pubkey: None,
                    ed_pubkey: None,
                    endpoint_id: None,
                    endpoint_bundle: None,
                    status: "blocked".to_owned(),
                },
                now_ms,
            );
        },
    }
}

/// What unblocking someone does.
pub open spec fn unblocked(
    before: DbModel,
    after: DbModel,
    username: Seq<char>,
    r: Result<(), Error>,
) -> bool {
    match before.contact(username) {
        Some(_) => r is Ok && after == before.set_contact_status(username, "friend"@),
        None => r == Err::<(), Error>(Error::NotInList) && after == before,
    }
}

/// Makes a known person a friend again.
pub fn unblock_user(db: &mut Database, username: &str) -> (r: Result<(), Error>)
    ensures
        unblocked(old(db)@, final(db)@, username@, r),

{
    match db.find_contact(username) {
        Some(_) => {
            db.set_contact_status(username, "friend");
            Ok(())
        },
        None => Err(Error::NotInList),
    }
}

/// Opens a sealed ask or answer; the result is the payload's JSON.
pub fn open_friend_payload(
    identity: &DeviceIdentity,
    peer_pub: &[u8; 32],
    context: &str,
    boxed: &[u8],
) -> (json: Result<Vec<u8>, Error>)
    ensures
        opened_view(json) == dm_opened(
            identity@.x_secret,
            peer_pub@,
            encode_utf8(context@),
            boxed@,
        ),
{
    open_dm(&identity.x_secret, peer_pub, context.as_bytes(), boxed)
}

} // verus!
