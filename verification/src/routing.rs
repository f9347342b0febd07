//! What happens to an envelope that came in.
//!
//! Routing takes two steps. [`route_inbound`] finds out who sent an envelope, checks
//! that they may, and opens it. What it opened is the JSON of a payload; once that is
//! read, [`apply_opened`] carries it out.

use vstd::prelude::*;
use vstd::string::*;
use vstd::utf8::*;

use crate::bytes::{array_32, hex_decoded_32, signed_bits, to_signed, unsigned_bits};
use crate::coordinator::MAILBOX_TTL_MS;
use crate::crypto::{dm_opened, open_dm, opened_view};
use crate::database::laws::law_messages_are_idempotent;
use crate::database::model::{
    contact_is, file_is, file_with_offer, member_of, members_by_name, names_of,
};
use crate::database::people::opt_contact;
use crate::database::{Database, DbModel};
use crate::envelope::{
    context_between, envelope_checked, envelope_of, open_dm_payload, open_presence_payload,
    pair_context, verify_envelope_signature, OutboundWork,
};
use crate::error::Error;
use crate::friends::{
    ask_contact, befriended, newest_request, open_request, receive_friend_answer_as,
    receive_friend_ask_as, request_answered, request_staged,
};
use crate::groups::{
    contact_key_of, contact_pub, epoch_known, epochs_to_try, first_opened, first_place,
    group_synced, open_group_best, receive_group_key,
};
use crate::identity::{DeviceIdentity, IdentityModel};
use crate::ids::{uuid_parsed, uuid_text, Uuid};
use crate::payload::{ChatPayload, FileOfferBody, FileOfferModel, PayloadModel};
use crate::presence::{PresenceState, PresenceTracker, TypingState, TypingTracker};
use crate::protocol::{EnvelopeModel, MessageType, ProtocolEnvelope};
use crate::records::{
    Contact, ContactModel, ContactRowModel, FileRowModel, FileTransfer, FileTransferModel,
    FriendRequestModel, GroupKeyModel, MemberModel, Message, MessageModel, StashModel,
};
use crate::sync::{
    apply_read_receipt, listed_after, marked_read, message_read, messages_after, receipt_applied,
    resend_envelope, type_named, NO_LIMIT,
};
use crate::table::{
    lemma_first_row, lemma_first_row_pushed, lemma_first_row_updated, ordered, views, Row,
};
use crate::text::{
    copy_bytes, copy_opt_text, lemma_text_le_antisymmetric, lemma_text_le_total,
    lemma_text_le_transitive, opt_text, prefix, take_chars, text_at_most, text_eq, text_le, texts,
};

verus! {

// -- who sent it ------------------------------------------------------------------------------

/// A contact whose signing key accepts an envelope, and who is not blocked.
pub open spec fn may_have_sent(c: ContactModel, e: EnvelopeModel) -> bool {
    &&& c.status != "blocked"@
    &&& c.ed_pubkey is Some
    &&& c.ed_pubkey->0.len() == 32
    &&& envelope_checked(c.ed_pubkey->0, e) is Ok
}

/// The contact is known to use the endpoint that the envelope came from.
pub open spec fn at_endpoint(c: ContactModel, endpoint: Seq<char>) -> bool {
    c.endpoint_id == Some(endpoint)
}

/// `a` is preferred to `b` or equally good: who uses the endpoint comes first, then
/// the order of the names decides.
pub open spec fn preferred(a: ContactModel, b: ContactModel, endpoint: Seq<char>) -> bool {
    if at_endpoint(a, endpoint) == at_endpoint(b, endpoint) {
        text_le(a.username, b.username)
    } else {
        at_endpoint(a, endpoint)
    }
}

/// `found` is the preferred one of the contacts who may have sent an envelope, if
/// there is one.
pub open spec fn sender_found(
    contacts: Seq<ContactRowModel>,
    e: EnvelopeModel,
    endpoint: Seq<char>,
    found: Option<ContactModel>,
) -> bool {
    match found {
        Some(c) => {
            &&& may_have_sent(c, e)
            &&& exists|i: int| 0 <= i < contacts.len() && (#[trigger] contacts[i]).contact == c
            &&& forall|i: int|
                0 <= i < contacts.len() && may_have_sent((#[trigger] contacts[i]).contact, e)
                    ==> preferred(c, contacts[i].contact, endpoint)
        },
        None => forall|i: int|
            0 <= i < contacts.len() ==> !may_have_sent((#[trigger] contacts[i]).contact, e),
    }
}

fn may_send(c: &Contact, envelope: &ProtocolEnvelope) -> (b: bool)
    ensures
        b == may_have_sent(c@, envelope@),
{
    if text_eq(c.status.as_str(), "blocked") {
        return false;
    }
    match &c.ed_pubkey {
        Some(ed) => {
            if ed.len() != 32 {
                return false;
            }
            let key = array_32(ed.as_slice());
            verify_envelope_signature(&key, envelope).is_ok()
        },
        None => false,
    }
}

fn uses_endpoint(c: &Contact, endpoint: &str) -> (b: bool)
    ensures
        b == at_endpoint(c@, endpoint@),
{
    match &c.endpoint_id {
        Some(id) => text_eq(id.as_str(), endpoint),
        None => false,
    }
}

fn is_preferred(a: &Contact, b: &Contact, endpoint: &str) -> (r: bool)
    ensures
        r == preferred(a@, b@, endpoint@),
{
    let x = uses_endpoint(a, endpoint);
    let y = uses_endpoint(b, endpoint);
    if x == y {
        text_at_most(a.username.as_str(), b.username.as_str())
    } else {
        x
    }
}

proof fn lemma_preferred(a: ContactModel, b: ContactModel, c: ContactModel, endpoint: Seq<char>)
    ensures
        preferred(a, b, endpoint) || preferred(b, a, endpoint),
        preferred(a, b, endpoint) && preferred(b, c, endpoint) ==> preferred(a, c, endpoint),
{
    lemma_text_le_total(a.username, b.username);
    if text_le(a.username, b.username) && text_le(b.username, c.username) {
        lemma_text_le_transitive(a.username, b.username, c.username);
    }
}

/// Finds out which contact sent an envelope: the one known at the endpoint if their
/// key accepts the signature, else any other contact who is not blocked and whose key
/// does.
pub fn identify_sender(db: &Database, envelope: &ProtocolEnvelope, from_endpoint: &str) -> (sender:
    Option<Contact>)
    ensures
        sender_found(db@.contacts, envelope@, from_endpoint@, opt_contact(sender)),
{
    let ghost rows = db@.contacts;
    let mut best: Option<usize> = None;
    let mut i: usize = 0;
    while i < db.contacts.len()
        invariant
            i <= db.contacts.len(),
            rows == db@.contacts,
            best is None ==> forall|j: int|
                0 <= j < i ==> !may_have_sent((#[trigger] rows[j]).contact, envelope@),
            best is Some ==> best->0 < i && may_have_sent(
                rows[best->0 as int].contact,
                envelope@,
            ),
            best is Some ==> forall|j: int|
                0 <= j < i && may_have_sent((#[trigger] rows[j]).contact, envelope@)
                    ==> preferred(rows[best->0 as int].contact, rows[j].contact, from_endpoint@),
        decreases db.contacts.len() - i,
    {
        let c = &db.contacts[i].contact;
        assert(rows[i as int].contact == c@);
        if may_send(c, envelope) {
            match best {
                Some(b) => {
                    let ghost x = rows[b as int].contact;
                    assert(x == db.contacts@[b as int].contact@);
                    if !is_preferred(&db.contacts[b].contact, c, from_endpoint) {
                        proof {
                            assert forall|j: int|
                                0 <= j < i + 1 && may_have_sent(
                                    (#[trigger] rows[j]).contact,
                                    envelope@,
                                ) implies preferred(c@, rows[j].contact, from_endpoint@) by {
                                lemma_preferred(c@, x, rows[j].contact, from_endpoint@);
                                lemma_preferred(c@, c@, c@, from_endpoint@);
                            }
                        }
                        best = Some(i);
                    }
                },
                None => {
                    proof {
                        lemma_preferred(c@, c@, c@, from_endpoint@);
                    }
                    best = Some(i);
                },
            }
        }
        i += 1;
    }
    match best {
        Some(b) => {
            assert(rows[b as int].contact == db.contacts@[b as int].contact@);
            Some(db.contacts[b].contact.duplicate())
        },
        None => None,
    }
}

// -- conversations and their peers ---------------------------------------------------------------

/// The member whose name comes first.
pub open spec fn least_name(rows: Seq<MemberModel>) -> Option<Seq<char>>
    decreases rows.len(),
{
    if rows.len() == 0 {
        None
    } else {
        match least_name(rows.drop_last()) {
            None => Some(rows.last().username),
            Some(name) => if text_le(name, rows.last().username) {
                Some(name)
            } else {
                Some(rows.last().username)
            },
        }
    }
}

impl DbModel {
    /// The other party of a direct conversation; nobody where it has no members.
    pub open spec fn dm_peer(self, conversation: Seq<char>) -> Seq<char> {
        match least_name(self.members.filter(member_of(conversation))) {
            Some(name) => name,
            None => Seq::empty(),
        }
    }

    /// The username of the profile; empty where there is none.
    pub open spec fn me(self) -> Seq<char> {
        match self.profile {
            Some(p) => p.username,
            None => Seq::empty(),
        }
    }

    /// The store with the endpoint that a contact was just seen at.
    pub open spec fn endpoint_noted(
        self,
        username: Seq<char>,
        endpoint: Seq<char>,
        now_ms: i64,
    ) -> DbModel {
        match self.contact(username) {
            Some(c) => if at_endpoint(c, endpoint) {
                self
            } else {
                self.upsert_contact(
                    ContactModel { endpoint_id: Some(endpoint), ..c },
                    now_ms,
                )
            },
            None => self,
        }
    }

    /// The store with the bundle that a contact told.
    pub open spec fn bundle_noted(
        self,
        username: Seq<char>,
        bundle: Seq<char>,
        now_ms: i64,
    ) -> DbModel {
        match self.contact(username) {
            Some(c) => if bundle.len() > 0 {
                self.upsert_contact(
                    ContactModel { endpoint_bundle: Some(bundle), ..c },
                    now_ms,
                )
            } else {
                self
            },
            None => self,
        }
    }
}

proof fn lemma_least_name(rows: Seq<MemberModel>)
    ensures
        least_name(rows) is None <==> rows.len() == 0,
        rows.len() > 0 ==> {
            &&& exists|i: int|
                0 <= i < rows.len() && (#[trigger] rows[i]).username == least_name(rows)->0
            &&& forall|i: int|
                0 <= i < rows.len() ==> text_le(least_name(rows)->0, (#[trigger] rows[i]).username)
        },
    decreases rows.len(),
{
    if rows.len() > 0 {
        let rest = rows.drop_last();
        let last = rows.last().username;
        lemma_least_name(rest);
        lemma_text_le_total(last, last);
        if rest.len() > 0 {
            let low = least_name(rest)->0;
            lemma_text_le_total(low, last);
            let k: int = choose|k: int|
                0 <= k < rest.len() && (#[trigger] rest[k]).username == low;
            assert(rows[k].username == low);
            assert forall|i: int| 0 <= i < rows.len() implies text_le(
                least_name(rows)->0,
                (#[trigger] rows[i]).username,
            ) by {
                if i < rest.len() {
                    assert(rest[i] == rows[i]);
                    if !text_le(low, last) {
                        lemma_text_le_transitive(last, low, rows[i].username);
                    }
                }
            }
        }
        assert(rows[rows.len() - 1].username == last);
    }
}

/// The first of the members in the order of their names is the one that comes first.
proof fn lemma_first_listed(rows: Seq<MemberModel>, of: Seq<MemberModel>)
    requires
        ordered(rows, of, members_by_name()),
    ensures
        rows.len() == of.len(),
        rows.len() > 0 ==> least_name(of) == Some(rows[0].username),
{
    rows.to_multiset_ensures();
    of.to_multiset_ensures();
    lemma_least_name(of);
    if rows.len() > 0 {
        let low = least_name(of)->0;
        let i: int = choose|i: int| 0 <= i < of.len() && (#[trigger] of[i]).username == low;
        assert(of.contains(of[i]));
        assert(of.to_multiset().count(of[i]) > 0);
        assert(rows.to_multiset().count(of[i]) > 0);
        assert(rows.contains(of[i]));
        let j: int = choose|j: int| 0 <= j < rows.len() && rows[j] == of[i];
        if j > 0 {
            assert(members_by_name()(rows[0], rows[j]));
        } else {
            lemma_text_le_total(low, low);
        }
        assert(text_le(rows[0].username, low));
        assert(rows.contains(rows[0]));
        assert(rows.to_multiset().count(rows[0]) > 0);
        assert(of.to_multiset().count(rows[0]) > 0);
        assert(of.contains(rows[0]));
        let k: int = choose|k: int| 0 <= k < of.len() && of[k] == rows[0];
        assert(text_le(low, of[k].username));
        lemma_text_le_antisymmetric(low, rows[0].username);
    }
}

/// A conversation has a member to list exactly where one comes first.
pub(crate) proof fn lemma_listed_len(db: DbModel, conversation: Seq<char>, names: Seq<Seq<char>>)
    requires
        db.members_listed(conversation, names),
    ensures
        names.len() == 0 <==> least_name(db.members.filter(member_of(conversation))) is None,
{
    let of = db.members.filter(member_of(conversation));
    let rows = choose|rows: Seq<MemberModel>| #[trigger]
        ordered(rows, of, members_by_name()) && names == names_of(rows);
    lemma_first_listed(rows, of);
    lemma_least_name(of);
}

/// The other party of a direct conversation; empty where it has no members.
pub fn dm_peer_of(db: &Database, conversation_id: &str) -> (peer: String)
    ensures
        peer@ == db@.dm_peer(conversation_id@),
{
    let names = db.conversation_members(conversation_id);
    proof {
        let of = db@.members.filter(member_of(conversation_id@));
        let rows = choose|rows: Seq<MemberModel>| #[trigger]
            ordered(rows, of, members_by_name()) && texts(names@)
                == names_of(rows);
        lemma_first_listed(rows, of);
        lemma_least_name(of);
        assert(texts(names@).len() == rows.len());
        if rows.len() > 0 {
            assert(texts(names@)[0] == rows[0].username);
        }
    }
    if names.len() > 0 {
        names[0].clone()
    } else {
        let empty = String::new();
        assert(empty@ =~= Seq::<char>::empty());
        empty
    }
}

/// Notes the endpoint that a contact was just seen at.
pub fn note_endpoint(db: &mut Database, username: &str, endpoint_id: &str, now_ms: i64)
    ensures
        final(db)@ == old(db)@.endpoint_noted(username@, endpoint_id@, now_ms),
{
    match db.find_contact(username) {
        Some(contact) => {
            if !uses_endpoint(&contact, endpoint_id) {
                let mut seen = contact;
                seen.endpoint_id = Some(endpoint_id.to_owned());
                db.upsert_contact(&seen, now_ms);
            }
        },
        None => {},
    }
}

fn note_bundle(db: &mut Database, username: &str, bundle: &str, now_ms: i64)
    ensures
        final(db)@ == old(db)@.bundle_noted(username@, bundle@, now_ms),
{
    if !bundle.is_empty() {
        match db.find_contact(username) {
            Some(contact) => {
                let mut told = contact;
                told.endpoint_bundle = Some(bundle.to_owned());
                db.upsert_contact(&told, now_ms);
            },
            None => {},
        }
    }
}

// -- outcomes ---------------------------------------------------------------------------------------

/// A notification for the user.
#[derive(Debug, Clone)]
pub struct Notice {
    pub title: String,
    pub body: String,
}

/// What is left to do with files once an envelope was applied.
#[derive(Debug, Clone)]
pub enum FileTask {
    Nothing,
    /// Take a chunk of the offered file.
    TakeChunk { file_id: String, offer_json: String, index: u32, sealed: Vec<u8> },
    /// Send the chunks that the other side lacks.
    SendChunks { file_id: String, offer_json: String, have: Vec<u32> },
    /// Drop what was received of a file.
    DropParts { file_id: String },
}

/// What a [`FileTask`] holds.
pub enum FileTaskModel {
    Nothing,
    TakeChunk { file_id: Seq<char>, offer_json: Seq<char>, index: u32, sealed: Seq<u8> },
    SendChunks { file_id: Seq<char>, offer_json: Seq<char>, have: Seq<u32> },
    DropParts { file_id: Seq<char> },
}

impl View for FileTask {
    type V = FileTaskModel;

    open spec fn view(&self) -> FileTaskModel {
        match *self {
            FileTask::Nothing => FileTaskModel::Nothing,
            FileTask::TakeChunk { file_id, offer_json, index, sealed } => FileTaskModel::TakeChunk {
                file_id: file_id@,
                offer_json: offer_json@,
                index,
                sealed: sealed@,
            },
            FileTask::SendChunks { file_id, offer_json, have } => FileTaskModel::SendChunks {
                file_id: file_id@,
                offer_json: offer_json@,
                have: have@,
            },
            FileTask::DropParts { file_id } => FileTaskModel::DropParts { file_id: file_id@ },
        }
    }
}

/// What routing an envelope came to.
#[derive(Debug, Clone)]
pub struct RouteOutcome {
    /// What has to be sent in return.
    pub works: Vec<OutboundWork>,
    /// A notification, shown while the window has no focus.
    pub notify: Option<Notice>,
    /// A message inside the window, shown in any case.
    pub toast: Option<String>,
    /// Whether anything shown has changed.
    pub changed: bool,
    pub task: FileTask,
}

/// What a [`RouteOutcome`] holds.
pub struct OutcomeModel {
    pub works: Seq<WorkModel>,
    pub notify: Option<(Seq<char>, Seq<char>)>,
    pub toast: Option<Seq<char>>,
    pub changed: bool,
    pub task: FileTaskModel,
}

/// What an [`OutboundWork`] holds.
pub struct WorkModel {
    pub peer_username: Seq<char>,
    pub envelope: EnvelopeModel,
}

impl View for OutboundWork {
    type V = WorkModel;

    open spec fn view(&self) -> WorkModel {
        WorkModel { peer_username: self.peer_username@, envelope: self.envelope@ }
    }
}

impl View for RouteOutcome {
    type V = OutcomeModel;

    open spec fn view(&self) -> OutcomeModel {
        OutcomeModel {
            works: views(self.works@),
            notify: match self.notify {
                Some(n) => Some((n.title@, n.body@)),
                None => None,
            },
            toast: opt_text(self.toast),
            changed: self.changed,
            task: self.task@,
        }
    }
}

/// Nothing happened.
pub open spec fn quiet() -> OutcomeModel {
    OutcomeModel {
        works: Seq::empty(),
        notify: None,
        toast: None,
        changed: false,
        task: FileTaskModel::Nothing,
    }
}

/// Something shown has changed.
pub open spec fn changed() -> OutcomeModel {
    OutcomeModel { changed: true, ..quiet() }
}

/// Something shown has changed, and the user is told.
pub open spec fn changed_with(title: Seq<char>, body: Seq<char>) -> OutcomeModel {
    OutcomeModel { notify: Some((title, body)), ..changed() }
}

/// The outcome by its view.
pub open spec fn outcome_view(r: Result<RouteOutcome, Error>) -> Result<OutcomeModel, Error> {
    match r {
        Ok(o) => Ok(o@),
        Err(e) => Err(e),
    }
}

impl RouteOutcome {
    /// Nothing happened.
    pub fn none() -> (outcome: RouteOutcome)
        ensures
            outcome@ == quiet(),
    {
        let outcome = RouteOutcome {
            works: Vec::new(),
            notify: None,
            toast: None,
            changed: false,
            task: FileTask::Nothing,
        };
        assert(outcome@.works =~= Seq::<WorkModel>::empty());
        outcome
    }

    fn changed() -> (outcome: RouteOutcome)
        ensures
            outcome@ == changed(),
    {
        let mut outcome = RouteOutcome::none();
        outcome.changed = true;
        outcome
    }

    fn changed_with(title: String, body: String) -> (outcome: RouteOutcome)
        ensures
            outcome@ == changed_with(title@, body@),
    {
        let mut outcome = RouteOutcome::changed();
        outcome.notify = Some(Notice { title, body });
        outcome
    }
}

/// A name as it is shown: `@` and the username.
pub open spec fn handle(username: Seq<char>) -> Seq<char> {
    "@"@ + username
}

/// A name as it is shown: `@` and the username.
pub fn handle_of(username: &str) -> (text: String)
    ensures
        text@ == handle(username@),
{
    let mut text = "@".to_owned();
    text.append(username);
    text
}

// -- the first step: who, may they, and what do they say --------------------------------------------

/// What an opened envelope carries.
#[derive(Debug, Clone, Copy, PartialEq, Eq, Structural)]
pub enum Stage {
    FriendAsk,
    FriendAnswer,
    Presence,
    Direct,
    GroupKey,
    Group,
}

/// The payload belongs to a group.
pub open spec fn in_group(stage: Stage) -> bool {
    stage == Stage::Group
}

/// The payload belongs to a conversation.
pub open spec fn is_content(stage: Stage) -> bool {
    stage == Stage::Direct || stage == Stage::Group
}

/// An envelope that was opened: who sent it, in which conversation, and the JSON of
/// its payload.
#[derive(Debug, Clone)]
pub struct Opened {
    pub stage: Stage,
    pub from: String,
    pub conversation_id: String,
    pub json: Vec<u8>,
}

/// What an [`Opened`] holds.
pub struct OpenedModel {
    pub stage: Stage,
    pub from: Seq<char>,
    pub conversation_id: Seq<char>,
    pub json: Seq<u8>,
}

impl View for Opened {
    type V = OpenedModel;

    open spec fn view(&self) -> OpenedModel {
        OpenedModel {
            stage: self.stage,
            from: self.from@,
            conversation_id: self.conversation_id@,
            json: self.json@,
        }
    }
}

/// What the first step comes to: the envelope is dealt with, or it was opened.
#[derive(Debug, Clone)]
pub enum Routed {
    Done(RouteOutcome),
    Open(Opened),
}

/// What a [`Routed`] holds.
pub enum RoutedModel {
    Done(OutcomeModel),
    Open(OpenedModel),
}

/// What the first step comes to, by its view.
pub open spec fn routed_view(r: Result<Routed, Error>) -> Result<RoutedModel, Error> {
    match r {
        Ok(Routed::Done(o)) => Ok(RoutedModel::Done(o@)),
        Ok(Routed::Open(o)) => Ok(RoutedModel::Open(o@)),
        Err(e) => Err(e),
    }
}

/// The context in which a handshake is sealed.
pub open spec fn handshake_context(t: MessageType, from: Seq<char>, me: Seq<char>) -> Seq<char> {
    if t == MessageType::FriendRequest {
        pair_context("friend-ask:"@, from, me)
    } else {
        pair_context("friend-answer:"@, from, me)
    }
}

/// What a handshake of a contact holds.
pub open spec fn handshake_opened(
    secret: Seq<u8>,
    me: Seq<char>,
    contact: ContactModel,
    e: EnvelopeModel,
) -> Result<Seq<u8>, Error> {
    match contact_key_of(contact) {
        None => Err(Error::NoContactKey),
        Some(key) => if e.message_type != MessageType::FriendRequest && e.message_type
            != MessageType::FriendResponse {
            Err(Error::NotAHandshake)
        } else {
            dm_opened(
                secret,
                key,
                encode_utf8(handshake_context(e.message_type, contact.username, me)),
                e.ciphertext,
            )
        },
    }
}

/// Opens a friend ask or answer of a contact; the result is the payload's JSON.
pub fn open_handshake(
    identity: &DeviceIdentity,
    me: &str,
    contact: &Contact,
    envelope: &ProtocolEnvelope,
) -> (json: Result<Vec<u8>, Error>)
    ensures
        opened_view(json) == handshake_opened(identity@.x_secret, me@, contact@, envelope@),
{
    let key = match contact_pub(contact) {
        Some(k) => k,
        None => {
            return Err(Error::NoContactKey);
        },
    };
    let context = if envelope.message_type == MessageType::FriendRequest {
        context_between("friend-ask:", contact.username.as_str(), me)
    } else if envelope.message_type == MessageType::FriendResponse {
        context_between("friend-answer:", contact.username.as_str(), me)
    } else {
        return Err(Error::NotAHandshake);
    };
    open_dm(
        &identity.x_secret,
        &key,
        context.as_str().as_bytes(),
        envelope.ciphertext.as_slice(),
    )
}

/// The time is far enough from the end of the clock to add a mailbox lifetime.
pub open spec fn clock_fits(now_ms: i64) -> bool {
    now_ms <= i64::MAX - MAILBOX_TTL_MS
}

/// The row of a handshake envelope whose sender is not known yet.
pub open spec fn stash_row(
    e: EnvelopeModel,
    endpoint: Seq<char>,
    envelope_json: Seq<char>,
    now_ms: i64,
) -> StashModel {
    StashModel {
        message_id: uuid_text(e.message_id),
        endpoint_id: endpoint,
        envelope_json,
        received_at_ms: now_ms,
        expires_at_ms: (now_ms + MAILBOX_TTL_MS) as i64,
    }
}

/// What the user is told of a handshake of an unknown device.
pub open spec fn stash_toast() -> Seq<char> {
    "Got a friend request from an unknown device — paste their invite code to read it."@
}

/// Keeps a handshake that cannot be opened yet, until the invite of its sender is
/// imported.
pub fn stash_unknown(
    db: &mut Database,
    envelope: &ProtocolEnvelope,
    envelope_json: &str,
    from_endpoint: &str,
    now_ms: i64,
) -> (outcome: RouteOutcome)
    requires
        clock_fits(now_ms),
    ensures
        outcome@ == (OutcomeModel { toast: Some(stash_toast()), ..changed() }),
        old(db)@.stashed(
            stash_row(envelope@, from_endpoint@, envelope_json@, now_ms),
            final(db)@,
        ),
{
    let id = envelope.message_id.to_text();
    let _new = db.stash_envelope(
        id.as_str(),
        from_endpoint,
        envelope_json,
        now_ms,
        now_ms + MAILBOX_TTL_MS,
    );
    let mut outcome = RouteOutcome::changed();
    outcome.toast = Some(
        "Got a friend request from an unknown device — paste their invite code to read it.".to_owned(),
    );
    outcome
}

/// The envelope is a friend ask or answer.
pub open spec fn is_handshake(t: MessageType) -> bool {
    t == MessageType::FriendRequest || t == MessageType::FriendResponse
}

/// What the first step makes of a handshake of a known sender.
pub open spec fn handshake_routed(
    secret: Seq<u8>,
    me: Seq<char>,
    sender: ContactModel,
    e: EnvelopeModel,
) -> Result<RoutedModel, Error> {
    match handshake_opened(secret, me, sender, e) {
        Err(err) => Err(err),
        Ok(json) => Ok(
            RoutedModel::Open(
                OpenedModel {
                    stage: if e.message_type == MessageType::FriendRequest {
                        Stage::FriendAsk
                    } else {
                        Stage::FriendAnswer
                    },
                    from: sender.username,
                    conversation_id: uuid_text(e.conversation_id),
                    json,
                },
            ),
        ),
    }
}

/// What the first step makes of a presence heartbeat of a known sender.
pub open spec fn presence_routed(
    secret: Seq<u8>,
    me: Seq<char>,
    sender: ContactModel,
    e: EnvelopeModel,
) -> Result<RoutedModel, Error> {
    if sender.username == me {
        Ok(RoutedModel::Done(quiet()))
    } else {
        match contact_key_of(sender) {
            None => Err(Error::NoContactKey),
            Some(key) => match dm_opened(
                secret,
                key,
                encode_utf8(pair_context("presence:"@, sender.username, me)),
                e.ciphertext,
            ) {
                Err(err) => Err(err),
                Ok(json) => Ok(
                    RoutedModel::Open(
                        OpenedModel {
                            stage: Stage::Presence,
                            from: sender.username,
                            conversation_id: uuid_text(e.conversation_id),
                            json,
                        },
                    ),
                ),
            },
        }
    }
}

/// What opening a group's key that was sealed for this user comes to.
pub open spec fn group_key_routed(
    secret: Seq<u8>,
    from: Seq<char>,
    key: Seq<u8>,
    id: Seq<char>,
    e: EnvelopeModel,
) -> Result<RoutedModel, Error> {
    match dm_opened(secret, key, encode_utf8(id), e.ciphertext) {
        Err(err) => Err(err),
        Ok(json) => Ok(
            RoutedModel::Open(
                OpenedModel { stage: Stage::GroupKey, from, conversation_id: id, json },
            ),
        ),
    }
}

/// What the first step makes of chat content: only the peer of a direct conversation
/// may write in it, and only members in a group. A conversation that is not known yet
/// begins with the key of a group that this user was taken into.
pub open spec fn content_routed(
    db: DbModel,
    secret: Seq<u8>,
    me: Seq<char>,
    from: Seq<char>,
    key: Seq<u8>,
    e: EnvelopeModel,
) -> Result<RoutedModel, Error> {
    let id = uuid_text(e.conversation_id);
    match db.conversation(id) {
        None => if e.message_type == MessageType::GroupCommit {
            group_key_routed(secret, from, key, id, e)
        } else {
            Err(Error::UnknownConversation)
        },
        Some(conversation) => if conversation.kind == "dm"@ {
            if db.dm_peer(id) != from {
                Err(Error::NotThePeer)
            } else {
                match dm_opened(secret, key, encode_utf8(id), e.ciphertext) {
                    Err(err) => Err(err),
                    Ok(json) => Ok(
                        RoutedModel::Open(
                            OpenedModel { stage: Stage::Direct, from, conversation_id: id, json },
                        ),
                    ),
                }
            }
        } else if !db.is_member(id, from) {
            Err(Error::NotAMember)
        } else if e.message_type == MessageType::GroupCommit {
            group_key_routed(secret, from, key, id, e)
        } else {
            match first_opened(
                db,
                secret,
                id,
                me,
                e.sequence,
                e.ciphertext,
                epochs_to_try(db, id, me, None),
            ) {
                Err(err) => Err(err),
                Ok(opened) => Ok(
                    RoutedModel::Open(
                        OpenedModel {
                            stage: Stage::Group,
                            from,
                            conversation_id: id,
                            json: opened.0,
                        },
                    ),
                ),
            }
        },
    }
}

/// The first step: what it makes of an envelope, and of the store.
pub open spec fn inbound_routed(
    before: DbModel,
    secret: Seq<u8>,
    e: EnvelopeModel,
    endpoint: Seq<char>,
    envelope_json: Seq<char>,
    now_ms: i64,
    after: DbModel,
    r: Result<RoutedModel, Error>,
) -> bool {
    exists|sender: Option<ContactModel>|
        {
            let me = before.me();
            &&& #[trigger] sender_found(before.contacts, e, endpoint, sender)
            &&& match sender {
                None => if is_handshake(e.message_type) {
                    &&& before.stashed(stash_row(e, endpoint, envelope_json, now_ms), after)
                    &&& r == Ok::<RoutedModel, Error>(
                        RoutedModel::Done(
                            OutcomeModel { toast: Some(stash_toast()), ..changed() },
                        ),
                    )
                } else {
                    &&& after == before
                    &&& r == Err::<RoutedModel, Error>(Error::UnknownSender)
                },
                Some(c) => if is_handshake(e.message_type) {
                    after == before && r == handshake_routed(secret, me, c, e)
                } else if e.message_type == MessageType::Presence {
                    after == before && r == presence_routed(secret, me, c, e)
                } else if c.username == me {
                    after == before && r == Ok::<RoutedModel, Error>(RoutedModel::Done(quiet()))
                } else {
                    match contact_key_of(c) {
                        None => after == before && r == Err::<RoutedModel, Error>(
                            Error::NoContactKey,
                        ),
                        Some(key) => {
                            &&& after == before.endpoint_noted(c.username, endpoint, now_ms)
                            &&& r == content_routed(after, secret, me, c.username, key, e)
                        },
                    }
                },
            }
        }
}

fn route_group_key(
    identity: &DeviceIdentity,
    from: &str,
    key: &[u8; 32],
    id: String,
    envelope: &ProtocolEnvelope,
) -> (r: Result<Routed, Error>)
    ensures
        routed_view(r) == group_key_routed(identity@.x_secret, from@, key@, id@, envelope@),
{
    match open_dm_payload(&identity.x_secret, key, id.as_str(), envelope.ciphertext.as_slice()) {
        Ok(json) => Ok(
            Routed::Open(
                Opened { stage: Stage::GroupKey, from: from.to_owned(), conversation_id: id, json },
            ),
        ),
        Err(e) => Err(e),
    }
}

fn route_content(
    db: &Database,
    identity: &DeviceIdentity,
    me: &str,
    from: &str,
    key: &[u8; 32],
    envelope: &ProtocolEnvelope,
) -> (r: Result<Routed, Error>)
    ensures
        routed_view(r) == content_routed(
            db@,
            identity@.x_secret,
            me@,
            from@,
            key@,
            envelope@,
        ),
{
    let id = envelope.conversation_id.to_text();
    let conversation = match db.get_conversation(id.as_str()) {
        Some(c) => c,
        None => {
            if envelope.message_type == MessageType::GroupCommit {
                return route_group_key(identity, from, key, id, envelope);
            }
            return Err(Error::UnknownConversation);
        },
    };
    if text_eq(conversation.kind.as_str(), "dm") {
        let peer = dm_peer_of(db, id.as_str());
        if !text_eq(peer.as_str(), from) {
            return Err(Error::NotThePeer);
        }
        match open_dm_payload(
            &identity.x_secret,
            key,
            id.as_str(),
            envelope.ciphertext.as_slice(),
        ) {
            Ok(json) => Ok(
                Routed::Open(
                    Opened { stage: Stage::Direct, from: from.to_owned(), conversation_id: id, json },
                ),
            ),
            Err(e) => Err(e),
        }
    } else {
        if !db.is_member(id.as_str(), from) {
            return Err(Error::NotAMember);
        }
        if envelope.message_type == MessageType::GroupCommit {
            return route_group_key(identity, from, key, id, envelope);
        }
        match open_group_best(
            db,
            identity,
            id.as_str(),
            me,
            envelope.sequence,
            envelope.ciphertext.as_slice(),
            None,
        ) {
            Ok(opened) => Ok(
                Routed::Open(
                    Opened {
                        stage: Stage::Group,
                        from: from.to_owned(),
                        conversation_id: id,
                        json: opened.0,
                    },
                ),
            ),
            Err(e) => Err(e),
        }
    }
}

/// The first step of routing.
///
/// A handshake of someone unknown is stashed until their invite is imported; any other
/// envelope of someone unknown is refused. Of a known sender, who is never a blocked
/// one, a handshake, a heartbeat or chat content is opened; chat content only in a
/// conversation that the sender belongs to, but for the key of a group that is not known
/// yet. `envelope_json` is the envelope as it was
/// received.
pub fn route_inbound(
    db: &mut Database,
    identity: &DeviceIdentity,
    envelope: &ProtocolEnvelope,
    envelope_json: &str,
    from_endpoint: &str,
    now_ms: i64,
) -> (r: Result<Routed, Error>)
    requires
        clock_fits(now_ms),
    ensures
        inbound_routed(
            old(db)@,
            identity@.x_secret,
            envelope@,
            from_endpoint@,
            envelope_json@,
            now_ms,
            final(db)@,
            routed_view(r),
        ),
{
    let me = match db.load_profile() {
        Some(p) => p.0,
        None => String::new(),
    };
    assert(me@ =~= db@.me());
    let handshake = envelope.message_type == MessageType::FriendRequest || envelope.message_type
        == MessageType::FriendResponse;
    let found = identify_sender(db, envelope, from_endpoint);
    assert(sender_found(db@.contacts, envelope@, from_endpoint@, opt_contact(found)));
    let sender = match found {
        Some(c) => c,
        None => {
            if handshake {
                let outcome = stash_unknown(db, envelope, envelope_json, from_endpoint, now_ms);
                return Ok(Routed::Done(outcome));
            }
            return Err(Error::UnknownSender);
        },
    };
    if handshake {
        return match open_handshake(identity, me.as_str(), &sender, envelope) {
            Ok(json) => {
                let stage = if envelope.message_type == MessageType::FriendRequest {
                    Stage::FriendAsk
                } else {
                    Stage::FriendAnswer
                };
                Ok(
                    Routed::Open(
                        Opened {
                            stage,
                            from: sender.username,
                            conversation_id: envelope.conversation_id.to_text(),
                            json,
                        },
                    ),
                )
            },
            Err(e) => Err(e),
        };
    }
    let own = text_eq(sender.username.as_str(), me.as_str());
    if own {
        return Ok(Routed::Done(RouteOutcome::none()));
    }
    let key = match contact_pub(&sender) {
        Some(k) => k,
        None => {
            return Err(Error::NoContactKey);
        },
    };
    if envelope.message_type == MessageType::Presence {
        return match open_presence_payload(
            &identity.x_secret,
            &key,
            sender.username.as_str(),
            me.as_str(),
            envelope.ciphertext.as_slice(),
        ) {
            Ok(json) => Ok(
                Routed::Open(
                    Opened {
                        stage: Stage::Presence,
                        from: sender.username,
                        conversation_id: envelope.conversation_id.to_text(),
                        json,
                    },
                ),
            ),
            Err(e) => Err(e),
        };
    }
    note_endpoint(db, sender.username.as_str(), from_endpoint, now_ms);
    route_content(db, identity, me.as_str(), sender.username.as_str(), &key, envelope)
}

// -- the second step: carrying it out ---------------------------------------------------------------

/// The row of a message that came in.
pub open spec fn inbound_row(
    e: EnvelopeModel,
    conversation: Seq<char>,
    from: Seq<char>,
    message_type: Seq<char>,
    body: Seq<char>,
    reply_to: Option<Seq<char>>,
) -> MessageModel {
    MessageModel {
        id: uuid_text(e.message_id),
        conversation_id: conversation,
        sender_device_id: uuid_text(e.sender_device_id),
        sender_username: from,
        message_type,
        body,
        ciphertext: e.ciphertext,
        sequence: signed_bits(e.sequence),
        status: "delivered"@,
        reply_to,
        created_at_ms: e.created_at_ms,
        edited_at_ms: None,
        deleted_at_ms: None,
    }
}

/// Stores a message that came in, unless it is already there.
pub fn store_message(
    db: &mut Database,
    envelope: &ProtocolEnvelope,
    conversation_id: &str,
    from: &str,
    message_type: &str,
    body: String,
    reply_to: Option<String>,
) -> (stored: Result<bool, Error>)
    ensures
        ({
            let row = inbound_row(
                envelope@,
                conversation_id@,
                from@,
                message_type@,
                body@,
                opt_text(reply_to),
            );
            if old(db)@.clashes(row) {
                stored == Ok::<bool, Error>(false) && final(db)@ == old(db)@
            } else if old(db)@.has_conversation(conversation_id@) {
                stored == Ok::<bool, Error>(true) && final(db)@ == old(db)@.add_message(row)
            } else {
                stored == Err::<bool, Error>(Error::Constraint) && final(db)@ == old(db)@
            }
        }),
{
    let message = Message {
        id: envelope.message_id.to_text(),
        conversation_id: conversation_id.to_owned(),
        sender_device_id: envelope.sender_device_id.to_text(),
        sender_username: from.to_owned(),
        message_type: message_type.to_owned(),
        body,
        ciphertext: copy_bytes(envelope.ciphertext.as_slice()),
        sequence: to_signed(envelope.sequence),
        status: "delivered".to_owned(),
        reply_to,
        created_at_ms: envelope.created_at_ms,
        edited_at_ms: None,
        deleted_at_ms: None,
    };
    db.insert_message(&message)
}

/// The outcome of storing a message that came in: `shown` if it is new.
pub open spec fn message_stored(
    before: DbModel,
    after: DbModel,
    row: MessageModel,
    shown: OutcomeModel,
    r: Result<OutcomeModel, Error>,
) -> bool {
    if before.clashes(row) {
        after == before && r == Ok::<OutcomeModel, Error>(quiet())
    } else if before.has_conversation(row.conversation_id) {
        after == before.add_message(row) && r == Ok::<OutcomeModel, Error>(shown)
    } else {
        after == before && r == Err::<OutcomeModel, Error>(Error::Constraint)
    }
}

/// The transfer that an offer starts.
pub open spec fn offered_file(
    offer: FileOfferModel,
    conversation: Seq<char>,
    state: Seq<char>,
    now_ms: i64,
) -> FileTransferModel {
    FileTransferModel {
        id: offer.file_id,
        conversation_id: conversation,
        filename: offer.filename,
        mime_type: offer.mime_type,
        size_bytes: signed_bits(offer.size_bytes),
        sha256_hex: offer.sha256_hex,
        state,
        bytes_done: 0,
        local_path: None,
        created_at_ms: now_ms,
    }
}

/// The outcome of taking a file offer. An offer that is known already changes nothing.
pub open spec fn offer_taken(
    before: DbModel,
    after: DbModel,
    from: Seq<char>,
    conversation: Seq<char>,
    e: EnvelopeModel,
    offer: FileOfferModel,
    offer_json: Seq<char>,
    now_ms: i64,
    r: Result<OutcomeModel, Error>,
) -> bool {
    let row = inbound_row(
        e,
        conversation,
        from,
        "FileOffer"@,
        "File: "@ + offer.filename,
        None,
    );
    let told = OutcomeModel {
        notify: Some((handle(from), "Sent file "@ + offer.filename)),
        ..quiet()
    };
    if before.file(offer.file_id) is Some {
        after == before && r == Ok::<OutcomeModel, Error>(quiet())
    } else if !before.has_conversation(conversation) {
        after == before && r == Err::<OutcomeModel, Error>(Error::Constraint)
    } else {
        let saved = before.save_file(
            offered_file(offer, conversation, "incoming"@, now_ms),
        ).save_offer_json(offer.file_id, offer_json);
        &&& after == saved.insert_message(row)
        &&& r == Ok::<OutcomeModel, Error>(
            OutcomeModel { changed: !before.clashes(row), ..told },
        )
    }
}

/// Takes a file offer: the transfer, its offer and a message that shows it are stored.
pub fn receive_file_offer(
    db: &mut Database,
    from: &str,
    conversation_id: &str,
    envelope: &ProtocolEnvelope,
    offer: &FileOfferBody,
    offer_json: &str,
    now_ms: i64,
) -> (r: Result<RouteOutcome, Error>)
    ensures
        offer_taken(
            old(db)@,
            final(db)@,
            from@,
            conversation_id@,
            envelope@,
            offer@,
            offer_json@,
            now_ms,
            outcome_view(r),
        ),
{
    proof {
        lemma_first_row(
            db@.files,
            file_is(offer@.file_id),
        );
    }
    if db.load_file(offer.file_id.as_str()).is_some() {
        return Ok(RouteOutcome::none());
    }
    let file = FileTransfer {
        id: offer.file_id.clone(),
        conversation_id: conversation_id.to_owned(),
        filename: offer.filename.clone(),
        mime_type: offer.mime_type.clone(),
        size_bytes: to_signed(offer.size_bytes),
        sha256_hex: offer.sha256_hex.clone(),
        state: "incoming".to_owned(),
        bytes_done: 0,
        local_path: None,
        created_at_ms: now_ms,
    };
    match db.save_file(&file, now_ms) {
        Ok(_) => {},
        Err(e) => {
            return Err(e);
        },
    }
    db.save_offer_json(offer.file_id.as_str(), offer_json);
    let mut shown = "File: ".to_owned();
    shown.append(offer.filename.as_str());
    let stored = match store_message(
        db,
        envelope,
        conversation_id,
        from,
        "FileOffer",
        shown,
        None,
    ) {
        Ok(b) => b,
        Err(e) => {
            return Err(e);
        },
    };
    let mut told = "Sent file ".to_owned();
    told.append(offer.filename.as_str());
    let mut outcome = RouteOutcome::none();
    outcome.changed = stored;
    outcome.notify = Some(Notice { title: handle_of(from), body: told });
    Ok(outcome)
}

/// `work` sends a stored message to someone again, under its own id.
pub open spec fn resent_to(
    work: WorkModel,
    to: Seq<char>,
    identity: IdentityModel,
    device: Seq<u8>,
    conversation: Seq<u8>,
    m: MessageModel,
    now_ms: i64,
) -> bool {
    &&& work.peer_username == to
    &&& work.envelope == envelope_of(
        identity,
        device,
        conversation,
        work.envelope.message_id,
        type_named(m.message_type),
        unsigned_bits(m.sequence as int),
        m.ciphertext,
        now_ms,
    )
    &&& uuid_parsed(m.id) is Some ==> work.envelope.message_id
        == uuid_parsed(m.id)->0
}

/// The outcome of a request for missed messages: each is sent again.
pub open spec fn gap_resent(
    db: DbModel,
    to: Seq<char>,
    identity: IdentityModel,
    device: Seq<u8>,
    conversation: Seq<u8>,
    requested: Seq<char>,
    after_sequence: i64,
    now_ms: i64,
    outcome: OutcomeModel,
) -> bool {
    exists|list: Seq<MessageModel>|
        {
            &&& #[trigger] listed_after(db, requested, after_sequence, 200, list)
            &&& outcome == (OutcomeModel { works: outcome.works, ..quiet() })
            &&& outcome.works.len() == list.len()
            &&& forall|i: int|
                0 <= i < list.len() ==> resent_to(
                    #[trigger] outcome.works[i],
                    to,
                    identity,
                    device,
                    conversation,
                    list[i],
                    now_ms,
                )
        }
}

fn resend_gap(
    db: &Database,
    to: &str,
    identity: &DeviceIdentity,
    device_uuid: Uuid,
    conversation: Uuid,
    requested: &str,
    after_sequence: i64,
    now_ms: i64,
) -> (outcome: RouteOutcome)
    ensures
        gap_resent(
            db@,
            to@,
            identity@,
            device_uuid@,
            conversation@,
            requested@,
            after_sequence,
            now_ms,
            outcome@,
        ),
{
    let list = messages_after(db, requested, after_sequence, 200);
    let mut works: Vec<OutboundWork> = Vec::new();
    let mut i: usize = 0;
    while i < list.len()
        invariant
            i <= list.len(),
            works.len() == i,
            forall|j: int|
                0 <= j < i ==> resent_to(
                    (#[trigger] works@[j])@,
                    to@,
                    identity@,
                    device_uuid@,
                    conversation@,
                    list@[j]@,
                    now_ms,
                ),
        decreases list.len() - i,
    {
        let envelope = resend_envelope(
            identity,
            device_uuid,
            conversation,
            &list[i],
            now_ms,
        );
        works.push(OutboundWork { peer_username: to.to_owned(), envelope });
        i += 1;
    }
    let mut outcome = RouteOutcome::none();
    outcome.works = works;
    proof {
        let shown = outcome@.works;
        assert(listed_after(db@, requested@, after_sequence, 200, views(list@)));
        assert forall|j: int| 0 <= j < list.len() implies resent_to(
            #[trigger] shown[j],
            to@,
            identity@,
            device_uuid@,
            conversation@,
            views(list@)[j],
            now_ms,
        ) by {
            assert(shown[j] == works@[j]@);
        }
    }
    outcome
}

/// The outcome of carrying out a payload of a conversation.
pub open spec fn content_applied(
    before: DbModel,
    after: DbModel,
    identity: IdentityModel,
    device: Seq<u8>,
    from: Seq<char>,
    conversation: Seq<char>,
    e: EnvelopeModel,
    payload: PayloadModel,
    group: bool,
    offer_json: Seq<char>,
    now_ms: i64,
    r: Result<OutcomeModel, Error>,
) -> bool {
    match payload {
        PayloadModel::Text { body, reply_to, .. } => message_stored(
            before,
            after,
            inbound_row(e, conversation, from, "Message"@, body, reply_to),
            changed_with(handle(from), prefix(body, 80)),
            r,
        ),
        PayloadModel::Edit { ref_id, body, .. } => if before.message(ref_id) is Some
            && before.message(ref_id)->0.sender_username == from {
            after == before.edit_message(ref_id, body, e.ciphertext, now_ms) && r == Ok::<
                OutcomeModel,
                Error,
            >(changed())
        } else {
            after == before && r == Ok::<OutcomeModel, Error>(quiet())
        },
        PayloadModel::Delete { ref_id, .. } => if before.message(ref_id) is Some
            && before.message(ref_id)->0.sender_username == from {
            after == before.tombstone_message(ref_id, now_ms) && r == Ok::<OutcomeModel, Error>(
                changed(),
            )
        } else {
            after == before && r == Ok::<OutcomeModel, Error>(quiet())
        },
        PayloadModel::Read { ref_ids, .. } => exists|applied: nat|
            {
                &&& #[trigger] receipt_applied(
                    before,
                    after,
                    conversation,
                    from,
                    ref_ids,
                    applied,
                )
                &&& r == Ok::<OutcomeModel, Error>(
                    if applied > 0 {
                        changed()
                    } else {
                        quiet()
                    },
                )
            },
        PayloadModel::Typing { .. } => after == before && r == Ok::<OutcomeModel, Error>(
            changed(),
        ),
        PayloadModel::FileOffer { file, .. } => offer_taken(
            before,
            after,
            from,
            conversation,
            e,
            file,
            offer_json,
            now_ms,
            r,
        ),
        PayloadModel::FileChunk { file_id, index, data, .. } => {
            &&& after == before
            &&& r == match before.offer_json(file_id) {
                None => Err::<OutcomeModel, Error>(Error::NoOffer),
                Some(json) => Ok(
                    OutcomeModel {
                        task: FileTaskModel::TakeChunk {
                            file_id,
                            offer_json: json,
                            index,
                            sealed: data,
                        },
                        ..quiet()
                    },
                ),
            }
        },
        PayloadModel::FileAccept { file_id, have, .. } => {
            &&& after == before
            &&& r == match before.offer_json(file_id) {
                None => Err::<OutcomeModel, Error>(Error::UnknownFile),
                Some(json) => Ok(
                    OutcomeModel {
                        task: FileTaskModel::SendChunks { file_id, offer_json: json, have },
                        ..quiet()
                    },
                ),
            }
        },
        PayloadModel::FileCancel { file_id, .. } => match before.file(file_id) {
            None => after == before && r == Ok::<OutcomeModel, Error>(quiet()),
            Some(file) => {
                &&& after == before.save_file(
                    FileTransferModel { state: "cancelled"@, ..file },
                )
                &&& r == Ok::<OutcomeModel, Error>(
                    OutcomeModel { task: FileTaskModel::DropParts { file_id }, ..changed() },
                )
            },
        },
        PayloadModel::GroupMeta { name, .. } => if group {
            message_stored(
                before.rename_conversation(conversation, name, now_ms),
                after,
                inbound_row(
                    e,
                    conversation,
                    from,
                    "GroupMessage"@,
                    handle(from) + " renamed the group to "@ + name,
                    None,
                ),
                changed(),
                r,
            )
        } else {
            after == before && r == Ok::<OutcomeModel, Error>(quiet())
        },
        PayloadModel::SyncRequest { conversation_id, after_sequence, .. } => if group {
            after == before && r == Ok::<OutcomeModel, Error>(quiet())
        } else {
            &&& after == before
            &&& r is Ok
            &&& gap_resent(
                before,
                from,
                identity,
                device,
                e.conversation_id,
                conversation_id,
                after_sequence,
                now_ms,
                r->Ok_0,
            )
        },
        _ => after == before && r == Ok::<OutcomeModel, Error>(quiet()),
    }
}

/// Who is typing after a payload was carried out.
pub open spec fn typing_applied(
    before: TypingState,
    after: TypingState,
    conversation: Seq<char>,
    from: Seq<char>,
    payload: PayloadModel,
) -> bool {
    match payload {
        PayloadModel::Typing { typing, .. } => exists|now: u128|
            after == #[trigger] before.set_typing(conversation, from, typing, now),
        _ => after == before,
    }
}

/// Carries out a payload of a direct conversation or a group. Only whoever wrote a
/// message can edit or delete it. `offer_json` is the JSON of the offer where the
/// payload is one.
pub fn apply_content(
    db: &mut Database,
    typing: &mut TypingTracker,
    identity: &DeviceIdentity,
    device_uuid: Uuid,
    from: &str,
    conversation_id: &str,
    envelope: &ProtocolEnvelope,
    payload: &ChatPayload,
    group: bool,
    offer_json: &str,
    now_ms: i64,
) -> (r: Result<RouteOutcome, Error>)
    ensures
        content_applied(
            old(db)@,
            final(db)@,
            identity@,
            device_uuid@,
            from@,
            conversation_id@,
            envelope@,
            payload@,
            group,
            offer_json@,
            now_ms,
            outcome_view(r),
        ),
        typing_applied(old(typing)@, final(typing)@, conversation_id@, from@, payload@),
{
    match payload {
        ChatPayload::Text { body, reply_to, .. } => {
            match store_message(
                db,
                envelope,
                conversation_id,
                from,
                "Message",
                body.clone(),
                copy_opt_text(reply_to),
            ) {
                Err(e) => Err(e),
                Ok(stored) => {
                    if stored {
                        Ok(
                            RouteOutcome::changed_with(
                                handle_of(from),
                                take_chars(body.as_str(), 80),
                            ),
                        )
                    } else {
                        Ok(RouteOutcome::none())
                    }
                },
            }
        },
        ChatPayload::Edit { ref_id, body, .. } => {
            if wrote(db, ref_id.as_str(), from) {
                db.edit_message(
                    ref_id.as_str(),
                    body.as_str(),
                    envelope.ciphertext.as_slice(),
                    now_ms,
                );
                Ok(RouteOutcome::changed())
            } else {
                Ok(RouteOutcome::none())
            }
        },
        ChatPayload::Delete { ref_id, .. } => {
            if wrote(db, ref_id.as_str(), from) {
                db.tombstone_message(ref_id.as_str(), now_ms);
                Ok(RouteOutcome::changed())
            } else {
                Ok(RouteOutcome::none())
            }
        },
        ChatPayload::Read { ref_ids, .. } => {
            let applied: usize = apply_read_receipt(db, conversation_id, from, ref_ids);
            let outcome = if applied > 0 {
                RouteOutcome::changed()
            } else {
                RouteOutcome::none()
            };
            proof {
                let count = applied as nat;
                let ids = texts(ref_ids@);
                assert(payload@->Read_ref_ids == ids);
                assert(receipt_applied(old(db)@, db@, conversation_id@, from@, ids, count));
                assert(outcome@ == if count > 0 {
                    changed()
                } else {
                    quiet()
                });
            }
            Ok(outcome)
        },
        ChatPayload::Typing { typing: now_typing, .. } => {
            typing.set_typing(conversation_id, from, *now_typing);
            Ok(RouteOutcome::changed())
        },
        ChatPayload::FileOffer { file, .. } => receive_file_offer(
            db,
            from,
            conversation_id,
            envelope,
            file,
            offer_json,
            now_ms,
        ),
        ChatPayload::FileChunk { file_id, index, data, .. } => {
            match db.load_offer_json(file_id.as_str()) {
                None => Err(Error::NoOffer),
                Some(json) => {
                    let mut outcome = RouteOutcome::none();
                    outcome.task = FileTask::TakeChunk {
                        file_id: file_id.clone(),
                        offer_json: json,
                        index: *index,
                        sealed: copy_bytes(data.as_slice()),
                    };
                    Ok(outcome)
                },
            }
        },
        ChatPayload::FileAccept { file_id, have, .. } => {
            match db.load_offer_json(file_id.as_str()) {
                None => Err(Error::UnknownFile),
                Some(json) => {
                    let mut outcome = RouteOutcome::none();
                    outcome.task = FileTask::SendChunks {
                        file_id: file_id.clone(),
                        offer_json: json,
                        have: vstd::slice::slice_to_vec(have.as_slice()),
                    };
                    Ok(outcome)
                },
            }
        },
        ChatPayload::FileCancel { file_id, .. } => {
            proof {
                lemma_first_row(
                    db@.files,
                    file_is(file_id@),
                );
            }
            match db.load_file(file_id.as_str()) {
                None => Ok(RouteOutcome::none()),
                Some(file) => {
                    let mut cancelled = file;
                    cancelled.state = "cancelled".to_owned();
                    match db.save_file(&cancelled, now_ms) {
                        Err(e) => Err(e),
                        Ok(_) => {
                            let mut outcome = RouteOutcome::changed();
                            outcome.task = FileTask::DropParts { file_id: file_id.clone() };
                            Ok(outcome)
                        },
                    }
                },
            }
        },
        ChatPayload::GroupMeta { name, .. } => {
            if !group {
                return Ok(RouteOutcome::none());
            }
            db.rename_conversation(conversation_id, name.as_str(), now_ms);
            let mut told = handle_of(from);
            told.append(" renamed the group to ");
            told.append(name.as_str());
            match store_message(
                db,
                envelope,
                conversation_id,
                from,
                "GroupMessage",
                told,
                None,
            ) {
                Err(e) => Err(e),
                Ok(stored) => {
                    if stored {
                        Ok(RouteOutcome::changed())
                    } else {
                        Ok(RouteOutcome::none())
                    }
                },
            }
        },
        ChatPayload::SyncRequest { conversation_id: requested, after_sequence, .. } => {
            if group {
                return Ok(RouteOutcome::none());
            }
            Ok(
                resend_gap(
                    db,
                    from,
                    identity,
                    device_uuid,
                    envelope.conversation_id,
                    requested.as_str(),
                    *after_sequence,
                    now_ms,
                ),
            )
        },
        _ => Ok(RouteOutcome::none()),
    }
}

fn wrote(db: &Database, id: &str, from: &str) -> (b: bool)
    ensures
        b == (db@.message(id@) is Some && db@.message(id@)->0.sender_username == from@),
{
    match db.get_message(id) {
        Some(m) => text_eq(m.sender_username.as_str(), from),
        None => false,
    }
}

/// The outcome of a friend ask that was opened.
pub open spec fn ask_applied(
    before: DbModel,
    after: DbModel,
    from: Seq<char>,
    payload: PayloadModel,
    endpoint: Seq<char>,
    fresh: Seq<char>,
    now_ms: i64,
    r: Result<OutcomeModel, Error>,
) -> bool {
    if payload.sender() != from {
        after == before && r == Err::<OutcomeModel, Error>(Error::SenderMismatch)
    } else {
        match (ask_contact(before, payload), payload) {
            (Ok(contact), PayloadModel::FriendAsk { endpoint_bundle, .. }) => {
                &&& after == request_staged(before, contact, "in"@, fresh, now_ms).bundle_noted(
                    from,
                    endpoint_bundle,
                    now_ms,
                ).endpoint_noted(from, endpoint, now_ms)
                &&& r == Ok::<OutcomeModel, Error>(
                    changed_with("Friend request"@, handle(from) + " wants to chat"@),
                )
            },
            (Err(e), _) => after == before && r == Err::<OutcomeModel, Error>(e),
            _ => after == before && r == Err::<OutcomeModel, Error>(Error::NotAFriendAsk),
        }
    }
}

/// Carries out a friend ask that was opened: the request is stored, and how the
/// sender can be reached.
pub fn handle_friend_ask(
    db: &mut Database,
    from: &str,
    payload: &ChatPayload,
    from_endpoint: &str,
    fresh: Uuid,
    now_ms: i64,
) -> (r: Result<RouteOutcome, Error>)
    ensures
        ask_applied(
            old(db)@,
            final(db)@,
            from@,
            payload@,
            from_endpoint@,
            uuid_text(fresh@),
            now_ms,
            outcome_view(r),
        ),
{
    if !text_eq(payload.sender(), from) {
        return Err(Error::SenderMismatch);
    }
    match payload {
        ChatPayload::FriendAsk { endpoint_bundle, .. } => {
            match receive_friend_ask_as(db, payload, fresh, now_ms) {
                Err(e) => Err(e),
                Ok(_) => {
                    note_bundle(db, from, endpoint_bundle.as_str(), now_ms);
                    note_endpoint(db, from, from_endpoint, now_ms);
                    let mut body = handle_of(from);
                    body.append(" wants to chat");
                    Ok(RouteOutcome::changed_with("Friend request".to_owned(), body))
                },
            }
        },
        _ => Err(Error::NotAFriendAsk),
    }
}

/// The outcome of a friend answer that was opened.
pub open spec fn answer_applied(
    before: DbModel,
    after: DbModel,
    from: Seq<char>,
    payload: PayloadModel,
    endpoint: Seq<char>,
    named: Seq<char>,
    fresh: Seq<char>,
    now_ms: i64,
    r: Result<OutcomeModel, Error>,
) -> bool {
    if payload.sender() != from {
        after == before && r == Err::<OutcomeModel, Error>(Error::SenderMismatch)
    } else {
        match payload {
            PayloadModel::FriendAnswer { accepted, endpoint_bundle, .. } => exists|
                request: Option<FriendRequestModel>,
            |
                {
                    let answered = request_answered(before, request, accepted, now_ms);
                    let id = before.shared_id(named, fresh);
                    &&& #[trigger] newest_request(
                        before.requests,
                        open_request("out"@, from),
                        request,
                    )
                    &&& if accepted {
                        &&& after == befriended(
                            answered,
                            from,
                            endpoint_bundle,
                            now_ms,
                        ).ensure_dm(from, id, now_ms).endpoint_noted(from, endpoint, now_ms)
                        &&& r == Ok::<OutcomeModel, Error>(
                            changed_with(
                                "Friend added"@,
                                handle(from) + " accepted your request"@,
                            ),
                        )
                    } else {
                        &&& after == answered
                        &&& r == Ok::<OutcomeModel, Error>(
                            changed_with("Request declined"@, handle(from) + " declined"@),
                        )
                    }
                },
            _ => after == before && r == Ok::<OutcomeModel, Error>(quiet()),
        }
    }
}

/// Carries out a friend answer that was opened. `named` is the conversation that its
/// envelope names.
pub fn handle_friend_answer(
    db: &mut Database,
    from: &str,
    payload: &ChatPayload,
    from_endpoint: &str,
    named: Uuid,
    fresh: Uuid,
    now_ms: i64,
) -> (r: Result<RouteOutcome, Error>)
    ensures
        answer_applied(
            old(db)@,
            final(db)@,
            from@,
            payload@,
            from_endpoint@,
            uuid_text(named@),
            uuid_text(fresh@),
            now_ms,
            outcome_view(r),
        ),
{
    if !text_eq(payload.sender(), from) {
        return Err(Error::SenderMismatch);
    }
    match payload {
        ChatPayload::FriendAnswer { accepted, endpoint_bundle, .. } => {
            if *accepted {
                let _dm = receive_friend_answer_as(
                    db,
                    from,
                    true,
                    endpoint_bundle.as_str(),
                    named,
                    fresh,
                    now_ms,
                );
                note_endpoint(db, from, from_endpoint, now_ms);
                let mut body = handle_of(from);
                body.append(" accepted your request");
                Ok(RouteOutcome::changed_with("Friend added".to_owned(), body))
            } else {
                let _dm = receive_friend_answer_as(db, from, false, "", named, fresh, now_ms);
                let mut body = handle_of(from);
                body.append(" declined");
                Ok(RouteOutcome::changed_with("Request declined".to_owned(), body))
            }
        },
        _ => Ok(RouteOutcome::none()),
    }
}

/// Some part of the work on a payload still has to be done with files.
pub open spec fn file_work_left(o: OutcomeModel) -> bool {
    o.task is TakeChunk || o.task is SendChunks
}

/// The second step: what it makes of an opened envelope and of the store. `payload` is
/// what the JSON reads as.
pub open spec fn opened_applied(
    before: DbModel,
    after: DbModel,
    identity: IdentityModel,
    device: Seq<u8>,
    opened: OpenedModel,
    e: EnvelopeModel,
    payload: Option<PayloadModel>,
    offer_json: Seq<char>,
    endpoint: Seq<char>,
    fresh: Seq<char>,
    now_ms: i64,
    r: Result<OutcomeModel, Error>,
) -> bool {
    match payload {
        None => after == before && r == Err::<OutcomeModel, Error>(Error::BadPayload),
        Some(p) => match opened.stage {
            Stage::FriendAsk => ask_applied(
                before,
                after,
                opened.from,
                p,
                endpoint,
                fresh,
                now_ms,
                r,
            ),
            Stage::FriendAnswer => answer_applied(
                before,
                after,
                opened.from,
                p,
                endpoint,
                uuid_text(e.conversation_id),
                fresh,
                now_ms,
                r,
            ),
            Stage::Presence => if p is Presence {
                &&& after == before.endpoint_noted(opened.from, endpoint, now_ms)
                &&& r == Ok::<OutcomeModel, Error>(changed())
            } else {
                after == before && r == Err::<OutcomeModel, Error>(Error::NotPresence)
            },
            Stage::GroupKey => if before.has_conversation(opened.conversation_id)
                || begins_group(p, opened.conversation_id) {
                group_key_applied(before, after, p, now_ms, r)
            } else {
                after == before && r == Err::<OutcomeModel, Error>(Error::UnknownConversation)
            },
            _ => if p.sender() != opened.from {
                after == before && r == Err::<OutcomeModel, Error>(Error::SenderMismatch)
            } else {
                exists|mid: DbModel|
                    {
                        &&& #[trigger] content_applied(
                            before,
                            mid,
                            identity,
                            device,
                            opened.from,
                            opened.conversation_id,
                            e,
                            p,
                            in_group(opened.stage),
                            offer_json,
                            now_ms,
                            r,
                        )
                        &&& after == if r is Ok && !file_work_left(r->Ok_0) {
                            mid.update_sync_cursor(
                                opened.from,
                                opened.conversation_id,
                                signed_bits(e.sequence),
                                now_ms,
                            )
                        } else {
                            mid
                        }
                    }
            },
        },
    }
}

/// The payload is the key of this very group. In an envelope for a conversation that is
/// not known yet, no other group's key is taken: nobody's word counts in a group that they
/// do not belong to.
pub open spec fn begins_group(payload: PayloadModel, conversation: Seq<char>) -> bool {
    match payload {
        PayloadModel::GroupKey { group_id, .. } => group_id == conversation,
        _ => false,
    }
}

fn is_key_of(payload: &ChatPayload, conversation: &str) -> (b: bool)
    ensures
        b == begins_group(payload@, conversation@),
{
    match payload {
        ChatPayload::GroupKey { group_id, .. } => text_eq(group_id.as_str(), conversation),
        _ => false,
    }
}

/// The outcome of a rotation that came in.
pub open spec fn group_key_applied(
    before: DbModel,
    after: DbModel,
    payload: PayloadModel,
    now_ms: i64,
    r: Result<OutcomeModel, Error>,
) -> bool {
    &&& key_received(before, after, before.me(), payload, now_ms, match r {
        Ok(_) => Ok(()),
        Err(e) => Err(e),
    })
    &&& r is Ok ==> r->Ok_0 == changed_with(
        "Group updated"@,
        "Encryption rotated for a group"@,
    )
}

/// What taking a rotation does: nothing where it is not newer; where this user was
/// removed, their keys go; else the group is brought up to date and the key is stored.
pub open spec fn key_received(
    before: DbModel,
    after: DbModel,
    me: Seq<char>,
    payload: PayloadModel,
    now_ms: i64,
    r: Result<(), Error>,
) -> bool {
    match payload {
        PayloadModel::GroupKey {
            from,
            group_id,
            epoch,
            members,
            group_name,
            wrapped_key,
            wrapper_x_pub_hex,
        } => if !members.contains(me) {
            let dropped = before.delete_wrapped_keys_for(group_id, me);
            if members.len() > 0 && !before.has_conversation(group_id) {
                r == Err::<(), Error>(Error::Constraint) && after == dropped
            } else {
                r is Ok && after == dropped.set_conversation_members(group_id, members, now_ms)
            }
        } else if epoch_known(before, group_id) >= epoch {
            r is Ok && after == before
        } else {
            let synced = group_synced(
                before,
                group_id,
                group_name,
                members,
                epoch,
                now_ms,
            );
            match hex_decoded_32(wrapper_x_pub_hex) {
                Err(e) => r == Err::<(), Error>(e) && after == synced,
                Ok(wrapper) => r is Ok && after == synced.save_wrapped_key(
                    GroupKeyModel {
                        group_id,
                        epoch,
                        wrapped_for: me,
                        wrapped_key,
                        wrapper_x_pub: Some(wrapper),
                        share: Some(first_place(members, me) as u64),
                    },
                ),
            }
        },
        _ => r == Err::<(), Error>(Error::NotAGroupKey) && after == before,
    }
}

/// What is known of friends after a payload was carried out.
pub open spec fn presence_applied(
    before: PresenceState,
    after: PresenceState,
    opened: OpenedModel,
    payload: Option<PayloadModel>,
) -> bool {
    match (opened.stage, payload) {
        (Stage::Presence, Some(PayloadModel::Presence { status, .. })) => exists|now: u128|
            after == #[trigger] before.peer_update(opened.from, status, now),
        _ => after == before,
    }
}

/// The second step of routing: carries out what [`route_inbound`] opened, where
/// `payload` is what its JSON reads as and `offer_json` the JSON of the offer where it
/// is one. `fresh` is the id of a request or conversation that may be made.
pub fn apply_opened(
    db: &mut Database,
    typing: &mut TypingTracker,
    presence: &mut PresenceTracker,
    identity: &DeviceIdentity,
    device_uuid: Uuid,
    opened: &Opened,
    envelope: &ProtocolEnvelope,
    payload: &Option<ChatPayload>,
    offer_json: &str,
    from_endpoint: &str,
    fresh: Uuid,
    now_ms: i64,
) -> (r: Result<RouteOutcome, Error>)
    ensures
        opened_applied(
            old(db)@,
            final(db)@,
            identity@,
            device_uuid@,
            opened@,
            envelope@,
            opt_payload(*payload),
            offer_json@,
            from_endpoint@,
            uuid_text(fresh@),
            now_ms,
            outcome_view(r),
        ),
        presence_applied(old(presence)@, final(presence)@, opened@, opt_payload(*payload)),
        match opt_payload(*payload) {
            Some(p) => if is_content(opened@.stage) && p.sender() == opened@.from {
                typing_applied(
                    old(typing)@,
                    final(typing)@,
                    opened@.conversation_id,
                    opened@.from,
                    p,
                )
            } else {
                final(typing)@ == old(typing)@
            },
            None => final(typing)@ == old(typing)@,
        },
{
    let p = match payload {
        Some(p) => p,
        None => {
            return Err(Error::BadPayload);
        },
    };
    let from = opened.from.as_str();
    match opened.stage {
        Stage::FriendAsk => handle_friend_ask(db, from, p, from_endpoint, fresh, now_ms),
        Stage::FriendAnswer => handle_friend_answer(
            db,
            from,
            p,
            from_endpoint,
            envelope.conversation_id,
            fresh,
            now_ms,
        ),
        Stage::Presence => {
            match p {
                ChatPayload::Presence { status, .. } => {
                    presence.peer_update(from, *status);
                    note_endpoint(db, from, from_endpoint, now_ms);
                    Ok(RouteOutcome::changed())
                },
                _ => Err(Error::NotPresence),
            }
        },
        Stage::GroupKey => {
            let id = opened.conversation_id.as_str();
            if !db.has_conversation(id) && !is_key_of(p, id) {
                return Err(Error::UnknownConversation);
            }
            let me = match db.load_profile() {
                Some(profile) => profile.0,
                None => String::new(),
            };
            assert(me@ =~= db@.me());
            match receive_group_key(db, me.as_str(), p, now_ms) {
                Err(e) => Err(e),
                Ok(_) => Ok(
                    RouteOutcome::changed_with(
                        "Group updated".to_owned(),
                        "Encryption rotated for a group".to_owned(),
                    ),
                ),
            }
        },
        _ => {
            if !text_eq(p.sender(), from) {
                return Err(Error::SenderMismatch);
            }
            let group = opened.stage == Stage::Group;
            let r = apply_content(
                db,
                typing,
                identity,
                device_uuid,
                from,
                opened.conversation_id.as_str(),
                envelope,
                p,
                group,
                offer_json,
                now_ms,
            );
            let ghost mid = db@;
            assert(content_applied(
                old(db)@,
                mid,
                identity@,
                device_uuid@,
                opened@.from,
                opened@.conversation_id,
                envelope@,
                p@,
                in_group(opened@.stage),
                offer_json@,
                now_ms,
                outcome_view(r),
            ));
            match r {
                Err(e) => Err(e),
                Ok(outcome) => {
                    let left = match &outcome.task {
                        FileTask::TakeChunk { .. } => true,
                        FileTask::SendChunks { .. } => true,
                        _ => false,
                    };
                    if !left {
                        note_synced(
                            db,
                            from,
                            opened.conversation_id.as_str(),
                            envelope,
                            now_ms,
                        );
                    }
                    Ok(outcome)
                },
            }
        },
    }
}

/// Notes how far a conversation with someone is in step, once an envelope of theirs
/// was carried out.
pub fn note_synced(
    db: &mut Database,
    from: &str,
    conversation_id: &str,
    envelope: &ProtocolEnvelope,
    now_ms: i64,
)
    ensures
        final(db)@ == old(db)@.update_sync_cursor(
            from@,
            conversation_id@,
            signed_bits(envelope@.sequence),
            now_ms,
        ),
{
    db.update_sync_cursor(from, conversation_id, to_signed(envelope.sequence), now_ms);
}

/// What the JSON reads as.
pub open spec fn opt_payload(p: Option<ChatPayload>) -> Option<PayloadModel> {
    match p {
        Some(p) => Some(p@),
        None => None,
    }
}

// -- what routing promises ----------------------------------------------------------------------------

/// Chat content and heartbeats of devices that nobody known vouches for are refused, and
/// leave no trace. A blocked contact vouches for nobody.
pub proof fn law_strangers_are_refused(
    before: DbModel,
    secret: Seq<u8>,
    e: EnvelopeModel,
    endpoint: Seq<char>,
    envelope_json: Seq<char>,
    now_ms: i64,
    after: DbModel,
    r: Result<RoutedModel, Error>,
)
    requires
        inbound_routed(before, secret, e, endpoint, envelope_json, now_ms, after, r),
        !is_handshake(e.message_type),
        forall|i: int|
            0 <= i < before.contacts.len() ==> (#[trigger] before.contacts[i]).contact.status
                == "blocked"@ || before.contacts[i].contact.ed_pubkey is None || envelope_checked(
                before.contacts[i].contact.ed_pubkey->0,
                e,
            ) is Err,
    ensures
        r == Err::<RoutedModel, Error>(Error::UnknownSender),
        after == before,
{
    let sender = choose|sender: Option<ContactModel>| #[trigger]
        sender_found(before.contacts, e, endpoint, sender) && match sender {
            None => after == before && r == Err::<RoutedModel, Error>(Error::UnknownSender),
            Some(_) => true,
        };
    if sender is Some {
        let c = sender->0;
        let i: int = choose|i: int|
            0 <= i < before.contacts.len() && (#[trigger] before.contacts[i]).contact == c;
        assert(may_have_sent(before.contacts[i].contact, e));
    }
}

/// Nothing is taken for the word of someone who was blocked: no envelope is found to be
/// theirs.
pub proof fn law_blocked_sender_is_nobody(
    db: DbModel,
    username: Seq<char>,
    now_ms: i64,
    e: EnvelopeModel,
    endpoint: Seq<char>,
    found: Option<ContactModel>,
)
    requires
        sender_found(db.blocked(username, now_ms).contacts, e, endpoint, found),
    ensures
        found is Some ==> found->0.username != username,
{
    let after = db.blocked(username, now_ms);
    if found is Some && found->0.username == username {
        let i: int = choose|i: int|
            0 <= i < after.contacts.len() && (#[trigger] after.contacts[i]).contact == found->0;
        if db.contact(username) is Some {
            assert(contact_is(username)(db.contacts[i]));
        } else {
            lemma_first_row(db.contacts, contact_is(username));
            if i < db.contacts.len() {
                assert(contact_is(username)(db.contacts[i]));
            }
        }
    }
}

/// What comes out of the first step was signed by a contact who is not blocked, and
/// carries that contact's name.
pub proof fn law_opened_is_signed(
    before: DbModel,
    secret: Seq<u8>,
    e: EnvelopeModel,
    endpoint: Seq<char>,
    envelope_json: Seq<char>,
    now_ms: i64,
    after: DbModel,
    opened: OpenedModel,
)
    requires
        inbound_routed(
            before,
            secret,
            e,
            endpoint,
            envelope_json,
            now_ms,
            after,
            Ok(RoutedModel::Open(opened)),
        ),
    ensures
        exists|i: int|
            0 <= i < before.contacts.len() && may_have_sent(
                (#[trigger] before.contacts[i]).contact,
                e,
            ) && before.contacts[i].contact.username == opened.from,
{
    let r = Ok::<RoutedModel, Error>(RoutedModel::Open(opened));
    let sender = choose|sender: Option<ContactModel>|
        {
            let me = before.me();
            &&& #[trigger] sender_found(before.contacts, e, endpoint, sender)
            &&& match sender {
                None => if is_handshake(e.message_type) {
                    &&& before.stashed(stash_row(e, endpoint, envelope_json, now_ms), after)
                    &&& r == Ok::<RoutedModel, Error>(
                        RoutedModel::Done(
                            OutcomeModel { toast: Some(stash_toast()), ..changed() },
                        ),
                    )
                } else {
                    &&& after == before
                    &&& r == Err::<RoutedModel, Error>(Error::UnknownSender)
                },
                Some(c) => if is_handshake(e.message_type) {
                    after == before && r == handshake_routed(secret, me, c, e)
                } else if e.message_type == MessageType::Presence {
                    after == before && r == presence_routed(secret, me, c, e)
                } else if c.username == me {
                    after == before && r == Ok::<RoutedModel, Error>(RoutedModel::Done(quiet()))
                } else {
                    match contact_key_of(c) {
                        None => after == before && r == Err::<RoutedModel, Error>(
                            Error::NoContactKey,
                        ),
                        Some(key) => {
                            &&& after == before.endpoint_noted(c.username, endpoint, now_ms)
                            &&& r == content_routed(after, secret, me, c.username, key, e)
                        },
                    }
                },
            }
        };
    assert(sender is Some);
    let c = sender->0;
    assert(c.username == opened.from);
    let i: int = choose|i: int|
        0 <= i < before.contacts.len() && (#[trigger] before.contacts[i]).contact == c;
    assert(may_have_sent(before.contacts[i].contact, e));
}

/// Nobody changes or deletes what someone else wrote.
pub proof fn law_only_authors_revise(
    before: DbModel,
    after: DbModel,
    identity: IdentityModel,
    device: Seq<u8>,
    from: Seq<char>,
    conversation: Seq<char>,
    e: EnvelopeModel,
    payload: PayloadModel,
    group: bool,
    offer_json: Seq<char>,
    now_ms: i64,
    r: Result<OutcomeModel, Error>,
    id: Seq<char>,
)
    requires
        content_applied(
            before,
            after,
            identity,
            device,
            from,
            conversation,
            e,
            payload,
            group,
            offer_json,
            now_ms,
            r,
        ),
        payload matches PayloadModel::Edit { ref_id, .. } ==> ref_id == id,
        payload matches PayloadModel::Delete { ref_id, .. } ==> ref_id == id,
        payload is Edit || payload is Delete,
        before.message(id) is Some,
        before.message(id)->0.sender_username != from,
    ensures
        after == before,
        r == Ok::<OutcomeModel, Error>(quiet()),
{
}

/// Nothing is stored as a second message when it comes in a second time; and a text or a
/// file offer then changes nothing at all and tells the user nothing.
pub proof fn law_redelivery_is_quiet(
    before: DbModel,
    once: DbModel,
    twice: DbModel,
    identity: IdentityModel,
    device: Seq<u8>,
    from: Seq<char>,
    conversation: Seq<char>,
    e: EnvelopeModel,
    payload: PayloadModel,
    group: bool,
    offer_json: Seq<char>,
    now_ms: i64,
    later_ms: i64,
    first: Result<OutcomeModel, Error>,
    second: Result<OutcomeModel, Error>,
)
    requires
        content_applied(
            before,
            once,
            identity,
            device,
            from,
            conversation,
            e,
            payload,
            group,
            offer_json,
            now_ms,
            first,
        ),
        first is Ok,
        content_applied(
            once,
            twice,
            identity,
            device,
            from,
            conversation,
            e,
            payload,
            group,
            offer_json,
            later_ms,
            second,
        ),
    ensures
        twice.messages.len() == once.messages.len(),
        payload is Text || payload is FileOffer ==> twice == once && second == Ok::<
            OutcomeModel,
            Error,
        >(quiet()),
{
    match payload {
        PayloadModel::Text { body, reply_to, .. } => {
            let row = inbound_row(e, conversation, from, "Message"@, body, reply_to);
            law_messages_are_idempotent(before, row);
        },
        PayloadModel::FileOffer { file, .. } => {
            let p = file_is(file.file_id);
            let saved = offered_file(file, conversation, "incoming"@, now_ms);
            let row = FileRowModel { file: saved, offer_json: None };
            lemma_first_row(before.files, p);
            lemma_first_row_pushed(before.files, p, row);
            lemma_first_row_updated(
                before.save_file(saved).files,
                p,
                file_with_offer(offer_json),
            );
        },
        PayloadModel::Read { ref_ids, .. } => {
            let applied = choose|applied: nat| #[trigger]
                receipt_applied(once, twice, conversation, from, ref_ids, applied);
            let thread = choose|thread: Seq<MessageModel>|
                {
                    let read = thread.filter(message_read(once.username(), from, ref_ids));
                    &&& #[trigger] once.thread_listed(conversation, NO_LIMIT as int, thread)
                    &&& twice == marked_read(once, read)
                };
            lemma_marked_read_len(
                once,
                thread.filter(message_read(once.username(), from, ref_ids)),
            );
        },
        PayloadModel::GroupMeta { name, .. } => {
            if group {
                let row = inbound_row(
                    e,
                    conversation,
                    from,
                    "GroupMessage"@,
                    handle(from) + " renamed the group to "@ + name,
                    None,
                );
                law_messages_are_idempotent(
                    before.rename_conversation(conversation, name, now_ms),
                    row,
                );
            }
        },
        _ => {},
    }
}

proof fn lemma_marked_read_len(db: DbModel, read: Seq<MessageModel>)
    ensures
        marked_read(db, read).messages.len() == db.messages.len(),
    decreases read.len(),
{
    if read.len() > 0 {
        lemma_marked_read_len(db, read.drop_last());
    }
}

/// Typing and presence are never stored: carrying them out leaves the store as it was, but
/// for where the sender was last heard and how far they are in step.
pub proof fn law_typing_and_presence_are_not_stored(
    before: DbModel,
    after: DbModel,
    identity: IdentityModel,
    device: Seq<u8>,
    opened: OpenedModel,
    e: EnvelopeModel,
    payload: PayloadModel,
    offer_json: Seq<char>,
    endpoint: Seq<char>,
    fresh: Seq<char>,
    now_ms: i64,
    r: Result<OutcomeModel, Error>,
)
    requires
        opened.stage == Stage::Presence || (is_content(opened.stage) && payload is Typing),
        opened_applied(
            before,
            after,
            identity,
            device,
            opened,
            e,
            Some(payload),
            offer_json,
            endpoint,
            fresh,
            now_ms,
            r,
        ),
    ensures
        after == (DbModel { contacts: after.contacts, cursors: after.cursors, ..before }),
        opened.stage == Stage::Presence ==> after.cursors == before.cursors,
        is_content(opened.stage) ==> after.contacts == before.contacts,
{
}

} // verus!
