//! What the user interface shows and sets.

use vstd::prelude::*;
use vstd::string::*;

use crate::bytes::{hex, hex_encode};
use crate::coordinator::{DirectiveModel, DirectoryModel, DirectoryRecord, FriendDirective};
use crate::crypto::x25519_public;
use crate::database::model::{
    contacts_by_name, contacts_of, conversation_is, request_has, requests_newest_first, requests_of,
};
use crate::database::{Database, DbModel};
use crate::envelope::{context_between, conversation_uuid, conversation_uuid_of, pair_context};
use crate::error::Error;
use crate::friends::{Draft, DraftModel};
use crate::groups::{contact_key_of, contact_pub};
use crate::identity::{ed25519_public, DeviceIdentity, IdentityModel, KeyBackend};
use crate::ids::{uuid_text, Uuid};
use crate::payload::{ChatPayload, PayloadModel, PresenceStatus};
use crate::records::{
    ContactModel, Conversation, ConversationModel, DeviceModel, DeviceRecord, FileTransfer,
    FriendRequest, FriendRequestModel, Message, MessageModel,
};
use crate::sync::ids_of;
use crate::table::{lemma_filter_step, lemma_first_row, ordered, select_rows, views};
use crate::text::{
    chars_of, copy_bytes, copy_opt_text, copy_texts, decimal, decimal_text, lists_text, opt_bytes,
    opt_text, prefix, take_chars, text_eq, texts, trim, trimmed,
};
use crate::transport::{bundle_bytes, decode_bundle};
use crate::validation::{create_profile, display_name_of, username_of};

verus! {

// -- chats ----------------------------------------------------------------------------------------

/// The name under which a conversation is shown.
pub open spec fn chat_name(db: DbModel, c: ConversationModel) -> Seq<char> {
    if c.kind == "group"@ {
        if c.name.len() == 0 {
            "Group ("@ + decimal(
                if c.members.len() == 0 {
                    1
                } else {
                    c.members.len()
                },
            ) + " members)"@
        } else {
            c.name
        }
    } else {
        let peer = if c.members.len() > 0 {
            c.members[0]
        } else {
            "?"@
        };
        match db.contact(peer) {
            Some(contact) => if contact.display_name.len() == 0 {
                "@"@ + peer
            } else {
                contact.display_name
            },
            None => "@"@ + peer,
        }
    }
}

/// The name under which a conversation is shown: a group's own name, or how many
/// members it has; of a direct one the peer's display name, or their username.
pub fn chat_display_name(db: &Database, conv: &Conversation) -> (name: String)
    ensures
        name@ == chat_name(db@, conv@),
{
    if text_eq(conv.kind.as_str(), "group") {
        if conv.name.as_str().is_empty() {
            let count: u64 = if conv.members.len() == 0 {
                1
            } else {
                conv.members.len() as u64
            };
            assert(conv@.members.len() == conv.members.len());
            let mut name = "Group (".to_owned();
            name.append(decimal_text(count).as_str());
            name.append(" members)");
            name
        } else {
            conv.name.clone()
        }
    } else {
        let peer = if conv.members.len() > 0 {
            assert(conv@.members[0] == conv.members@[0]@);
            conv.members[0].clone()
        } else {
            "?".to_owned()
        };
        assert(peer@ == if conv@.members.len() > 0 {
            conv@.members[0]
        } else {
            "?"@
        });
        let mut fallback = "@".to_owned();
        fallback.append(peer.as_str());
        match db.find_contact(peer.as_str()) {
            Some(contact) => if contact.display_name.as_str().is_empty() {
                fallback
            } else {
                contact.display_name
            },
            None => fallback,
        }
    }
}

/// A conversation in the chat list.
#[derive(Debug, Clone)]
pub struct ChatSummary {
    pub id: String,
    pub kind: String,
    pub name: String,
    pub members: Vec<String>,
    pub preview: Option<String>,
    pub updated_at_ms: i64,
    pub unread: u64,
}

/// What a [`ChatSummary`] holds.
pub struct SummaryModel {
    pub id: Seq<char>,
    pub kind: Seq<char>,
    pub name: Seq<char>,
    pub members: Seq<Seq<char>>,
    pub preview: Option<Seq<char>>,
    pub updated_at_ms: i64,
    pub unread: u64,
}

impl View for ChatSummary {
    type V = SummaryModel;

    open spec fn view(&self) -> SummaryModel {
        SummaryModel {
            id: self.id@,
            kind: self.kind@,
            name: self.name@,
            members: texts(self.members@),
            preview: opt_text(self.preview),
            updated_at_ms: self.updated_at_ms,
            unread: self.unread,
        }
    }
}

/// What the chat list shows of a conversation.
pub open spec fn summary_of(db: DbModel, me: Seq<char>, c: ConversationModel) -> SummaryModel {
    SummaryModel {
        id: c.id,
        kind: c.kind,
        name: chat_name(db, c),
        members: c.members,
        preview: c.last_message_preview,
        updated_at_ms: c.updated_at_ms,
        unread: db.unread(c.id, me) as u64,
    }
}

/// What the chat list shows of a conversation.
pub fn summarize(db: &Database, me: &str, conv: &Conversation) -> (summary: ChatSummary)
    ensures
        summary@ == summary_of(db@, me@, conv@),
{
    ChatSummary {
        id: conv.id.clone(),
        kind: conv.kind.clone(),
        name: chat_display_name(db, conv),
        members: copy_texts(&conv.members),
        preview: copy_opt_text(&conv.last_message_preview),
        updated_at_ms: conv.updated_at_ms,
        unread: db.unread_count(conv.id.as_str(), me),
    }
}

/// The chat list, the latest change first.
pub fn list_chats(db: &Database) -> (list: Vec<ChatSummary>)
    ensures
        exists|shown: Seq<ConversationModel>|
            {
                &&& #[trigger] db@.conversations_shown(shown)
                &&& list@.len() == shown.len()
                &&& forall|i: int|
                    0 <= i < shown.len() ==> (#[trigger] list@[i])@ == summary_of(
                        db@,
                        db@.me(),
                        shown[i],
                    )
            },
{
    let me = match db.load_profile() {
        Some(p) => p.0,
        None => String::new(),
    };
    assert(me@ =~= db@.me());
    let all = db.list_conversations();
    let mut list: Vec<ChatSummary> = Vec::new();
    let mut i: usize = 0;
    while i < all.len()
        invariant
            i <= all.len(),
            list.len() == i,
            me@ == db@.me(),
            forall|j: int|
                0 <= j < i ==> (#[trigger] list@[j])@ == summary_of(db@, db@.me(), all@[j]@),
        decreases all.len() - i,
    {
        list.push(summarize(db, me.as_str(), &all[i]));
        i += 1;
    }
    assert(db@.conversations_shown(views(all@)));
    list
}

/// How many messages an opened conversation shows.
pub const THREAD_LIMIT: i64 = 500;

/// A conversation that was opened.
#[derive(Debug)]
pub struct ChatDetail {
    pub conversation: ChatSummary,
    pub messages: Vec<Message>,
    pub files: Vec<FileTransfer>,
    /// The messages of others that are read by opening it.
    pub newly_read: Vec<String>,
}

pub open spec fn newly_read(me: Seq<char>) -> spec_fn(MessageModel) -> bool {
    |m: MessageModel| m.sender_username != me && m.status == "delivered"@
}

/// What opening a conversation comes to: what the chat list shows of it, its messages and
/// files, and which messages of others are thereby read.
pub open spec fn chat_opened(
    db: DbModel,
    id: Seq<char>,
    detail: Result<ChatDetail, Error>,
) -> bool {
    match db.conversation(id) {
        None => detail == Err::<ChatDetail, Error>(Error::UnknownConversation),
        Some(row) => {
            &&& detail is Ok
            &&& exists|c: ConversationModel|
                #[trigger] db.conversation_shown(row, c) && detail->Ok_0.conversation@
                    == summary_of(db, db.me(), c)
            &&& db.thread_listed(id, THREAD_LIMIT as int, views(detail->Ok_0.messages@))
            &&& views(detail->Ok_0.files@) == db.files_listed(id)
            &&& texts(detail->Ok_0.newly_read@) == ids_of(
                views(detail->Ok_0.messages@).filter(newly_read(db.me())),
            )
        },
    }
}

/// Opens a conversation.
pub fn open_chat(db: &Database, conversation_id: &str) -> (detail: Result<ChatDetail, Error>)
    ensures
        chat_opened(db@, conversation_id@, detail),
{
    let row = match db.get_conversation(conversation_id) {
        Some(r) => r,
        None => {
            return Err(Error::UnknownConversation);
        },
    };
    proof {
        lemma_first_row(
            db@.conversations,
            conversation_is(conversation_id@),
        );
    }
    let me = match db.load_profile() {
        Some(p) => p.0,
        None => String::new(),
    };
    assert(me@ =~= db@.me());
    let shown = Conversation {
        id: row.id.clone(),
        kind: row.kind.clone(),
        name: row.name.clone(),
        created_at_ms: row.created_at_ms,
        updated_at_ms: row.updated_at_ms,
        last_message_preview: copy_opt_text(&row.last_message_preview),
        members: db.conversation_members(row.id.as_str()),
    };
    assert(db@.conversation_shown(row@, shown@));
    let messages = db.list_messages(conversation_id, THREAD_LIMIT);
    let files = db.list_files(conversation_id);
    let test = |m: &Message| -> (b: bool)
        ensures
            b == newly_read(me@)(m@),
        {
            !text_eq(m.sender_username.as_str(), me.as_str()) && text_eq(
                m.status.as_str(),
                "delivered",
            )
        };
    let unread = select_rows(&messages, test, Ghost(newly_read(me@)));
    let mut ids: Vec<String> = Vec::new();
    let mut i: usize = 0;
    while i < unread.len()
        invariant
            i <= unread.len(),
            ids.len() == i,
            forall|j: int| 0 <= j < i ==> (#[trigger] ids@[j])@ == unread@[j]@.id,
        decreases unread.len() - i,
    {
        ids.push(unread[i].id.clone());
        i += 1;
    }
    assert(texts(ids@) =~= ids_of(views(unread@)));
    let summary = summarize(db, me.as_str(), &shown);
    Ok(ChatDetail { conversation: summary, messages, files, newly_read: ids })
}

/// How many hits a search shows.
pub const SEARCH_LIMIT: i64 = 50;

/// Searches a conversation for a text of 2 to 80 characters.
pub fn search_messages(db: &Database, conversation_id: &str, query: &str) -> (hits: Result<
    Vec<Message>,
    Error,
>)
    ensures
        if 2 <= trimmed(query@).len() <= 80 {
            hits is Ok && db@.search_listed(
                conversation_id@,
                trimmed(query@),
                SEARCH_LIMIT as int,
                views(hits->Ok_0@),
            )
        } else {
            hits == Err::<Vec<Message>, Error>(Error::SearchLength)
        },
{
    let text = trim(query);
    let chars = chars_of(text.as_str());
    if chars.len() < 2 || chars.len() > 80 {
        return Err(Error::SearchLength);
    }
    Ok(db.search_messages(conversation_id, text.as_str(), SEARCH_LIMIT))
}

// -- friends ----------------------------------------------------------------------------------------

/// A contact in the friends list.
#[derive(Debug, Clone)]
pub struct FriendView {
    pub username: String,
    pub display_name: String,
    pub status: String,
    /// Whether an address of theirs is known since the program started.
    pub seen: bool,
}

/// What a [`FriendView`] holds.
pub struct FriendModel {
    pub username: Seq<char>,
    pub display_name: Seq<char>,
    pub status: Seq<char>,
    pub seen: bool,
}

impl View for FriendView {
    type V = FriendModel;

    open spec fn view(&self) -> FriendModel {
        FriendModel {
            username: self.username@,
            display_name: self.display_name@,
            status: self.status@,
            seen: self.seen,
        }
    }
}

/// The friends list with the open requests.
#[derive(Debug)]
pub struct FriendsView {
    pub contacts: Vec<FriendView>,
    pub incoming: Vec<FriendRequest>,
    pub outgoing: Vec<FriendRequest>,
}

/// What the friends list shows of a contact.
pub open spec fn friend_shown(c: ContactModel, endpoints: Seq<Seq<char>>) -> FriendModel {
    FriendModel {
        username: c.username,
        display_name: if c.display_name.len() == 0 {
            c.username
        } else {
            c.display_name
        },
        status: c.status,
        seen: c.endpoint_id is Some && endpoints.contains(c.endpoint_id->0),
    }
}

pub open spec fn comes_in() -> spec_fn(FriendRequestModel) -> bool {
    |r: FriendRequestModel| r.direction == "in"@
}

pub open spec fn goes_out() -> spec_fn(FriendRequestModel) -> bool {
    |r: FriendRequestModel| r.direction != "in"@
}

/// What the friends list shows: the contacts by name, and the open requests in either
/// direction, newest first.
pub open spec fn friends_shown(
    db: DbModel,
    endpoints: Seq<Seq<char>>,
    contacts: Seq<FriendModel>,
    incoming: Seq<FriendRequestModel>,
    outgoing: Seq<FriendRequestModel>,
) -> bool {
    &&& exists|all: Seq<ContactModel>|
        {
            &&& #[trigger] db.contacts_listed(all)
            &&& contacts.len() == all.len()
            &&& forall|i: int|
                0 <= i < all.len() ==> (#[trigger] contacts[i]) == friend_shown(all[i], endpoints)
        }
    &&& exists|open: Seq<FriendRequestModel>|
        {
            &&& #[trigger] db.requests_listed(Some("pending"@), open)
            &&& incoming == open.filter(comes_in())
            &&& outgoing == open.filter(goes_out())
        }
}

/// The friends list, by name, and the open requests in either direction, newest first.
/// `endpoints` are those whose address is known.
pub fn list_friends(db: &Database, endpoints: &Vec<String>) -> (view: FriendsView)
    ensures
        friends_shown(
            db@,
            texts(endpoints@),
            views(view.contacts@),
            views(view.incoming@),
            views(view.outgoing@),
        ),
{
    let all = db.list_contacts();
    let mut contacts: Vec<FriendView> = Vec::new();
    let mut i: usize = 0;
    while i < all.len()
        invariant
            i <= all.len(),
            contacts.len() == i,
            forall|j: int|
                0 <= j < i ==> (#[trigger] contacts@[j])@ == friend_shown(
                    all@[j]@,
                    texts(endpoints@),
                ),
        decreases all.len() - i,
    {
        let c = &all[i];
        let seen = match &c.endpoint_id {
            Some(id) => lists_text(endpoints, id.as_str()),
            None => false,
        };
        let display_name = if c.display_name.as_str().is_empty() {
            c.username.clone()
        } else {
            c.display_name.clone()
        };
        contacts.push(
            FriendView {
                username: c.username.clone(),
                display_name,
                status: c.status.clone(),
                seen,
            },
        );
        i += 1;
    }
    let open = db.list_friend_requests(Some("pending"));
    let inward = |r: &FriendRequest| -> (b: bool)
        ensures
            b == comes_in()(r@),
        { text_eq(r.direction.as_str(), "in") };
    let outward = |r: &FriendRequest| -> (b: bool)
        ensures
            b == goes_out()(r@),
        { !text_eq(r.direction.as_str(), "in") };
    let incoming = select_rows(&open, inward, Ghost(comes_in()));
    let outgoing = select_rows(&open, outward, Ghost(goes_out()));
    assert(ordered(views(all@), contacts_of(db@.contacts), contacts_by_name()));
    assert(ordered(
        views(open@),
        requests_of(db@.requests).filter(request_has(Some("pending"@))),
        requests_newest_first(),
    ));
    FriendsView { contacts, incoming, outgoing }
}

/// How a contact can be reached: the JSON of the address in their bundle, and the
/// endpoint they were last seen at.
#[derive(Debug)]
pub struct DialOptions {
    pub address_json: Option<Vec<u8>>,
    pub endpoint_id: Option<String>,
}

/// `options` is what is known of the ways to reach a contact.
pub open spec fn dial_options(
    db: DbModel,
    username: Seq<char>,
    options: Result<DialOptions, Error>,
) -> bool {
    match db.contact(username) {
        None => options == Err::<DialOptions, Error>(Error::UnknownContact),
        Some(c) => {
            &&& options is Ok
            &&& opt_bytes(options->Ok_0.address_json) == match c.endpoint_bundle {
                Some(bundle) => bundle_bytes(trimmed(bundle)),
                None => None,
            }
            &&& opt_text(options->Ok_0.endpoint_id) == c.endpoint_id
        },
    }
}

/// The ways to reach a contact.
pub fn dial_target(db: &Database, username: &str) -> (options: Result<DialOptions, Error>)
    ensures
        dial_options(db@, username@, options),

{
    match db.find_contact(username) {
        None => Err(Error::UnknownContact),
        Some(contact) => {
            let address_json = match &contact.endpoint_bundle {
                Some(bundle) => match decode_bundle(bundle.as_str()) {
                    Ok(json) => Some(json),
                    Err(_) => None,
                },
                None => None,
            };
            Ok(DialOptions { address_json, endpoint_id: contact.endpoint_id })
        },
    }
}

/// Which way to dial.
#[derive(Debug, Clone, Copy, PartialEq, Eq, Structural)]
pub enum DialChoice {
    /// The address in the bundle.
    Bundle,
    /// The address that was last used for the endpoint.
    Cached,
    /// The endpoint alone; its address is looked up.
    EndpointOnly,
}

/// The way a contact is dialled.
pub open spec fn dial_choice(
    bundle_readable: bool,
    has_endpoint: bool,
    cached: bool,
) -> Result<DialChoice, Error> {
    if bundle_readable {
        Ok(DialChoice::Bundle)
    } else if !has_endpoint {
        Err(Error::NoAddress)
    } else if cached {
        Ok(DialChoice::Cached)
    } else {
        Ok(DialChoice::EndpointOnly)
    }
}

/// Picks the way to dial: the bundle if its address could be read, else an address that
/// is known for the endpoint, else the endpoint alone.
pub fn choose_dial(bundle_readable: bool, has_endpoint: bool, cached: bool) -> (choice: Result<
    DialChoice,
    Error,
>)
    ensures
        choice == dial_choice(bundle_readable, has_endpoint, cached),

{
    if bundle_readable {
        Ok(DialChoice::Bundle)
    } else if !has_endpoint {
        Err(Error::NoAddress)
    } else if cached {
        Ok(DialChoice::Cached)
    } else {
        Ok(DialChoice::EndpointOnly)
    }
}

// -- presence ---------------------------------------------------------------------------------------

/// The word for a presence that the interface goes by.
pub open spec fn presence_word(status: PresenceStatus) -> Seq<char> {
    match status {
        PresenceStatus::Online => "online"@,
        PresenceStatus::Away => "away"@,
        PresenceStatus::Dnd => "dnd"@,
        PresenceStatus::Offline => "offline"@,
    }
}

/// The word for a presence that the interface goes by.
pub fn presence_key(status: PresenceStatus) -> (word: &'static str)
    ensures
        word@ == presence_word(status),
{
    match status {
        PresenceStatus::Online => "online",
        PresenceStatus::Away => "away",
        PresenceStatus::Dnd => "dnd",
        PresenceStatus::Offline => "offline",
    }
}

/// Friends with a key, who get heartbeats.
pub open spec fn gets_heartbeats() -> spec_fn(ContactModel) -> bool {
    |c: ContactModel| c.status == "friend"@ && contact_key_of(c) is Some
}

/// The heartbeat for a friend.
pub open spec fn heartbeat(me: Seq<char>, status: PresenceStatus) -> spec_fn(
    ContactModel,
) -> DraftModel {
    |c: ContactModel|
        DraftModel {
            peer_username: c.username,
            recipient: contact_key_of(c)->0,
            context: pair_context("presence:"@, me, c.username),
            conversation_id: Seq::empty(),
            payload: PayloadModel::Presence { from: me, status },
        }
}

/// `drafts` are the heartbeats of this user: none while they are offline or have no
/// profile, else one for each friend with a key, by name.
pub open spec fn heartbeats_are(
    db: DbModel,
    status: PresenceStatus,
    drafts: Seq<DraftModel>,
) -> bool {
    &&& status == PresenceStatus::Offline || db.username() is None ==> drafts.len() == 0
    &&& status != PresenceStatus::Offline && db.username() is Some ==> exists|
        contacts: Seq<ContactModel>,
    |
        #[trigger] db.contacts_listed(contacts) && drafts == contacts.filter(
            gets_heartbeats(),
        ).map_values(heartbeat(db.username()->0, status))
}

/// The heartbeats for all friends with a key, by name. Nothing is sent while this user
/// is offline or has no profile: `Offline` never goes out.
pub fn broadcast_presence(db: &Database, status: PresenceStatus) -> (drafts: Vec<Draft>)
    ensures
        heartbeats_are(db@, status, views(drafts@)),
{
    let mut drafts: Vec<Draft> = Vec::new();
    if status == PresenceStatus::Offline {
        return drafts;
    }
    let me = match db.load_profile() {
        Some(p) => p.0,
        None => {
            return drafts;
        },
    };
    let all = db.list_contacts();
    let ghost listed = views(all@);
    let ghost beat = heartbeat(me@, status);
    let mut i: usize = 0;
    proof {
        reveal(Seq::filter);
        assert(views(drafts@) =~= listed.take(0).filter(gets_heartbeats()).map_values(beat));
    }
    while i < all.len()
        invariant
            i <= all.len(),
            listed == views(all@),
            beat == heartbeat(me@, status),
            views(drafts@) == listed.take(i as int).filter(gets_heartbeats()).map_values(beat),
        decreases all.len() - i,
    {
        proof {
            lemma_filter_step(listed, i as int, gets_heartbeats());
        }
        let c = &all[i];
        if text_eq(c.status.as_str(), "friend") {
            match contact_pub(c) {
                Some(key) => {
                    let ghost so_far = views(drafts@);
                    let draft = Draft {
                        peer_username: c.username.clone(),
                        recipient: key,
                        context: context_between("presence:", me.as_str(), c.username.as_str()),
                        conversation_id: String::new(),
                        payload: ChatPayload::Presence { from: me.clone(), status },
                    };
                    let ghost one = draft@;
                    drafts.push(draft);
                    proof {
                        assert(one == beat(listed[i as int]));
                        assert(views(drafts@) =~= so_far.push(one));
                        assert(listed.take(i + 1).filter(gets_heartbeats()).map_values(beat)
                            =~= so_far.push(one));
                    }
                },
                None => {},
            }
        }
        i += 1;
    }
    assert(listed.take(i as int) =~= listed);
    assert(db@.contacts_listed(listed));
    drafts
}

/// How many characters of a message a notification shows.
pub const NOTICE_CHARS: usize = 120;

/// What is shown of a notification.
pub open spec fn notice_of(
    body: Seq<char>,
    status: PresenceStatus,
    focused: bool,
) -> Option<Seq<char>> {
    if status == PresenceStatus::Dnd || focused {
        None
    } else {
        Some(prefix(body, NOTICE_CHARS as nat))
    }
}

/// The body of a notification, or nothing: the user is left alone while they asked for
/// it, and told nothing while they look at the window.
pub fn notification(body: &str, status: PresenceStatus, focused: bool) -> (shown: Option<String>)
    ensures
        opt_text(shown) == notice_of(body@, status, focused),

{
    if status == PresenceStatus::Dnd || focused {
        None
    } else {
        Some(take_chars(body, NOTICE_CHARS))
    }
}

// -- settings ---------------------------------------------------------------------------------------

/// Which coordinator is used.
#[derive(Debug)]
pub enum ChosenCoordinator {
    /// The worker at this address.
    Cloud(String),
    /// The local one, for this user.
    Local(String),
}

/// The address of the worker, where the cloud coordinator is set up.
pub open spec fn worker_of(db: DbModel) -> Option<Seq<char>> {
    match (db.setting("coordinator"@), db.setting("worker_url"@)) {
        (Some(kind), Some(url)) => if kind == "cloudflare"@ && url.len() > 0 {
            Some(url)
        } else {
            None
        },
        _ => None,
    }
}

/// The address of the worker, where the cloud coordinator is set up.
pub fn cloud_worker_url(db: &Database) -> (url: Option<String>)
    ensures
        opt_text(url) == worker_of(db@),
{
    match (db.get_setting("coordinator"), db.get_setting("worker_url")) {
        (Some(kind), Some(url)) => if text_eq(kind.as_str(), "cloudflare")
            && !url.as_str().is_empty() {
            Some(url)
        } else {
            None
        },
        _ => None,
    }
}

/// The coordinator that is set up: the cloud one if it has an address, else the local
/// one.
pub fn coordinator_for(db: &Database) -> (chosen: ChosenCoordinator)
    ensures
        match worker_of(db@) {
            Some(url) => chosen matches ChosenCoordinator::Cloud(u) && u@ == url,
            None => chosen matches ChosenCoordinator::Local(owner) && owner@
                == match db@.username() {
                Some(me) => me,
                None => "unknown"@,
            },
        },
{
    match cloud_worker_url(db) {
        Some(url) => ChosenCoordinator::Cloud(url),
        None => {
            let owner = match db.load_profile() {
                Some(p) => p.0,
                None => "unknown".to_owned(),
            };
            ChosenCoordinator::Local(owner)
        },
    }
}

/// Why a choice of coordinator is refused.
pub open spec fn coordinator_refused(kind: Seq<char>, worker_url: Seq<char>) -> Option<Error> {
    if kind != "local"@ && kind != "cloudflare"@ {
        Some(Error::UnknownCoordinator)
    } else if kind == "cloudflare"@ && trimmed(worker_url).len() == 0 {
        Some(Error::NoWorkerUrl)
    } else {
        None
    }
}

/// What setting up a coordinator does.
pub open spec fn coordinator_set(
    before: DbModel,
    after: DbModel,
    kind: Seq<char>,
    worker_url: Seq<char>,
    r: Result<(), Error>,
) -> bool {
    match coordinator_refused(kind, worker_url) {
        Some(e) => r == Err::<(), Error>(e) && after == before,
        None => r is Ok && after == before.set_setting("coordinator"@, kind).set_setting(
            "worker_url"@,
            trimmed(worker_url),
        ),
    }
}

/// Sets up a coordinator.
pub fn set_coordinator(db: &mut Database, kind: &str, worker_url: &str) -> (r: Result<(), Error>)
    ensures
        coordinator_set(old(db)@, final(db)@, kind@, worker_url@, r),
{
    let cloud = text_eq(kind, "cloudflare");
    if !cloud && !text_eq(kind, "local") {
        return Err(Error::UnknownCoordinator);
    }
    let url = trim(worker_url);
    if cloud && url.as_str().is_empty() {
        return Err(Error::NoWorkerUrl);
    }
    db.set_setting("coordinator", kind);
    db.set_setting("worker_url", url.as_str());
    Ok(())
}

/// The settings and the profile, as they are shown.
#[derive(Debug)]
pub struct SettingsView {
    pub profile: Option<(String, String)>,
    pub coordinator: String,
    pub worker_url: String,
    pub relay_enabled: bool,
    pub key_backend: String,
}

/// A setting, or what it is without one.
pub open spec fn setting_or(db: DbModel, key: Seq<char>, default: Seq<char>) -> Seq<char> {
    match db.setting(key) {
        Some(v) => v,
        None => default,
    }
}

fn get_setting_or(db: &Database, key: &str, default: &str) -> (value: String)
    ensures
        value@ == setting_or(db@, key@, default@),
{
    match db.get_setting(key) {
        Some(v) => v,
        None => default.to_owned(),
    }
}

/// The settings and the profile, as they are shown. Relays are used unless they were
/// switched off.
pub fn app_state(db: &Database, key_backend: KeyBackend) -> (view: SettingsView)
    ensures
        match (view.profile, db@.profile) {
            (Some(p), Some(m)) => p.0@ == m.username && p.1@ == m.display_name,
            (None, None) => true,
            _ => false,
        },
        view.coordinator@ == setting_or(db@, "coordinator"@, "local"@),
        view.worker_url@ == setting_or(db@, "worker_url"@, ""@),
        view.relay_enabled == (db@.setting("relay_enabled"@) != Some("0"@)),
        view.key_backend@ == match key_backend {
            KeyBackend::OsKeyring => "os-keyring"@,
            KeyBackend::File => "file-0600"@,
        },
{
    let relay_enabled = match db.get_setting("relay_enabled") {
        Some(v) => !text_eq(v.as_str(), "0"),
        None => true,
    };
    let backend = match key_backend {
        KeyBackend::OsKeyring => "os-keyring".to_owned(),
        KeyBackend::File => "file-0600".to_owned(),
    };
    SettingsView {
        profile: db.load_profile(),
        coordinator: get_setting_or(db, "coordinator", "local"),
        worker_url: get_setting_or(db, "worker_url", ""),
        relay_enabled,
        key_backend: backend,
    }
}

/// The display name of the profile, or `Me`.
pub fn my_display_name(db: &Database) -> (name: String)
    ensures
        name@ == match db@.profile {
            Some(p) => p.display_name,
            None => "Me"@,
        },
{
    match db.load_profile() {
        Some(p) => p.1,
        None => "Me".to_owned(),
    }
}

/// The username of the profile.
pub fn my_username(db: &Database) -> (name: Result<String, Error>)
    ensures
        match db@.username() {
            Some(me) => name is Ok && name->Ok_0@ == me,
            None => name == Err::<String, Error>(Error::NoProfile),
        },
{
    match db.load_profile() {
        Some(p) => Ok(p.0),
        None => Err(Error::NoProfile),
    }
}

// -- this user, to others -----------------------------------------------------------------------------

/// The record of this device.
pub open spec fn device_of(
    identity: IdentityModel,
    device: Seq<u8>,
    username: Seq<char>,
    endpoint: Seq<char>,
    now_ms: i64,
) -> DeviceModel {
    DeviceModel {
        id: uuid_text(device),
        username,
        device_name: "Desktop"@,
        ed25519_pubkey: ed25519_public(identity.ed_secret),
        x25519_pubkey: x25519_public(identity.x_secret),
        iroh_endpoint_id: endpoint,
        created_at_ms: now_ms,
        revoked_at_ms: None,
    }
}

fn device_record(
    identity: &DeviceIdentity,
    device_uuid: Uuid,
    username: String,
    endpoint_id: &str,
    now_ms: i64,
) -> (device: DeviceRecord)
    ensures
        device@ == device_of(identity@, device_uuid@, username@, endpoint_id@, now_ms),
{
    let public = identity.public();
    DeviceRecord {
        id: device_uuid.to_text(),
        username,
        device_name: "Desktop".to_owned(),
        ed25519_pubkey: copy_bytes(public.ed_pubkey.as_slice()),
        x25519_pubkey: copy_bytes(public.x_pubkey.as_slice()),
        iroh_endpoint_id: endpoint_id.to_owned(),
        created_at_ms: now_ms,
        revoked_at_ms: None,
    }
}

/// What making the profile of this device does: the device is then recorded as its user's.
pub open spec fn local_profile_created(
    before: DbModel,
    after: DbModel,
    identity: IdentityModel,
    device: Seq<u8>,
    username: Seq<char>,
    display_name: Seq<char>,
    now_ms: i64,
    r: Result<(), Error>,
) -> bool {
    match (username_of(username), display_name_of(display_name)) {
        (Ok(u), Ok(d)) => r is Ok && after == before.save_profile(u, d, now_ms).save_device(
            device_of(identity, device, u, ""@, now_ms),
        ),
        (Err(e), _) => r == Err::<(), Error>(e) && after == before,
        (Ok(_), Err(e)) => r == Err::<(), Error>(e) && after == before,
    }
}

/// Makes the profile and the record of this device.
pub fn create_local_profile(
    db: &mut Database,
    identity: &DeviceIdentity,
    device_uuid: Uuid,
    username: &str,
    display_name: &str,
    now_ms: i64,
) -> (r: Result<(), Error>)
    ensures
        local_profile_created(
            old(db)@,
            final(db)@,
            identity@,
            device_uuid@,
            username@,
            display_name@,
            now_ms,
            r,
        ),

{
    match create_profile(db, username, display_name, now_ms) {
        Ok(_) => {},
        Err(e) => {
            return Err(e);
        },
    }
    let stored = match db.load_profile() {
        Some(p) => p.0,
        None => {
            return Err(Error::NoProfile);
        },
    };
    let device = device_record(identity, device_uuid, stored, "", now_ms);
    db.save_device(&device);
    Ok(())
}

/// The id of this device: that of a device that was recorded last, or `fresh` where none
/// was recorded or the record cannot be read.
pub open spec fn device_found(db: DbModel, fresh: Seq<u8>, device: Seq<u8>) -> bool {
    if db.devices.len() == 0 {
        device == fresh
    } else {
        exists|i: int|
            {
                &&& 0 <= i < db.devices.len()
                &&& device == conversation_uuid_of((#[trigger] db.devices[i]).id, fresh)
                &&& forall|j: int|
                    0 <= j < db.devices.len() ==> (#[trigger] db.devices[j]).created_at_ms
                        <= db.devices[i].created_at_ms
            }
    }
}

/// The store once the device has started: the device is on record, and a store without a
/// profile has the settings to begin with.
pub open spec fn started(
    db: DbModel,
    identity: IdentityModel,
    device: Seq<u8>,
    endpoint: Seq<char>,
    now_ms: i64,
) -> DbModel {
    let recorded = db.save_device(device_of(identity, device, db.me(), endpoint, now_ms));
    if db.profile is Some {
        recorded
    } else {
        recorded.set_setting("coordinator"@, "local"@).set_setting("relay_enabled"@, "1"@)
    }
}

/// Starts with what is stored: finds the id of this device, records the device with its
/// network endpoint, and sets what a first start needs.
pub fn start_device(
    db: &mut Database,
    identity: &DeviceIdentity,
    endpoint_id: &str,
    fresh: Uuid,
    now_ms: i64,
) -> (device: Uuid)
    ensures
        device_found(old(db)@, fresh@, device@),
        final(db)@ == started(old(db)@, identity@, device@, endpoint_id@, now_ms),
{
    let device = match db.load_device() {
        Some(d) => conversation_uuid(d.id.as_str(), fresh),
        None => fresh,
    };
    assert(device_found(db@, fresh@, device@));
    let known = db.load_profile();
    let first = known.is_none();
    let me = match known {
        Some(p) => p.0,
        None => String::new(),
    };
    assert(me@ =~= db@.me());
    let record = device_record(identity, device, me, endpoint_id, now_ms);
    db.save_device(&record);
    if first {
        db.set_setting("coordinator", "local");
        db.set_setting("relay_enabled", "1");
    }
    device
}

/// The directory record of this user.
pub open spec fn self_record(
    db: DbModel,
    identity: IdentityModel,
    endpoint_id: Seq<char>,
    endpoint_bundle: Seq<char>,
    now_ms: i64,
) -> Result<DirectoryModel, Error> {
    match db.profile {
        None => Err(Error::NoProfile),
        Some(p) => Ok(
            DirectoryModel {
                username: p.username,
                display_name: p.display_name,
                ed_pubkey_hex: hex(ed25519_public(identity.ed_secret)),
                x_pubkey_hex: hex(x25519_public(identity.x_secret)),
                endpoint_id,
                endpoint_bundle,
                updated_at_ms: now_ms,
            },
        ),
    }
}

/// The directory record of this user: public keys and how they can be reached.
pub fn register_self(
    db: &Database,
    identity: &DeviceIdentity,
    endpoint_id: &str,
    endpoint_bundle: &str,
    now_ms: i64,
) -> (record: Result<DirectoryRecord, Error>)
    ensures
        match self_record(db@, identity@, endpoint_id@, endpoint_bundle@, now_ms) {
            Ok(m) => record is Ok && record->Ok_0@ == m,
            Err(e) => record == Err::<DirectoryRecord, Error>(e),
        },

{
    match db.load_profile() {
        None => Err(Error::NoProfile),
        Some(p) => {
            let public = identity.public();
            Ok(
                DirectoryRecord {
                    username: p.0,
                    display_name: p.1,
                    ed_pubkey_hex: hex_encode(public.ed_pubkey.as_slice()),
                    x_pubkey_hex: hex_encode(public.x_pubkey.as_slice()),
                    endpoint_id: endpoint_id.to_owned(),
                    endpoint_bundle: endpoint_bundle.to_owned(),
                    updated_at_ms: now_ms,
                },
            )
        },
    }
}

/// The friend ask of this user that a shared server carries.
pub open spec fn published_ask(
    db: DbModel,
    identity: IdentityModel,
    id: Seq<u8>,
    now_ms: i64,
) -> Result<DirectiveModel, Error> {
    match (worker_of(db), db.profile) {
        (None, _) => Err(Error::NoSharedServer),
        (Some(_), None) => Err(Error::NoProfile),
        (Some(_), Some(p)) => Ok(
            DirectiveModel {
                id: uuid_text(id),
                from_username: p.username,
                from_display_name: p.display_name,
                from_ed_pubkey_hex: hex(ed25519_public(identity.ed_secret)),
                from_x_pubkey_hex: hex(x25519_public(identity.x_secret)),
                status: "pending"@,
                created_at_ms: now_ms,
            },
        ),
    }
}

/// The friend request of this user as it is published for offline pickup: metadata, no
/// content. Without a cloud coordinator there is no place for it.
pub fn publish_ask(db: &Database, identity: &DeviceIdentity, id: Uuid, now_ms: i64) -> (directive:
    Result<FriendDirective, Error>)
    ensures
        match published_ask(db@, identity@, id@, now_ms) {
            Ok(m) => directive is Ok && directive->Ok_0@ == m,
            Err(e) => directive == Err::<FriendDirective, Error>(e),
        },

{
    if cloud_worker_url(db).is_none() {
        return Err(Error::NoSharedServer);
    }
    match db.load_profile() {
        None => Err(Error::NoProfile),
        Some(p) => {
            let public = identity.public();
            Ok(
                FriendDirective {
                    id: id.to_text(),
                    from_username: p.0,
                    from_display_name: p.1,
                    from_ed_pubkey_hex: hex_encode(public.ed_pubkey.as_slice()),
                    from_x_pubkey_hex: hex_encode(public.x_pubkey.as_slice()),
                    status: "pending".to_owned(),
                    created_at_ms: now_ms,
                },
            )
        },
    }
}

} // verus!
