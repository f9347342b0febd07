//! The model of the store: its tables as sequences of row models, and what
//! each statement does to them.

use vstd::prelude::*;

use crate::records::{
    ContactModel, ContactRowModel, ConversationModel, ConversationRowModel, CursorModel,
    DeviceModel, FileRowModel, FileTransferModel, FriendRequestModel, GroupInfoModel, GroupKeyModel,
    GroupModel, MailboxModel, MemberModel, MessageModel, NumberModel, PendingHandshakeModel,
    PendingModel, ProfileModel, RequestRowModel, SettingModel, SpooledObjectModel, StashModel,
    StashedEnvelopeModel,
};
use crate::table::{
    every_row, first_row, ordered, ordered_limited, some_row, unique, updated, upserted, without,
};
use crate::text::{lowered, prefix, text_le};

verus! {

/// How many characters of a body the chat list shows.
pub const PREVIEW_CHARS: usize = 80;

/// How many characters of a search text are used.
pub const SEARCH_CHARS: usize = 80;

/// How many stashed envelopes are kept.
pub const STASH_LIMIT: i64 = 200;

/// The tables of the store.
pub struct DbModel {
    pub profile: Option<ProfileModel>,
    pub settings: Seq<SettingModel>,
    pub devices: Seq<DeviceModel>,
    pub contacts: Seq<ContactRowModel>,
    pub requests: Seq<RequestRowModel>,
    pub conversations: Seq<ConversationRowModel>,
    pub members: Seq<MemberModel>,
    pub messages: Seq<MessageModel>,
    pub pending: Seq<PendingModel>,
    pub handshakes: Seq<PendingHandshakeModel>,
    pub stash: Seq<StashModel>,
    pub cursors: Seq<CursorModel>,
    pub numbers: Seq<NumberModel>,
    pub groups: Seq<GroupModel>,
    pub group_keys: Seq<GroupKeyModel>,
    pub files: Seq<FileRowModel>,
    pub mailbox: Seq<MailboxModel>,
}

// -- the keys of the tables ------------------------------------------------------

pub open spec fn setting_key() -> spec_fn(SettingModel) -> Seq<char> {
    |r: SettingModel| r.key
}

pub open spec fn device_key() -> spec_fn(DeviceModel) -> Seq<char> {
    |r: DeviceModel| r.id
}

pub open spec fn contact_key() -> spec_fn(ContactRowModel) -> Seq<char> {
    |r: ContactRowModel| r.contact.username
}

pub open spec fn request_key() -> spec_fn(RequestRowModel) -> Seq<char> {
    |r: RequestRowModel| r.request.id
}

pub open spec fn conversation_key() -> spec_fn(ConversationRowModel) -> Seq<char> {
    |r: ConversationRowModel| r.id
}

pub open spec fn member_key() -> spec_fn(MemberModel) -> (Seq<char>, Seq<char>) {
    |r: MemberModel| (r.conversation_id, r.username)
}

pub open spec fn message_key() -> spec_fn(MessageModel) -> Seq<char> {
    |r: MessageModel| r.id
}

pub open spec fn message_number() -> spec_fn(MessageModel) -> (Seq<char>, Seq<char>, i64) {
    |r: MessageModel| (r.conversation_id, r.sender_device_id, r.sequence)
}

pub open spec fn pending_key() -> spec_fn(PendingModel) -> Seq<char> {
    |r: PendingModel| r.id
}

pub open spec fn pending_pair() -> spec_fn(PendingModel) -> (Seq<char>, Seq<char>) {
    |r: PendingModel| (r.message_id, r.peer_id)
}

pub open spec fn handshake_key() -> spec_fn(PendingHandshakeModel) -> Seq<char> {
    |r: PendingHandshakeModel| r.message_id
}

pub open spec fn stash_key() -> spec_fn(StashModel) -> Seq<char> {
    |r: StashModel| r.message_id
}

pub open spec fn number_key() -> spec_fn(NumberModel) -> (Seq<char>, Seq<char>, bool) {
    |r: NumberModel| (r.conversation_id, r.device_id, r.control)
}

pub open spec fn cursor_key() -> spec_fn(CursorModel) -> (Seq<char>, Seq<char>) {
    |r: CursorModel| (r.peer_id, r.conversation_id)
}

pub open spec fn group_key_id() -> spec_fn(GroupModel) -> Seq<char> {
    |r: GroupModel| r.group_id
}

pub open spec fn wrapped_key_id() -> spec_fn(GroupKeyModel) -> (Seq<char>, i64, Seq<char>) {
    |r: GroupKeyModel| (r.group_id, r.epoch, r.wrapped_for)
}

pub open spec fn file_key_id() -> spec_fn(FileRowModel) -> Seq<char> {
    |r: FileRowModel| r.file.id
}

pub open spec fn mailbox_key() -> spec_fn(MailboxModel) -> Seq<char> {
    |r: MailboxModel| r.id
}

// -- which rows a statement speaks of -----------------------------------------

pub open spec fn setting_is(key: Seq<char>) -> spec_fn(SettingModel) -> bool {
    |r: SettingModel| r.key == key
}

pub open spec fn device_is(id: Seq<char>) -> spec_fn(DeviceModel) -> bool {
    |r: DeviceModel| r.id == id
}

pub open spec fn contact_is(username: Seq<char>) -> spec_fn(ContactRowModel) -> bool {
    |r: ContactRowModel| r.contact.username == username
}

pub open spec fn request_is(id: Seq<char>) -> spec_fn(RequestRowModel) -> bool {
    |r: RequestRowModel| r.request.id == id
}

pub open spec fn request_has(status: Option<Seq<char>>) -> spec_fn(FriendRequestModel) -> bool {
    |r: FriendRequestModel| status is None || status == Some(r.status)
}

pub open spec fn conversation_is(id: Seq<char>) -> spec_fn(ConversationRowModel) -> bool {
    |r: ConversationRowModel| r.id == id
}

pub open spec fn member_is(
    conversation: Seq<char>,
    username: Seq<char>,
) -> spec_fn(MemberModel) -> bool {
    |r: MemberModel| r.conversation_id == conversation && r.username == username
}

pub open spec fn member_of(conversation: Seq<char>) -> spec_fn(MemberModel) -> bool {
    |r: MemberModel| r.conversation_id == conversation
}

pub open spec fn member_beyond(
    conversation: Seq<char>,
    listed: Seq<Seq<char>>,
) -> spec_fn(MemberModel) -> bool {
    |r: MemberModel| r.conversation_id == conversation && !listed.contains(r.username)
}

/// The members of a conversation whose names come before a name.
pub open spec fn member_before(
    conversation: Seq<char>,
    username: Seq<char>,
) -> spec_fn(MemberModel) -> bool {
    |r: MemberModel|
        r.conversation_id == conversation && r.username != username && text_le(
            r.username,
            username,
        )
}

pub open spec fn dm_with(
    members: Seq<MemberModel>,
    username: Seq<char>,
) -> spec_fn(ConversationRowModel) -> bool {
    |r: ConversationRowModel| r.kind == "dm"@ && some_row(members, member_is(r.id, username))
}

pub open spec fn message_is(id: Seq<char>) -> spec_fn(MessageModel) -> bool {
    |r: MessageModel| r.id == id
}

/// The rows that keep a message from being stored: one with its id, or one
/// with its place in its sender's numbering of the conversation.
pub open spec fn message_clash(m: MessageModel) -> spec_fn(MessageModel) -> bool {
    |r: MessageModel|
        r.id == m.id || (r.conversation_id == m.conversation_id && r.sender_device_id
            == m.sender_device_id && r.sequence == m.sequence)
}

/// The types that a thread shows.
pub open spec fn thread_type(t: Seq<char>) -> bool {
    t == "Message"@ || t == "FileOffer"@ || t == "GroupMessage"@
}

pub open spec fn thread_message(conversation: Seq<char>) -> spec_fn(MessageModel) -> bool {
    |r: MessageModel|
        r.conversation_id == conversation && r.deleted_at_ms is None && thread_type(r.message_type)
}

/// The search text as it is used: no longer than [`SEARCH_CHARS`].
pub open spec fn search_text(query: Seq<char>) -> Seq<char> {
    prefix(query, SEARCH_CHARS as nat)
}

/// `text` holds `part`, ASCII letters compared without their case.
pub open spec fn holds_text(text: Seq<char>, part: Seq<char>) -> bool {
    exists|at: int|
        0 <= at && at + part.len() <= text.len() && #[trigger] lowered(
            text.subrange(at, at + part.len()),
        ) == lowered(part)
}

pub open spec fn thread_match(
    conversation: Seq<char>,
    query: Seq<char>,
) -> spec_fn(MessageModel) -> bool {
    |r: MessageModel|
        thread_message(conversation)(r) && holds_text(r.body, search_text(query))
}

pub open spec fn message_from(
    conversation: Seq<char>,
    device: Seq<char>,
) -> spec_fn(MessageModel) -> bool {
    |r: MessageModel| r.conversation_id == conversation && r.sender_device_id == device
}

pub open spec fn message_unread(
    conversation: Seq<char>,
    me: Seq<char>,
) -> spec_fn(MessageModel) -> bool {
    |r: MessageModel|
        r.conversation_id == conversation && r.sender_username != me && r.status == "delivered"@
            && r.deleted_at_ms is None
}

pub open spec fn pending_is(
    message: Seq<char>,
    peer: Seq<char>,
) -> spec_fn(PendingModel) -> bool {
    |r: PendingModel| r.message_id == message && r.peer_id == peer
}

pub open spec fn pending_id_is(id: Seq<char>) -> spec_fn(PendingModel) -> bool {
    |r: PendingModel| r.id == id
}

pub open spec fn pending_of(message: Seq<char>) -> spec_fn(PendingModel) -> bool {
    |r: PendingModel| r.message_id == message
}

pub open spec fn pending_due(now_ms: i64) -> spec_fn(PendingModel) -> bool {
    |r: PendingModel| r.next_attempt_at_ms <= now_ms
}

/// The pending rows of any of these messages.
pub open spec fn pending_of_any(messages: Seq<MessageModel>) -> spec_fn(PendingModel) -> bool {
    |r: PendingModel| some_row(messages, message_is(r.message_id))
}

pub open spec fn handshake_is(message: Seq<char>) -> spec_fn(PendingHandshakeModel) -> bool {
    |r: PendingHandshakeModel| r.message_id == message
}

pub open spec fn handshake_due(now_ms: i64) -> spec_fn(PendingHandshakeModel) -> bool {
    |r: PendingHandshakeModel| r.next_attempt_at_ms <= now_ms
}

pub open spec fn stash_is(message: Seq<char>) -> spec_fn(StashModel) -> bool {
    |r: StashModel| r.message_id == message
}

pub open spec fn stash_expired(now_ms: i64) -> spec_fn(StashModel) -> bool {
    |r: StashModel| r.expires_at_ms <= now_ms
}

/// The stashed rows that are not among `kept`.
pub open spec fn stash_beyond(kept: Seq<StashModel>) -> spec_fn(StashModel) -> bool {
    |r: StashModel| !some_row(kept, stash_is(r.message_id))
}

pub open spec fn number_is(
    conversation: Seq<char>,
    device: Seq<char>,
    control: bool,
) -> spec_fn(NumberModel) -> bool {
    |r: NumberModel|
        r.conversation_id == conversation && r.device_id == device && r.control == control
}

pub open spec fn cursor_is(
    peer: Seq<char>,
    conversation: Seq<char>,
) -> spec_fn(CursorModel) -> bool {
    |r: CursorModel| r.peer_id == peer && r.conversation_id == conversation
}

pub open spec fn group_is(id: Seq<char>) -> spec_fn(GroupModel) -> bool {
    |r: GroupModel| r.group_id == id
}

pub open spec fn group_key_is(
    group: Seq<char>,
    epoch: i64,
    wrapped_for: Seq<char>,
) -> spec_fn(GroupKeyModel) -> bool {
    |r: GroupKeyModel| r.group_id == group && r.epoch == epoch && r.wrapped_for == wrapped_for
}

pub open spec fn group_key_for(
    group: Seq<char>,
    username: Seq<char>,
) -> spec_fn(GroupKeyModel) -> bool {
    |r: GroupKeyModel| r.group_id == group && r.wrapped_for == username
}

pub open spec fn group_key_of(group: Seq<char>) -> spec_fn(GroupKeyModel) -> bool {
    |r: GroupKeyModel| r.group_id == group
}

pub open spec fn file_is(id: Seq<char>) -> spec_fn(FileRowModel) -> bool {
    |r: FileRowModel| r.file.id == id
}

pub open spec fn file_in(conversation: Seq<char>) -> spec_fn(FileRowModel) -> bool {
    |r: FileRowModel| r.file.conversation_id == conversation
}

pub open spec fn message_in(conversation: Seq<char>) -> spec_fn(MessageModel) -> bool {
    |r: MessageModel| r.conversation_id == conversation
}

pub open spec fn mailbox_is(id: Seq<char>) -> spec_fn(MailboxModel) -> bool {
    |r: MailboxModel| r.id == id
}

pub open spec fn mailbox_waiting(
    recipient: Seq<char>,
    now_ms: i64,
) -> spec_fn(MailboxModel) -> bool {
    |r: MailboxModel|
        r.recipient_username == recipient && r.state == "pending"@ && r.expires_at_ms > now_ms
}

pub open spec fn mailbox_expired(now_ms: i64) -> spec_fn(MailboxModel) -> bool {
    |r: MailboxModel| r.state == "pending"@ && r.expires_at_ms <= now_ms
}

// -- the orders in which rows are handed out ----------------------------------

pub open spec fn contacts_by_name() -> spec_fn(ContactModel, ContactModel) -> bool {
    |a: ContactModel, b: ContactModel| text_le(a.username, b.username)
}

pub open spec fn requests_newest_first() -> spec_fn(FriendRequestModel, FriendRequestModel) -> bool {
    |a: FriendRequestModel, b: FriendRequestModel| a.created_at_ms >= b.created_at_ms
}

pub open spec fn conversations_latest_first() -> spec_fn(
    ConversationRowModel,
    ConversationRowModel,
) -> bool {
    |a: ConversationRowModel, b: ConversationRowModel| a.updated_at_ms >= b.updated_at_ms
}

pub open spec fn members_by_name() -> spec_fn(MemberModel, MemberModel) -> bool {
    |a: MemberModel, b: MemberModel| text_le(a.username, b.username)
}

pub open spec fn messages_oldest_first() -> spec_fn(MessageModel, MessageModel) -> bool {
    |a: MessageModel, b: MessageModel|
        a.created_at_ms < b.created_at_ms || (a.created_at_ms == b.created_at_ms && a.sequence
            <= b.sequence)
}

pub open spec fn messages_newest_first() -> spec_fn(MessageModel, MessageModel) -> bool {
    |a: MessageModel, b: MessageModel| a.created_at_ms >= b.created_at_ms
}

pub open spec fn pending_soonest_first() -> spec_fn(PendingModel, PendingModel) -> bool {
    |a: PendingModel, b: PendingModel| a.next_attempt_at_ms <= b.next_attempt_at_ms
}

pub open spec fn handshakes_soonest_first() -> spec_fn(
    PendingHandshakeModel,
    PendingHandshakeModel,
) -> bool {
    |a: PendingHandshakeModel, b: PendingHandshakeModel| a.next_attempt_at_ms <= b.next_attempt_at_ms
}

pub open spec fn stash_newest_first() -> spec_fn(StashModel, StashModel) -> bool {
    |a: StashModel, b: StashModel| a.received_at_ms >= b.received_at_ms
}

pub open spec fn stash_oldest_first() -> spec_fn(StashModel, StashModel) -> bool {
    |a: StashModel, b: StashModel| a.received_at_ms <= b.received_at_ms
}

pub open spec fn mailbox_oldest_first() -> spec_fn(MailboxModel, MailboxModel) -> bool {
    |a: MailboxModel, b: MailboxModel| a.created_at_ms <= b.created_at_ms
}

// -- what a row shows to its reader -------------------------------------------

pub open spec fn contacts_of(rows: Seq<ContactRowModel>) -> Seq<ContactModel> {
    rows.map_values(|r: ContactRowModel| r.contact)
}

pub open spec fn requests_of(rows: Seq<RequestRowModel>) -> Seq<FriendRequestModel> {
    rows.map_values(|r: RequestRowModel| r.request)
}

pub open spec fn names_of(rows: Seq<MemberModel>) -> Seq<Seq<char>> {
    rows.map_values(|r: MemberModel| r.username)
}

pub open spec fn files_of(rows: Seq<FileRowModel>) -> Seq<FileTransferModel> {
    rows.map_values(|r: FileRowModel| r.file)
}

pub open spec fn stashed_of(rows: Seq<StashModel>) -> Seq<StashedEnvelopeModel> {
    rows.map_values(
        |r: StashModel|
            StashedEnvelopeModel {
                message_id: r.message_id,
                endpoint_id: r.endpoint_id,
                envelope_json: r.envelope_json,
            },
    )
}

pub open spec fn spooled_of(rows: Seq<MailboxModel>) -> Seq<SpooledObjectModel> {
    rows.map_values(
        |r: MailboxModel| SpooledObjectModel { id: r.id, envelope_json: r.envelope_json },
    )
}

/// The highest number among the rows.
pub open spec fn highest_number(rows: Seq<MessageModel>) -> int
    decreases rows.len(),
{
    if rows.len() <= 1 {
        rows[0].sequence as int
    } else {
        let before = highest_number(rows.drop_last());
        if rows.last().sequence > before {
            rows.last().sequence as int
        } else {
            before
        }
    }
}

/// The highest number belongs to a row, and no row has a higher one.
pub proof fn lemma_highest_number(rows: Seq<MessageModel>)
    requires
        rows.len() > 0,
    ensures
        some_row(rows, |r: MessageModel| r.sequence == highest_number(rows)),
        every_row(rows, |r: MessageModel| r.sequence <= highest_number(rows)),
    decreases rows.len(),
{
    let top = |r: MessageModel| r.sequence == highest_number(rows);
    if rows.len() == 1 {
        assert(top(rows[0]));
    } else {
        let rest = rows.drop_last();
        lemma_highest_number(rest);
        assert forall|i: int| 0 <= i < rows.len() implies (#[trigger] rows[i]).sequence
            <= highest_number(rows) by {
            if i < rest.len() {
                assert(rest[i] == rows[i]);
            }
        }
        if rows.last().sequence > highest_number(rest) {
            assert(top(rows[rows.len() - 1]));
        } else {
            let i: int = choose|i: int|
                0 <= i < rest.len() && (#[trigger] rest[i]).sequence == highest_number(rest);
            assert(rest[i] == rows[i]);
            assert(top(rows[i]));
        }
    }
}

/// One more attempt, as far as the counter goes.
pub open spec fn bumped(attempts: i64) -> i64 {
    if attempts < i64::MAX {
        (attempts + 1) as i64
    } else {
        attempts
    }
}

/// The member rows after each of `names` joined the conversation; who is
/// already in it stays as they are.
pub open spec fn joined(
    members: Seq<MemberModel>,
    conversation: Seq<char>,
    names: Seq<Seq<char>>,
    now_ms: i64,
) -> Seq<MemberModel>
    decreases names.len(),
{
    if names.len() == 0 {
        members
    } else {
        let before = joined(members, conversation, names.drop_last(), now_ms);
        if some_row(before, member_is(conversation, names.last())) {
            before
        } else {
            before.push(
                MemberModel {
                    conversation_id: conversation,
                    username: names.last(),
                    added_at_ms: now_ms,
                },
            )
        }
    }
}

impl DbModel {
    /// A store without a single row.
    pub open spec fn empty() -> DbModel {
        DbModel {
            profile: None,
            settings: Seq::empty(),
            devices: Seq::empty(),
            contacts: Seq::empty(),
            requests: Seq::empty(),
            conversations: Seq::empty(),
            members: Seq::empty(),
            messages: Seq::empty(),
            pending: Seq::empty(),
            handshakes: Seq::empty(),
            stash: Seq::empty(),
            cursors: Seq::empty(),
            numbers: Seq::empty(),
            groups: Seq::empty(),
            group_keys: Seq::empty(),
            files: Seq::empty(),
            mailbox: Seq::empty(),
        }
    }

    /// The schema's constraints: every table has its key once, a sender numbers
    /// each message of a conversation once, and no row refers to a conversation,
    /// message or group that is not there.
    pub open spec fn consistent(self) -> bool {
        &&& unique(self.settings, setting_key())
        &&& unique(self.devices, device_key())
        &&& unique(self.contacts, contact_key())
        &&& unique(self.requests, request_key())
        &&& unique(self.conversations, conversation_key())
        &&& unique(self.members, member_key())
        &&& unique(self.messages, message_key())
        &&& unique(self.messages, message_number())
        &&& unique(self.pending, pending_key())
        &&& unique(self.pending, pending_pair())
        &&& unique(self.handshakes, handshake_key())
        &&& unique(self.stash, stash_key())
        &&& unique(self.cursors, cursor_key())
        &&& unique(self.numbers, number_key())
        &&& unique(self.groups, group_key_id())
        &&& unique(self.group_keys, wrapped_key_id())
        &&& unique(self.files, file_key_id())
        &&& unique(self.mailbox, mailbox_key())
        &&& forall|i: int|
            0 <= i < self.members.len() ==> self.has_conversation(
                (#[trigger] self.members[i]).conversation_id,
            )
        &&& forall|i: int|
            0 <= i < self.messages.len() ==> self.has_conversation(
                (#[trigger] self.messages[i]).conversation_id,
            )
        &&& forall|i: int|
            0 <= i < self.pending.len() ==> self.has_message(
                (#[trigger] self.pending[i]).message_id,
            )
        &&& forall|i: int|
            0 <= i < self.groups.len() ==> self.has_conversation(
                (#[trigger] self.groups[i]).group_id,
            )
        &&& forall|i: int|
            0 <= i < self.group_keys.len() ==> self.has_group(
                (#[trigger] self.group_keys[i]).group_id,
            )
        &&& forall|i: int|
            0 <= i < self.files.len() ==> self.has_conversation(
                (#[trigger] self.files[i]).file.conversation_id,
            )
    }

    // -- reading --------------------------------------------------------------

    pub open spec fn has_conversation(self, id: Seq<char>) -> bool {
        some_row(self.conversations, conversation_is(id))
    }

    pub open spec fn has_message(self, id: Seq<char>) -> bool {
        some_row(self.messages, message_is(id))
    }

    pub open spec fn has_group(self, id: Seq<char>) -> bool {
        some_row(self.groups, group_is(id))
    }

    pub open spec fn username(self) -> Option<Seq<char>> {
        match self.profile {
            Some(p) => Some(p.username),
            None => None,
        }
    }

    pub open spec fn setting(self, key: Seq<char>) -> Option<Seq<char>> {
        match first_row(self.settings, setting_is(key)) {
            Some(r) => Some(r.value),
            None => None,
        }
    }

    pub open spec fn contact(self, username: Seq<char>) -> Option<ContactModel> {
        match first_row(self.contacts, contact_is(username)) {
            Some(r) => Some(r.contact),
            None => None,
        }
    }

    pub open spec fn conversation(self, id: Seq<char>) -> Option<ConversationRowModel> {
        first_row(self.conversations, conversation_is(id))
    }

    pub open spec fn message(self, id: Seq<char>) -> Option<MessageModel> {
        first_row(self.messages, message_is(id))
    }

    pub open spec fn dm_with(self, username: Seq<char>) -> Option<Seq<char>> {
        match first_row(self.conversations, dm_with(self.members, username)) {
            Some(r) => Some(r.id),
            None => None,
        }
    }

    pub open spec fn is_member(self, conversation: Seq<char>, username: Seq<char>) -> bool {
        some_row(self.members, member_is(conversation, username))
    }

    pub open spec fn group(self, id: Seq<char>) -> Option<GroupModel> {
        first_row(self.groups, group_is(id))
    }

    pub open spec fn group_key(
        self,
        group: Seq<char>,
        epoch: i64,
        wrapped_for: Seq<char>,
    ) -> Option<GroupKeyModel> {
        first_row(self.group_keys, group_key_is(group, epoch, wrapped_for))
    }

    /// The share of an epoch's numbers that a member has: the one that is noted with
    /// their key, or else their place among the members.
    pub open spec fn share_of(self, group: Seq<char>, epoch: i64, username: Seq<char>) -> nat {
        match self.group_key(group, epoch, username) {
            Some(key) => match key.share {
                Some(share) => share as nat,
                None => self.members.filter(member_before(group, username)).len(),
            },
            None => self.members.filter(member_before(group, username)).len(),
        }
    }

    pub open spec fn file(self, id: Seq<char>) -> Option<FileTransferModel> {
        match first_row(self.files, file_is(id)) {
            Some(r) => Some(r.file),
            None => None,
        }
    }

    pub open spec fn offer_json(self, id: Seq<char>) -> Option<Seq<char>> {
        match first_row(self.files, file_is(id)) {
            Some(r) => r.offer_json,
            None => None,
        }
    }

    pub open spec fn pending_item(
        self,
        message: Seq<char>,
        peer: Seq<char>,
    ) -> Option<PendingModel> {
        first_row(self.pending, pending_is(message, peer))
    }

    /// `names` are the members of the conversation in the order of their names.
    pub open spec fn members_listed(self, conversation: Seq<char>, names: Seq<Seq<char>>) -> bool {
        exists|rows: Seq<MemberModel>| #[trigger]
            ordered(rows, self.members.filter(member_of(conversation)), members_by_name())
                && names == names_of(rows)
    }

    /// `info` is the stored group with its members.
    pub open spec fn group_listed(self, id: Seq<char>, info: Option<GroupInfoModel>) -> bool {
        match (self.group(id), info) {
            (Some(g), Some(i)) => {
                &&& i.group_id == id
                &&& i.name == g.name
                &&& i.current_epoch == g.current_epoch
                &&& self.members_listed(id, i.members)
            },
            (None, None) => true,
            _ => false,
        }
    }

    /// `shown` is the conversation row with its members.
    pub open spec fn conversation_shown(
        self,
        row: ConversationRowModel,
        shown: ConversationModel,
    ) -> bool {
        &&& shown.id == row.id
        &&& shown.kind == row.kind
        &&& shown.name == row.name
        &&& shown.created_at_ms == row.created_at_ms
        &&& shown.updated_at_ms == row.updated_at_ms
        &&& shown.last_message_preview == row.last_message_preview
        &&& self.members_listed(row.id, shown.members)
    }

    /// `shown` are all conversations, the latest change first.
    pub open spec fn conversations_shown(self, shown: Seq<ConversationModel>) -> bool {
        exists|rows: Seq<ConversationRowModel>| #[trigger]
            ordered(rows, self.conversations, conversations_latest_first()) && rows.len()
                == shown.len() && forall|i: int|
                0 <= i < rows.len() ==> self.conversation_shown(rows[i], #[trigger] shown[i])
    }

    /// `list` is the thread of a conversation, oldest first, cut at `limit`.
    pub open spec fn thread_listed(
        self,
        conversation: Seq<char>,
        limit: int,
        list: Seq<MessageModel>,
    ) -> bool {
        ordered_limited(
            list,
            self.messages.filter(thread_message(conversation)),
            messages_oldest_first(),
            limit,
        )
    }

    /// `list` are the messages of a thread that hold a text, the newest first.
    pub open spec fn search_listed(
        self,
        conversation: Seq<char>,
        query: Seq<char>,
        limit: int,
        list: Seq<MessageModel>,
    ) -> bool {
        ordered_limited(
            list,
            self.messages.filter(thread_match(conversation, query)),
            messages_newest_first(),
            limit,
        )
    }

    /// How many messages of others in a conversation are unread.
    pub open spec fn unread(self, conversation: Seq<char>, me: Seq<char>) -> nat {
        self.messages.filter(message_unread(conversation, me)).len()
    }

    /// `list` is what is due to be sent again, the longest waiting first.
    pub open spec fn due_listed(self, now_ms: i64, limit: int, list: Seq<PendingModel>) -> bool {
        ordered_limited(
            list,
            self.pending.filter(pending_due(now_ms)),
            pending_soonest_first(),
            limit,
        )
    }

    /// `list` are the handshakes that are due to be sent again, the longest waiting first.
    pub open spec fn handshakes_listed(
        self,
        now_ms: i64,
        limit: int,
        list: Seq<PendingHandshakeModel>,
    ) -> bool {
        ordered_limited(
            list,
            self.handshakes.filter(handshake_due(now_ms)),
            handshakes_soonest_first(),
            limit,
        )
    }

    /// `list` are the contacts in the order of their names.
    pub open spec fn contacts_listed(self, list: Seq<ContactModel>) -> bool {
        ordered(list, contacts_of(self.contacts), contacts_by_name())
    }

    /// `list` are the requests with a status, or all of them, the newest first.
    pub open spec fn requests_listed(
        self,
        status: Option<Seq<char>>,
        list: Seq<FriendRequestModel>,
    ) -> bool {
        ordered(list, requests_of(self.requests).filter(request_has(status)), requests_newest_first())
    }

    /// The files of a conversation, the one stored last first.
    pub open spec fn files_listed(self, conversation: Seq<char>) -> Seq<FileTransferModel> {
        files_of(self.files.filter(file_in(conversation))).reverse()
    }

    /// How far a device has used up its numbers in a conversation: those of control
    /// messages, or else those of messages.
    pub open spec fn used_number(
        self,
        conversation: Seq<char>,
        device: Seq<char>,
        control: bool,
    ) -> Option<i64> {
        match first_row(self.numbers, number_is(conversation, device, control)) {
            Some(r) => Some(r.last_number),
            None => None,
        }
    }

    /// The number after the highest one that a device used in a conversation, for a
    /// stored message or otherwise, starting at 1.
    pub open spec fn next_number(self, conversation: Seq<char>, device: Seq<char>) -> int {
        let own = self.messages.filter(message_from(conversation, device));
        match self.used_number(conversation, device, false) {
            Some(used) => if own.len() == 0 || highest_number(own) < used {
                used + 1
            } else {
                highest_number(own) + 1
            },
            None => if own.len() == 0 {
                1
            } else {
                highest_number(own) + 1
            },
        }
    }

    /// The number after the highest one that a device used for a control message in a
    /// conversation, starting at 1.
    pub open spec fn next_control(self, conversation: Seq<char>, device: Seq<char>) -> int {
        match self.used_number(conversation, device, true) {
            Some(used) => used + 1,
            None => 1,
        }
    }

    /// `list` are the stashed envelopes that have not expired, oldest first.
    pub open spec fn stash_listed(self, now_ms: i64, list: Seq<StashedEnvelopeModel>) -> bool {
        exists|rows: Seq<StashModel>| #[trigger]
            ordered(rows, self.prune_stash(now_ms).stash, stash_oldest_first()) && list
                == stashed_of(rows)
    }

    /// `list` is what waits for a recipient, oldest first.
    pub open spec fn mailbox_listed(
        self,
        recipient: Seq<char>,
        now_ms: i64,
        list: Seq<SpooledObjectModel>,
    ) -> bool {
        exists|rows: Seq<MailboxModel>| #[trigger]
            ordered(
                rows,
                self.mailbox.filter(mailbox_waiting(recipient, now_ms)),
                mailbox_oldest_first(),
            ) && list == spooled_of(rows)
    }

    // -- writing --------------------------------------------------------------

    pub open spec fn save_profile(
        self,
        username: Seq<char>,
        display_name: Seq<char>,
        now_ms: i64,
    ) -> DbModel {
        let created_at_ms = match self.profile {
            Some(p) => p.created_at_ms,
            None => now_ms,
        };
        DbModel { profile: Some(ProfileModel { username, display_name, created_at_ms }), ..self }
    }

    pub open spec fn set_setting(self, key: Seq<char>, value: Seq<char>) -> DbModel {
        DbModel {
            settings: upserted(
                self.settings,
                setting_is(key),
                setting_with_value(value),
                SettingModel { key, value },
            ),
            ..self
        }
    }

    pub open spec fn save_device(self, device: DeviceModel) -> DbModel {
        DbModel {
            devices: upserted(
                self.devices,
                device_is(device.id),
                device_resaved(device),
                device,
            ),
            ..self
        }
    }

    pub open spec fn upsert_contact(self, contact: ContactModel, now_ms: i64) -> DbModel {
        DbModel {
            contacts: upserted(
                self.contacts,
                contact_is(contact.username),
                contact_resaved(contact),
                ContactRowModel { contact, created_at_ms: now_ms },
            ),
            ..self
        }
    }

    pub open spec fn remove_contact(self, username: Seq<char>) -> DbModel {
        DbModel { contacts: without(self.contacts, contact_is(username)), ..self }
    }

    pub open spec fn set_contact_status(self, username: Seq<char>, status: Seq<char>) -> DbModel {
        DbModel {
            contacts: updated(self.contacts, contact_is(username), contact_with_status(status)),
            ..self
        }
    }

    pub open spec fn save_friend_request(self, request: FriendRequestModel, now_ms: i64) -> DbModel {
        DbModel {
            requests: upserted(
                self.requests,
                request_is(request.id),
                request_with_status(request.status, now_ms),
                RequestRowModel { request, updated_at_ms: now_ms },
            ),
            ..self
        }
    }

    pub open spec fn set_friend_request_status(
        self,
        id: Seq<char>,
        status: Seq<char>,
        now_ms: i64,
    ) -> DbModel {
        DbModel {
            requests: updated(self.requests, request_is(id), request_with_status(status, now_ms)),
            ..self
        }
    }

    pub open spec fn create_conversation(
        self,
        id: Seq<char>,
        kind: Seq<char>,
        name: Seq<char>,
        names: Seq<Seq<char>>,
        now_ms: i64,
    ) -> DbModel {
        DbModel {
            conversations: upserted(
                self.conversations,
                conversation_is(id),
                conversation_renamed(name, now_ms),
                ConversationRowModel {
                    id,
                    kind,
                    name,
                    created_at_ms: now_ms,
                    updated_at_ms: now_ms,
                    last_message_id: None,
                    last_message_preview: None,
                },
            ),
            members: joined(self.members, id, names, now_ms),
            ..self
        }
    }

    pub open spec fn rename_conversation(
        self,
        id: Seq<char>,
        name: Seq<char>,
        now_ms: i64,
    ) -> DbModel {
        DbModel {
            conversations: updated(
                self.conversations,
                conversation_is(id),
                conversation_renamed(name, now_ms),
            ),
            ..self
        }
    }

    pub open spec fn set_conversation_members(
        self,
        conversation: Seq<char>,
        names: Seq<Seq<char>>,
        now_ms: i64,
    ) -> DbModel {
        DbModel {
            members: without(
                joined(self.members, conversation, names, now_ms),
                member_beyond(conversation, names),
            ),
            ..self
        }
    }

    pub open spec fn remove_conversation_member(
        self,
        conversation: Seq<char>,
        username: Seq<char>,
    ) -> DbModel {
        DbModel { members: without(self.members, member_is(conversation, username)), ..self }
    }

    /// With a conversation go its members, messages, group, keys and files, and
    /// with its messages what was pending for them.
    pub open spec fn delete_conversation(self, id: Seq<char>) -> DbModel {
        if self.has_conversation(id) {
            DbModel {
                conversations: without(self.conversations, conversation_is(id)),
                members: without(self.members, member_of(id)),
                messages: without(self.messages, message_in(id)),
                pending: without(
                    self.pending,
                    pending_of_any(self.messages.filter(message_in(id))),
                ),
                groups: without(self.groups, group_is(id)),
                group_keys: without(self.group_keys, group_key_of(id)),
                files: without(self.files, file_in(id)),
                ..self
            }
        } else {
            self
        }
    }

    pub open spec fn set_conversation_preview(
        self,
        conversation: Seq<char>,
        preview: Seq<char>,
        now_ms: i64,
    ) -> DbModel {
        DbModel {
            conversations: updated(
                self.conversations,
                conversation_is(conversation),
                conversation_previewed(preview, now_ms),
            ),
            ..self
        }
    }

    /// Storing a message that is not there yet; it becomes the last one of its
    /// conversation.
    pub open spec fn add_message(self, m: MessageModel) -> DbModel {
        DbModel {
            messages: self.messages.push(m),
            conversations: updated(
                self.conversations,
                conversation_is(m.conversation_id),
                conversation_with_last(m),
            ),
            ..self
        }
    }

    /// The message is already there, or its number is taken.
    pub open spec fn clashes(self, m: MessageModel) -> bool {
        some_row(self.messages, message_clash(m))
    }

    pub open spec fn insert_message(self, m: MessageModel) -> DbModel {
        if self.clashes(m) {
            self
        } else {
            self.add_message(m)
        }
    }

    pub open spec fn set_message_status(self, id: Seq<char>, status: Seq<char>) -> DbModel {
        DbModel {
            messages: updated(self.messages, message_is(id), message_with_status(status)),
            ..self
        }
    }

    pub open spec fn edit_message(
        self,
        id: Seq<char>,
        body: Seq<char>,
        ciphertext: Seq<u8>,
        now_ms: i64,
    ) -> DbModel {
        DbModel {
            messages: updated(
                self.messages,
                message_is(id),
                message_edited(body, ciphertext, now_ms),
            ),
            ..self
        }
    }

    pub open spec fn tombstone_message(self, id: Seq<char>, now_ms: i64) -> DbModel {
        DbModel {
            messages: updated(self.messages, message_is(id), message_deleted(now_ms)),
            ..self
        }
    }

    pub open spec fn enqueue_pending(
        self,
        id: Seq<char>,
        message: Seq<char>,
        peer: Seq<char>,
        next_attempt_at_ms: i64,
        state: Seq<char>,
    ) -> DbModel {
        DbModel {
            pending: upserted(
                self.pending,
                pending_is(message, peer),
                pending_requeued(next_attempt_at_ms, state),
                PendingModel {
                    id,
                    message_id: message,
                    peer_id: peer,
                    attempt_count: 0,
                    next_attempt_at_ms,
                    state,
                },
            ),
            ..self
        }
    }

    /// Whether [`DbModel::enqueue_pending`] meets the schema: the pair is queued
    /// already, or the message is stored and the id is free.
    pub open spec fn may_enqueue(self, id: Seq<char>, message: Seq<char>, peer: Seq<char>) -> bool {
        some_row(self.pending, pending_is(message, peer)) || (self.has_message(message)
            && !some_row(self.pending, pending_id_is(id)))
    }

    pub open spec fn backoff_pending(self, message: Seq<char>, next_attempt_at_ms: i64) -> DbModel {
        DbModel {
            pending: updated(self.pending, pending_of(message), pending_backed_off(next_attempt_at_ms)),
            ..self
        }
    }

    pub open spec fn count_attempt(self, message: Seq<char>, peer: Seq<char>) -> DbModel {
        DbModel {
            pending: updated(self.pending, pending_is(message, peer), pending_counted()),
            ..self
        }
    }

    pub open spec fn dequeue_pending(self, message: Seq<char>) -> DbModel {
        DbModel { pending: without(self.pending, pending_of(message)), ..self }
    }

    pub open spec fn dequeue_pending_for(self, message: Seq<char>, peer: Seq<char>) -> DbModel {
        DbModel { pending: without(self.pending, pending_is(message, peer)), ..self }
    }

    pub open spec fn enqueue_handshake(
        self,
        message: Seq<char>,
        peer: Seq<char>,
        envelope_json: Seq<char>,
        next_attempt_at_ms: i64,
    ) -> DbModel {
        DbModel {
            handshakes: upserted(
                self.handshakes,
                handshake_is(message),
                handshake_requeued(next_attempt_at_ms),
                PendingHandshakeModel {
                    message_id: message,
                    peer_username: peer,
                    envelope_json,
                    attempt_count: 0,
                    next_attempt_at_ms,
                },
            ),
            ..self
        }
    }

    pub open spec fn backoff_handshake(self, message: Seq<char>, next_attempt_at_ms: i64) -> DbModel {
        DbModel {
            handshakes: updated(
                self.handshakes,
                handshake_is(message),
                handshake_backed_off(next_attempt_at_ms),
            ),
            ..self
        }
    }

    pub open spec fn dequeue_handshake(self, message: Seq<char>) -> DbModel {
        DbModel { handshakes: without(self.handshakes, handshake_is(message)), ..self }
    }

    /// The stash with one more row, unless a row has its message id.
    pub open spec fn stash_added(self, row: StashModel) -> Seq<StashModel> {
        if some_row(self.stash, stash_is(row.message_id)) {
            self.stash
        } else {
            self.stash.push(row)
        }
    }

    /// `after` is this store with `row` stashed and the newest
    /// [`STASH_LIMIT`] rows kept.
    pub open spec fn stashed(self, row: StashModel, after: DbModel) -> bool {
        exists|kept: Seq<StashModel>| #[trigger]
            ordered_limited(
                kept,
                self.stash_added(row),
                stash_newest_first(),
                STASH_LIMIT as int,
            ) && after == (DbModel {
                stash: without(self.stash_added(row), stash_beyond(kept)),
                ..self
            })
    }

    pub open spec fn prune_stash(self, now_ms: i64) -> DbModel {
        DbModel { stash: without(self.stash, stash_expired(now_ms)), ..self }
    }

    pub open spec fn unstash(self, message: Seq<char>) -> DbModel {
        DbModel { stash: without(self.stash, stash_is(message)), ..self }
    }

    pub open spec fn update_sync_cursor(
        self,
        peer: Seq<char>,
        conversation: Seq<char>,
        last_sequence: i64,
        now_ms: i64,
    ) -> DbModel {
        DbModel {
            cursors: upserted(
                self.cursors,
                cursor_is(peer, conversation),
                cursor_advanced(last_sequence, now_ms),
                CursorModel {
                    peer_id: peer,
                    conversation_id: conversation,
                    last_sequence,
                    updated_at_ms: now_ms,
                },
            ),
            ..self
        }
    }

    /// A number that a device used in a conversation, and those before it, are used up.
    pub open spec fn use_number(
        self,
        conversation: Seq<char>,
        device: Seq<char>,
        control: bool,
        number: i64,
    ) -> DbModel {
        DbModel {
            numbers: upserted(
                self.numbers,
                number_is(conversation, device, control),
                number_advanced(number),
                NumberModel {
                    conversation_id: conversation,
                    device_id: device,
                    control,
                    last_number: number,
                },
            ),
            ..self
        }
    }

    pub open spec fn save_group(
        self,
        group: Seq<char>,
        name: Seq<char>,
        epoch: i64,
        now_ms: i64,
    ) -> DbModel {
        DbModel {
            groups: upserted(
                self.groups,
                group_is(group),
                group_resaved(name, epoch, now_ms),
                GroupModel {
                    group_id: group,
                    name,
                    current_epoch: epoch,
                    created_at_ms: now_ms,
                    updated_at_ms: now_ms,
                },
            ),
            ..self
        }
    }

    /// A key replaces the one that was wrapped for the same member and epoch.
    pub open spec fn save_wrapped_key(self, key: GroupKeyModel) -> DbModel {
        DbModel {
            group_keys: without(
                self.group_keys,
                group_key_is(key.group_id, key.epoch, key.wrapped_for),
            ).push(key),
            ..self
        }
    }

    pub open spec fn delete_wrapped_keys_for(
        self,
        group: Seq<char>,
        username: Seq<char>,
    ) -> DbModel {
        DbModel { group_keys: without(self.group_keys, group_key_for(group, username)), ..self }
    }

    pub open spec fn save_file(self, file: FileTransferModel) -> DbModel {
        DbModel {
            files: upserted(
                self.files,
                file_is(file.id),
                file_resaved(file),
                FileRowModel { file, offer_json: None },
            ),
            ..self
        }
    }

    pub open spec fn save_offer_json(self, id: Seq<char>, offer_json: Seq<char>) -> DbModel {
        DbModel { files: updated(self.files, file_is(id), file_with_offer(offer_json)), ..self }
    }

    pub open spec fn spool_mailbox(self, row: MailboxModel) -> DbModel {
        DbModel {
            mailbox: if some_row(self.mailbox, mailbox_is(row.id)) {
                self.mailbox
            } else {
                self.mailbox.push(row)
            },
            ..self
        }
    }

    pub open spec fn ack_mailbox(self, id: Seq<char>) -> DbModel {
        DbModel {
            mailbox: updated(self.mailbox, mailbox_is(id), mailbox_in_state("acked"@)),
            ..self
        }
    }

    pub open spec fn expire_mailbox(self, now_ms: i64) -> DbModel {
        DbModel {
            mailbox: updated(self.mailbox, mailbox_expired(now_ms), mailbox_in_state("expired"@)),
            ..self
        }
    }

    /// Only the settings and the stash survive.
    pub open spec fn wiped(self) -> DbModel {
        DbModel { settings: self.settings, stash: self.stash, ..DbModel::empty() }
    }
}

// -- what a statement does to a row -------------------------------------------

pub open spec fn setting_with_value(value: Seq<char>) -> spec_fn(SettingModel) -> SettingModel {
    |r: SettingModel| SettingModel { value, ..r }
}

pub open spec fn device_resaved(d: DeviceModel) -> spec_fn(DeviceModel) -> DeviceModel {
    |r: DeviceModel|
        DeviceModel {
            username: d.username,
            device_name: d.device_name,
            iroh_endpoint_id: d.iroh_endpoint_id,
            revoked_at_ms: d.revoked_at_ms,
            ..r
        }
}

pub open spec fn contact_resaved(c: ContactModel) -> spec_fn(ContactRowModel) -> ContactRowModel {
    |r: ContactRowModel| ContactRowModel { contact: c, ..r }
}

pub open spec fn contact_with_status(
    status: Seq<char>,
) -> spec_fn(ContactRowModel) -> ContactRowModel {
    |r: ContactRowModel|
        ContactRowModel { contact: ContactModel { status, ..r.contact }, ..r }
}

pub open spec fn request_with_status(
    status: Seq<char>,
    now_ms: i64,
) -> spec_fn(RequestRowModel) -> RequestRowModel {
    |r: RequestRowModel|
        RequestRowModel {
            request: FriendRequestModel { status, ..r.request },
            updated_at_ms: now_ms,
        }
}

pub open spec fn conversation_renamed(
    name: Seq<char>,
    now_ms: i64,
) -> spec_fn(ConversationRowModel) -> ConversationRowModel {
    |r: ConversationRowModel| ConversationRowModel { name, updated_at_ms: now_ms, ..r }
}

pub open spec fn conversation_previewed(
    preview: Seq<char>,
    now_ms: i64,
) -> spec_fn(ConversationRowModel) -> ConversationRowModel {
    |r: ConversationRowModel|
        ConversationRowModel {
            last_message_preview: Some(preview),
            updated_at_ms: now_ms,
            ..r
        }
}

pub open spec fn conversation_with_last(
    m: MessageModel,
) -> spec_fn(ConversationRowModel) -> ConversationRowModel {
    |r: ConversationRowModel|
        ConversationRowModel {
            updated_at_ms: m.created_at_ms,
            last_message_id: Some(m.id),
            last_message_preview: Some(prefix(m.body, PREVIEW_CHARS as nat)),
            ..r
        }
}

pub open spec fn message_with_status(status: Seq<char>) -> spec_fn(MessageModel) -> MessageModel {
    |r: MessageModel| MessageModel { status, ..r }
}

pub open spec fn message_edited(
    body: Seq<char>,
    ciphertext: Seq<u8>,
    now_ms: i64,
) -> spec_fn(MessageModel) -> MessageModel {
    |r: MessageModel| MessageModel { body, ciphertext, edited_at_ms: Some(now_ms), ..r }
}

pub open spec fn message_deleted(now_ms: i64) -> spec_fn(MessageModel) -> MessageModel {
    |r: MessageModel| MessageModel { deleted_at_ms: Some(now_ms), body: Seq::empty(), ..r }
}

pub open spec fn pending_requeued(
    next_attempt_at_ms: i64,
    state: Seq<char>,
) -> spec_fn(PendingModel) -> PendingModel {
    |r: PendingModel| PendingModel { next_attempt_at_ms, state, ..r }
}

pub open spec fn pending_backed_off(
    next_attempt_at_ms: i64,
) -> spec_fn(PendingModel) -> PendingModel {
    |r: PendingModel|
        PendingModel {
            attempt_count: bumped(r.attempt_count),
            next_attempt_at_ms,
            state: "retrying"@,
            ..r
        }
}

pub open spec fn pending_counted() -> spec_fn(PendingModel) -> PendingModel {
    |r: PendingModel| PendingModel { attempt_count: bumped(r.attempt_count), ..r }
}

pub open spec fn handshake_requeued(
    next_attempt_at_ms: i64,
) -> spec_fn(PendingHandshakeModel) -> PendingHandshakeModel {
    |r: PendingHandshakeModel| PendingHandshakeModel { next_attempt_at_ms, ..r }
}

pub open spec fn handshake_backed_off(
    next_attempt_at_ms: i64,
) -> spec_fn(PendingHandshakeModel) -> PendingHandshakeModel {
    |r: PendingHandshakeModel|
        PendingHandshakeModel {
            attempt_count: bumped(r.attempt_count),
            next_attempt_at_ms,
            ..r
        }
}

pub open spec fn number_advanced(number: i64) -> spec_fn(NumberModel) -> NumberModel {
    |r: NumberModel|
        NumberModel {
            last_number: if number > r.last_number {
                number
            } else {
                r.last_number
            },
            ..r
        }
}

pub open spec fn cursor_advanced(
    last_sequence: i64,
    now_ms: i64,
) -> spec_fn(CursorModel) -> CursorModel {
    |r: CursorModel|
        CursorModel {
            last_sequence: if r.last_sequence < last_sequence {
                last_sequence
            } else {
                r.last_sequence
            },
            updated_at_ms: now_ms,
            ..r
        }
}

pub open spec fn group_resaved(
    name: Seq<char>,
    epoch: i64,
    now_ms: i64,
) -> spec_fn(GroupModel) -> GroupModel {
    |r: GroupModel| GroupModel { name, current_epoch: epoch, updated_at_ms: now_ms, ..r }
}

pub open spec fn file_resaved(f: FileTransferModel) -> spec_fn(FileRowModel) -> FileRowModel {
    |r: FileRowModel|
        FileRowModel {
            file: FileTransferModel {
                state: f.state,
                bytes_done: f.bytes_done,
                local_path: f.local_path,
                ..r.file
            },
            ..r
        }
}

pub open spec fn file_with_offer(offer_json: Seq<char>) -> spec_fn(FileRowModel) -> FileRowModel {
    |r: FileRowModel| FileRowModel { offer_json: Some(offer_json), ..r }
}

pub open spec fn mailbox_in_state(state: Seq<char>) -> spec_fn(MailboxModel) -> MailboxModel {
    |r: MailboxModel| MailboxModel { state, ..r }
}

} // verus!
