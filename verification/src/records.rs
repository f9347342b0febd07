//! The records that the store keeps and hands out, each with its model.

use vstd::prelude::*;

use crate::table::Row;
use crate::text::{
    copy_bytes, copy_opt_bytes, copy_opt_text, copy_texts, opt_bytes, opt_text, texts,
};

verus! {

/// A person this device knows, with the keys that reach them.
#[derive(Debug, Clone)]
pub struct Contact {
    pub username: String,
    pub display_name: String,
    pub x25519_pubkey: Option<Vec<u8>>,
    pub ed_pubkey: Option<Vec<u8>>,
    pub endpoint_id: Option<String>,
    pub endpoint_bundle: Option<String>,
    pub status: String,
}

/// What a [`Contact`] holds.
pub struct ContactModel {
    pub username: Seq<char>,
    pub display_name: Seq<char>,
    pub x25519_pubkey: Option<Seq<u8>>,
    pub ed_pubkey: Option<Seq<u8>>,
    pub endpoint_id: Option<Seq<char>>,
    pub endpoint_bundle: Option<Seq<char>>,
    pub status: Seq<char>,
}

impl View for Contact {
    type V = ContactModel;

    open spec fn view(&self) -> ContactModel {
        ContactModel {
            username: self.username@,
            display_name: self.display_name@,
            x25519_pubkey: opt_bytes(self.x25519_pubkey),
            ed_pubkey: opt_bytes(self.ed_pubkey),
            endpoint_id: opt_text(self.endpoint_id),
            endpoint_bundle: opt_text(self.endpoint_bundle),
            status: self.status@,
        }
    }
}

impl Row for Contact {
    fn duplicate(&self) -> (copy: Self) {
        Contact {
            username: self.username.clone(),
            display_name: self.display_name.clone(),
            x25519_pubkey: copy_opt_bytes(&self.x25519_pubkey),
            ed_pubkey: copy_opt_bytes(&self.ed_pubkey),
            endpoint_id: copy_opt_text(&self.endpoint_id),
            endpoint_bundle: copy_opt_text(&self.endpoint_bundle),
            status: self.status.clone(),
        }
    }
}

/// A friend request, sent or received.
#[derive(Debug, Clone)]
pub struct FriendRequest {
    pub id: String,
    pub direction: String,
    pub peer_username: String,
    pub peer_display_name: String,
    pub status: String,
    pub created_at_ms: i64,
}

/// What a [`FriendRequest`] holds.
pub struct FriendRequestModel {
    pub id: Seq<char>,
    pub direction: Seq<char>,
    pub peer_username: Seq<char>,
    pub peer_display_name: Seq<char>,
    pub status: Seq<char>,
    pub created_at_ms: i64,
}

impl View for FriendRequest {
    type V = FriendRequestModel;

    open spec fn view(&self) -> FriendRequestModel {
        FriendRequestModel {
            id: self.id@,
            direction: self.direction@,
            peer_username: self.peer_username@,
            peer_display_name: self.peer_display_name@,
            status: self.status@,
            created_at_ms: self.created_at_ms,
        }
    }
}

impl Row for FriendRequest {
    fn duplicate(&self) -> (copy: Self) {
        FriendRequest {
            id: self.id.clone(),
            direction: self.direction.clone(),
            peer_username: self.peer_username.clone(),
            peer_display_name: self.peer_display_name.clone(),
            status: self.status.clone(),
            created_at_ms: self.created_at_ms,
        }
    }
}

/// A conversation with its members, as shown in the chat list.
#[derive(Debug, Clone)]
pub struct Conversation {
    pub id: String,
    pub kind: String,
    pub name: String,
    pub created_at_ms: i64,
    pub updated_at_ms: i64,
    pub last_message_preview: Option<String>,
    pub members: Vec<String>,
}

/// What a [`Conversation`] holds.
pub struct ConversationModel {
    pub id: Seq<char>,
    pub kind: Seq<char>,
    pub name: Seq<char>,
    pub created_at_ms: i64,
    pub updated_at_ms: i64,
    pub last_message_preview: Option<Seq<char>>,
    pub members: Seq<Seq<char>>,
}

impl View for Conversation {
    type V = ConversationModel;

    open spec fn view(&self) -> ConversationModel {
        ConversationModel {
            id: self.id@,
            kind: self.kind@,
            name: self.name@,
            created_at_ms: self.created_at_ms,
            updated_at_ms: self.updated_at_ms,
            last_message_preview: opt_text(self.last_message_preview),
            members: texts(self.members@),
        }
    }
}

impl Row for Conversation {
    fn duplicate(&self) -> (copy: Self) {
        Conversation {
            id: self.id.clone(),
            kind: self.kind.clone(),
            name: self.name.clone(),
            created_at_ms: self.created_at_ms,
            updated_at_ms: self.updated_at_ms,
            last_message_preview: copy_opt_text(&self.last_message_preview),
            members: copy_texts(&self.members),
        }
    }
}

/// A stored message. The body is local plaintext and leaves the device only
/// inside ciphertext.
#[derive(Debug, Clone)]
pub struct Message {
    pub id: String,
    pub conversation_id: String,
    pub sender_device_id: String,
    pub sender_username: String,
    pub message_type: String,
    pub body: String,
    pub ciphertext: Vec<u8>,
    pub sequence: i64,
    pub status: String,
    pub reply_to: Option<String>,
    pub created_at_ms: i64,
    pub edited_at_ms: Option<i64>,
    pub deleted_at_ms: Option<i64>,
}

/// What a [`Message`] holds.
pub struct MessageModel {
    pub id: Seq<char>,
    pub conversation_id: Seq<char>,
    pub sender_device_id: Seq<char>,
    pub sender_username: Seq<char>,
    pub message_type: Seq<char>,
    pub body: Seq<char>,
    pub ciphertext: Seq<u8>,
    pub sequence: i64,
    pub status: Seq<char>,
    pub reply_to: Option<Seq<char>>,
    pub created_at_ms: i64,
    pub edited_at_ms: Option<i64>,
    pub deleted_at_ms: Option<i64>,
}

impl View for Message {
    type V = MessageModel;

    open spec fn view(&self) -> MessageModel {
        MessageModel {
            id: self.id@,
            conversation_id: self.conversation_id@,
            sender_device_id: self.sender_device_id@,
            sender_username: self.sender_username@,
            message_type: self.message_type@,
            body: self.body@,
            ciphertext: self.ciphertext@,
            sequence: self.sequence,
            status: self.status@,
            reply_to: opt_text(self.reply_to),
            created_at_ms: self.created_at_ms,
            edited_at_ms: self.edited_at_ms,
            deleted_at_ms: self.deleted_at_ms,
        }
    }
}

impl Row for Message {
    fn duplicate(&self) -> (copy: Self) {
        Message {
            id: self.id.clone(),
            conversation_id: self.conversation_id.clone(),
            sender_device_id: self.sender_device_id.clone(),
            sender_username: self.sender_username.clone(),
            message_type: self.message_type.clone(),
            body: self.body.clone(),
            ciphertext: copy_bytes(self.ciphertext.as_slice()),
            sequence: self.sequence,
            status: self.status.clone(),
            reply_to: copy_opt_text(&self.reply_to),
            created_at_ms: self.created_at_ms,
            edited_at_ms: self.edited_at_ms,
            deleted_at_ms: self.deleted_at_ms,
        }
    }
}

/// The public half of a device.
#[derive(Debug, Clone)]
pub struct DeviceRecord {
    pub id: String,
    pub username: String,
    pub device_name: String,
    pub ed25519_pubkey: Vec<u8>,
    pub x25519_pubkey: Vec<u8>,
    pub iroh_endpoint_id: String,
    pub created_at_ms: i64,
    pub revoked_at_ms: Option<i64>,
}

/// What a [`DeviceRecord`] holds.
pub struct DeviceModel {
    pub id: Seq<char>,
    pub username: Seq<char>,
    pub device_name: Seq<char>,
    pub ed25519_pubkey: Seq<u8>,
    pub x25519_pubkey: Seq<u8>,
    pub iroh_endpoint_id: Seq<char>,
    pub created_at_ms: i64,
    pub revoked_at_ms: Option<i64>,
}

impl View for DeviceRecord {
    type V = DeviceModel;

    open spec fn view(&self) -> DeviceModel {
        DeviceModel {
            id: self.id@,
            username: self.username@,
            device_name: self.device_name@,
            ed25519_pubkey: self.ed25519_pubkey@,
            x25519_pubkey: self.x25519_pubkey@,
            iroh_endpoint_id: self.iroh_endpoint_id@,
            created_at_ms: self.created_at_ms,
            revoked_at_ms: self.revoked_at_ms,
        }
    }
}

impl Row for DeviceRecord {
    fn duplicate(&self) -> (copy: Self) {
        DeviceRecord {
            id: self.id.clone(),
            username: self.username.clone(),
            device_name: self.device_name.clone(),
            ed25519_pubkey: copy_bytes(self.ed25519_pubkey.as_slice()),
            x25519_pubkey: copy_bytes(self.x25519_pubkey.as_slice()),
            iroh_endpoint_id: self.iroh_endpoint_id.clone(),
            created_at_ms: self.created_at_ms,
            revoked_at_ms: self.revoked_at_ms,
        }
    }
}

/// A group with its current key epoch and its members.
#[derive(Debug, Clone)]
pub struct GroupInfo {
    pub group_id: String,
    pub name: String,
    pub current_epoch: i64,
    pub members: Vec<String>,
}

/// What a [`GroupInfo`] holds.
pub struct GroupInfoModel {
    pub group_id: Seq<char>,
    pub name: Seq<char>,
    pub current_epoch: i64,
    pub members: Seq<Seq<char>>,
}

impl View for GroupInfo {
    type V = GroupInfoModel;

    open spec fn view(&self) -> GroupInfoModel {
        GroupInfoModel {
            group_id: self.group_id@,
            name: self.name@,
            current_epoch: self.current_epoch,
            members: texts(self.members@),
        }
    }
}

impl Row for GroupInfo {
    fn duplicate(&self) -> (copy: Self) {
        GroupInfo {
            group_id: self.group_id.clone(),
            name: self.name.clone(),
            current_epoch: self.current_epoch,
            members: copy_texts(&self.members),
        }
    }
}

/// The state of one file transfer.
#[derive(Debug, Clone)]
pub struct FileTransfer {
    pub id: String,
    pub conversation_id: String,
    pub filename: String,
    pub mime_type: String,
    pub size_bytes: i64,
    pub sha256_hex: String,
    pub state: String,
    pub bytes_done: i64,
    pub local_path: Option<String>,
    pub created_at_ms: i64,
}

/// What a [`FileTransfer`] holds.
pub struct FileTransferModel {
    pub id: Seq<char>,
    pub conversation_id: Seq<char>,
    pub filename: Seq<char>,
    pub mime_type: Seq<char>,
    pub size_bytes: i64,
    pub sha256_hex: Seq<char>,
    pub state: Seq<char>,
    pub bytes_done: i64,
    pub local_path: Option<Seq<char>>,
    pub created_at_ms: i64,
}

impl View for FileTransfer {
    type V = FileTransferModel;

    open spec fn view(&self) -> FileTransferModel {
        FileTransferModel {
            id: self.id@,
            conversation_id: self.conversation_id@,
            filename: self.filename@,
            mime_type: self.mime_type@,
            size_bytes: self.size_bytes,
            sha256_hex: self.sha256_hex@,
            state: self.state@,
            bytes_done: self.bytes_done,
            local_path: opt_text(self.local_path),
            created_at_ms: self.created_at_ms,
        }
    }
}

impl Row for FileTransfer {
    fn duplicate(&self) -> (copy: Self) {
        FileTransfer {
            id: self.id.clone(),
            conversation_id: self.conversation_id.clone(),
            filename: self.filename.clone(),
            mime_type: self.mime_type.clone(),
            size_bytes: self.size_bytes,
            sha256_hex: self.sha256_hex.clone(),
            state: self.state.clone(),
            bytes_done: self.bytes_done,
            local_path: copy_opt_text(&self.local_path),
            created_at_ms: self.created_at_ms,
        }
    }
}

/// A friend ask or answer that waits to be sent again.
#[derive(Debug, Clone)]
pub struct PendingHandshake {
    pub message_id: String,
    pub peer_username: String,
    pub envelope_json: String,
    pub attempt_count: i64,
    pub next_attempt_at_ms: i64,
}

/// What a [`PendingHandshake`] holds.
pub struct PendingHandshakeModel {
    pub message_id: Seq<char>,
    pub peer_username: Seq<char>,
    pub envelope_json: Seq<char>,
    pub attempt_count: i64,
    pub next_attempt_at_ms: i64,
}

impl View for PendingHandshake {
    type V = PendingHandshakeModel;

    open spec fn view(&self) -> PendingHandshakeModel {
        PendingHandshakeModel {
            message_id: self.message_id@,
            peer_username: self.peer_username@,
            envelope_json: self.envelope_json@,
            attempt_count: self.attempt_count,
            next_attempt_at_ms: self.next_attempt_at_ms,
        }
    }
}

impl Row for PendingHandshake {
    fn duplicate(&self) -> (copy: Self) {
        PendingHandshake {
            message_id: self.message_id.clone(),
            peer_username: self.peer_username.clone(),
            envelope_json: self.envelope_json.clone(),
            attempt_count: self.attempt_count,
            next_attempt_at_ms: self.next_attempt_at_ms,
        }
    }
}

/// A handshake envelope kept until its sender is known.
#[derive(Debug, Clone)]
pub struct StashedEnvelope {
    pub message_id: String,
    pub endpoint_id: String,
    pub envelope_json: String,
}

/// What a [`StashedEnvelope`] holds.
pub struct StashedEnvelopeModel {
    pub message_id: Seq<char>,
    pub endpoint_id: Seq<char>,
    pub envelope_json: Seq<char>,
}

impl View for StashedEnvelope {
    type V = StashedEnvelopeModel;

    open spec fn view(&self) -> StashedEnvelopeModel {
        StashedEnvelopeModel {
            message_id: self.message_id@,
            endpoint_id: self.endpoint_id@,
            envelope_json: self.envelope_json@,
        }
    }
}

impl Row for StashedEnvelope {
    fn duplicate(&self) -> (copy: Self) {
        StashedEnvelope {
            message_id: self.message_id.clone(),
            endpoint_id: self.endpoint_id.clone(),
            envelope_json: self.envelope_json.clone(),
        }
    }
}

/// A message that waits to be sent to one peer again.
#[derive(Debug, Clone)]
pub struct PendingItem {
    pub id: String,
    pub message_id: String,
    pub peer_id: String,
    pub attempt_count: i64,
    pub next_attempt_at_ms: i64,
    pub state: String,
}

/// What a [`PendingItem`] holds.
pub struct PendingModel {
    pub id: Seq<char>,
    pub message_id: Seq<char>,
    pub peer_id: Seq<char>,
    pub attempt_count: i64,
    pub next_attempt_at_ms: i64,
    pub state: Seq<char>,
}

impl View for PendingItem {
    type V = PendingModel;

    open spec fn view(&self) -> PendingModel {
        PendingModel {
            id: self.id@,
            message_id: self.message_id@,
            peer_id: self.peer_id@,
            attempt_count: self.attempt_count,
            next_attempt_at_ms: self.next_attempt_at_ms,
            state: self.state@,
        }
    }
}

impl Row for PendingItem {
    fn duplicate(&self) -> (copy: Self) {
        PendingItem {
            id: self.id.clone(),
            message_id: self.message_id.clone(),
            peer_id: self.peer_id.clone(),
            attempt_count: self.attempt_count,
            next_attempt_at_ms: self.next_attempt_at_ms,
            state: self.state.clone(),
        }
    }
}

/// A mailbox object handed to its recipient.
#[derive(Debug, Clone)]
pub struct SpooledObject {
    pub id: String,
    pub envelope_json: String,
}

/// What a [`SpooledObject`] holds.
pub struct SpooledObjectModel {
    pub id: Seq<char>,
    pub envelope_json: Seq<char>,
}

impl View for SpooledObject {
    type V = SpooledObjectModel;

    open spec fn view(&self) -> SpooledObjectModel {
        SpooledObjectModel {
            id: self.id@,
            envelope_json: self.envelope_json@,
        }
    }
}

impl Row for SpooledObject {
    fn duplicate(&self) -> (copy: Self) {
        SpooledObject {
            id: self.id.clone(),
            envelope_json: self.envelope_json.clone(),
        }
    }
}

/// The one profile of this device.
#[derive(Debug, Clone)]
pub struct ProfileRow {
    pub username: String,
    pub display_name: String,
    pub created_at_ms: i64,
}

/// What a [`ProfileRow`] holds.
pub struct ProfileModel {
    pub username: Seq<char>,
    pub display_name: Seq<char>,
    pub created_at_ms: i64,
}

impl View for ProfileRow {
    type V = ProfileModel;

    open spec fn view(&self) -> ProfileModel {
        ProfileModel {
            username: self.username@,
            display_name: self.display_name@,
            created_at_ms: self.created_at_ms,
        }
    }
}

impl Row for ProfileRow {
    fn duplicate(&self) -> (copy: Self) {
        ProfileRow {
            username: self.username.clone(),
            display_name: self.display_name.clone(),
            created_at_ms: self.created_at_ms,
        }
    }
}

/// One preference.
#[derive(Debug, Clone)]
pub struct SettingRow {
    pub key: String,
    pub value: String,
}

/// What a [`SettingRow`] holds.
pub struct SettingModel {
    pub key: Seq<char>,
    pub value: Seq<char>,
}

impl View for SettingRow {
    type V = SettingModel;

    open spec fn view(&self) -> SettingModel {
        SettingModel {
            key: self.key@,
            value: self.value@,
        }
    }
}

impl Row for SettingRow {
    fn duplicate(&self) -> (copy: Self) {
        SettingRow {
            key: self.key.clone(),
            value: self.value.clone(),
        }
    }
}

/// A contact with the time it was first stored.
#[derive(Debug, Clone)]
pub struct ContactRow {
    pub contact: Contact,
    pub created_at_ms: i64,
}

/// What a [`ContactRow`] holds.
pub struct ContactRowModel {
    pub contact: ContactModel,
    pub created_at_ms: i64,
}

impl View for ContactRow {
    type V = ContactRowModel;

    open spec fn view(&self) -> ContactRowModel {
        ContactRowModel {
            contact: self.contact@,
            created_at_ms: self.created_at_ms,
        }
    }
}

impl Row for ContactRow {
    fn duplicate(&self) -> (copy: Self) {
        ContactRow {
            contact: self.contact.duplicate(),
            created_at_ms: self.created_at_ms,
        }
    }
}

/// A friend request with the time it last changed.
#[derive(Debug, Clone)]
pub struct RequestRow {
    pub request: FriendRequest,
    pub updated_at_ms: i64,
}

/// What a [`RequestRow`] holds.
pub struct RequestRowModel {
    pub request: FriendRequestModel,
    pub updated_at_ms: i64,
}

impl View for RequestRow {
    type V = RequestRowModel;

    open spec fn view(&self) -> RequestRowModel {
        RequestRowModel {
            request: self.request@,
            updated_at_ms: self.updated_at_ms,
        }
    }
}

impl Row for RequestRow {
    fn duplicate(&self) -> (copy: Self) {
        RequestRow {
            request: self.request.duplicate(),
            updated_at_ms: self.updated_at_ms,
        }
    }
}

/// A conversation as stored; its members are rows of their own.
#[derive(Debug, Clone)]
pub struct ConversationRow {
    pub id: String,
    pub kind: String,
    pub name: String,
    pub created_at_ms: i64,
    pub updated_at_ms: i64,
    pub last_message_id: Option<String>,
    pub last_message_preview: Option<String>,
}

/// What a [`ConversationRow`] holds.
pub struct ConversationRowModel {
    pub id: Seq<char>,
    pub kind: Seq<char>,
    pub name: Seq<char>,
    pub created_at_ms: i64,
    pub updated_at_ms: i64,
    pub last_message_id: Option<Seq<char>>,
    pub last_message_preview: Option<Seq<char>>,
}

impl View for ConversationRow {
    type V = ConversationRowModel;

    open spec fn view(&self) -> ConversationRowModel {
        ConversationRowModel {
            id: self.id@,
            kind: self.kind@,
            name: self.name@,
            created_at_ms: self.created_at_ms,
            updated_at_ms: self.updated_at_ms,
            last_message_id: opt_text(self.last_message_id),
            last_message_preview: opt_text(self.last_message_preview),
        }
    }
}

impl Row for ConversationRow {
    fn duplicate(&self) -> (copy: Self) {
        ConversationRow {
            id: self.id.clone(),
            kind: self.kind.clone(),
            name: self.name.clone(),
            created_at_ms: self.created_at_ms,
            updated_at_ms: self.updated_at_ms,
            last_message_id: copy_opt_text(&self.last_message_id),
            last_message_preview: copy_opt_text(&self.last_message_preview),
        }
    }
}

/// One member of one conversation.
#[derive(Debug, Clone)]
pub struct MemberRow {
    pub conversation_id: String,
    pub username: String,
    pub added_at_ms: i64,
}

/// What a [`MemberRow`] holds.
pub struct MemberModel {
    pub conversation_id: Seq<char>,
    pub username: Seq<char>,
    pub added_at_ms: i64,
}

impl View for MemberRow {
    type V = MemberModel;

    open spec fn view(&self) -> MemberModel {
        MemberModel {
            conversation_id: self.conversation_id@,
            username: self.username@,
            added_at_ms: self.added_at_ms,
        }
    }
}

impl Row for MemberRow {
    fn duplicate(&self) -> (copy: Self) {
        MemberRow {
            conversation_id: self.conversation_id.clone(),
            username: self.username.clone(),
            added_at_ms: self.added_at_ms,
        }
    }
}

/// A stashed envelope with the times that bound its stay.
#[derive(Debug, Clone)]
pub struct StashRow {
    pub message_id: String,
    pub endpoint_id: String,
    pub envelope_json: String,
    pub received_at_ms: i64,
    pub expires_at_ms: i64,
}

/// What a [`StashRow`] holds.
pub struct StashModel {
    pub message_id: Seq<char>,
    pub endpoint_id: Seq<char>,
    pub envelope_json: Seq<char>,
    pub received_at_ms: i64,
    pub expires_at_ms: i64,
}

impl View for StashRow {
    type V = StashModel;

    open spec fn view(&self) -> StashModel {
        StashModel {
            message_id: self.message_id@,
            endpoint_id: self.endpoint_id@,
            envelope_json: self.envelope_json@,
            received_at_ms: self.received_at_ms,
            expires_at_ms: self.expires_at_ms,
        }
    }
}

impl Row for StashRow {
    fn duplicate(&self) -> (copy: Self) {
        StashRow {
            message_id: self.message_id.clone(),
            endpoint_id: self.endpoint_id.clone(),
            envelope_json: self.envelope_json.clone(),
            received_at_ms: self.received_at_ms,
            expires_at_ms: self.expires_at_ms,
        }
    }
}

/// How far a peer has synced a conversation.
#[derive(Debug, Clone)]
pub struct CursorRow {
    pub peer_id: String,
    pub conversation_id: String,
    pub last_sequence: i64,
    pub updated_at_ms: i64,
}

/// What a [`CursorRow`] holds.
pub struct CursorModel {
    pub peer_id: Seq<char>,
    pub conversation_id: Seq<char>,
    pub last_sequence: i64,
    pub updated_at_ms: i64,
}

impl View for CursorRow {
    type V = CursorModel;

    open spec fn view(&self) -> CursorModel {
        CursorModel {
            peer_id: self.peer_id@,
            conversation_id: self.conversation_id@,
            last_sequence: self.last_sequence,
            updated_at_ms: self.updated_at_ms,
        }
    }
}

impl Row for CursorRow {
    fn duplicate(&self) -> (copy: Self) {
        CursorRow {
            peer_id: self.peer_id.clone(),
            conversation_id: self.conversation_id.clone(),
            last_sequence: self.last_sequence,
            updated_at_ms: self.updated_at_ms,
        }
    }
}

/// How far a device has used up its numbers in a conversation: those of messages, or
/// those of control messages.
#[derive(Debug, Clone)]
pub struct NumberRow {
    pub conversation_id: String,
    pub device_id: String,
    pub control: bool,
    pub last_number: i64,
}

/// What a [`NumberRow`] holds.
pub struct NumberModel {
    pub conversation_id: Seq<char>,
    pub device_id: Seq<char>,
    pub control: bool,
    pub last_number: i64,
}

impl View for NumberRow {
    type V = NumberModel;

    open spec fn view(&self) -> NumberModel {
        NumberModel {
            conversation_id: self.conversation_id@,
            device_id: self.device_id@,
            control: self.control,
            last_number: self.last_number,
        }
    }
}

impl Row for NumberRow {
    fn duplicate(&self) -> (copy: Self) {
        NumberRow {
            conversation_id: self.conversation_id.clone(),
            device_id: self.device_id.clone(),
            control: self.control,
            last_number: self.last_number,
        }
    }
}

/// A group as stored.
#[derive(Debug, Clone)]
pub struct GroupRow {
    pub group_id: String,
    pub name: String,
    pub current_epoch: i64,
    pub created_at_ms: i64,
    pub updated_at_ms: i64,
}

/// What a [`GroupRow`] holds.
pub struct GroupModel {
    pub group_id: Seq<char>,
    pub name: Seq<char>,
    pub current_epoch: i64,
    pub created_at_ms: i64,
    pub updated_at_ms: i64,
}

impl View for GroupRow {
    type V = GroupModel;

    open spec fn view(&self) -> GroupModel {
        GroupModel {
            group_id: self.group_id@,
            name: self.name@,
            current_epoch: self.current_epoch,
            created_at_ms: self.created_at_ms,
            updated_at_ms: self.updated_at_ms,
        }
    }
}

impl Row for GroupRow {
    fn duplicate(&self) -> (copy: Self) {
        GroupRow {
            group_id: self.group_id.clone(),
            name: self.name.clone(),
            current_epoch: self.current_epoch,
            created_at_ms: self.created_at_ms,
            updated_at_ms: self.updated_at_ms,
        }
    }
}

/// An epoch key wrapped for one member, with the wrapper's public key and the member's
/// share of the epoch's numbers, if known.
#[derive(Debug, Clone)]
pub struct GroupKeyRow {
    pub group_id: String,
    pub epoch: i64,
    pub wrapped_for: String,
    pub wrapped_key: Vec<u8>,
    pub wrapper_x_pub: Option<Vec<u8>>,
    pub share: Option<u64>,
}

/// What a [`GroupKeyRow`] holds.
pub struct GroupKeyModel {
    pub group_id: Seq<char>,
    pub epoch: i64,
    pub wrapped_for: Seq<char>,
    pub wrapped_key: Seq<u8>,
    pub wrapper_x_pub: Option<Seq<u8>>,
    pub share: Option<u64>,
}

impl View for GroupKeyRow {
    type V = GroupKeyModel;

    open spec fn view(&self) -> GroupKeyModel {
        GroupKeyModel {
            group_id: self.group_id@,
            epoch: self.epoch,
            wrapped_for: self.wrapped_for@,
            wrapped_key: self.wrapped_key@,
            wrapper_x_pub: opt_bytes(self.wrapper_x_pub),
            share: self.share,
        }
    }
}

impl Row for GroupKeyRow {
    fn duplicate(&self) -> (copy: Self) {
        GroupKeyRow {
            group_id: self.group_id.clone(),
            epoch: self.epoch,
            wrapped_for: self.wrapped_for.clone(),
            wrapped_key: copy_bytes(self.wrapped_key.as_slice()),
            wrapper_x_pub: copy_opt_bytes(&self.wrapper_x_pub),
            share: self.share,
        }
    }
}

/// A file transfer with the offer that started it.
#[derive(Debug, Clone)]
pub struct FileRow {
    pub file: FileTransfer,
    pub offer_json: Option<String>,
}

/// What a [`FileRow`] holds.
pub struct FileRowModel {
    pub file: FileTransferModel,
    pub offer_json: Option<Seq<char>>,
}

impl View for FileRow {
    type V = FileRowModel;

    open spec fn view(&self) -> FileRowModel {
        FileRowModel {
            file: self.file@,
            offer_json: opt_text(self.offer_json),
        }
    }
}

impl Row for FileRow {
    fn duplicate(&self) -> (copy: Self) {
        FileRow {
            file: self.file.duplicate(),
            offer_json: copy_opt_text(&self.offer_json),
        }
    }
}

/// A spooled mailbox object.
#[derive(Debug, Clone)]
pub struct MailboxRow {
    pub id: String,
    pub recipient_username: String,
    pub envelope_json: String,
    pub created_at_ms: i64,
    pub expires_at_ms: i64,
    pub state: String,
}

/// What a [`MailboxRow`] holds.
pub struct MailboxModel {
    pub id: Seq<char>,
    pub recipient_username: Seq<char>,
    pub envelope_json: Seq<char>,
    pub created_at_ms: i64,
    pub expires_at_ms: i64,
    pub state: Seq<char>,
}

impl View for MailboxRow {
    type V = MailboxModel;

    open spec fn view(&self) -> MailboxModel {
        MailboxModel {
            id: self.id@,
            recipient_username: self.recipient_username@,
            envelope_json: self.envelope_json@,
            created_at_ms: self.created_at_ms,
            expires_at_ms: self.expires_at_ms,
            state: self.state@,
        }
    }
}

impl Row for MailboxRow {
    fn duplicate(&self) -> (copy: Self) {
        MailboxRow {
            id: self.id.clone(),
            recipient_username: self.recipient_username.clone(),
            envelope_json: self.envelope_json.clone(),
            created_at_ms: self.created_at_ms,
            expires_at_ms: self.expires_at_ms,
            state: self.state.clone(),
        }
    }
}

} // verus!
