//! What an envelope carries once it is decrypted.

use vstd::prelude::*;

use crate::crypto::ChunkManifest;
use crate::protocol::MessageType;
use crate::table::Row;
use crate::text::{
    copy_bytes, copy_opt_text, copy_texts, lowered, opt_text, text_eq, texts, to_lower, trim,
    trimmed,
};

verus! {

/// Presence of a person. `Offline` is never sent: it is what remains when there
/// is no transport or no fresh heartbeat.
#[derive(Debug, Clone, Copy, PartialEq, Eq, Structural)]
pub enum PresenceStatus {
    Online,
    Away,
    Dnd,
    Offline,
}

/// The word shown for a presence.
pub open spec fn presence_label(status: PresenceStatus) -> Seq<char> {
    match status {
        PresenceStatus::Online => "online"@,
        PresenceStatus::Away => "away"@,
        PresenceStatus::Dnd => "do not disturb"@,
        PresenceStatus::Offline => "offline"@,
    }
}

/// The presence that a user's words choose; white space around them and the case
/// of ASCII letters do not matter. `Offline` cannot be chosen.
pub open spec fn presence_chosen(raw: Seq<char>) -> Option<PresenceStatus> {
    let word = lowered(trimmed(raw));
    if word == "online"@ {
        Some(PresenceStatus::Online)
    } else if word == "away"@ {
        Some(PresenceStatus::Away)
    } else if word == "dnd"@ || word == "do not disturb"@ || word == "disturb"@ {
        Some(PresenceStatus::Dnd)
    } else {
        None
    }
}

impl PresenceStatus {
    pub fn label(self) -> (label: &'static str)
        ensures
            label@ == presence_label(self),
    {
        match self {
            PresenceStatus::Online => "online",
            PresenceStatus::Away => "away",
            PresenceStatus::Dnd => "do not disturb",
            PresenceStatus::Offline => "offline",
        }
    }

    pub fn parse(raw: &str) -> (status: Option<PresenceStatus>)
        ensures
            status == presence_chosen(raw@),
    {
        let word = to_lower(trim(raw).as_str());
        let w = word.as_str();
        if text_eq(w, "online") {
            Some(PresenceStatus::Online)
        } else if text_eq(w, "away") {
            Some(PresenceStatus::Away)
        } else if text_eq(w, "dnd") || text_eq(w, "do not disturb") || text_eq(w, "disturb") {
            Some(PresenceStatus::Dnd)
        } else {
            None
        }
    }
}

/// A file that can be fetched: what it is, the digests of its chunks and the key
/// that they are sealed with.
#[derive(Debug, Clone, PartialEq)]
pub struct FileOfferBody {
    pub file_id: String,
    pub filename: String,
    pub mime_type: String,
    pub size_bytes: u64,
    pub sha256_hex: String,
    pub manifest: ChunkManifest,
    pub file_key: [u8; 32],
}

/// What a [`FileOfferBody`] holds.
pub struct FileOfferModel {
    pub file_id: Seq<char>,
    pub filename: Seq<char>,
    pub mime_type: Seq<char>,
    pub size_bytes: u64,
    pub sha256_hex: Seq<char>,
    pub chunk_bytes: u32,
    pub chunk_hashes: Seq<Seq<char>>,
    pub total_bytes: u64,
    pub file_key: Seq<u8>,
}

impl View for FileOfferBody {
    type V = FileOfferModel;

    open spec fn view(&self) -> FileOfferModel {
        FileOfferModel {
            file_id: self.file_id@,
            filename: self.filename@,
            mime_type: self.mime_type@,
            size_bytes: self.size_bytes,
            sha256_hex: self.sha256_hex@,
            chunk_bytes: self.manifest.chunk_bytes,
            chunk_hashes: texts(self.manifest.chunk_hashes@),
            total_bytes: self.manifest.total_bytes,
            file_key: self.file_key@,
        }
    }
}

impl Row for FileOfferBody {
    fn duplicate(&self) -> (copy: Self) {
        FileOfferBody {
            file_id: self.file_id.clone(),
            filename: self.filename.clone(),
            mime_type: self.mime_type.clone(),
            size_bytes: self.size_bytes,
            sha256_hex: self.sha256_hex.clone(),
            manifest: ChunkManifest {
                chunk_bytes: self.manifest.chunk_bytes,
                chunk_hashes: copy_texts(&self.manifest.chunk_hashes),
                total_bytes: self.manifest.total_bytes,
            },
            file_key: self.file_key,
        }
    }
}

fn copy_indices(list: &Vec<u32>) -> (out: Vec<u32>)
    ensures
        out@ == list@,
{
    vstd::slice::slice_to_vec(list.as_slice())
}

/// The plaintext of an envelope. It is always sealed, with a direct or a group
/// key, before it becomes ciphertext.
#[derive(Debug, Clone, PartialEq)]
pub enum ChatPayload {
    /// A message.
    Text { from: String, body: String, reply_to: Option<String>, epoch: Option<i64> },
    /// A new body for an earlier message.
    Edit { from: String, ref_id: String, body: String, epoch: Option<i64> },
    /// Takes an earlier message back.
    Delete { from: String, ref_id: String, epoch: Option<i64> },
    /// Messages that were read.
    Read { from: String, ref_ids: Vec<String> },
    /// Someone started or stopped typing.
    Typing { from: String, typing: bool },
    /// One member's wrapped key for an epoch of a group.
    GroupKey { from: String, group_id: String, epoch: i64, members: Vec<String>, group_name: String, wrapped_key: Vec<u8>, wrapper_x_pub_hex: String },
    /// A new name for a group.
    GroupMeta { from: String, group_id: String, name: String, epoch: Option<i64> },
    /// A file that can be fetched.
    FileOffer { from: String, file: FileOfferBody },
    /// One sealed chunk of a file.
    FileChunk { from: String, file_id: String, index: u32, data: Vec<u8> },
    /// Which chunks of a file are already here.
    FileAccept { from: String, file_id: String, have: Vec<u32> },
    /// A file is no longer wanted or offered.
    FileCancel { from: String, file_id: String },
    /// Asks for the messages after a number.
    SyncRequest { from: String, conversation_id: String, after_sequence: i64 },
    /// Asks to become friends.
    FriendAsk { from: String, display_name: String, ed_pubkey_hex: String, x_pubkey_hex: String, endpoint_bundle: String },
    /// Answers a friend ask.
    FriendAnswer { from: String, accepted: bool, endpoint_bundle: String },
    /// A presence heartbeat.
    Presence { from: String, status: PresenceStatus },
}

/// What a [`ChatPayload`] holds.
pub enum PayloadModel {
    Text { from: Seq<char>, body: Seq<char>, reply_to: Option<Seq<char>>, epoch: Option<i64> },
    Edit { from: Seq<char>, ref_id: Seq<char>, body: Seq<char>, epoch: Option<i64> },
    Delete { from: Seq<char>, ref_id: Seq<char>, epoch: Option<i64> },
    Read { from: Seq<char>, ref_ids: Seq<Seq<char>> },
    Typing { from: Seq<char>, typing: bool },
    GroupKey { from: Seq<char>, group_id: Seq<char>, epoch: i64, members: Seq<Seq<char>>, group_name: Seq<char>, wrapped_key: Seq<u8>, wrapper_x_pub_hex: Seq<char> },
    GroupMeta { from: Seq<char>, group_id: Seq<char>, name: Seq<char>, epoch: Option<i64> },
    FileOffer { from: Seq<char>, file: FileOfferModel },
    FileChunk { from: Seq<char>, file_id: Seq<char>, index: u32, data: Seq<u8> },
    FileAccept { from: Seq<char>, file_id: Seq<char>, have: Seq<u32> },
    FileCancel { from: Seq<char>, file_id: Seq<char> },
    SyncRequest { from: Seq<char>, conversation_id: Seq<char>, after_sequence: i64 },
    FriendAsk { from: Seq<char>, display_name: Seq<char>, ed_pubkey_hex: Seq<char>, x_pubkey_hex: Seq<char>, endpoint_bundle: Seq<char> },
    FriendAnswer { from: Seq<char>, accepted: bool, endpoint_bundle: Seq<char> },
    Presence { from: Seq<char>, status: PresenceStatus },
}

impl View for ChatPayload {
    type V = PayloadModel;

    open spec fn view(&self) -> PayloadModel {
        match *self {
            ChatPayload::Text { from, body, reply_to, epoch } => PayloadModel::Text {
                from: from@,
                body: body@,
                reply_to: opt_text(reply_to),
                epoch,
            },
            ChatPayload::Edit { from, ref_id, body, epoch } => PayloadModel::Edit {
                from: from@,
                ref_id: ref_id@,
                body: body@,
                epoch,
            },
            ChatPayload::Delete { from, ref_id, epoch } => PayloadModel::Delete {
                from: from@,
                ref_id: ref_id@,
                epoch,
            },
            ChatPayload::Read { from, ref_ids } => PayloadModel::Read {
                from: from@,
                ref_ids: texts(ref_ids@),
            },
            ChatPayload::Typing { from, typing } => PayloadModel::Typing {
                from: from@,
                typing,
            },
            ChatPayload::GroupKey { from, group_id, epoch, members, group_name, wrapped_key, wrapper_x_pub_hex } => PayloadModel::GroupKey {
                from: from@,
                group_id: group_id@,
                epoch,
                members: texts(members@),
                group_name: group_name@,
                wrapped_key: wrapped_key@,
                wrapper_x_pub_hex: wrapper_x_pub_hex@,
            },
            ChatPayload::GroupMeta { from, group_id, name, epoch } => PayloadModel::GroupMeta {
                from: from@,
                group_id: group_id@,
                name: name@,
                epoch,
            },
            ChatPayload::FileOffer { from, file } => PayloadModel::FileOffer {
                from: from@,
                file: file@,
            },
            ChatPayload::FileChunk { from, file_id, index, data } => PayloadModel::FileChunk {
                from: from@,
                file_id: file_id@,
                index,
                data: data@,
            },
            ChatPayload::FileAccept { from, file_id, have } => PayloadModel::FileAccept {
                from: from@,
                file_id: file_id@,
                have: have@,
            },
            ChatPayload::FileCancel { from, file_id } => PayloadModel::FileCancel {
                from: from@,
                file_id: file_id@,
            },
            ChatPayload::SyncRequest { from, conversation_id, after_sequence } => PayloadModel::SyncRequest {
                from: from@,
                conversation_id: conversation_id@,
                after_sequence,
            },
            ChatPayload::FriendAsk { from, display_name, ed_pubkey_hex, x_pubkey_hex, endpoint_bundle } => PayloadModel::FriendAsk {
                from: from@,
                display_name: display_name@,
                ed_pubkey_hex: ed_pubkey_hex@,
                x_pubkey_hex: x_pubkey_hex@,
                endpoint_bundle: endpoint_bundle@,
            },
            ChatPayload::FriendAnswer { from, accepted, endpoint_bundle } => PayloadModel::FriendAnswer {
                from: from@,
                accepted,
                endpoint_bundle: endpoint_bundle@,
            },
            ChatPayload::Presence { from, status } => PayloadModel::Presence {
                from: from@,
                status,
            },
        }
    }
}

impl Row for ChatPayload {
    fn duplicate(&self) -> (copy: Self) {
        match self {
            ChatPayload::Text { from, body, reply_to, epoch } => ChatPayload::Text {
                from: from.clone(),
                body: body.clone(),
                reply_to: copy_opt_text(reply_to),
                epoch: *epoch,
            },
            ChatPayload::Edit { from, ref_id, body, epoch } => ChatPayload::Edit {
                from: from.clone(),
                ref_id: ref_id.clone(),
                body: body.clone(),
                epoch: *epoch,
            },
            ChatPayload::Delete { from, ref_id, epoch } => ChatPayload::Delete {
                from: from.clone(),
                ref_id: ref_id.clone(),
                epoch: *epoch,
            },
            ChatPayload::Read { from, ref_ids } => ChatPayload::Read {
                from: from.clone(),
                ref_ids: copy_texts(ref_ids),
            },
            ChatPayload::Typing { from, typing } => ChatPayload::Typing {
                from: from.clone(),
                typing: *typing,
            },
            ChatPayload::GroupKey { from, group_id, epoch, members, group_name, wrapped_key, wrapper_x_pub_hex } => ChatPayload::GroupKey {
                from: from.clone(),
                group_id: group_id.clone(),
                epoch: *epoch,
                members: copy_texts(members),
                group_name: group_name.clone(),
                wrapped_key: copy_bytes(wrapped_key.as_slice()),
                wrapper_x_pub_hex: wrapper_x_pub_hex.clone(),
            },
            ChatPayload::GroupMeta { from, group_id, name, epoch } => ChatPayload::GroupMeta {
                from: from.clone(),
                group_id: group_id.clone(),
                name: name.clone(),
                epoch: *epoch,
            },
            ChatPayload::FileOffer { from, file } => ChatPayload::FileOffer {
                from: from.clone(),
                file: file.duplicate(),
            },
            ChatPayload::FileChunk { from, file_id, index, data } => ChatPayload::FileChunk {
                from: from.clone(),
                file_id: file_id.clone(),
                index: *index,
                data: copy_bytes(data.as_slice()),
            },
            ChatPayload::FileAccept { from, file_id, have } => ChatPayload::FileAccept {
                from: from.clone(),
                file_id: file_id.clone(),
                have: copy_indices(have),
            },
            ChatPayload::FileCancel { from, file_id } => ChatPayload::FileCancel {
                from: from.clone(),
                file_id: file_id.clone(),
            },
            ChatPayload::SyncRequest { from, conversation_id, after_sequence } => ChatPayload::SyncRequest {
                from: from.clone(),
                conversation_id: conversation_id.clone(),
                after_sequence: *after_sequence,
            },
            ChatPayload::FriendAsk { from, display_name, ed_pubkey_hex, x_pubkey_hex, endpoint_bundle } => ChatPayload::FriendAsk {
                from: from.clone(),
                display_name: display_name.clone(),
                ed_pubkey_hex: ed_pubkey_hex.clone(),
                x_pubkey_hex: x_pubkey_hex.clone(),
                endpoint_bundle: endpoint_bundle.clone(),
            },
            ChatPayload::FriendAnswer { from, accepted, endpoint_bundle } => ChatPayload::FriendAnswer {
                from: from.clone(),
                accepted: *accepted,
                endpoint_bundle: endpoint_bundle.clone(),
            },
            ChatPayload::Presence { from, status } => ChatPayload::Presence {
                from: from.clone(),
                status: *status,
            },
        }
    }
}

impl PayloadModel {
    /// Who sent it.
    pub open spec fn sender(self) -> Seq<char> {
        match self {
            PayloadModel::Text { from, .. } => from,
            PayloadModel::Edit { from, .. } => from,
            PayloadModel::Delete { from, .. } => from,
            PayloadModel::Read { from, .. } => from,
            PayloadModel::Typing { from, .. } => from,
            PayloadModel::GroupKey { from, .. } => from,
            PayloadModel::GroupMeta { from, .. } => from,
            PayloadModel::FileOffer { from, .. } => from,
            PayloadModel::FileChunk { from, .. } => from,
            PayloadModel::FileAccept { from, .. } => from,
            PayloadModel::FileCancel { from, .. } => from,
            PayloadModel::SyncRequest { from, .. } => from,
            PayloadModel::FriendAsk { from, .. } => from,
            PayloadModel::FriendAnswer { from, .. } => from,
            PayloadModel::Presence { from, .. } => from,
        }
    }

    /// The epoch that a group payload names.
    pub open spec fn epoch(self) -> Option<i64> {
        match self {
            PayloadModel::Text { epoch, .. } => epoch,
            PayloadModel::Edit { epoch, .. } => epoch,
            PayloadModel::Delete { epoch, .. } => epoch,
            PayloadModel::GroupMeta { epoch, .. } => epoch,
            _ => None,
        }
    }

    /// The message that a text answers.
    pub open spec fn reply_to(self) -> Option<Seq<char>> {
        match self {
            PayloadModel::Text { reply_to, .. } => reply_to,
            _ => None,
        }
    }

    /// The type of envelope that carries it.
    pub open spec fn message_type(self) -> MessageType {
        match self {
            PayloadModel::Text { .. } => MessageType::Message,
            PayloadModel::Edit { .. } => MessageType::MessageEdit,
            PayloadModel::Delete { .. } => MessageType::MessageDelete,
            PayloadModel::Read { .. } => MessageType::ReadAck,
            PayloadModel::Typing { .. } => MessageType::Typing,
            PayloadModel::GroupKey { .. } => MessageType::GroupCommit,
            PayloadModel::GroupMeta { .. } => MessageType::GroupMessage,
            PayloadModel::FileOffer { .. } => MessageType::FileOffer,
            PayloadModel::FileChunk { .. } => MessageType::FileChunk,
            PayloadModel::FileAccept { .. } => MessageType::FileAccept,
            PayloadModel::FileCancel { .. } => MessageType::FileComplete,
            PayloadModel::SyncRequest { .. } => MessageType::SyncRequest,
            PayloadModel::FriendAsk { .. } => MessageType::FriendRequest,
            PayloadModel::FriendAnswer { .. } => MessageType::FriendResponse,
            PayloadModel::Presence { .. } => MessageType::Presence,
        }
    }
}

impl ChatPayload {
    /// The epoch that a group payload names; `None` on direct messages.
    pub fn epoch(&self) -> (epoch: Option<i64>)
        ensures
            epoch == self@.epoch(),
    {
        match self {
            ChatPayload::Text { epoch, .. } => *epoch,
            ChatPayload::Edit { epoch, .. } => *epoch,
            ChatPayload::Delete { epoch, .. } => *epoch,
            ChatPayload::GroupMeta { epoch, .. } => *epoch,
            _ => None,
        }
    }

    /// Who sent it.
    pub fn sender(&self) -> (from: &str)
        ensures
            from@ == self@.sender(),
    {
        match self {
            ChatPayload::Text { from, .. } => from.as_str(),
            ChatPayload::Edit { from, .. } => from.as_str(),
            ChatPayload::Delete { from, .. } => from.as_str(),
            ChatPayload::Read { from, .. } => from.as_str(),
            ChatPayload::Typing { from, .. } => from.as_str(),
            ChatPayload::GroupKey { from, .. } => from.as_str(),
            ChatPayload::GroupMeta { from, .. } => from.as_str(),
            ChatPayload::FileOffer { from, .. } => from.as_str(),
            ChatPayload::FileChunk { from, .. } => from.as_str(),
            ChatPayload::FileAccept { from, .. } => from.as_str(),
            ChatPayload::FileCancel { from, .. } => from.as_str(),
            ChatPayload::SyncRequest { from, .. } => from.as_str(),
            ChatPayload::FriendAsk { from, .. } => from.as_str(),
            ChatPayload::FriendAnswer { from, .. } => from.as_str(),
            ChatPayload::Presence { from, .. } => from.as_str(),
        }
    }

    /// The message that a text answers.
    pub fn reply_to(&self) -> (reply: Option<String>)
        ensures
            opt_text(reply) == self@.reply_to(),
    {
        match self {
            ChatPayload::Text { reply_to, .. } => copy_opt_text(reply_to),
            _ => None,
        }
    }

    /// The type of envelope that carries it.
    pub fn message_type(&self) -> (t: MessageType)
        ensures
            t == self@.message_type(),
    {
        match self {
            ChatPayload::Text { .. } => MessageType::Message,
            ChatPayload::Edit { .. } => MessageType::MessageEdit,
            ChatPayload::Delete { .. } => MessageType::MessageDelete,
            ChatPayload::Read { .. } => MessageType::ReadAck,
            ChatPayload::Typing { .. } => MessageType::Typing,
            ChatPayload::GroupKey { .. } => MessageType::GroupCommit,
            ChatPayload::GroupMeta { .. } => MessageType::GroupMessage,
            ChatPayload::FileOffer { .. } => MessageType::FileOffer,
            ChatPayload::FileChunk { .. } => MessageType::FileChunk,
            ChatPayload::FileAccept { .. } => MessageType::FileAccept,
            ChatPayload::FileCancel { .. } => MessageType::FileComplete,
            ChatPayload::SyncRequest { .. } => MessageType::SyncRequest,
            ChatPayload::FriendAsk { .. } => MessageType::FriendRequest,
            ChatPayload::FriendAnswer { .. } => MessageType::FriendResponse,
            ChatPayload::Presence { .. } => MessageType::Presence,
        }
    }
}

} // verus!
