//! What the operations are for, said of the rows and fields that they leave behind.
//!
//! Each law speaks of what can be seen before and after: which rows there are, what stands
//! in them, what is handed back.

use vstd::prelude::*;

use crate::database::DbModel;
use crate::records::MessageModel;

pub mod catch_up;
pub mod delivery;
pub mod files;
pub mod friends;
pub mod groups;
pub mod lists;
pub mod messages;
pub mod names;
pub mod presence;
pub mod routing;
pub mod sending;
pub mod shell;
pub mod store;
pub mod transport;
pub mod wire;

verus! {

/// Someone belongs to a conversation.
pub open spec fn belongs(db: DbModel, conversation: Seq<char>, user: Seq<char>) -> bool {
    exists|i: int|
        0 <= i < db.members.len() && (#[trigger] db.members[i]).conversation_id == conversation
            && db.members[i].username == user
}

/// A conversation of this kind is stored.
pub open spec fn stored_as(db: DbModel, conversation: Seq<char>, kind: Seq<char>) -> bool {
    exists|i: int|
        0 <= i < db.conversations.len() && (#[trigger] db.conversations[i]).id == conversation
            && db.conversations[i].kind == kind
}

/// A conversation with this id is stored.
pub open spec fn stored(db: DbModel, conversation: Seq<char>) -> bool {
    exists|i: int|
        0 <= i < db.conversations.len() && (#[trigger] db.conversations[i]).id == conversation
}

/// No stored message has this id, nor this place among the messages of its device.
pub open spec fn is_new(
    db: DbModel,
    id: Seq<char>,
    conversation: Seq<char>,
    device: Seq<char>,
    number: i64,
) -> bool {
    forall|i: int|
        0 <= i < db.messages.len() ==> (#[trigger] db.messages[i]).id != id && !(
        db.messages[i].conversation_id == conversation && db.messages[i].sender_device_id == device
            && db.messages[i].sequence == number)
}

/// The first eighty characters of a text, or all of a shorter one.
pub open spec fn cut_at_80(text: Seq<char>) -> Seq<char> {
    if text.len() > 80 {
        text.subrange(0, 80)
    } else {
        text
    }
}

/// The same but for the body, the ciphertext and the time of the last edit.
pub open spec fn revised(
    before: MessageModel,
    after: MessageModel,
    body: Seq<char>,
    ciphertext: Seq<u8>,
    now_ms: i64,
) -> bool {
    &&& after.body == body
    &&& after.ciphertext == ciphertext
    &&& after.edited_at_ms == Some(now_ms)
    &&& after.id == before.id
    &&& after.conversation_id == before.conversation_id
    &&& after.sender_device_id == before.sender_device_id
    &&& after.sender_username == before.sender_username
    &&& after.message_type == before.message_type
    &&& after.sequence == before.sequence
    &&& after.status == before.status
    &&& after.reply_to == before.reply_to
    &&& after.created_at_ms == before.created_at_ms
    &&& after.deleted_at_ms == before.deleted_at_ms
}

/// The same but for the body, which is gone, and the time of the deletion.
pub open spec fn erased(before: MessageModel, after: MessageModel, now_ms: i64) -> bool {
    &&& after.body.len() == 0
    &&& after.deleted_at_ms == Some(now_ms)
    &&& after.id == before.id
    &&& after.conversation_id == before.conversation_id
    &&& after.sender_device_id == before.sender_device_id
    &&& after.sender_username == before.sender_username
    &&& after.message_type == before.message_type
    &&& after.ciphertext == before.ciphertext
    &&& after.sequence == before.sequence
    &&& after.status == before.status
    &&& after.reply_to == before.reply_to
    &&& after.created_at_ms == before.created_at_ms
    &&& after.edited_at_ms == before.edited_at_ms
}

/// The same but for the status.
pub open spec fn restated(before: MessageModel, after: MessageModel, status: Seq<char>) -> bool {
    &&& after.status == status
    &&& after.id == before.id
    &&& after.conversation_id == before.conversation_id
    &&& after.sender_device_id == before.sender_device_id
    &&& after.sender_username == before.sender_username
    &&& after.message_type == before.message_type
    &&& after.body == before.body
    &&& after.ciphertext == before.ciphertext
    &&& after.sequence == before.sequence
    &&& after.reply_to == before.reply_to
    &&& after.created_at_ms == before.created_at_ms
    &&& after.edited_at_ms == before.edited_at_ms
    &&& after.deleted_at_ms == before.deleted_at_ms
}

/// Every table but those of messages, conversations and counters is as it was.
pub open spec fn only_messages_changed(before: DbModel, after: DbModel) -> bool {
    &&& after.profile == before.profile
    &&& after.settings == before.settings
    &&& after.devices == before.devices
    &&& after.contacts == before.contacts
    &&& after.requests == before.requests
    &&& after.members == before.members
    &&& after.pending == before.pending
    &&& after.handshakes == before.handshakes
    &&& after.stash == before.stash
    &&& after.groups == before.groups
    &&& after.group_keys == before.group_keys
    &&& after.files == before.files
    &&& after.mailbox == before.mailbox
}

} // verus!
