//! What can go wrong, with the words shown to the user.

use vstd::prelude::*;
use vstd::string::*;

use crate::protocol::EnvelopeError;
use crate::text::{decimal, decimal_text};

verus! {

/// The reasons for which an operation is refused.
#[derive(Debug, Clone, Copy, PartialEq, Eq, Structural)]
pub enum Error {
    /// A row would break the schema: it refers to nothing, or its key is taken.
    Constraint,
    /// A device has used up the message numbers of a conversation.
    SequenceExhausted,
    /// A hex text is not 64 bytes long.
    HexLength,
    /// A hex text holds something else than digits.
    BadHex,
    /// A base64 text holds a character outside the alphabet.
    BadBase64,
    /// The context of a direct message is longer than its length field can say.
    DmContextTooLong,
    /// A sealed direct message is shorter than its nonce.
    DmTooShort,
    /// A direct message does not open: wrong key, or tampered with.
    DmOpenFailed,
    /// A decrypted frame is shorter than its length field.
    DmFrameTooShort,
    /// A decrypted frame is shorter than its context.
    DmFrameTruncated,
    /// A direct message was sealed for another context.
    DmContextMismatch,
    /// A wrapped group key does not open.
    GroupKeyUnwrap,
    /// What was wrapped is not a group key.
    GroupKeyLength,
    /// A sealed group message is shorter than its nonce and tag.
    GroupTooShort,
    /// A group message is not the one that was expected.
    GroupSequenceMismatch,
    /// A group message is too long to encrypt.
    GroupSealFailed,
    /// A group message does not open: wrong key, or tampered with.
    GroupOpenFailed,
    /// The length prefix of a frame does not tell the length of its body.
    FrameLength,
    /// The body of a frame is no envelope.
    FrameBody,
    /// An envelope is not acceptable.
    Envelope(EnvelopeError),
    /// A username is too short, too long or holds other characters.
    UsernameShape,
    /// A username that nobody can have.
    UsernameReserved,
    /// A display name is empty or too long.
    DisplayNameLength,
    /// A stored identity has the wrong length.
    IdentityLength,
    /// The file that keeps the identity cannot be read.
    KeyFileUnreadable,
    /// A signing key is no point of the curve.
    BadSigningKey,
    /// A signature does not fit its message and key.
    BadSignature,
    /// An envelope carries no signature.
    MissingSignature,
    /// What came in a presence heartbeat is not one.
    NotPresence,
    /// A text is no invite code.
    NotAnInvite,
    /// The username of an invite is too short.
    InviteUsername,
    /// The person is not known yet; their invite comes first.
    UnknownContact,
    /// The person is blocked.
    UserBlocked,
    /// The contact has no encryption key.
    NoContactKey,
    /// The encryption key of a contact is not 32 bytes long.
    ContactKeyLength,
    /// A payload is no friend ask.
    NotAFriendAsk,
    /// The person is a friend or blocked already.
    AlreadyDecided,
    /// An ask brings other keys than the ones that are known.
    FriendKeyMismatch,
    /// There is no open request with this id.
    RequestNotFound,
    /// Only a request that came in can be accepted.
    NotIncoming,
    /// The contact of a request is gone.
    ContactVanished,
    /// The person is not among the friends.
    NotAFriend,
    /// The person is not in the list.
    NotInList,
    /// The listed member with this place is not a friend yet.
    MemberNotFriend(usize),
    /// There is no encryption key for the listed member with this place.
    MemberKeyMissing(usize),
    /// The name of a group is empty or too long.
    GroupNameLength,
    /// A group needs at least one other member.
    GroupEmpty,
    /// There is no such group.
    UnknownGroup,
    /// A group has used up its epochs.
    EpochExhausted,
    /// A payload is no group key.
    NotAGroupKey,
    /// A group has more members than there are shares of an epoch's numbers.
    ShareExhausted,
    /// There is no key for this epoch.
    NoEpochKey,
    /// The public key of whoever wrapped an epoch key is not 32 bytes long.
    BadWrapperKey,
    /// Nobody removes themselves from a group; they leave it.
    RemovesSelf,
    /// A file is larger than can be sent.
    FileTooLarge,
    /// A file name is empty or too long.
    BadFilename,
    /// The file has no such chunk.
    ChunkIndex,
    /// A chunk does not open.
    ChunkAuthentication,
    /// The chunk with this index has another digest than was offered.
    ChunkDigest(u32),
    /// An assembled file has another digest than was offered.
    FileDigest,
    /// There is no server through which a friend request could reach this person.
    NoSharedServer,
    /// There is no mailbox that this person shares.
    NoSharedMailbox,
    /// The coordinator answered with this status.
    CoordinatorStatus(u16),
    /// An acknowledgement is of another message.
    AckOfOther,
    /// An acknowledgement is shorter than its length field.
    AckTooShort,
    /// The length field of an acknowledgement does not tell its length.
    AckLength,
    /// A text is no endpoint bundle.
    BadBundle,
    /// An envelope is no friend ask or answer.
    NotAHandshake,
    /// An envelope is signed by nobody who is known.
    UnknownSender,
    /// There is no such conversation.
    UnknownConversation,
    /// The sender is not the peer of the direct conversation.
    NotThePeer,
    /// The sender is not a member of the group.
    NotAMember,
    /// A payload names another sender than the one who signed it.
    SenderMismatch,
    /// What was opened is no payload.
    BadPayload,
    /// A chunk came for a file that was never offered.
    NoOffer,
    /// A file is asked for that is not known.
    UnknownFile,
    /// There is no local profile yet.
    NoProfile,
    /// The source of a file is shorter than its offer says.
    SourceTooShort,
    /// A message is empty or too long.
    MessageLength,
    /// A direct conversation has no peer.
    NoPeer,
    /// There is no such message.
    MessageNotFound,
    /// The message was written by someone else.
    NotYourMessage,
    /// A search text is too short or too long.
    SearchLength,
    /// There is no address for the person yet.
    NoAddress,
    /// There is no such coordinator.
    UnknownCoordinator,
    /// The cloud coordinator needs an address.
    NoWorkerUrl,
}

/// The words for a reason.
pub open spec fn error_text(e: Error) -> Seq<char> {
    match e {
        Error::Constraint => "a row would break the schema"@,
        Error::SequenceExhausted => "no message numbers left in this conversation"@,
        Error::HexLength => "expected 32-byte hex"@,
        Error::BadHex => "bad hex"@,
        Error::BadBase64 => "bad base64url char"@,
        Error::DmContextTooLong => "dm context too long"@,
        Error::DmTooShort => "dm box too short"@,
        Error::DmOpenFailed => "dm open failed (wrong key or tampered)"@,
        Error::DmFrameTooShort => "dm frame too short"@,
        Error::DmFrameTruncated => "dm frame truncated"@,
        Error::DmContextMismatch => "dm context mismatch (possible cross-conversation replay)"@,
        Error::GroupKeyUnwrap => "unwrap group key"@,
        Error::GroupKeyLength => "group key has wrong length"@,
        Error::GroupTooShort => "group box too short"@,
        Error::GroupSequenceMismatch => "group message sequence mismatch (possible replay)"@,
        Error::GroupSealFailed => "group seal failed"@,
        Error::GroupOpenFailed => "group open failed (wrong key or tampered)"@,
        Error::FrameLength => "frame length prefix does not match body"@,
        Error::FrameBody => "frame body is no envelope"@,
        Error::Envelope(why) => envelope_text(why),
        Error::UsernameShape => "Username must be 3–32 lowercase letters, numbers, or underscores."@,
        Error::UsernameReserved => "That username is reserved."@,
        Error::DisplayNameLength => "Display name must be between 1 and 64 characters."@,
        Error::IdentityLength => "device secret has wrong length"@,
        Error::KeyFileUnreadable => "key file read failed"@,
        Error::BadSigningKey => "bad ed25519 pubkey"@,
        Error::BadSignature => "bad signature"@,
        Error::MissingSignature => "missing envelope signature"@,
        Error::NotPresence => "not a presence payload"@,
        Error::NotAnInvite => "not a hearth invite code"@,
        Error::InviteUsername => "invite has a bad username"@,
        Error::UnknownContact => "unknown contact — import their invite first"@,
        Error::UserBlocked => "that user is blocked"@,
        Error::NoContactKey => "no encryption key for this contact"@,
        Error::ContactKeyLength => "contact key has wrong length"@,
        Error::NotAFriendAsk => "not a friend ask"@,
        Error::AlreadyDecided => "already decided for this user"@,
        Error::FriendKeyMismatch => "the keys are not the ones known for this user"@,
        Error::RequestNotFound => "request not found"@,
        Error::NotIncoming => "only incoming requests can be accepted"@,
        Error::ContactVanished => "contact vanished"@,
        Error::NotAFriend => "not in your friends"@,
        Error::NotInList => "not in your list"@,
        Error::MemberNotFriend(_) => "a listed member is not a friend yet"@,
        Error::MemberKeyMissing(_) => "no encryption key for a listed member"@,
        Error::GroupNameLength => "Group name must be 1–64 characters."@,
        Error::GroupEmpty => "A group needs at least one other member."@,
        Error::UnknownGroup => "unknown group"@,
        Error::EpochExhausted => "no epochs left in this group"@,
        Error::NotAGroupKey => "not a group key"@,
        Error::NoEpochKey => "no key for this epoch"@,
        Error::ShareExhausted => "this group has too many members"@,
        Error::BadWrapperKey => "bad wrapper key"@,
        Error::RemovesSelf => "use leave instead of removing yourself"@,
        Error::FileTooLarge => "file exceeds the 25 MB V1 limit"@,
        Error::BadFilename => "bad filename"@,
        Error::ChunkIndex => "chunk index out of range"@,
        Error::ChunkAuthentication => "chunk failed authentication"@,
        Error::ChunkDigest(index) => "chunk "@ + decimal(index as nat) + " hash mismatch"@,
        Error::FileDigest => "assembled file failed integrity check"@,
        Error::NoSharedServer => "local coordinator has no shared server: deliver the invite code directly (friend request saved locally only)"@,
        Error::NoSharedMailbox => "recipient is offline and no shared mailbox is configured; message stays queued"@,
        Error::CoordinatorStatus(status) => "coordinator answered "@ + decimal(status as nat),
        Error::AckOfOther => "ack referenced wrong message"@,
        Error::AckTooShort => "ack frame too short"@,
        Error::AckLength => "ack length mismatch"@,
        Error::BadBundle => "bad endpoint bundle"@,
        Error::NotAHandshake => "not a handshake frame"@,
        Error::UnknownSender => "message from unknown device — add them as a friend first"@,
        Error::UnknownConversation => "conversation not found"@,
        Error::NotThePeer => "dm sender is not the conversation peer"@,
        Error::NotAMember => "sender is not a group member"@,
        Error::SenderMismatch => "payload sender mismatch"@,
        Error::BadPayload => "bad payload"@,
        Error::NoOffer => "no offer for file"@,
        Error::UnknownFile => "unknown file"@,
        Error::NoProfile => "no local profile yet"@,
        Error::SourceTooShort => "the source file is too short"@,
        Error::MessageLength => "Message must be 1–2000 characters."@,
        Error::NoPeer => "dm has no peer"@,
        Error::MessageNotFound => "message not found"@,
        Error::NotYourMessage => "only your own messages can be changed"@,
        Error::SearchLength => "Search needs 2–80 characters."@,
        Error::NoAddress => "no address yet — they need to come online once"@,
        Error::UnknownCoordinator => "unknown coordinator"@,
        Error::NoWorkerUrl => "worker URL is required"@,
    }
}

/// The words for why an envelope is refused.
pub open spec fn envelope_text(e: EnvelopeError) -> Seq<char> {
    match e {
        EnvelopeError::UnsupportedVersion(v) => "unsupported protocol version "@ + decimal(v as nat),
        EnvelopeError::EmptyCiphertext => "ciphertext must not be empty"@,
    }
}

impl EnvelopeError {
    /// The words for why an envelope is refused.
    pub fn message(&self) -> (text: String)
        ensures
            text@ == envelope_text(*self),
    {
        match self {
            EnvelopeError::UnsupportedVersion(v) => {
                let mut text = "unsupported protocol version ".to_owned();
                text.append(decimal_text(*v as u64).as_str());
                text
            },
            EnvelopeError::EmptyCiphertext => "ciphertext must not be empty".to_owned(),
        }
    }
}

impl Error {
    /// The words for the reason.
    pub fn message(&self) -> (text: String)
        ensures
            text@ == error_text(*self),
    {
        match self {
            Error::Constraint => "a row would break the schema".to_owned(),
            Error::SequenceExhausted => "no message numbers left in this conversation".to_owned(),
            Error::HexLength => "expected 32-byte hex".to_owned(),
            Error::BadHex => "bad hex".to_owned(),
            Error::BadBase64 => "bad base64url char".to_owned(),
            Error::DmContextTooLong => "dm context too long".to_owned(),
            Error::DmTooShort => "dm box too short".to_owned(),
            Error::DmOpenFailed => "dm open failed (wrong key or tampered)".to_owned(),
            Error::DmFrameTooShort => "dm frame too short".to_owned(),
            Error::DmFrameTruncated => "dm frame truncated".to_owned(),
            Error::DmContextMismatch => "dm context mismatch (possible cross-conversation replay)".to_owned(),
            Error::GroupKeyUnwrap => "unwrap group key".to_owned(),
            Error::GroupKeyLength => "group key has wrong length".to_owned(),
            Error::GroupTooShort => "group box too short".to_owned(),
            Error::GroupSequenceMismatch => "group message sequence mismatch (possible replay)".to_owned(),
            Error::GroupSealFailed => "group seal failed".to_owned(),
            Error::GroupOpenFailed => "group open failed (wrong key or tampered)".to_owned(),
            Error::FrameLength => "frame length prefix does not match body".to_owned(),
            Error::FrameBody => "frame body is no envelope".to_owned(),
            Error::Envelope(why) => why.message(),
            Error::UsernameShape => "Username must be 3–32 lowercase letters, numbers, or underscores.".to_owned(),
            Error::UsernameReserved => "That username is reserved.".to_owned(),
            Error::DisplayNameLength => "Display name must be between 1 and 64 characters.".to_owned(),
            Error::IdentityLength => "device secret has wrong length".to_owned(),
            Error::KeyFileUnreadable => "key file read failed".to_owned(),
            Error::BadSigningKey => "bad ed25519 pubkey".to_owned(),
            Error::BadSignature => "bad signature".to_owned(),
            Error::MissingSignature => "missing envelope signature".to_owned(),
            Error::NotPresence => "not a presence payload".to_owned(),
            Error::NotAnInvite => "not a hearth invite code".to_owned(),
            Error::InviteUsername => "invite has a bad username".to_owned(),
            Error::UnknownContact => "unknown contact — import their invite first".to_owned(),
            Error::UserBlocked => "that user is blocked".to_owned(),
            Error::NoContactKey => "no encryption key for this contact".to_owned(),
            Error::ContactKeyLength => "contact key has wrong length".to_owned(),
            Error::NotAFriendAsk => "not a friend ask".to_owned(),
            Error::AlreadyDecided => "already decided for this user".to_owned(),
            Error::FriendKeyMismatch => "the keys are not the ones known for this user".to_owned(),
            Error::RequestNotFound => "request not found".to_owned(),
            Error::NotIncoming => "only incoming requests can be accepted".to_owned(),
            Error::ContactVanished => "contact vanished".to_owned(),
            Error::NotAFriend => "not in your friends".to_owned(),
            Error::NotInList => "not in your list".to_owned(),
            Error::MemberNotFriend(_) => "a listed member is not a friend yet".to_owned(),
            Error::MemberKeyMissing(_) => "no encryption key for a listed member".to_owned(),
            Error::GroupNameLength => "Group name must be 1–64 characters.".to_owned(),
            Error::GroupEmpty => "A group needs at least one other member.".to_owned(),
            Error::UnknownGroup => "unknown group".to_owned(),
            Error::EpochExhausted => "no epochs left in this group".to_owned(),
            Error::NotAGroupKey => "not a group key".to_owned(),
            Error::NoEpochKey => "no key for this epoch".to_owned(),
            Error::ShareExhausted => "this group has too many members".to_owned(),
            Error::BadWrapperKey => "bad wrapper key".to_owned(),
            Error::RemovesSelf => "use leave instead of removing yourself".to_owned(),
            Error::FileTooLarge => "file exceeds the 25 MB V1 limit".to_owned(),
            Error::BadFilename => "bad filename".to_owned(),
            Error::ChunkIndex => "chunk index out of range".to_owned(),
            Error::ChunkAuthentication => "chunk failed authentication".to_owned(),
            Error::ChunkDigest(index) => {
                let mut text = "chunk ".to_owned();
                text.append(decimal_text(*index as u64).as_str());
                text.append(" hash mismatch");
                text
            },
            Error::FileDigest => "assembled file failed integrity check".to_owned(),
            Error::NoSharedServer => "local coordinator has no shared server: deliver the invite code directly (friend request saved locally only)".to_owned(),
            Error::NoSharedMailbox => "recipient is offline and no shared mailbox is configured; message stays queued".to_owned(),
            Error::CoordinatorStatus(status) => {
                let mut text = "coordinator answered ".to_owned();
                text.append(decimal_text(*status as u64).as_str());
                text
            },
            Error::AckOfOther => "ack referenced wrong message".to_owned(),
            Error::AckTooShort => "ack frame too short".to_owned(),
            Error::AckLength => "ack length mismatch".to_owned(),
            Error::BadBundle => "bad endpoint bundle".to_owned(),
            Error::NotAHandshake => "not a handshake frame".to_owned(),
            Error::UnknownSender => "message from unknown device — add them as a friend first".to_owned(),
            Error::UnknownConversation => "conversation not found".to_owned(),
            Error::NotThePeer => "dm sender is not the conversation peer".to_owned(),
            Error::NotAMember => "sender is not a group member".to_owned(),
            Error::SenderMismatch => "payload sender mismatch".to_owned(),
            Error::BadPayload => "bad payload".to_owned(),
            Error::NoOffer => "no offer for file".to_owned(),
            Error::UnknownFile => "unknown file".to_owned(),
            Error::NoProfile => "no local profile yet".to_owned(),
            Error::SourceTooShort => "the source file is too short".to_owned(),
            Error::MessageLength => "Message must be 1–2000 characters.".to_owned(),
            Error::NoPeer => "dm has no peer".to_owned(),
            Error::MessageNotFound => "message not found".to_owned(),
            Error::NotYourMessage => "only your own messages can be changed".to_owned(),
            Error::SearchLength => "Search needs 2–80 characters.".to_owned(),
            Error::NoAddress => "no address yet — they need to come online once".to_owned(),
            Error::UnknownCoordinator => "unknown coordinator".to_owned(),
            Error::NoWorkerUrl => "worker URL is required".to_owned(),
        }
    }
}

} // verus!
