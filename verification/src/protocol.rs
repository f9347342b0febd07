//! Versioned application envelopes, shared by every transport.
//!
//! Encryption stands outside: a transport gets ciphertext only. An envelope of
//! an unknown version or without ciphertext is refused, so that a missing
//! encryption layer is never mistaken for a working one.

use vstd::prelude::*;

use crate::bytes::{append_bytes, be32, from_be32, lemma_be32_reads, push_be32};
use crate::error::Error;
use crate::ids::Uuid;
use crate::table::Row;
use crate::text::copy_bytes;

verus! {

pub const CURRENT_PROTOCOL_VERSION: u16 = 1;

/// Names the protocol when a connection is made.
pub const HEARTH_ALPN: &'static str = "hearth/chat/1";

/// What an envelope is for.
#[derive(Debug, Clone, Copy, PartialEq, Eq, Structural)]
pub enum MessageType {
    Hello,
    Identity,
    Auth,
    Ping,
    Pong,
    FriendRequest,
    FriendResponse,
    Message,
    MessageEdit,
    MessageDelete,
    MessageReply,
    DeliveryAck,
    ReadAck,
    Typing,
    Presence,
    SyncRequest,
    SyncResponse,
    GroupCommit,
    GroupMessage,
    GroupSync,
    FileOffer,
    FileAccept,
    FileChunk,
    FileAck,
    FileComplete,
    Error,
}

/// The name of a type, as it is stored and signed.
pub open spec fn type_label(t: MessageType) -> Seq<char> {
    match t {
        MessageType::Hello => "Hello"@,
        MessageType::Identity => "Identity"@,
        MessageType::Auth => "Auth"@,
        MessageType::Ping => "Ping"@,
        MessageType::Pong => "Pong"@,
        MessageType::FriendRequest => "FriendRequest"@,
        MessageType::FriendResponse => "FriendResponse"@,
        MessageType::Message => "Message"@,
        MessageType::MessageEdit => "MessageEdit"@,
        MessageType::MessageDelete => "MessageDelete"@,
        MessageType::MessageReply => "MessageReply"@,
        MessageType::DeliveryAck => "DeliveryAck"@,
        MessageType::ReadAck => "ReadAck"@,
        MessageType::Typing => "Typing"@,
        MessageType::Presence => "Presence"@,
        MessageType::SyncRequest => "SyncRequest"@,
        MessageType::SyncResponse => "SyncResponse"@,
        MessageType::GroupCommit => "GroupCommit"@,
        MessageType::GroupMessage => "GroupMessage"@,
        MessageType::GroupSync => "GroupSync"@,
        MessageType::FileOffer => "FileOffer"@,
        MessageType::FileAccept => "FileAccept"@,
        MessageType::FileChunk => "FileChunk"@,
        MessageType::FileAck => "FileAck"@,
        MessageType::FileComplete => "FileComplete"@,
        MessageType::Error => "Error"@,
    }
}

impl MessageType {
    /// Whether an envelope of this type never becomes history.
    pub fn is_ephemeral(&self) -> (b: bool)
        ensures
            b == (*self == MessageType::Typing || *self == MessageType::Ping || *self
                == MessageType::Pong || *self == MessageType::Presence),
    {
        match self {
            MessageType::Typing | MessageType::Ping | MessageType::Pong | MessageType::Presence => true,
            _ => false,
        }
    }

    /// The name of the type, as it is stored and signed.
    pub fn name(&self) -> (name: &'static str)
        ensures
            name@ == type_label(*self),
    {
        match self {
            MessageType::Hello => "Hello",
            MessageType::Identity => "Identity",
            MessageType::Auth => "Auth",
            MessageType::Ping => "Ping",
            MessageType::Pong => "Pong",
            MessageType::FriendRequest => "FriendRequest",
            MessageType::FriendResponse => "FriendResponse",
            MessageType::Message => "Message",
            MessageType::MessageEdit => "MessageEdit",
            MessageType::MessageDelete => "MessageDelete",
            MessageType::MessageReply => "MessageReply",
            MessageType::DeliveryAck => "DeliveryAck",
            MessageType::ReadAck => "ReadAck",
            MessageType::Typing => "Typing",
            MessageType::Presence => "Presence",
            MessageType::SyncRequest => "SyncRequest",
            MessageType::SyncResponse => "SyncResponse",
            MessageType::GroupCommit => "GroupCommit",
            MessageType::GroupMessage => "GroupMessage",
            MessageType::GroupSync => "GroupSync",
            MessageType::FileOffer => "FileOffer",
            MessageType::FileAccept => "FileAccept",
            MessageType::FileChunk => "FileChunk",
            MessageType::FileAck => "FileAck",
            MessageType::FileComplete => "FileComplete",
            MessageType::Error => "Error",
        }
    }
}

/// Why an envelope is refused.
#[derive(Debug, Clone, Copy, PartialEq, Eq, Structural)]
pub enum EnvelopeError {
    UnsupportedVersion(u16),
    EmptyCiphertext,
}

/// One signed and encrypted message on its way.
#[derive(Debug, Clone, PartialEq, Eq)]
pub struct ProtocolEnvelope {
    pub version: u16,
    pub message_id: Uuid,
    pub conversation_id: Uuid,
    pub sender_device_id: Uuid,
    pub message_type: MessageType,
    pub sequence: u64,
    pub created_at_ms: i64,
    /// Authenticated ciphertext. Plaintext never belongs in an envelope.
    pub ciphertext: Vec<u8>,
    /// The sender's signature, empty only on handshakes before the sender is
    /// known.
    pub sender_sig: Vec<u8>,
}

/// What a [`ProtocolEnvelope`] holds.
pub struct EnvelopeModel {
    pub version: u16,
    pub message_id: Seq<u8>,
    pub conversation_id: Seq<u8>,
    pub sender_device_id: Seq<u8>,
    pub message_type: MessageType,
    pub sequence: u64,
    pub created_at_ms: i64,
    pub ciphertext: Seq<u8>,
    pub sender_sig: Seq<u8>,
}

impl View for ProtocolEnvelope {
    type V = EnvelopeModel;

    open spec fn view(&self) -> EnvelopeModel {
        EnvelopeModel {
            version: self.version,
            message_id: self.message_id@,
            conversation_id: self.conversation_id@,
            sender_device_id: self.sender_device_id@,
            message_type: self.message_type,
            sequence: self.sequence,
            created_at_ms: self.created_at_ms,
            ciphertext: self.ciphertext@,
            sender_sig: self.sender_sig@,
        }
    }
}

impl Row for ProtocolEnvelope {
    fn duplicate(&self) -> (copy: Self) {
        ProtocolEnvelope {
            version: self.version,
            message_id: self.message_id,
            conversation_id: self.conversation_id,
            sender_device_id: self.sender_device_id,
            message_type: self.message_type,
            sequence: self.sequence,
            created_at_ms: self.created_at_ms,
            ciphertext: copy_bytes(self.ciphertext.as_slice()),
            sender_sig: copy_bytes(self.sender_sig.as_slice()),
        }
    }
}

/// Whether an envelope is accepted.
pub open spec fn validated(e: EnvelopeModel) -> Result<(), EnvelopeError> {
    if e.version != CURRENT_PROTOCOL_VERSION {
        Err(EnvelopeError::UnsupportedVersion(e.version))
    } else if e.ciphertext.len() == 0 {
        Err(EnvelopeError::EmptyCiphertext)
    } else {
        Ok(())
    }
}

/// The length prefix of a body. Of a body of 2^32 bytes or more it tells the
/// length modulo 2^32 only.
pub open spec fn frame_prefix(body: Seq<u8>) -> Seq<u8> {
    be32((body.len() % 0x1_0000_0000) as u32)
}

/// The outcome of decoding, with the envelope taken by its view.
pub open spec fn decoded_view(r: Result<ProtocolEnvelope, Error>) -> Result<EnvelopeModel, Error> {
    match r {
        Ok(e) => Ok(e@),
        Err(e) => Err(e),
    }
}

/// What a frame decodes to, where `parsed` is what its body reads as.
pub open spec fn frame_decoded(
    prefix: Seq<u8>,
    body_len: nat,
    parsed: Option<EnvelopeModel>,
) -> Result<EnvelopeModel, Error> {
    if from_be32(prefix) != body_len {
        Err(Error::FrameLength)
    } else {
        match parsed {
            None => Err(Error::FrameBody),
            Some(e) => match validated(e) {
                Ok(_) => Ok(e),
                Err(why) => Err(Error::Envelope(why)),
            },
        }
    }
}

/// The envelope that a body reads as.
pub open spec fn opt_envelope(e: Option<ProtocolEnvelope>) -> Option<EnvelopeModel> {
    match e {
        Some(e) => Some(e@),
        None => None,
    }
}

impl ProtocolEnvelope {
    /// Refuses an unknown version and an empty ciphertext.
    pub fn validate(&self) -> (r: Result<(), EnvelopeError>)
        ensures
            r == validated(self@),
    {
        if self.version != CURRENT_PROTOCOL_VERSION {
            return Err(EnvelopeError::UnsupportedVersion(self.version));
        }
        if self.ciphertext.len() == 0 {
            return Err(EnvelopeError::EmptyCiphertext);
        }
        Ok(())
    }

    /// The frame of a serialized envelope: its length in four bytes, then itself.
    pub fn encode_frame(body: &[u8]) -> (frame: Vec<u8>)
        ensures
            frame@ == frame_prefix(body@) + body@,
    {
        let mut frame: Vec<u8> = Vec::new();
        let len: u64 = body.len() as u64;
        push_be32(&mut frame, (len % 0x1_0000_0000) as u32);
        append_bytes(&mut frame, body);
        assert(frame@ =~= frame_prefix(body@) + body@);
        frame
    }

    /// Decodes a frame, where `parsed` is what the body reads as: the prefix must
    /// tell the body's length, and the envelope must be acceptable.
    pub fn decode_frame(len_prefix: [u8; 4], body: &[u8], parsed: Option<ProtocolEnvelope>) -> (r:
        Result<ProtocolEnvelope, Error>)
        ensures
            decoded_view(r) == frame_decoded(len_prefix@, body@.len(), opt_envelope(parsed)),
    {
        let len: u64 = len_prefix[0] as u64 * 0x100_0000 + len_prefix[1] as u64 * 0x1_0000
            + len_prefix[2] as u64 * 0x100 + len_prefix[3] as u64;
        if len != body.len() as u64 {
            return Err(Error::FrameLength);
        }
        match parsed {
            None => Err(Error::FrameBody),
            Some(envelope) => match envelope.validate() {
                Ok(_) => Ok(envelope),
                Err(why) => Err(Error::Envelope(why)),
            },
        }
    }
}

/// A frame decodes to the envelope that was framed, if that is acceptable and
/// its body is shorter than 4 GiB.
pub proof fn law_frame_round_trip(envelope: EnvelopeModel, body: Seq<u8>)
    requires
        validated(envelope) is Ok,
        body.len() < 0x1_0000_0000,
    ensures
        frame_decoded(frame_prefix(body), body.len(), Some(envelope)) == Ok::<EnvelopeModel, Error>(
            envelope,
        ),
{
    lemma_be32_reads((body.len() % 0x1_0000_0000) as u32);
}

/// A frame whose body lost or gained bytes is refused.
pub proof fn law_frame_rejects_other_length(
    body: Seq<u8>,
    other: Seq<u8>,
    parsed: Option<EnvelopeModel>,
)
    requires
        body.len() < 0x1_0000_0000,
        other.len() != body.len(),
    ensures
        frame_decoded(frame_prefix(body), other.len(), parsed) == Err::<EnvelopeModel, Error>(
            Error::FrameLength,
        ),
{
    lemma_be32_reads((body.len() % 0x1_0000_0000) as u32);
}

} // verus!
