use hearth::error::Error;
use hearth::ids::Uuid;
use hearth::protocol::{
    EnvelopeError, MessageType, ProtocolEnvelope, CURRENT_PROTOCOL_VERSION, HEARTH_ALPN,
};
use hearth::sync::parse_message_type;
use serde_json::Value;

fn envelope() -> ProtocolEnvelope {
    ProtocolEnvelope {
        version: CURRENT_PROTOCOL_VERSION,
        message_id: Uuid::new_v4(),
        conversation_id: Uuid::new_v4(),
        sender_device_id: Uuid::new_v4(),
        message_type: MessageType::Message,
        sequence: 1,
        created_at_ms: 0,
        ciphertext: vec![1],
        sender_sig: vec![7],
    }
}

#[test]
fn accepts_current_ciphertext_envelope() {
    assert_eq!(envelope().validate(), Ok(()));
}

#[test]
fn rejects_plaintext_placeholder() {
    let mut value = envelope();
    value.ciphertext.clear();
    assert_eq!(value.validate(), Err(EnvelopeError::EmptyCiphertext));
}

#[test]
fn rejects_unknown_version() {
    let mut value = envelope();
    value.version = CURRENT_PROTOCOL_VERSION + 1;
    assert_eq!(
        value.validate(),
        Err(EnvelopeError::UnsupportedVersion(CURRENT_PROTOCOL_VERSION + 1))
    );
    assert_eq!(
        EnvelopeError::UnsupportedVersion(2).message(),
        "unsupported protocol version 2"
    );
}

fn write(e: &ProtocolEnvelope) -> Vec<u8> {
    let mut fields = serde_json::Map::new();
    fields.insert("version".into(), Value::from(e.version));
    fields.insert("message_id".into(), Value::from(e.message_id.to_text()));
    fields.insert("conversation_id".into(), Value::from(e.conversation_id.to_text()));
    fields.insert("sender_device_id".into(), Value::from(e.sender_device_id.to_text()));
    fields.insert("message_type".into(), Value::from(e.message_type.name()));
    fields.insert("sequence".into(), Value::from(e.sequence));
    fields.insert("created_at_ms".into(), Value::from(e.created_at_ms));
    fields.insert("ciphertext".into(), Value::from(e.ciphertext.clone()));
    fields.insert("sender_sig".into(), Value::from(e.sender_sig.clone()));
    serde_json::to_vec(&Value::Object(fields)).unwrap()
}

fn bytes(value: &Value) -> Option<Vec<u8>> {
    value.as_array()?.iter().map(|b| b.as_u64().map(|n| n as u8)).collect()
}

fn read(body: &[u8]) -> Option<ProtocolEnvelope> {
    let value: Value = serde_json::from_slice(body).ok()?;
    let id = |name: &str| Uuid::parse_str(value[name].as_str()?);
    Some(ProtocolEnvelope {
        version: value["version"].as_u64()? as u16,
        message_id: id("message_id")?,
        conversation_id: id("conversation_id")?,
        sender_device_id: id("sender_device_id")?,
        message_type: parse_message_type(value["message_type"].as_str()?),
        sequence: value["sequence"].as_u64()?,
        created_at_ms: value["created_at_ms"].as_i64()?,
        ciphertext: bytes(&value["ciphertext"])?,
        sender_sig: bytes(&value["sender_sig"])?,
    })
}

#[test]
fn frame_roundtrip_preserves_envelope() {
    let original = envelope();
    let frame = ProtocolEnvelope::encode_frame(&write(&original));
    let (prefix, body) = frame.split_at(4);
    let decoded =
        ProtocolEnvelope::decode_frame(prefix.try_into().unwrap(), body, read(body)).unwrap();
    assert_eq!(original, decoded);
}

#[test]
fn frame_rejects_length_mismatch() {
    let original = envelope();
    let frame = ProtocolEnvelope::encode_frame(&write(&original));
    let (prefix, body) = frame.split_at(4);
    let cut = &body[..body.len() - 1];
    assert!(
        ProtocolEnvelope::decode_frame(prefix.try_into().unwrap(), cut, read(cut)).is_err()
    );
    assert_eq!(
        ProtocolEnvelope::decode_frame(prefix.try_into().unwrap(), cut, Some(original)),
        Err(Error::FrameLength)
    );
    assert_eq!(&ProtocolEnvelope::encode_frame(&vec![9u8; 300])[..4], &[0, 0, 1, 44]);
}

#[test]
fn frame_rejects_empty_ciphertext() {
    let mut tampered = envelope();
    tampered.ciphertext.clear();
    let body = write(&tampered);
    let prefix = (body.len() as u32).to_be_bytes();
    assert_eq!(
        ProtocolEnvelope::decode_frame(prefix, &body, read(&body)).unwrap_err().message(),
        "ciphertext must not be empty"
    );
    assert_eq!(
        ProtocolEnvelope::decode_frame(prefix, &body, read(&body)),
        Err(Error::Envelope(EnvelopeError::EmptyCiphertext))
    );
    assert_eq!(ProtocolEnvelope::decode_frame(prefix, &body, None), Err(Error::FrameBody));
}

#[test]
fn ephemeral_types_are_never_history() {
    assert!(MessageType::Typing.is_ephemeral());
    assert!(MessageType::Ping.is_ephemeral());
    assert!(MessageType::Pong.is_ephemeral());
    assert!(MessageType::Presence.is_ephemeral());
    assert!(!MessageType::Message.is_ephemeral());
    assert!(!MessageType::FileOffer.is_ephemeral());
    assert_eq!(MessageType::GroupCommit.name(), "GroupCommit");
    assert_eq!(HEARTH_ALPN, "hearth/chat/1");
}
