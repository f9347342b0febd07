use hearth::crypto::{generate_x_secret, x_public_from_secret};
use hearth::database::Database;
use hearth::envelope::{
    build_envelope, context_between, conversation_uuid, envelope_sign_bytes, open_dm_payload,
    open_group_payload, open_presence_payload, presence_of, presence_payload, seal_dm_payload,
    seal_group_payload, seal_presence_payload, sign_envelope, stage_message,
    verify_envelope_signature,
};
use hearth::error::Error;
use hearth::identity::DeviceIdentity;
use hearth::ids::Uuid;
use hearth::payload::{ChatPayload, PresenceStatus};
use hearth::protocol::{MessageType, CURRENT_PROTOCOL_VERSION};
use hearth::validation::{create_profile, normalize_username, validate_display_name};
use serde_json::Value;

fn write_text(payload: &ChatPayload) -> Vec<u8> {
    let mut fields = serde_json::Map::new();
    match payload {
        ChatPayload::Text { from, body, reply_to, epoch } => {
            fields.insert("kind".into(), Value::from("text"));
            fields.insert("from".into(), Value::from(from.as_str()));
            fields.insert("body".into(), Value::from(body.as_str()));
            fields.insert("reply_to".into(), Value::from(reply_to.clone()));
            fields.insert("epoch".into(), Value::from(*epoch));
        }
        ChatPayload::Presence { from, status } => {
            fields.insert("kind".into(), Value::from("presence"));
            fields.insert("from".into(), Value::from(from.as_str()));
            fields.insert("status".into(), Value::from(status.label()));
        }
        _ => panic!("not written here"),
    }
    serde_json::to_vec(&Value::Object(fields)).unwrap()
}

fn read_payload(json: &[u8]) -> ChatPayload {
    let value: Value = serde_json::from_slice(json).unwrap();
    let from = value["from"].as_str().unwrap().to_string();
    if value["kind"] == "text" {
        ChatPayload::Text {
            from,
            body: value["body"].as_str().unwrap().to_string(),
            reply_to: value["reply_to"].as_str().map(|s| s.to_string()),
            epoch: value["epoch"].as_i64(),
        }
    } else {
        let status = PresenceStatus::parse(value["status"].as_str().unwrap()).unwrap();
        ChatPayload::Presence { from, status }
    }
}

#[test]
fn validates_identity_setup() {
    let mut db = Database::in_memory();
    assert!(create_profile(&mut db, "Ada", "Ada Lovelace", 0).is_ok());
    assert!(create_profile(&mut db, "?", "Ada", 0).is_err());
    assert!(create_profile(&mut db, "admin", "Admin", 0).is_err());
    assert_eq!(normalize_username("  BOB_99 ").unwrap(), "bob_99");
    assert_eq!(db.load_profile(), Some(("ada".into(), "Ada Lovelace".into())));
}

#[test]
fn names_are_refused_with_a_reason() {
    assert_eq!(normalize_username("ab"), Err(Error::UsernameShape));
    assert_eq!(normalize_username("with space"), Err(Error::UsernameShape));
    assert_eq!(normalize_username(&"a".repeat(33)), Err(Error::UsernameShape));
    assert_eq!(normalize_username(&"a".repeat(32)), Ok("a".repeat(32)));
    assert_eq!(normalize_username("ADMIN"), Err(Error::UsernameReserved));
    assert_eq!(validate_display_name("  Ada  "), Ok("Ada".into()));
    assert_eq!(validate_display_name("   "), Err(Error::DisplayNameLength));
    let normal = normalize_username(" Bob_7 ").unwrap();
    assert_eq!(normalize_username(&normal), Ok(normal.clone()));
}

#[test]
fn dm_payload_seal_open_roundtrip() {
    let alice = generate_x_secret();
    let bob = generate_x_secret();
    let bob_pub = x_public_from_secret(&bob);
    let alice_pub = x_public_from_secret(&alice);
    let payload = ChatPayload::Text {
        from: "ada".into(),
        body: "hi".into(),
        reply_to: None,
        epoch: None,
    };
    let sealed = seal_dm_payload(&alice, &bob_pub, "conv-1", &write_text(&payload)).unwrap();
    assert_eq!(
        read_payload(&open_dm_payload(&bob, &alice_pub, "conv-1", &sealed).unwrap()),
        payload
    );
    assert!(open_dm_payload(&bob, &alice_pub, "conv-other", &sealed).is_err());
}

#[test]
fn presence_payload_roundtrip_with_named_context() {
    let alice = generate_x_secret();
    let bob = generate_x_secret();
    let bob_pub = x_public_from_secret(&bob);
    let alice_pub = x_public_from_secret(&alice);
    let payload = presence_payload("ada", PresenceStatus::Away);
    let sealed =
        seal_presence_payload(&alice, &bob_pub, "ada", "bob", &write_text(&payload)).unwrap();
    let opened =
        read_payload(&open_presence_payload(&bob, &alice_pub, "ada", "bob", &sealed).unwrap());
    assert_eq!(presence_of(&opened), Ok(PresenceStatus::Away));
    match opened {
        ChatPayload::Presence { from, status } => {
            assert_eq!(from, "ada");
            assert_eq!(status, PresenceStatus::Away);
        }
        _ => panic!("expected presence"),
    }
    // Retargeted at a third user fails to open.
    assert!(open_presence_payload(&bob, &alice_pub, "ada", "mallory", &sealed).is_err());
    let typing = ChatPayload::Typing { from: "ada".into(), typing: true };
    assert_eq!(presence_of(&typing), Err(Error::NotPresence));
}

#[test]
fn group_payloads_are_bound_to_their_number() {
    let key = [8u8; 32];
    let sealed = seal_group_payload(&key, 3, b"{}").unwrap();
    assert_eq!(open_group_payload(&key, 3, &sealed), Ok(b"{}".to_vec()));
    assert_eq!(open_group_payload(&key, 4, &sealed), Err(Error::GroupSequenceMismatch));
}

#[test]
fn envelope_signature_verifies_and_rejects_tampering() {
    let device = DeviceIdentity::generate();
    let public = device.public();
    let mut ed = [0u8; 32];
    ed.copy_from_slice(&public.ed_pubkey);
    let mut envelope = build_envelope(
        &device,
        Uuid::new_v4(),
        Uuid::new_v4(),
        Uuid::new_v4(),
        MessageType::Message,
        1,
        vec![9, 9],
        5,
    );
    assert!(verify_envelope_signature(&ed, &envelope).is_ok());
    envelope.ciphertext.push(1);
    assert!(verify_envelope_signature(&ed, &envelope).is_err());
}

#[test]
fn every_signed_field_counts() {
    let device = DeviceIdentity::generate();
    let ed = device.public().ed_pubkey;
    let envelope = build_envelope(
        &device,
        Uuid { bytes: [1; 16] },
        Uuid { bytes: [2; 16] },
        Uuid { bytes: [3; 16] },
        MessageType::Ping,
        258,
        vec![9],
        5,
    );
    assert_eq!(envelope.version, CURRENT_PROTOCOL_VERSION);
    assert_eq!(envelope.sender_device_id.bytes, [1; 16]);
    assert_eq!(envelope.conversation_id.bytes, [2; 16]);
    let mut moved = envelope.clone();
    moved.sequence = 259;
    assert_eq!(verify_envelope_signature(&ed, &moved), Err(Error::BadSignature));
    let mut moved = envelope.clone();
    moved.conversation_id = Uuid { bytes: [4; 16] };
    assert_eq!(verify_envelope_signature(&ed, &moved), Err(Error::BadSignature));
    let mut moved = envelope.clone();
    moved.message_type = MessageType::Pong;
    assert_ne!(envelope_sign_bytes(&moved), envelope_sign_bytes(&envelope));
    sign_envelope(&device, &mut moved);
    assert_eq!(verify_envelope_signature(&ed, &moved), Ok(()));
    moved.sender_sig = vec![];
    assert_eq!(verify_envelope_signature(&ed, &moved), Err(Error::MissingSignature));
}

#[test]
fn contexts_name_both_sides() {
    assert_eq!(context_between("presence:", "ada", "bob"), "presence:ada>bob");
    let stand_in = Uuid { bytes: [5; 16] };
    let id = Uuid { bytes: [6; 16] };
    assert_eq!(conversation_uuid(&id.to_text(), stand_in), id);
    assert_eq!(conversation_uuid("conv-1", stand_in), stand_in);
}

#[test]
fn staged_messages_are_stored_and_signed() {
    let mut db = Database::in_memory();
    let device = DeviceIdentity::generate();
    db.create_conversation("conv-1", "dm", "", &vec!["bob".to_string()], 1);
    let payload = ChatPayload::Text {
        from: "ada".into(),
        body: "hi".into(),
        reply_to: Some("m0".into()),
        epoch: None,
    };
    let (row, envelope) = stage_message(
        &mut db,
        &device,
        device.device_id,
        "ada",
        "conv-1",
        &payload,
        "hi",
        vec![1, 2],
        7,
    )
    .unwrap();
    assert_eq!(row.sequence, 1);
    assert_eq!(row.message_type, "Message");
    assert_eq!(row.reply_to.as_deref(), Some("m0"));
    assert_eq!(envelope.message_id.to_text(), row.id);
    assert_eq!(envelope.sequence, 1);
    assert_eq!(verify_envelope_signature(&device.public().ed_pubkey, &envelope), Ok(()));
    assert_eq!(db.get_message(&row.id).unwrap().ciphertext, vec![1, 2]);
    assert!(stage_message(
        &mut db,
        &device,
        device.device_id,
        "ada",
        "nowhere",
        &payload,
        "hi",
        vec![1],
        8
    )
    .is_err());
}

#[test]
fn names_are_trimmed_like_texts() {
    for code in 0..0x3100 {
        if let Some(c) = char::from_u32(code) {
            let raw = format!("{c}Ada{c}");
            assert_eq!(validate_display_name(&raw), Ok(raw.trim().to_string()), "{code:x}");
            let name = format!("abc{c}");
            let lower = name.trim().to_ascii_lowercase();
            let fits = lower.bytes().all(|b| b.is_ascii_lowercase() || b.is_ascii_digit() || b == b'_');
            assert_eq!(normalize_username(&name).ok(), fits.then_some(lower), "{code:x}");
        }
    }
    assert_eq!(validate_display_name(&"é".repeat(64)), Ok("é".repeat(64)));
    assert_eq!(validate_display_name(&"é".repeat(65)), Err(Error::DisplayNameLength));
}
