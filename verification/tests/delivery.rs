use hearth::coordinator::{FriendDirective, MAILBOX_TTL_MS};
use hearth::database::Database;
use hearth::delivery::{
    ingest_directives, mailbox_object, note_handshake_try, note_handshake_try_with,
    note_send_failure, note_send_failure_as, nudge_due, nudge_stalled_file, plan_retry,
    queue_handshake, queue_handshake_with, retry_delivered, stalled_files, HandshakeTry,
};
use hearth::envelope::build_envelope;
use hearth::files::prepare_offer;
use hearth::identity::DeviceIdentity;
use hearth::ids::Uuid;
use hearth::payload::ChatPayload;
use hearth::protocol::{MessageType, ProtocolEnvelope};
use hearth::records::{Contact, FileTransfer, Message};

fn with_message() -> (Database, String, String) {
    let mut db = Database::in_memory();
    db.save_profile("ada", "Ada", 1);
    let conversation = Uuid::new_v4().to_text();
    let id = Uuid::new_v4().to_text();
    db.create_conversation(&conversation, "dm", "", &vec!["bob".into()], 1);
    db.insert_message(&Message {
        id: id.clone(),
        conversation_id: conversation.clone(),
        sender_device_id: "dev".into(),
        sender_username: "ada".into(),
        message_type: "Message".into(),
        body: "hi".into(),
        ciphertext: vec![1, 2],
        sequence: 4,
        status: "local".into(),
        reply_to: None,
        created_at_ms: 2,
        edited_at_ms: None,
        deleted_at_ms: None,
    })
    .unwrap();
    (db, conversation, id)
}

fn ping(device: &DeviceIdentity) -> ProtocolEnvelope {
    build_envelope(
        device,
        device.device_id,
        Uuid::new_v4(),
        Uuid::new_v4(),
        MessageType::FriendRequest,
        1,
        vec![1],
        2,
    )
}

#[test]
fn failures_are_queued_and_then_mailed() {
    let (mut db, _, id) = with_message();
    assert!(!note_send_failure_as(&mut db, "bob", &id, Uuid::new_v4(), 0, 100));
    let item = db.get_pending(&id, "bob").unwrap();
    assert_eq!((item.attempt_count, item.next_attempt_at_ms), (0, 1_100));
    assert_eq!(db.get_message(&id).unwrap().status, "queued");
    // Each further failure counts, and the mailbox is tried once they repeat.
    assert!(!note_send_failure_as(&mut db, "bob", &id, Uuid::new_v4(), 0, 100));
    assert!(!note_send_failure_as(&mut db, "bob", &id, Uuid::new_v4(), 0, 100));
    let item = db.get_pending(&id, "bob").unwrap();
    assert_eq!((item.attempt_count, item.next_attempt_at_ms), (2, 2_100));
    assert!(note_send_failure_as(&mut db, "bob", &id, Uuid::new_v4(), 0, 100));
    let item = db.get_pending(&id, "bob").unwrap();
    assert_eq!((item.attempt_count, item.next_attempt_at_ms), (3, 4_100));
    note_send_failure(&mut db, "bob", &id, 200);
    assert_eq!(db.pending.len(), 1);
}

#[test]
fn retries_resend_or_give_up() {
    let (mut db, _, id) = with_message();
    let device = DeviceIdentity::generate();
    db.enqueue_pending("p1", &id, "bob", 10, "queued").unwrap();
    let item = db.get_pending(&id, "bob").unwrap();
    let envelope =
        plan_retry(&mut db, &device, device.device_id, &item, Uuid::new_v4(), 20).unwrap();
    assert_eq!(envelope.message_id.to_text(), id);
    assert_eq!(envelope.sequence, 4);
    retry_delivered(&mut db, &item);
    assert!(db.get_pending(&id, "bob").is_none());
    // A message that was deleted meanwhile is no longer sent.
    db.enqueue_pending("p2", &id, "bob", 10, "queued").unwrap();
    let item = db.get_pending(&id, "bob").unwrap();
    db.messages.clear();
    assert!(plan_retry(&mut db, &device, device.device_id, &item, Uuid::new_v4(), 20).is_none());
    assert!(db.get_pending(&id, "bob").is_none());
}

#[test]
fn handshakes_wait_for_their_peer() {
    let mut db = Database::in_memory();
    let device = DeviceIdentity::generate();
    let envelope = ping(&device);
    queue_handshake_with(&mut db, "bob", &envelope, "{}", 0, 100);
    let due = db.list_due_handshakes(1_100, 10);
    assert_eq!(due.len(), 1);
    assert_eq!(due[0].message_id, envelope.message_id.to_text());
    assert!(db.list_due_handshakes(1_099, 10).is_empty());
    note_handshake_try_with(&mut db, &due[0], HandshakeTry::Failed, 0, 1_100);
    assert!(db.list_due_handshakes(1_100, 10).is_empty());
    let later = db.list_due_handshakes(10_000, 10);
    assert_eq!(later[0].attempt_count, 1);
    note_handshake_try(&mut db, &later[0], HandshakeTry::Delivered, 10_000);
    assert!(db.handshakes.is_empty());
    queue_handshake(&mut db, "bob", &envelope, "nonsense", 100);
    let due = db.list_due_handshakes(100_000, 10);
    note_handshake_try(&mut db, &due[0], HandshakeTry::Unreadable, 100_000);
    assert!(db.handshakes.is_empty());
}

#[test]
fn mailbox_objects_expire_after_a_week() {
    let id = Uuid::new_v4();
    let object = mailbox_object(id, "{}", 1_000);
    assert_eq!(object.id, id.to_text());
    assert_eq!(object.envelope_json, "{}");
    assert_eq!(object.expires_at_ms, 1_000 + MAILBOX_TTL_MS);
    assert_eq!(MAILBOX_TTL_MS, 7 * 24 * 60 * 60 * 1_000);
}

#[test]
fn stalled_downloads_are_nudged() {
    let (mut db, conversation, _) = with_message();
    let (offer, _) = prepare_offer("f1", "a.bin", "", b"data").unwrap();
    db.save_file(
        &FileTransfer {
            id: "f1".into(),
            conversation_id: conversation.clone(),
            filename: "a.bin".into(),
            mime_type: "".into(),
            size_bytes: 4,
            sha256_hex: offer.sha256_hex.clone(),
            state: "incoming".into(),
            bytes_done: 0,
            local_path: None,
            created_at_ms: 2,
        },
        2,
    )
    .unwrap();
    db.save_offer_json("f1", "{}");
    let stalled = stalled_files(&db, 1_000_000);
    assert_eq!(stalled.len(), 1);
    assert_eq!(stalled[0].file_id, "f1");
    let plan = nudge_stalled_file(&db, "ada", &stalled[0], &offer, &vec![0]).unwrap();
    assert_eq!(plan.peers, vec!["bob"]);
    assert!(matches!(plan.payload, ChatPayload::FileAccept { .. }));
    assert!(nudge_stalled_file(&db, "ada", &stalled[0], &offer, &vec![]).is_none());
    assert!(nudge_due(1_000_000, 0));
    assert!(!nudge_due(1_000_000, 999_999));
}

#[test]
fn directives_become_requests() {
    let mut db = Database::in_memory();
    db.save_profile("ada", "Ada", 1);
    let bob = DeviceIdentity::generate().public();
    let directive = FriendDirective {
        id: "d1".into(),
        from_username: "bob".into(),
        from_display_name: "Bob".into(),
        from_ed_pubkey_hex: hearth::bytes::hex_encode(&bob.ed_pubkey),
        from_x_pubkey_hex: hearth::bytes::hex_encode(&bob.x_pubkey),
        status: "pending".into(),
        created_at_ms: 4,
    };
    assert_eq!(ingest_directives(&mut db, &vec![directive.clone()], 5), 1);
    assert_eq!(ingest_directives(&mut db, &vec![directive.clone()], 6), 0);
    let contact: Contact = db.find_contact("bob").unwrap();
    assert_eq!(contact.x25519_pubkey, Some(bob.x_pubkey.to_vec()));
    assert_eq!(db.list_friend_requests(Some("pending")).len(), 1);
}

#[test]
fn a_message_is_delivered_once_nobody_waits() {
    let (mut db, conversation, id) = with_message();
    for n in 0..150i64 {
        let other = Uuid::new_v4().to_text();
        db.insert_message(&Message {
            id: other.clone(),
            conversation_id: conversation.clone(),
            sender_device_id: "dev".into(),
            sender_username: "ada".into(),
            message_type: "Message".into(),
            body: "hi".into(),
            ciphertext: vec![1],
            sequence: 10 + n,
            status: "local".into(),
            reply_to: None,
            created_at_ms: 2,
            edited_at_ms: None,
            deleted_at_ms: None,
        })
        .unwrap();
        db.enqueue_pending(&Uuid::new_v4().to_text(), &other, "bob", 5, "queued").unwrap();
    }
    db.enqueue_pending("p1", &id, "bob", 10, "queued").unwrap();
    db.enqueue_pending("p2", &id, "cara", 20, "queued").unwrap();
    let first = db.get_pending(&id, "bob").unwrap();
    retry_delivered(&mut db, &first);
    assert_eq!(db.get_message(&id).unwrap().status, "local");
    let second = db.get_pending(&id, "cara").unwrap();
    retry_delivered(&mut db, &second);
    assert_eq!(db.get_message(&id).unwrap().status, "delivered");
}

#[test]
fn waits_double_with_each_counted_failure() {
    let (mut db, _, id) = with_message();
    let mut waits: Vec<i64> = vec![];
    for _ in 0..12 {
        note_send_failure_as(&mut db, "bob", &id, Uuid::new_v4(), 0, 100);
        waits.push(db.get_pending(&id, "bob").unwrap().next_attempt_at_ms - 100);
    }
    assert_eq!(
        waits,
        vec![
            1_000, 1_000, 2_000, 4_000, 8_000, 16_000, 32_000, 64_000, 128_000, 256_000, 300_000,
            300_000
        ]
    );
}
