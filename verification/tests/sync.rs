use hearth::database::Database;
use hearth::envelope::verify_envelope_signature;
use hearth::identity::DeviceIdentity;
use hearth::ids::Uuid;
use hearth::payload::ChatPayload;
use hearth::protocol::MessageType;
use hearth::records::Message;
use hearth::sync::{
    apply_read_receipt, due_pending, messages_after, parse_message_type, payload_preview,
    resend_envelope, retry_delay_ms, retry_delay_with, sync_gap,
};

#[test]
fn retry_delay_grows_and_caps() {
    assert!(retry_delay_ms(0) >= 1000 && retry_delay_ms(0) < 1300);
    assert!(retry_delay_ms(9) <= 375_000);
    assert!(retry_delay_ms(100) <= 375_000);
}

#[test]
fn retry_delay_is_exact_for_a_sample() {
    assert_eq!(retry_delay_with(0, 0), 1_000);
    assert_eq!(retry_delay_with(0, 4_000), 1_100);
    assert_eq!(retry_delay_with(5, 0), 32_000);
    assert_eq!(retry_delay_with(9, 0), 300_000);
    assert_eq!(retry_delay_with(1_000, 5_000), 337_500);
}

fn message(id: &str, sender: &str, sequence: i64, at: i64) -> Message {
    Message {
        id: id.into(),
        conversation_id: "c1".into(),
        sender_device_id: "d".into(),
        sender_username: sender.into(),
        message_type: "Message".into(),
        body: id.into(),
        ciphertext: vec![1],
        sequence,
        status: "delivered".into(),
        reply_to: None,
        created_at_ms: at,
        edited_at_ms: None,
        deleted_at_ms: None,
    }
}

#[test]
fn sync_gap_lists_only_missing() {
    let mut db = Database::in_memory();
    db.create_conversation("c1", "dm", "", &vec!["bob".to_string()], 1);
    for i in 1..=3 {
        db.insert_message(&Message {
            id: format!("m{i}"),
            conversation_id: "c1".into(),
            sender_device_id: "d".into(),
            sender_username: "ada".into(),
            message_type: "Message".into(),
            body: format!("m{i}"),
            ciphertext: vec![i as u8],
            sequence: i,
            status: "delivered".into(),
            reply_to: None,
            created_at_ms: i,
            edited_at_ms: None,
            deleted_at_ms: None,
        })
        .unwrap();
    }
    assert_eq!(sync_gap(&db, "c1", 1), vec!["m2".to_string(), "m3".to_string()]);
    assert!(sync_gap(&db, "c1", 3).is_empty());
    let ids: Vec<String> = messages_after(&db, "c1", 0, 2).into_iter().map(|m| m.id).collect();
    assert_eq!(ids, vec!["m1", "m2"]);
}

#[test]
fn read_receipts_only_mark_my_messages() {
    let mut db = Database::in_memory();
    db.create_conversation("c1", "dm", "", &vec!["bob".to_string()], 1);
    for (id, sender) in [("m1", "ada"), ("m2", "bob")] {
        db.insert_message(&message(id, sender, if id == "m1" { 1 } else { 2 }, 2)).unwrap();
    }
    assert_eq!(
        apply_read_receipt(&mut db, "c1", "bob", &vec!["m1".to_string(), "m2".to_string()]),
        1
    );
    assert_eq!(db.get_message("m1").unwrap().status, "read");
    assert_eq!(db.get_message("m2").unwrap().status, "delivered");
}

#[test]
fn due_items_come_by_time() {
    let mut db = Database::in_memory();
    db.create_conversation("c1", "dm", "", &vec!["bob".to_string()], 1);
    db.insert_message(&message("m1", "ada", 1, 1)).unwrap();
    db.insert_message(&message("m2", "ada", 2, 2)).unwrap();
    db.enqueue_pending("p1", "m1", "bob", 20, "queued").unwrap();
    db.enqueue_pending("p2", "m2", "bob", 10, "queued").unwrap();
    let ids: Vec<String> = due_pending(&db, 20).into_iter().map(|p| p.message_id).collect();
    assert_eq!(ids, vec!["m2", "m1"]);
    assert!(due_pending(&db, 9).is_empty());
}

#[test]
fn a_resent_message_is_the_same_message() {
    let device = DeviceIdentity::generate();
    let id = Uuid::new_v4();
    let mut stored = message(&id.to_text(), "ada", 7, 5);
    stored.message_type = MessageType::GroupMessage.name().into();
    let conversation = Uuid::new_v4();
    let envelope = resend_envelope(&device, device.device_id, conversation, &stored, 9);
    assert_eq!(envelope.message_id, id);
    assert_eq!(envelope.conversation_id, conversation);
    assert_eq!(envelope.sequence, 7);
    assert_eq!(envelope.message_type, MessageType::GroupMessage);
    assert_eq!(envelope.ciphertext, vec![1]);
    assert_eq!(verify_envelope_signature(&device.public().ed_pubkey, &envelope), Ok(()));
}

#[test]
fn stored_types_are_read_back() {
    for t in [MessageType::Message, MessageType::FileOffer, MessageType::GroupCommit] {
        assert_eq!(parse_message_type(t.name()), t);
    }
    assert_eq!(parse_message_type("unheard of"), MessageType::Message);
}

#[test]
fn previews_are_short() {
    let text = |body: &str| ChatPayload::Text {
        from: "ada".into(),
        body: body.into(),
        reply_to: None,
        epoch: None,
    };
    assert_eq!(payload_preview(&text("hi")), "hi");
    let long = "é".repeat(400);
    assert!(payload_preview(&text(&long)).chars().count() < 400);
}

#[test]
fn catching_up_works_in_long_threads() {
    let mut db = Database::in_memory();
    db.create_conversation("c1", "dm", "", &vec!["bob".to_string()], 1);
    for i in 1..=450 {
        db.insert_message(&message(&format!("m{i}"), "ada", i, i)).unwrap();
    }
    let ids: Vec<String> = messages_after(&db, "c1", 449, 1).into_iter().map(|m| m.id).collect();
    assert_eq!(ids, vec!["m450"]);
    assert_eq!(messages_after(&db, "c1", 0, -1).len(), 450);
    assert_eq!(messages_after(&db, "c1", 0, i64::MAX).len(), 450);
    assert_eq!(sync_gap(&db, "c1", 10).len(), 200);
    assert_eq!(sync_gap(&db, "c1", 10)[0], "m11");
    assert_eq!(sync_gap(&db, "c1", 400).len(), 50);
}

#[test]
fn receipts_in_groups_mark_only_what_i_sent() {
    let mut db = Database::in_memory();
    db.save_profile("ada", "Ada", 1);
    db.create_conversation("c1", "group", "Squad", &vec!["bob".into(), "cara".into()], 1);
    for (n, sender) in [(1, "ada"), (2, "bob"), (3, "cara")] {
        let mut m = message(&format!("m{n}"), sender, n, n);
        m.sender_device_id = sender.into();
        db.insert_message(&m).unwrap();
    }
    let all = vec!["m1".to_string(), "m2".to_string(), "m3".to_string()];
    assert_eq!(apply_read_receipt(&mut db, "c1", "bob", &all), 1);
    assert_eq!(db.get_message("m1").unwrap().status, "read");
    assert_eq!(db.get_message("m3").unwrap().status, "delivered");
}
