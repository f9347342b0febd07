use hearth::database::Database;
use hearth::envelope::{open_dm_payload, verify_envelope_signature};
use hearth::error::Error;
use hearth::groups::create_group;
use hearth::identity::DeviceIdentity;
use hearth::ids::Uuid;
use hearth::messaging::{
    cancel_file, delete_message, delete_payload, edit_message, edit_payload, file_offer, finish_file,
    finish_text, leave_group, leave_payload, mark_read, send_file, send_text, send_typing,
    source_path, text_payload,
};
use hearth::payload::ChatPayload;
use hearth::records::Contact;

fn setup() -> (Database, DeviceIdentity, DeviceIdentity, String) {
    let mut db = Database::in_memory();
    let ada = DeviceIdentity::generate();
    let bob = DeviceIdentity::generate();
    db.save_profile("ada", "Ada", 1);
    db.upsert_contact(
        &Contact {
            username: "bob".into(),
            display_name: "Bob".into(),
            x25519_pubkey: Some(bob.public().x_pubkey.to_vec()),
            ed_pubkey: Some(bob.public().ed_pubkey.to_vec()),
            endpoint_id: None,
            endpoint_bundle: None,
            status: "friend".into(),
        },
        1,
    );
    let id = Uuid::new_v4().to_text();
    db.create_conversation(&id, "dm", "", &vec!["bob".into()], 2);
    (db, ada, bob, id)
}

fn say(db: &mut Database, ada: &DeviceIdentity, id: &str, body: &str) -> String {
    let payload = text_payload(db, id, body, &None).unwrap();
    send_text(
        db,
        ada,
        ada.device_id,
        id,
        &payload,
        body.as_bytes(),
        Uuid::new_v4(),
        Uuid::new_v4(),
        5,
    )
    .unwrap()
    .message_id
}

#[test]
fn texts_are_sealed_staged_and_settled() {
    let (mut db, ada, bob, id) = setup();
    let payload = text_payload(&db, &id, "  hello ", &Some("m0".into())).unwrap();
    match &payload {
        ChatPayload::Text { from, body, reply_to, epoch } => {
            assert_eq!((from.as_str(), body.as_str()), ("ada", "hello"));
            assert_eq!(reply_to.as_deref(), Some("m0"));
            assert_eq!(*epoch, None);
        }
        _ => panic!("expected text"),
    }
    let sent = send_text(
        &mut db,
        &ada,
        ada.device_id,
        &id,
        &payload,
        b"json",
        Uuid::new_v4(),
        Uuid::new_v4(),
        5,
    )
    .unwrap();
    assert_eq!(sent.peers, vec!["bob"]);
    assert_eq!(sent.envelope.sequence, 1);
    assert_eq!(
        open_dm_payload(&bob.x_secret, &ada.public().x_pubkey, &id, &sent.envelope.ciphertext),
        Ok(b"json".to_vec())
    );
    assert_eq!(verify_envelope_signature(&ada.public().ed_pubkey, &sent.envelope), Ok(()));
    finish_text(&mut db, &sent.message_id, 0);
    assert_eq!(db.get_message(&sent.message_id).unwrap().status, "delivered");
    finish_text(&mut db, &sent.message_id, 1);
    assert_eq!(db.get_message(&sent.message_id).unwrap().status, "queued");
}

#[test]
fn texts_are_refused_with_a_reason() {
    let (mut db, _, _, id) = setup();
    assert!(matches!(text_payload(&db, &id, "   ", &None), Err(Error::MessageLength)));
    assert!(matches!(
        text_payload(&db, &id, &"x".repeat(100_000), &None),
        Err(Error::MessageLength)
    ));
    assert!(matches!(
        text_payload(&db, "nowhere", "hi", &None),
        Err(Error::UnknownConversation)
    ));
    db.profile = None;
    assert!(matches!(text_payload(&db, &id, "hi", &None), Err(Error::NoProfile)));
}

#[test]
fn a_direct_text_needs_a_friend() {
    let (mut db, ada, _, id) = setup();
    let payload = text_payload(&db, &id, "hi", &None).unwrap();
    let mut send = |db: &mut Database, id: &str| {
        send_text(
            db,
            &ada,
            ada.device_id,
            id,
            &payload,
            b"hi",
            Uuid::new_v4(),
            Uuid::new_v4(),
            5,
        )
    };
    db.set_contact_status("bob", "blocked");
    assert!(matches!(send(&mut db, &id), Err(Error::NotAFriend)));
    db.remove_contact("bob");
    assert!(matches!(send(&mut db, &id), Err(Error::UnknownContact)));
    db.remove_conversation_member(&id, "bob");
    assert!(matches!(send(&mut db, &id), Err(Error::NoPeer)));
    assert!(db.messages.is_empty());
}

#[test]
fn own_messages_can_be_revised() {
    let (mut db, ada, _, id) = setup();
    let m = say(&mut db, &ada, &id, "hello");
    let payload = edit_payload(&db, &m, " changed ").unwrap();
    let sent = edit_message(
        &mut db,
        &ada,
        ada.device_id,
        &m,
        &payload,
        b"edit",
        Uuid::new_v4(),
        Uuid::new_v4(),
        6,
    )
    .unwrap();
    assert_eq!(sent.peers, vec!["bob"]);
    assert_eq!(db.get_message(&m).unwrap().body, "changed");
    let payload = delete_payload(&db, &m).unwrap();
    delete_message(
        &mut db,
        &ada,
        ada.device_id,
        &m,
        &payload,
        b"delete",
        Uuid::new_v4(),
        Uuid::new_v4(),
        7,
    )
    .unwrap();
    assert_eq!(db.get_message(&m).unwrap().deleted_at_ms, Some(7));
    // In a direct conversation only stored messages take a number.
    assert_eq!(sent.envelope.sequence, 2);
    assert_eq!(db.next_sequence(&id, &ada.device_id.to_text()), Ok(2));
    assert!(db.list_messages(&id, 10).is_empty());
    assert!(matches!(edit_payload(&db, "m9", "x"), Err(Error::MessageNotFound)));
    db.messages[0].sender_username = "bob".into();
    assert!(matches!(edit_payload(&db, &m, "x"), Err(Error::NotYourMessage)));
    assert!(matches!(delete_payload(&db, &m), Err(Error::NotYourMessage)));
}

#[test]
fn leaving_a_group_drops_its_keys() {
    let (mut db, ada, _, _) = setup();
    let (group, _) = create_group(&mut db, &ada, "ada", "Squad", &vec!["bob".into()], 3).unwrap();
    assert!(db.load_wrapped_group_key(&group, 1, "ada").is_some());
    let payload = leave_payload(&db, &group).unwrap();
    match payload {
        ChatPayload::Text { body, epoch, .. } => {
            assert_eq!(body, "@ada left the group");
            assert_eq!(epoch, Some(1));
        }
        _ => panic!("expected a farewell"),
    }
    let sent = leave_group(
        &mut db,
        &ada,
        ada.device_id,
        &group,
        b"bye",
        Uuid::new_v4(),
        Uuid::new_v4(),
        6,
    )
    .unwrap();
    assert_eq!(sent.peers, vec!["bob"]);
    assert!(db.load_wrapped_group_key(&group, 1, "ada").is_none());
    assert!(db.has_conversation(&group));
    assert!(!db.is_member(&group, "ada"));
}

#[test]
fn files_are_offered_and_cancelled() {
    let (mut db, ada, _, id) = setup();
    let file_id = Uuid::new_v4();
    let (payload, chunks) =
        file_offer(&db, &id, "a.bin", "", b"data", file_id, [4u8; 32]).unwrap();
    assert_eq!(chunks.len(), 1);
    let sent = send_file(
        &mut db,
        &ada,
        ada.device_id,
        &id,
        &payload,
        b"offer",
        "{}",
        "files",
        Uuid::new_v4(),
        Uuid::new_v4(),
        6,
    )
    .unwrap();
    assert_eq!(sent.peers, vec!["bob"]);
    let file = db.load_file(&file_id.to_text()).unwrap();
    assert_eq!(file.size_bytes, 4);
    assert_eq!(source_path("files", "f1"), "files/f1.src");
    finish_file(&mut db, &id, &file_id.to_text(), 7);
    let plan = cancel_file(&mut db, &file_id.to_text(), 8).unwrap();
    assert_eq!(plan.conversation_id, id);
    assert!(matches!(plan.payload, ChatPayload::FileCancel { .. }));
    assert_eq!(db.load_file(&file_id.to_text()).unwrap().state, "cancelled");
    assert!(matches!(cancel_file(&mut db, "f9", 8), Err(Error::UnknownFile)));
}

#[test]
fn receipts_and_typing_are_planned() {
    let (mut db, ada, _, id) = setup();
    let m = say(&mut db, &ada, &id, "hello");
    db.messages[0].sender_username = "bob".into();
    let plan = mark_read(&mut db, &id, &vec![m.clone()]).unwrap();
    assert_eq!(plan.peers, vec!["bob"]);
    assert_eq!(db.get_message(&m).unwrap().status, "read");
    match plan.payload {
        ChatPayload::Read { from, ref_ids } => {
            assert_eq!(from, "ada");
            assert_eq!(ref_ids, vec![m]);
        }
        _ => panic!("expected a receipt"),
    }
    let plan = send_typing(&db, &id, true).unwrap().unwrap();
    assert!(matches!(plan.payload, ChatPayload::Typing { typing: true, .. }));
}

#[test]
fn every_group_seal_has_a_number_of_its_own() {
    let (mut db, ada, _, _) = setup();
    let (group, _) = create_group(&mut db, &ada, "ada", "Squad", &vec!["bob".into()], 3).unwrap();
    let m = say(&mut db, &ada, &group, "hello");
    let payload = edit_payload(&db, &m, "changed").unwrap();
    let edit = edit_message(
        &mut db,
        &ada,
        ada.device_id,
        &m,
        &payload,
        b"edit",
        Uuid::new_v4(),
        Uuid::new_v4(),
        6,
    )
    .unwrap();
    assert_eq!(edit.envelope.sequence, 2);
    let again = say(&mut db, &ada, &group, "again");
    assert_eq!(db.get_message(&again).unwrap().sequence, 3);
    let payload = delete_payload(&db, &m).unwrap();
    let gone = delete_message(
        &mut db,
        &ada,
        ada.device_id,
        &m,
        &payload,
        b"delete",
        Uuid::new_v4(),
        Uuid::new_v4(),
        7,
    )
    .unwrap();
    assert_eq!(gone.envelope.sequence, 4);
    let farewell = leave_group(
        &mut db,
        &ada,
        ada.device_id,
        &group,
        b"bye",
        Uuid::new_v4(),
        Uuid::new_v4(),
        8,
    )
    .unwrap();
    assert_eq!(farewell.envelope.sequence, 5);
    assert_ne!(edit.envelope.ciphertext[..12], gone.envelope.ciphertext[..12]);
}
