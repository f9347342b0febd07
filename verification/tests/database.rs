use hearth::database::Database;
use hearth::error::Error;
use hearth::records::{Contact, DeviceRecord, FileTransfer, FriendRequest, Message};

fn contact(username: &str, status: &str) -> Contact {
    Contact {
        username: username.into(),
        display_name: username.to_uppercase(),
        x25519_pubkey: None,
        ed_pubkey: None,
        endpoint_id: None,
        endpoint_bundle: None,
        status: status.into(),
    }
}

fn message(id: &str, conversation: &str, sequence: i64) -> Message {
    Message {
        id: id.into(),
        conversation_id: conversation.into(),
        sender_device_id: "dev-1".into(),
        sender_username: "ada".into(),
        message_type: "Message".into(),
        body: "hello".into(),
        ciphertext: vec![9],
        sequence,
        status: "local".into(),
        reply_to: None,
        created_at_ms: 3,
        edited_at_ms: None,
        deleted_at_ms: None,
    }
}

fn with_dm() -> Database {
    let mut db = Database::in_memory();
    db.create_conversation("conv-1", "dm", "", &vec!["bob".to_string()], 1);
    db
}

#[test]
fn migrates_and_persists_profile() {
    let mut db = Database::in_memory();
    assert!(!db.profile_exists());
    db.save_profile("ada", "Ada", 1);
    assert!(db.profile_exists());
    assert_eq!(db.load_profile(), Some(("ada".to_string(), "Ada".to_string())));
}

#[test]
fn friends_and_dm_lifecycle() {
    let mut db = Database::in_memory();
    db.upsert_contact(
        &Contact {
            username: "bob".into(),
            display_name: "Bob".into(),
            x25519_pubkey: None,
            ed_pubkey: None,
            endpoint_id: None,
            endpoint_bundle: None,
            status: "friend".into(),
        },
        1,
    );
    assert_eq!(db.list_contacts().len(), 1);
    assert!(db.find_dm_with("bob").is_none());
    db.create_conversation("conv-1", "dm", "", &vec!["bob".to_string()], 2);
    assert_eq!(db.find_dm_with("bob"), Some("conv-1".to_string()));
    assert!(db.remove_contact("bob"));
    assert!(db.list_contacts().is_empty());
}

#[test]
fn an_update_replaces_the_whole_contact() {
    let mut db = Database::in_memory();
    let mut bob = contact("bob", "pending");
    bob.x25519_pubkey = Some(vec![1; 32]);
    bob.endpoint_bundle = Some("bundle".into());
    db.upsert_contact(&bob, 1);
    db.upsert_contact(&contact("bob", "friend"), 2);
    let kept = db.find_contact("bob").unwrap();
    assert_eq!(kept.status, "friend");
    assert_eq!(kept.x25519_pubkey, None);
    assert_eq!(kept.endpoint_bundle, None);
    db.upsert_contact(&contact("Ada", "friend"), 3);
    db.set_contact_status("bob", "blocked");
    let names: Vec<String> = db.list_contacts().into_iter().map(|c| c.username).collect();
    assert_eq!(names, vec!["Ada", "bob"]);
    assert!(!db.remove_contact("nobody"));
}

#[test]
fn messages_are_idempotent() {
    let mut db = Database::in_memory();
    db.create_conversation("conv-1", "dm", "", &vec!["bob".to_string()], 1);
    let message = Message {
        id: "msg-1".into(),
        conversation_id: "conv-1".into(),
        sender_device_id: "dev-1".into(),
        sender_username: "ada".into(),
        message_type: "Message".into(),
        body: "hello".into(),
        ciphertext: vec![9],
        sequence: 1,
        status: "local".into(),
        reply_to: None,
        created_at_ms: 3,
        edited_at_ms: None,
        deleted_at_ms: None,
    };
    assert!(db.insert_message(&message).unwrap());
    assert!(!db.insert_message(&message).unwrap());
    assert_eq!(db.list_messages("conv-1", 50).len(), 1);
    assert_eq!(db.next_sequence("conv-1", "dev-1").unwrap(), 2);
}

#[test]
fn messages_need_their_conversation() {
    let mut db = with_dm();
    assert_eq!(db.insert_message(&message("m1", "nowhere", 1)), Err(Error::Constraint));
    assert_eq!(db.insert_message(&message("m1", "conv-1", i64::MAX)), Ok(true));
    assert_eq!(db.next_sequence("conv-1", "dev-1"), Err(Error::SequenceExhausted));
    // The same number of the same device is a redelivery, whatever its id.
    assert_eq!(db.insert_message(&message("m2", "conv-1", i64::MAX)), Ok(false));
    assert_eq!(db.get_message("m1").unwrap().body, "hello");
    assert!(db.get_message("m2").is_none());
}

#[test]
fn threads_come_in_order_of_time() {
    let mut db = with_dm();
    let mut receipt = message("m0", "conv-1", 1);
    receipt.message_type = "ReadAck".into();
    db.insert_message(&receipt).unwrap();
    for (id, at) in [("m1", 30), ("m2", 10), ("m3", 20)] {
        let mut m = message(id, "conv-1", at);
        m.created_at_ms = at;
        db.insert_message(&m).unwrap();
    }
    let ids: Vec<String> = db.list_messages("conv-1", 2).into_iter().map(|m| m.id).collect();
    assert_eq!(ids, vec!["m2", "m3"]);
    assert_eq!(db.list_messages("conv-1", 0).len(), 0);
}

#[test]
fn edits_and_deletions_are_visible() {
    let mut db = with_dm();
    db.insert_message(&message("m1", "conv-1", 1)).unwrap();
    db.edit_message("m1", "hello again", &[4, 5], 9);
    let m = db.get_message("m1").unwrap();
    assert_eq!((m.body.as_str(), m.edited_at_ms), ("hello again", Some(9)));
    assert_eq!(m.ciphertext, vec![4, 5]);
    assert_eq!(db.search_messages("conv-1", "AGAIN", 10).len(), 1);
    assert_eq!(db.unread_count("conv-1", "bob"), 0);
    db.set_message_status("m1", "delivered");
    assert_eq!(db.unread_count("conv-1", "bob"), 1);
    assert_eq!(db.unread_count("conv-1", "ada"), 0);
    db.set_message_status("m1", "read");
    assert_eq!(db.unread_count("conv-1", "bob"), 0);
    db.tombstone_message("m1", 11);
    let m = db.get_message("m1").unwrap();
    assert_eq!((m.body.as_str(), m.deleted_at_ms), ("", Some(11)));
    assert!(db.search_messages("conv-1", "again", 10).is_empty());
}

#[test]
fn pending_queue_backoff_and_dequeue() {
    let mut db = Database::in_memory();
    db.create_conversation("conv-1", "dm", "", &vec!["bob".to_string()], 1);
    let message = Message {
        id: "msg-1".into(),
        conversation_id: "conv-1".into(),
        sender_device_id: "dev-1".into(),
        sender_username: "ada".into(),
        message_type: "MESSAGE".into(),
        body: "hi".into(),
        ciphertext: vec![7],
        sequence: 1,
        status: "queued".into(),
        reply_to: None,
        created_at_ms: 2,
        edited_at_ms: None,
        deleted_at_ms: None,
    };
    db.insert_message(&message).unwrap();
    db.enqueue_pending("p-1", "msg-1", "peer-bob", 10, "queued").unwrap();
    assert_eq!(db.list_due_pending(11, 10).len(), 1);
    assert!(db.list_due_pending(9, 10).is_empty());
    db.backoff_pending("msg-1", 99);
    assert!(db.list_due_pending(50, 10).is_empty());
    db.dequeue_pending("msg-1");
    assert!(db.list_due_pending(100, 10).is_empty());
    assert_eq!(
        db.enqueue_pending("p-2", "no-message", "peer-bob", 10, "queued"),
        Err(Error::Constraint)
    );
}

#[test]
fn wipe_user_data_clears_identity_but_keeps_settings() {
    let mut db = Database::in_memory();
    db.save_profile("ada", "Ada", 1);
    db.set_setting("coordinator", "local");
    db.upsert_contact(&contact("bob", "friend"), 2);
    db.create_conversation("conv-1", "dm", "", &vec!["bob".to_string()], 3);
    db.enqueue_handshake("m-1", "bob", "{}", 10);
    db.wipe_user_data();
    assert!(!db.profile_exists());
    assert!(db.list_contacts().is_empty());
    assert!(db.list_conversations().is_empty());
    assert!(db.list_due_handshakes(1000, 10).is_empty());
    assert_eq!(db.get_setting("coordinator"), Some("local".to_string()));
}

#[test]
fn handshake_queue_roundtrip_with_backoff() {
    let mut db = Database::in_memory();
    assert!(db.list_due_handshakes(100, 10).is_empty());
    db.enqueue_handshake("m-1", "bob", "{\"a\":1}", 10);
    // Queued again, it keeps a single row per message.
    db.enqueue_handshake("m-1", "bob", "{\"a\":1}", 12);
    assert!(db.list_due_handshakes(11, 10).is_empty());
    assert_eq!(db.list_due_handshakes(12, 10).len(), 1);
    db.backoff_handshake("m-1", 99);
    let due = db.list_due_handshakes(99, 10);
    assert_eq!(due.len(), 1);
    assert_eq!(due[0].attempt_count, 1);
    db.dequeue_handshake("m-1");
    assert!(db.list_due_handshakes(100, 10).is_empty());
}

#[test]
fn stash_dedupes_and_expires() {
    let mut db = Database::in_memory();
    assert!(db.stash_envelope("m-1", "node-x", "{}", 10, 100));
    assert!(!db.stash_envelope("m-1", "node-x", "{}", 11, 100));
    db.stash_envelope("m-old", "node-x", "{}", 10, 20);
    let live = db.list_stash(50);
    assert_eq!(live.len(), 1);
    assert_eq!(live[0].message_id, "m-1");
    db.unstash("m-1");
    assert!(db.list_stash(50).is_empty());
}

#[test]
fn the_stash_is_bounded() {
    let mut db = Database::in_memory();
    for i in 0..210 {
        db.stash_envelope(&format!("m-{i}"), "node-x", "{}", i, 10_000);
    }
    let kept = db.list_stash(500);
    assert_eq!(kept.len(), 200);
    assert_eq!(kept[0].message_id, "m-10");
    assert_eq!(kept[199].message_id, "m-209");
}

#[test]
fn mailbox_spool_collect_ack_expire() {
    let mut db = Database::in_memory();
    db.spool_mailbox("m-1", "bob", "{\"a\":1}", 10, 100);
    db.spool_mailbox("m-2", "bob", "{\"a\":2}", 11, 12);
    assert_eq!(db.collect_mailbox("bob", 50).len(), 1);
    db.ack_mailbox("m-1");
    assert!(db.collect_mailbox("bob", 50).is_empty());
    assert_eq!(db.expire_mailbox(50), 1);
}

#[test]
fn requests_are_listed_newest_first() {
    let mut db = Database::in_memory();
    for (id, status, at) in [("r1", "pending", 1), ("r2", "accepted", 2), ("r3", "pending", 3)] {
        db.save_friend_request(
            &FriendRequest {
                id: id.into(),
                direction: "in".into(),
                peer_username: "bob".into(),
                peer_display_name: "Bob".into(),
                status: status.into(),
                created_at_ms: at,
            },
            at,
        );
    }
    let ids: Vec<String> =
        db.list_friend_requests(Some("pending")).into_iter().map(|r| r.id).collect();
    assert_eq!(ids, vec!["r3", "r1"]);
    assert_eq!(db.list_friend_requests(None).len(), 3);
    db.set_friend_request_status("r1", "rejected", 5);
    assert_eq!(db.list_friend_requests(Some("pending")).len(), 1);
}

#[test]
fn conversations_carry_their_members_and_history() {
    let mut db = with_dm();
    db.create_conversation("conv-2", "group", "Squad", &vec!["bob".into(), "ada".into()], 5);
    db.insert_message(&message("m1", "conv-1", 1)).unwrap();
    db.set_conversation_preview("conv-1", "hello", 9);
    let list = db.list_conversations();
    assert_eq!(list[0].id, "conv-1");
    assert_eq!(list[0].last_message_preview.as_deref(), Some("hello"));
    assert_eq!(list[1].members, vec!["ada", "bob"]);
    db.rename_conversation("conv-2", "Crew", 10);
    assert_eq!(db.get_conversation("conv-2").unwrap().name, "Crew");
    db.remove_conversation_member("conv-2", "bob");
    assert_eq!(db.conversation_members("conv-2"), vec!["ada"]);
    assert_eq!(db.set_conversation_members("conv-2", &vec!["cara".into()], 11), Ok(()));
    assert!(db.is_member("conv-2", "cara"));
    assert_eq!(
        db.set_conversation_members("nowhere", &vec!["cara".into()], 11),
        Err(Error::Constraint)
    );
    db.delete_conversation("conv-1");
    assert!(!db.has_conversation("conv-1"));
    assert!(db.get_message("m1").is_none());
}

#[test]
fn groups_and_their_keys() {
    let mut db = Database::in_memory();
    assert_eq!(db.save_group("g", "Squad", 1, 1), Err(Error::Constraint));
    db.create_conversation("g", "group", "Squad", &vec!["ada".into(), "bob".into()], 1);
    assert_eq!(db.save_group("g", "Squad", 1, 1), Ok(()));
    assert_eq!(db.load_group("g").unwrap().members, vec!["ada", "bob"]);
    assert_eq!(db.save_wrapped_group_key("g", 1, "bob", &[1, 2]), Ok(()));
    assert_eq!(db.save_wrapped_group_key("nowhere", 1, "bob", &[1]), Err(Error::Constraint));
    assert_eq!(db.load_wrapped_group_key("g", 1, "bob"), Some(vec![1, 2]));
    db.delete_wrapped_keys_for("g", "bob");
    assert_eq!(db.load_wrapped_group_key("g", 1, "bob"), None);
}

#[test]
fn files_are_tracked() {
    let mut db = with_dm();
    let mut file = FileTransfer {
        id: "f1".into(),
        conversation_id: "conv-1".into(),
        filename: "notes.txt".into(),
        mime_type: "text/plain".into(),
        size_bytes: 10,
        sha256_hex: "aa".into(),
        state: "offered".into(),
        bytes_done: 0,
        local_path: None,
        created_at_ms: 4,
    };
    assert_eq!(db.save_file(&file, 4), Ok(()));
    file.bytes_done = 7;
    file.state = "active".into();
    assert_eq!(db.save_file(&file, 5), Ok(()));
    assert_eq!(db.load_file("f1").unwrap().bytes_done, 7);
    assert_eq!(db.list_files("conv-1").len(), 1);
    file.conversation_id = "nowhere".into();
    file.id = "f2".into();
    assert_eq!(db.save_file(&file, 6), Err(Error::Constraint));
}

#[test]
fn cursors_never_move_back() {
    let mut db = with_dm();
    db.update_sync_cursor("bob", "conv-1", 7, 1);
    db.update_sync_cursor("bob", "conv-1", 5, 2);
    assert_eq!(db.cursors.len(), 1);
    assert_eq!(db.cursors[0].last_sequence, 7);
    db.update_sync_cursor("bob", "conv-1", 9, 3);
    assert_eq!(db.cursors[0].last_sequence, 9);
}

#[test]
fn devices_are_replaced_by_newer_ones() {
    let mut db = Database::in_memory();
    assert!(db.load_device().is_none());
    for (id, at) in [("d1", 1), ("d2", 9), ("d3", 5)] {
        db.save_device(&DeviceRecord {
            id: id.into(),
            username: "ada".into(),
            device_name: "desk".into(),
            ed25519_pubkey: vec![1],
            x25519_pubkey: vec![2],
            iroh_endpoint_id: "".into(),
            created_at_ms: at,
            revoked_at_ms: None,
        });
    }
    assert_eq!(db.load_device().unwrap().id, "d2");
}

#[test]
fn searching_takes_every_character() {
    let mut db = Database::in_memory();
    db.create_conversation("c", "dm", "", &vec!["bob".into()], 1);
    let mut stored = message("m1", "c", 1);
    stored.body = "my snake_case name".into();
    db.insert_message(&stored).unwrap();
    let found = db.search_messages("c", "SNAKE_case", 50);
    assert_eq!(found.len(), 1);
    assert_eq!(found[0].id, "m1");
    assert!(db.search_messages("c", "snakecase", 50).is_empty());
    assert!(db.search_messages("c", "snake%", 50).is_empty());
}

#[test]
fn used_numbers_are_not_given_again() {
    let mut db = with_dm();
    assert_eq!(db.next_sequence("conv-1", "dev-1"), Ok(1));
    db.use_number("conv-1", "dev-1", false, 4);
    db.use_number("conv-1", "dev-1", false, 2);
    assert_eq!(db.used_number("conv-1", "dev-1", false), Some(4));
    assert_eq!(db.used_number("conv-1", "dev-1", true), None);
    assert_eq!(db.next_sequence("conv-1", "dev-1"), Ok(5));
    assert_eq!(db.next_sequence("conv-1", "dev-2"), Ok(1));
    db.insert_message(&message("m1", "conv-1", 9)).unwrap();
    assert_eq!(db.next_sequence("conv-1", "dev-1"), Ok(10));
}
