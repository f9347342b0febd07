use hearth::database::Database;
use hearth::error::Error;
use hearth::identity::{DeviceIdentity, KeyBackend};
use hearth::ids::Uuid;
use hearth::payload::PresenceStatus;
use hearth::records::{Contact, Message};
use hearth::shell::{
    app_state, broadcast_presence, chat_display_name, choose_dial, cloud_worker_url,
    coordinator_for, create_local_profile, dial_target, list_chats, list_friends, my_display_name,
    my_username, notification, open_chat, presence_key, publish_ask, register_self,
    search_messages, set_coordinator, start_device, ChosenCoordinator, DialChoice,
};
use hearth::transport::encode_bundle;

fn contact(username: &str, status: &str) -> Contact {
    Contact {
        username: username.into(),
        display_name: username.to_uppercase(),
        x25519_pubkey: Some(vec![9; 32]),
        ed_pubkey: None,
        endpoint_id: Some(format!("node-{username}")),
        endpoint_bundle: None,
        status: status.into(),
    }
}

fn setup() -> Database {
    let mut db = Database::in_memory();
    db.save_profile("ada", "Ada", 1);
    db.upsert_contact(&contact("bob", "friend"), 1);
    db.create_conversation("c1", "dm", "", &vec!["bob".into()], 2);
    db.create_conversation("c2", "group", "Squad", &vec!["ada".into(), "bob".into()], 3);
    db.insert_message(&Message {
        id: "m1".into(),
        conversation_id: "c1".into(),
        sender_device_id: "d".into(),
        sender_username: "bob".into(),
        message_type: "Message".into(),
        body: "Hello there".into(),
        ciphertext: vec![1],
        sequence: 1,
        status: "delivered".into(),
        reply_to: None,
        created_at_ms: 4,
        edited_at_ms: None,
        deleted_at_ms: None,
    })
    .unwrap();
    db
}

#[test]
fn chats_are_listed_with_names_and_unread_counts() {
    let db = setup();
    let list = list_chats(&db);
    assert_eq!(list.len(), 2);
    assert_eq!(list[0].name, "BOB");
    assert_eq!(list[0].unread, 1);
    assert_eq!(list[0].preview.as_deref(), Some("Hello there"));
    assert_eq!(list[1].name, "Squad");
    let conversations = db.list_conversations();
    assert_eq!(chat_display_name(&db, &conversations[1]), "Squad");
    let detail = open_chat(&db, "c1").unwrap();
    assert_eq!(detail.messages.len(), 1);
    assert_eq!(detail.newly_read, vec!["m1"]);
    assert!(matches!(open_chat(&db, "c9"), Err(Error::UnknownConversation)));
}

#[test]
fn searches_have_bounds() {
    let db = setup();
    assert_eq!(search_messages(&db, "c1", "hello").unwrap().len(), 1);
    assert!(search_messages(&db, "c1", "absent").unwrap().is_empty());
    assert!(matches!(search_messages(&db, "c1", " "), Err(Error::SearchLength)));
}

#[test]
fn friends_are_listed_with_their_connection() {
    let mut db = setup();
    db.upsert_contact(&contact("cara", "blocked"), 1);
    let view = list_friends(&db, &vec!["node-bob".to_string()]);
    assert_eq!(view.contacts.len(), 2);
    assert!(view.contacts[0].seen);
    assert!(!view.contacts[1].seen);
    assert!(view.incoming.is_empty());
}

#[test]
fn dialing_prefers_the_bundle() {
    let mut db = setup();
    let options = dial_target(&db, "bob").unwrap();
    assert_eq!(options.address_json, None);
    assert_eq!(options.endpoint_id.as_deref(), Some("node-bob"));
    let mut bob = contact("bob", "friend");
    bob.endpoint_bundle = Some(encode_bundle(b"{}"));
    db.upsert_contact(&bob, 2);
    assert_eq!(dial_target(&db, "bob").unwrap().address_json, Some(b"{}".to_vec()));
    assert!(dial_target(&db, "nobody").is_err());
    assert_eq!(choose_dial(true, true, true), Ok(DialChoice::Bundle));
    assert_eq!(choose_dial(false, true, true), Ok(DialChoice::Cached));
    assert_eq!(choose_dial(false, true, false), Ok(DialChoice::EndpointOnly));
    assert_eq!(choose_dial(false, false, true), Err(Error::NoAddress));
}

#[test]
fn presence_goes_to_friends() {
    let mut db = setup();
    db.upsert_contact(&contact("cara", "blocked"), 1);
    let drafts = broadcast_presence(&db, PresenceStatus::Away);
    assert_eq!(drafts.len(), 1);
    assert_eq!(drafts[0].peer_username, "bob");
    assert_eq!(presence_key(PresenceStatus::Dnd), "dnd");
}

#[test]
fn notifications_respect_do_not_disturb() {
    assert!(notification("hi", PresenceStatus::Online, false).is_some());
    assert!(notification("hi", PresenceStatus::Dnd, false).is_none());
    assert!(notification("hi", PresenceStatus::Online, true).is_none());
}

#[test]
fn the_coordinator_is_a_setting() {
    let mut db = setup();
    assert!(matches!(coordinator_for(&db), ChosenCoordinator::Local(_)));
    assert!(matches!(
        set_coordinator(&mut db, "carrier pigeon", ""),
        Err(Error::UnknownCoordinator)
    ));
    assert!(matches!(set_coordinator(&mut db, "cloudflare", " "), Err(Error::NoWorkerUrl)));
    set_coordinator(&mut db, "cloudflare", "https://worker.example").unwrap();
    match coordinator_for(&db) {
        ChosenCoordinator::Cloud(url) => assert_eq!(url, "https://worker.example"),
        _ => panic!("expected the cloud"),
    }
    assert_eq!(cloud_worker_url(&db).as_deref(), Some("https://worker.example"));
    let view = app_state(&db, KeyBackend::File);
    assert_eq!(view.coordinator, "cloudflare");
    assert_eq!(view.profile, Some(("ada".into(), "Ada".into())));
    set_coordinator(&mut db, "local", "").unwrap();
    assert!(matches!(coordinator_for(&db), ChosenCoordinator::Local(_)));
}

#[test]
fn the_profile_is_published() {
    let mut db = Database::in_memory();
    let device = DeviceIdentity::generate();
    assert_eq!(my_username(&db), Err(Error::NoProfile));
    assert!(register_self(&db, &device, "node", "bund", 5).is_err());
    create_local_profile(&mut db, &device, device.device_id, " Ada ", "Ada L", 3).unwrap();
    assert_eq!(my_username(&db), Ok("ada".into()));
    assert_eq!(my_display_name(&db), "Ada L");
    assert_eq!(db.load_device().unwrap().username, "ada");
    let record = register_self(&db, &device, "node", "bund", 5).unwrap();
    assert_eq!(record.username, "ada");
    assert_eq!(record.x_pubkey_hex, hearth::bytes::hex_encode(&device.public().x_pubkey));
    let id = Uuid::new_v4();
    assert!(matches!(publish_ask(&db, &device, id, 6), Err(Error::NoSharedServer)));
    set_coordinator(&mut db, "cloudflare", "https://worker.example").unwrap();
    let directive = publish_ask(&db, &device, id, 6).unwrap();
    assert_eq!(directive.from_username, "ada");
    assert_eq!(directive.id, id.to_text());
}

#[test]
fn a_device_keeps_its_id() {
    let mut db = Database::in_memory();
    let device = DeviceIdentity::generate();
    let fresh = Uuid::new_v4();
    assert_eq!(start_device(&mut db, &device, "node-1", fresh, 5), fresh);
    assert_eq!(db.get_setting("coordinator").as_deref(), Some("local"));
    assert_eq!(db.get_setting("relay_enabled").as_deref(), Some("1"));
    assert_eq!(db.load_device().unwrap().iroh_endpoint_id, "node-1");
    db.save_profile("ada", "Ada", 6);
    db.set_setting("relay_enabled", "0");
    assert_eq!(start_device(&mut db, &device, "node-2", Uuid::new_v4(), 7), fresh);
    assert_eq!(db.get_setting("relay_enabled").as_deref(), Some("0"));
    let record = db.load_device().unwrap();
    assert_eq!((record.username.as_str(), record.iroh_endpoint_id.as_str()), ("ada", "node-2"));
    db.devices[0].id = "not an id".into();
    let other = Uuid::new_v4();
    assert_eq!(start_device(&mut db, &device, "node-2", other, 8), other);
}
