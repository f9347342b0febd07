use hearth::bytes::{hex_decode_32, hex_encode};
use hearth::database::Database;
use hearth::envelope::{open_dm_payload, seal_group_payload};
use hearth::error::Error;
use hearth::friends::{seal_draft, Draft};
use hearth::groups::{
    add_members, create_group, create_group_as, group_text, open_group_best, open_group_text, own_epoch_key,
    receive_group_key, remove_members, rename_group, rotate_epoch, rotate_epoch_as, seal_group_draft_as,
    seal_group_text, store_own_epoch_wrap, SHARE_NUMBERS,
};
use hearth::identity::DeviceIdentity;
use hearth::ids::Uuid;
use hearth::payload::ChatPayload;
use hearth::records::Contact;
use serde_json::Value;

fn write(payload: &ChatPayload) -> Vec<u8> {
    let mut fields = serde_json::Map::new();
    match payload {
        ChatPayload::Text { from, body, reply_to, epoch } => {
            fields.insert("kind".into(), Value::from("text"));
            fields.insert("from".into(), Value::from(from.as_str()));
            fields.insert("body".into(), Value::from(body.as_str()));
            fields.insert("reply_to".into(), Value::from(reply_to.clone()));
            fields.insert("epoch".into(), Value::from(*epoch));
        }
        ChatPayload::GroupKey {
            from,
            group_id,
            epoch,
            members,
            group_name,
            wrapped_key,
            wrapper_x_pub_hex,
        } => {
            fields.insert("kind".into(), Value::from("group_key"));
            fields.insert("from".into(), Value::from(from.as_str()));
            fields.insert("group_id".into(), Value::from(group_id.as_str()));
            fields.insert("epoch".into(), Value::from(*epoch));
            fields.insert("members".into(), Value::from(members.clone()));
            fields.insert("group_name".into(), Value::from(group_name.as_str()));
            fields.insert("wrapped_key".into(), Value::from(wrapped_key.clone()));
            fields.insert("wrapper_x_pub_hex".into(), Value::from(wrapper_x_pub_hex.as_str()));
        }
        _ => panic!("not written here"),
    }
    serde_json::to_vec(&Value::Object(fields)).unwrap()
}

fn read(json: &[u8]) -> ChatPayload {
    let value: Value = serde_json::from_slice(json).unwrap();
    let text = |name: &str| value[name].as_str().unwrap().to_string();
    if value["kind"] == "text" {
        ChatPayload::Text {
            from: text("from"),
            body: text("body"),
            reply_to: value["reply_to"].as_str().map(|s| s.to_string()),
            epoch: value["epoch"].as_i64(),
        }
    } else {
        ChatPayload::GroupKey {
            from: text("from"),
            group_id: text("group_id"),
            epoch: value["epoch"].as_i64().unwrap(),
            members: value["members"]
                .as_array()
                .unwrap()
                .iter()
                .map(|m| m.as_str().unwrap().to_string())
                .collect(),
            group_name: text("group_name"),
            wrapped_key: value["wrapped_key"]
                .as_array()
                .unwrap()
                .iter()
                .map(|b| b.as_u64().unwrap() as u8)
                .collect(),
            wrapper_x_pub_hex: text("wrapper_x_pub_hex"),
        }
    }
}

fn befriend(db: &mut Database, friend: &str, friend_x_hex: &str, now: i64) {
    db.upsert_contact(
        &Contact {
            username: friend.into(),
            display_name: friend.into(),
            x25519_pubkey: Some(hex_decode_32(friend_x_hex).unwrap().to_vec()),
            ed_pubkey: None,
            endpoint_id: Some(format!("node-{friend}")),
            endpoint_bundle: None,
            status: "friend".into(),
        },
        now,
    );
}

fn member_db(friend: &str, friend_x_hex: &str) -> Database {
    let mut db = Database::in_memory();
    befriend(&mut db, friend, friend_x_hex, 1);
    db
}

fn sealed(identity: &DeviceIdentity, device: Uuid, draft: &Draft, now: i64) -> Vec<u8> {
    seal_draft(identity, device, draft, &write(&draft.payload), now).unwrap().envelope.ciphertext
}

#[test]
fn group_create_message_and_rotation() {
    let ada = DeviceIdentity::generate();
    let bob = DeviceIdentity::generate();
    let ada_pub = ada.public();
    let bob_pub = bob.public();
    let ada_hex = hex_encode(&ada_pub.x_pubkey);
    let bob_hex = hex_encode(&bob_pub.x_pubkey);
    let mut ada_db = member_db("bob", &bob_hex);
    let mut bob_db = member_db("ada", &ada_hex);
    let device = Uuid::new_v4();

    // Ada creates the group; Bob gets the group key.
    let (group_id, works) =
        create_group(&mut ada_db, &ada, "ada", "Roblox squad", &vec!["bob".to_string()], 10)
            .unwrap();
    assert_eq!(works.len(), 1);
    let key_payload = read(
        &open_dm_payload(
            &bob.x_secret,
            &ada_pub.x_pubkey,
            &group_id,
            &sealed(&ada, device, &works[0], 10),
        )
        .unwrap(),
    );
    let epoch = match &key_payload {
        ChatPayload::GroupKey { epoch, .. } => *epoch,
        _ => panic!("expected group key"),
    };
    assert_eq!(epoch, 1);
    // Bob stores the group and his wrap, then both sides can chat.
    receive_group_key(&mut bob_db, "bob", &key_payload, 11).unwrap();
    let bob_group = bob_db.load_group(&group_id).unwrap();
    assert_eq!(bob_group.members.len(), 2);

    // Ada seals a group text; Bob opens it with the epoch key.
    let text = group_text(&ada_db, &group_id, "ada", "ready up", &None).unwrap();
    let (ciphertext, used_epoch) =
        seal_group_text(&ada_db, &ada, &group_id, "ada", &write(&text), 1).unwrap();
    assert_eq!(used_epoch, 1);
    let opened =
        read(&open_group_text(&bob_db, &bob, &group_id, 1, "bob", 1, &ciphertext).unwrap());
    match opened {
        ChatPayload::Text { from, body, .. } => {
            assert_eq!(from, "ada");
            assert_eq!(body, "ready up");
        }
        _ => panic!("expected text"),
    }

    // Rotation on member change: the epoch moves on.
    let cara = DeviceIdentity::generate();
    let cara_hex = hex_encode(&cara.public().x_pubkey);
    befriend(&mut ada_db, "cara", &cara_hex, 12);
    befriend(&mut bob_db, "cara", &cara_hex, 12);
    let rotation =
        add_members(&mut ada_db, &ada, "ada", &group_id, &vec!["cara".to_string()], 13).unwrap();
    // Bob and Cara each get a key.
    assert_eq!(rotation.len(), 2);
    assert_eq!(ada_db.load_group(&group_id).unwrap().current_epoch, 2);

    // Bob receives his epoch-2 rotation (the shell's exact path) and can
    // read new messages, while epoch-1 history still opens.
    let bob_work = rotation.iter().find(|w| w.peer_username == "bob").unwrap();
    let bob_key_payload = read(
        &open_dm_payload(
            &bob.x_secret,
            &ada_pub.x_pubkey,
            &group_id,
            &sealed(&ada, device, bob_work, 13),
        )
        .unwrap(),
    );
    receive_group_key(&mut bob_db, "bob", &bob_key_payload, 14).unwrap();
    assert_eq!(bob_db.load_group(&group_id).unwrap().current_epoch, 2);
    let text = group_text(&ada_db, &group_id, "ada", "welcome cara", &None).unwrap();
    let (cipher2, epoch2) =
        seal_group_text(&ada_db, &ada, &group_id, "ada", &write(&text), 2).unwrap();
    assert_eq!(epoch2, 2);
    let (opened2, used) =
        open_group_best(&bob_db, &bob, &group_id, "bob", 2, &cipher2, None).unwrap();
    assert_eq!(used, 2);
    match read(&opened2) {
        ChatPayload::Text { body, .. } => assert_eq!(body, "welcome cara"),
        _ => panic!("expected text"),
    }
    // The old epoch is still readable after the rotation.
    let (opened1, used1) =
        open_group_best(&bob_db, &bob, &group_id, "bob", 1, &ciphertext, None).unwrap();
    assert_eq!(used1, 1);
    match read(&opened1) {
        ChatPayload::Text { body, .. } => assert_eq!(body, "ready up"),
        _ => panic!("expected text"),
    }
}

#[test]
fn a_removed_member_gets_no_key() {
    let ada = DeviceIdentity::generate();
    let bob_hex = hex_encode(&DeviceIdentity::generate().public().x_pubkey);
    let cara_hex = hex_encode(&DeviceIdentity::generate().public().x_pubkey);
    let mut db = member_db("bob", &bob_hex);
    befriend(&mut db, "cara", &cara_hex, 1);
    let (group, drafts) = create_group(
        &mut db,
        &ada,
        "ada",
        " Squad ",
        &vec!["cara".to_string(), "bob".to_string()],
        2,
    )
    .unwrap();
    assert_eq!(drafts.len(), 2);
    let first = own_epoch_key(&db, &ada, &group, 1, "ada").unwrap();
    let drafts = remove_members(&mut db, &ada, "ada", &group, &vec!["bob".to_string()], 3).unwrap();
    assert_eq!(drafts.len(), 1);
    assert_eq!(drafts[0].peer_username, "cara");
    assert_eq!(db.load_group(&group).unwrap().members, vec!["ada", "cara"]);
    assert_eq!(db.load_wrapped_group_key(&group, 1, "bob"), None);
    assert_eq!(db.load_wrapped_group_key(&group, 2, "bob"), None);
    let second = own_epoch_key(&db, &ada, &group, 2, "ada").unwrap();
    assert_ne!(first, second);
    assert_eq!(own_epoch_key(&db, &ada, &group, 3, "ada"), Err(Error::NoEpochKey));
    assert!(matches!(
        remove_members(&mut db, &ada, "ada", &group, &vec!["ada".to_string()], 4),
        Err(Error::RemovesSelf)
    ));
    assert_eq!(rotate_epoch(&mut db, &ada, "ada", &group, 5).unwrap().len(), 1);
    assert_eq!(db.load_group(&group).unwrap().current_epoch, 3);
}

#[test]
fn groups_are_refused_with_a_reason() {
    let ada = DeviceIdentity::generate();
    let mut db = Database::in_memory();
    let bob = || vec!["bob".to_string()];
    assert!(matches!(
        create_group(&mut db, &ada, "ada", "  ", &bob(), 1),
        Err(Error::GroupNameLength)
    ));
    assert!(matches!(
        create_group(&mut db, &ada, "ada", "Squad", &vec![], 1),
        Err(Error::GroupEmpty)
    ));
    assert!(matches!(
        create_group(&mut db, &ada, "ada", "Squad", &bob(), 1),
        Err(Error::MemberNotFriend(_))
    ));
    assert!(matches!(rotate_epoch(&mut db, &ada, "ada", "g", 1), Err(Error::UnknownGroup)));
    assert!(matches!(group_text(&db, "g", "ada", "x", &None), Err(Error::UnknownGroup)));
    assert!(matches!(
        receive_group_key(&mut db, "ada", &ChatPayload::Typing { from: "b".into(), typing: true }, 1),
        Err(Error::NotAGroupKey)
    ));
}

#[test]
fn renaming_is_announced() {
    let ada = DeviceIdentity::generate();
    let bob_hex = hex_encode(&DeviceIdentity::generate().public().x_pubkey);
    let mut db = member_db("bob", &bob_hex);
    let (group, _) =
        create_group(&mut db, &ada, "ada", "Squad", &vec!["bob".to_string()], 2).unwrap();
    let draft = rename_group(&mut db, &ada, ada.device_id, "ada", &group, " Crew ", 3).unwrap();
    assert_eq!(draft.members, vec!["bob"]);
    assert_eq!(db.load_group(&group).unwrap().name, "Crew");
    match &draft.payload {
        ChatPayload::GroupMeta { name, epoch, .. } => {
            assert_eq!(name, "Crew");
            assert_eq!(*epoch, Some(1));
        }
        _ => panic!("expected the new name"),
    }
    let envelope = seal_group_draft_as(
        &ada,
        ada.device_id,
        draft,
        b"{}",
        Uuid::new_v4(),
        Uuid::new_v4(),
        4,
    )
    .unwrap();
    assert_eq!(envelope.conversation_id.to_text(), group);
    assert_eq!(
        open_group_text(&db, &ada, &group, 1, "ada", envelope.sequence, &envelope.ciphertext),
        Ok(b"{}".to_vec())
    );
}

#[test]
fn keys_are_refused_with_a_reason() {
    let ada = DeviceIdentity::generate();
    let bob_hex = hex_encode(&DeviceIdentity::generate().public().x_pubkey);
    let mut db = member_db("bob", &bob_hex);
    let fresh = Uuid::new_v4();
    let key = [9u8; 32];
    let (group, drafts) =
        create_group_as(&mut db, &ada, "ada", "Squad", &vec!["bob".to_string()], fresh, &key, 2)
            .unwrap();
    assert_eq!(group, fresh.to_text());
    assert_eq!(drafts[0].context, group);
    assert_eq!(own_epoch_key(&db, &ada, &group, 1, "ada"), Ok(key));
    db.save_wrapped_group_key_from(&group, 5, "ada", &[1, 2, 3], &[7; 31]).unwrap();
    assert_eq!(own_epoch_key(&db, &ada, &group, 5, "ada"), Err(Error::BadWrapperKey));
    db.save_wrapped_group_key_from(&group, 6, "ada", &[1, 2, 3], &[7; 32]).unwrap();
    assert_eq!(own_epoch_key(&db, &ada, &group, 6, "ada"), Err(Error::GroupKeyUnwrap));
    let next = [8u8; 32];
    rotate_epoch_as(&mut db, &ada, "ada", &group, &next, 3).unwrap();
    assert_eq!(own_epoch_key(&db, &ada, &group, 2, "ada"), Ok(next));
    assert_eq!(own_epoch_key(&db, &ada, &group, 1, "ada"), Ok(key));
    db.groups[0].current_epoch = i64::MAX;
    assert!(matches!(
        rotate_epoch(&mut db, &ada, "ada", &group, 4),
        Err(Error::EpochExhausted)
    ));
    db.contacts[0].contact.x25519_pubkey = None;
    assert!(matches!(
        create_group(&mut db, &ada, "ada", "Squad", &vec!["bob".to_string()], 5),
        Err(Error::MemberKeyMissing(0))
    ));
}

#[test]
fn history_opens_however_old_its_epoch() {
    let ada = DeviceIdentity::generate();
    let bob_hex = hex_encode(&DeviceIdentity::generate().public().x_pubkey);
    let mut db = member_db("bob", &bob_hex);
    let (group, _) =
        create_group(&mut db, &ada, "ada", "Squad", &vec!["bob".to_string()], 2).unwrap();
    let (old, _) = seal_group_text(&db, &ada, &group, "ada", b"{}", 1).unwrap();
    for _ in 0..20 {
        rotate_epoch(&mut db, &ada, "ada", &group, 3).unwrap();
    }
    for hint in [None, Some(1), Some(7), Some(99)] {
        assert_eq!(
            open_group_best(&db, &ada, &group, "ada", 1, &old, hint),
            Ok((b"{}".to_vec(), 1))
        );
    }
    assert_eq!(
        open_group_best(&db, &ada, &group, "ada", 2, &old, None),
        Err(Error::GroupSequenceMismatch)
    );
    // A single foreign commit to a far epoch costs no more than the keys that are held.
    db.groups[0].current_epoch = i64::MAX;
    assert_eq!(
        open_group_best(&db, &ada, &group, "ada", 1, &old, None),
        Ok((b"{}".to_vec(), 1))
    );
    let raw = seal_group_payload(
        &own_epoch_key(&db, &ada, &group, 3, "ada").unwrap(),
        u64::MAX,
        b"raw",
    )
    .unwrap();
    assert_eq!(
        open_group_best(&db, &ada, &group, "ada", u64::MAX, &raw, None),
        Ok((b"raw".to_vec(), 3))
    );
}

#[test]
fn members_seal_under_different_nonces() {
    let ada = DeviceIdentity::generate();
    let bob = DeviceIdentity::generate();
    let mut ada_db = member_db("bob", &hex_encode(&bob.public().x_pubkey));
    let mut bob_db = member_db("ada", &hex_encode(&ada.public().x_pubkey));
    let (group, drafts) =
        create_group(&mut ada_db, &ada, "ada", "Squad", &vec!["bob".to_string()], 2).unwrap();
    receive_group_key(&mut bob_db, "bob", &drafts[0].payload, 3).unwrap();
    let a = ada_db.next_sequence(&group, &ada.device_id.to_text()).unwrap() as u64;
    let b = bob_db.next_sequence(&group, &bob.device_id.to_text()).unwrap() as u64;
    assert_eq!(a, b);
    let (from_ada, _) = seal_group_text(&ada_db, &ada, &group, "ada", b"a", a).unwrap();
    let (from_bob, _) = seal_group_text(&bob_db, &bob, &group, "bob", b"b", b).unwrap();
    assert_ne!(from_ada[..12], from_bob[..12]);
    assert_eq!(
        own_epoch_key(&ada_db, &ada, &group, 1, "ada"),
        own_epoch_key(&bob_db, &bob, &group, 1, "bob")
    );
    assert_eq!(open_group_text(&bob_db, &bob, &group, 1, "bob", a, &from_ada), Ok(b"a".to_vec()));
    assert_eq!(open_group_text(&ada_db, &ada, &group, 1, "ada", b, &from_bob), Ok(b"b".to_vec()));
    // Ada's list is [bob, ada].
    assert_eq!(ada_db.share_of(&group, 1, "ada"), 1);
    assert_eq!(bob_db.share_of(&group, 1, "bob"), 0);
    assert!(matches!(
        seal_group_text(&ada_db, &ada, &group, "ada", b"a", SHARE_NUMBERS),
        Err(Error::SequenceExhausted)
    ));
    ada_db.group_keys[1].share = Some(65_536);
    assert!(matches!(
        seal_group_text(&ada_db, &ada, &group, "ada", b"a", 1),
        Err(Error::ShareExhausted)
    ));
    // A key that was stored without a share takes the place among the members.
    ada_db.group_keys[1].share = None;
    assert_eq!(ada_db.share_of(&group, 1, "ada"), 0);
    assert_eq!(ada_db.share_of(&group, 1, "zoe"), 2);
}

#[test]
fn storing_a_key_keeps_its_share() {
    let ada = DeviceIdentity::generate();
    let bob_hex = hex_encode(&DeviceIdentity::generate().public().x_pubkey);
    let mut db = member_db("bob", &bob_hex);
    let (group, _) =
        create_group(&mut db, &ada, "ada", "Squad", &vec!["bob".to_string()], 2).unwrap();
    assert_eq!(db.share_of(&group, 1, "ada"), 1);
    store_own_epoch_wrap(&mut db, &group, 1, "ada", &[1, 2], &[7; 32]).unwrap();
    assert_eq!(db.share_of(&group, 1, "ada"), 1);
    // The place among the members is noted where there was none, and stays.
    store_own_epoch_wrap(&mut db, &group, 2, "bob", &[1, 2], &[7; 32]).unwrap();
    assert_eq!(db.share_of(&group, 2, "bob"), 1);
    db.create_conversation(&group, "group", "Squad", &vec!["abe".to_string()], 3);
    assert_eq!(db.share_of(&group, 2, "bob"), 1);
    assert_eq!(db.share_of(&group, 3, "bob"), 2);
}

#[test]
fn renaming_uses_a_number_up() {
    let ada = DeviceIdentity::generate();
    let bob_hex = hex_encode(&DeviceIdentity::generate().public().x_pubkey);
    let mut db = member_db("bob", &bob_hex);
    let (group, _) =
        create_group(&mut db, &ada, "ada", "Squad", &vec!["bob".to_string()], 2).unwrap();
    let first = rename_group(&mut db, &ada, ada.device_id, "ada", &group, "Crew", 3).unwrap();
    let second = rename_group(&mut db, &ada, ada.device_id, "ada", &group, "Band", 4).unwrap();
    assert_eq!((first.sequence, second.sequence), (1, 2));
    assert_ne!(first.number, second.number);
    assert_eq!(db.next_sequence(&group, &ada.device_id.to_text()), Ok(3));
    db.delete_conversation(&group);
    assert_eq!(db.next_sequence(&group, &ada.device_id.to_text()), Ok(3));
}

#[test]
fn everyone_who_stays_is_told_once() {
    let ada = DeviceIdentity::generate();
    let mut db = Database::in_memory();
    for friend in ["bob", "cara", "dan", "eve"] {
        let key = hex_encode(&DeviceIdentity::generate().public().x_pubkey);
        befriend(&mut db, friend, &key, 1);
    }
    let all: Vec<String> = ["eve", "bob", "dan", "cara"].iter().map(|n| n.to_string()).collect();
    let (group, _) = create_group(&mut db, &ada, "ada", "Squad", &all, 2).unwrap();
    let gone = vec!["dan".to_string(), "bob".to_string()];
    let drafts = remove_members(&mut db, &ada, "ada", &group, &gone, 3).unwrap();
    let told: Vec<&str> = drafts.iter().map(|d| d.peer_username.as_str()).collect();
    assert_eq!(told, vec!["cara", "eve"]);
}
