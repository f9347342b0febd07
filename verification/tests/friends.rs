use hearth::bytes::hex_encode;
use hearth::database::Database;
use hearth::error::Error;
use hearth::friends::{
    accept_request, answer_envelope, block_user, build_friend_ask, ensure_dm, ensure_dm_as,
    find_open_request, import_invite_as, seal_draft_as,
    import_invite, my_invite_code, open_friend_payload, receive_friend_answer, receive_friend_ask,
    reject_request, remove_friend, seal_draft, unblock_user, InviteCode,
};
use hearth::identity::DeviceIdentity;
use hearth::ids::Uuid;
use hearth::payload::ChatPayload;
use hearth::records::{Contact, FriendRequest};
use serde_json::Value;

fn write(payload: &ChatPayload) -> Vec<u8> {
    let mut fields = serde_json::Map::new();
    match payload {
        ChatPayload::FriendAsk { from, display_name, ed_pubkey_hex, x_pubkey_hex, endpoint_bundle } => {
            fields.insert("kind".into(), Value::from("friend_ask"));
            fields.insert("from".into(), Value::from(from.as_str()));
            fields.insert("display_name".into(), Value::from(display_name.as_str()));
            fields.insert("ed_pubkey_hex".into(), Value::from(ed_pubkey_hex.as_str()));
            fields.insert("x_pubkey_hex".into(), Value::from(x_pubkey_hex.as_str()));
            fields.insert("endpoint_bundle".into(), Value::from(endpoint_bundle.as_str()));
        }
        ChatPayload::FriendAnswer { from, accepted, endpoint_bundle } => {
            fields.insert("kind".into(), Value::from("friend_answer"));
            fields.insert("from".into(), Value::from(from.as_str()));
            fields.insert("accepted".into(), Value::from(*accepted));
            fields.insert("endpoint_bundle".into(), Value::from(endpoint_bundle.as_str()));
        }
        _ => panic!("not written here"),
    }
    serde_json::to_vec(&Value::Object(fields)).unwrap()
}

fn read(json: &[u8]) -> ChatPayload {
    let value: Value = serde_json::from_slice(json).unwrap();
    let text = |name: &str| value[name].as_str().unwrap().to_string();
    if value["kind"] == "friend_ask" {
        ChatPayload::FriendAsk {
            from: text("from"),
            display_name: text("display_name"),
            ed_pubkey_hex: text("ed_pubkey_hex"),
            x_pubkey_hex: text("x_pubkey_hex"),
            endpoint_bundle: text("endpoint_bundle"),
        }
    } else {
        ChatPayload::FriendAnswer {
            from: text("from"),
            accepted: value["accepted"].as_bool().unwrap(),
            endpoint_bundle: text("endpoint_bundle"),
        }
    }
}

fn setup() -> (Database, DeviceIdentity, Uuid) {
    (Database::in_memory(), DeviceIdentity::generate(), Uuid::new_v4())
}

fn invite_of(username: &str, identity: &DeviceIdentity) -> InviteCode {
    my_invite_code(username, username, identity, "node", "bund")
}

#[test]
fn invite_import_ask_receive_and_accept() {
    let (mut ada_db, ada, ada_device) = setup();
    let (mut bob_db, bob, bob_device) = setup();
    let bob_public = bob.public();
    let invite = InviteCode {
        username: "bob".into(),
        display_name: "Bob".into(),
        ed_pubkey_hex: hex_encode(&bob_public.ed_pubkey),
        x_pubkey_hex: hex_encode(&bob_public.x_pubkey),
        endpoint_id: "node-b".into(),
        endpoint_bundle: "bund".into(),
    };
    // Ada imports Bob's invite and builds a sealed ask.
    let is_new = import_invite(&mut ada_db, &invite, 1).unwrap();
    assert!(is_new);
    assert_eq!(invite.username, "bob");
    let ask = build_friend_ask(&ada_db, &ada, "ada", "Ada", "bundle-ada", "bob").unwrap();
    let work = seal_draft(&ada, ada_device, &ask, &write(&ask.payload), 2).unwrap();
    // Bob opens the ask with the per-pair context and records it.
    let ada_public = ada.public();
    let mut ada_x = [0u8; 32];
    ada_x.copy_from_slice(&ada_public.x_pubkey);
    let payload =
        open_friend_payload(&bob, &ada_x, "friend-ask:ada>bob", &work.envelope.ciphertext).unwrap();
    let row = receive_friend_ask(&mut bob_db, &read(&payload), 3).unwrap();
    assert_eq!(row.direction, "in");
    // Bob accepts: friendship + DM shell + sealed answer.
    let (dm_id, answer) = accept_request(&mut bob_db, "bob", "bundle-bob", &row.id, 4).unwrap();
    assert!(!dm_id.is_empty());
    assert_eq!(answer.peer_username, "ada");
    let answer = seal_draft(&bob, bob_device, &answer, &write(&answer.payload), 4).unwrap();
    assert_eq!(answer.peer_username, "ada");
    // Ada applies the answer and gets the same DM shell.
    let mut bob_x = [0u8; 32];
    bob_x.copy_from_slice(&bob_public.x_pubkey);
    let answer_payload = read(
        &open_friend_payload(&ada, &bob_x, "friend-answer:bob>ada", &answer.envelope.ciphertext)
            .unwrap(),
    );
    let bundle = match answer_payload {
        ChatPayload::FriendAnswer { from, accepted, endpoint_bundle } => {
            assert_eq!(from, "bob");
            assert!(accepted);
            endpoint_bundle
        }
        _ => panic!("expected answer"),
    };
    let named = answer.envelope.conversation_id;
    let ada_dm = receive_friend_answer(&mut ada_db, "bob", true, &bundle, named, 5).unwrap();
    assert!(!ada_dm.is_empty());
    assert_eq!(ada_dm, dm_id);
    assert_eq!(ada_db.find_contact("bob").unwrap().status, "friend");
    assert_eq!(ada_db.find_contact("bob").unwrap().endpoint_bundle.unwrap(), "bundle-bob");
    assert_eq!(ensure_dm(&mut ada_db, "bob", 6), ada_dm);
}

#[test]
fn block_and_remove() {
    let (mut db, _, _) = setup();
    block_user(&mut db, "spammer", 1);
    assert_eq!(db.find_contact("spammer").unwrap().status, "blocked");
    unblock_user(&mut db, "spammer").unwrap();
    assert_eq!(db.find_contact("spammer").unwrap().status, "friend");
    remove_friend(&mut db, "spammer").unwrap();
    assert!(remove_friend(&mut db, "spammer").is_err());
    assert_eq!(remove_friend(&mut db, "spammer"), Err(Error::NotAFriend));
    assert_eq!(unblock_user(&mut db, "spammer"), Err(Error::NotInList));
}

#[test]
fn invites_are_checked() {
    let (mut db, bob, _) = setup();
    let mut invite = invite_of("bob", &bob);
    invite.x_pubkey_hex = "zz".into();
    assert_eq!(import_invite(&mut db, &invite, 1), Err(Error::HexLength));
    assert_eq!(import_invite(&mut db, &invite_of("bo", &bob), 1), Err(Error::InviteUsername));
    assert_eq!(import_invite(&mut db, &invite_of("bob", &bob), 1), Ok(true));
    assert_eq!(import_invite(&mut db, &invite_of("bob", &bob), 2), Ok(false));
    assert_eq!(InviteCode::decode("nope"), Err(Error::NotAnInvite));
}

#[test]
fn asks_are_checked() {
    let (mut db, bob, _) = setup();
    let (_, ada, _) = setup();
    assert!(matches!(
        build_friend_ask(&db, &ada, "ada", "Ada", "b", "bob"),
        Err(Error::UnknownContact)
    ));
    db.upsert_contact(
        &Contact {
            username: "bob".into(),
            display_name: "Bob".into(),
            x25519_pubkey: None,
            ed_pubkey: None,
            endpoint_id: None,
            endpoint_bundle: None,
            status: "pending".into(),
        },
        1,
    );
    assert!(matches!(
        build_friend_ask(&db, &ada, "ada", "Ada", "b", "bob"),
        Err(Error::NoContactKey)
    ));
    import_invite(&mut db, &invite_of("bob", &bob), 1).unwrap();
    assert!(build_friend_ask(&db, &ada, "ada", "Ada", "b", "bob").is_ok());
    block_user(&mut db, "bob", 2);
    assert!(matches!(
        build_friend_ask(&db, &ada, "ada", "Ada", "b", "bob"),
        Err(Error::UserBlocked)
    ));
}

#[test]
fn asks_with_other_keys_are_refused() {
    let (mut db, _, _) = setup();
    let (_, ada, _) = setup();
    let ask = |identity: &DeviceIdentity| ChatPayload::FriendAsk {
        from: "ada".into(),
        display_name: "Ada".into(),
        ed_pubkey_hex: hex_encode(&identity.public().ed_pubkey),
        x_pubkey_hex: hex_encode(&identity.public().x_pubkey),
        endpoint_bundle: "b".into(),
    };
    let first = receive_friend_ask(&mut db, &ask(&ada), 1).unwrap();
    let again = receive_friend_ask(&mut db, &ask(&ada), 2).unwrap();
    assert_eq!(first.id, again.id);
    let mallory = DeviceIdentity::generate();
    assert!(matches!(
        receive_friend_ask(&mut db, &ask(&mallory), 3),
        Err(Error::FriendKeyMismatch)
    ));
    assert!(matches!(
        receive_friend_ask(&mut db, &ChatPayload::Typing { from: "ada".into(), typing: true }, 3),
        Err(Error::NotAFriendAsk)
    ));
    let (_, _) = accept_request(&mut db, "bob", "bb", &first.id, 4).unwrap();
    assert!(matches!(receive_friend_ask(&mut db, &ask(&ada), 5), Err(Error::AlreadyDecided)));
}

#[test]
fn requests_can_be_rejected() {
    let (mut db, ada, _) = setup();
    let ask = ChatPayload::FriendAsk {
        from: "ada".into(),
        display_name: "Ada".into(),
        ed_pubkey_hex: hex_encode(&ada.public().ed_pubkey),
        x_pubkey_hex: hex_encode(&ada.public().x_pubkey),
        endpoint_bundle: "b".into(),
    };
    let row = receive_friend_ask(&mut db, &ask, 1).unwrap();
    assert!(find_open_request(&db, "in", "ada").is_some());
    assert_eq!(reject_request(&mut db, &row.id, 2), Ok(()));
    assert!(find_open_request(&db, "in", "ada").is_none());
    assert!(db.find_contact("ada").is_none());
    assert_eq!(reject_request(&mut db, &row.id, 2), Err(Error::RequestNotFound));
    assert!(matches!(
        accept_request(&mut db, "bob", "bb", &row.id, 3),
        Err(Error::RequestNotFound)
    ));
    import_invite(&mut db, &invite_of("cara", &ada), 4).unwrap();
    let out = find_open_request(&db, "out", "cara").unwrap();
    assert!(matches!(accept_request(&mut db, "bob", "bb", &out.id, 5), Err(Error::NotIncoming)));
    assert_eq!(receive_friend_answer(&mut db, "cara", false, "", Uuid::new_v4(), 6), None);
    assert!(find_open_request(&db, "out", "cara").is_none());
}

#[test]
fn answers_need_a_key() {
    let mut peer = Contact {
        username: "bob".into(),
        display_name: "Bob".into(),
        x25519_pubkey: None,
        ed_pubkey: None,
        endpoint_id: None,
        endpoint_bundle: None,
        status: "friend".into(),
    };
    assert!(matches!(answer_envelope("ada", "b", &peer, "", true), Err(Error::NoContactKey)));
    peer.x25519_pubkey = Some(vec![1; 31]);
    assert!(matches!(answer_envelope("ada", "b", &peer, "", true), Err(Error::ContactKeyLength)));
    peer.x25519_pubkey = Some(vec![1; 32]);
    let draft = answer_envelope("ada", "b", &peer, "", true).unwrap();
    assert_eq!(draft.context, "friend-answer:ada>bob");
    assert_eq!(draft.recipient, [1; 32]);
}

#[test]
fn a_request_without_its_contact_is_refused() {
    let (mut db, _, _) = setup();
    db.save_friend_request(
        &FriendRequest {
            id: "r1".into(),
            direction: "in".into(),
            peer_username: "ghost".into(),
            peer_display_name: "Ghost".into(),
            status: "pending".into(),
            created_at_ms: 1,
        },
        1,
    );
    assert!(matches!(
        accept_request(&mut db, "bob", "bb", "r1", 2),
        Err(Error::ContactVanished)
    ));
}

#[test]
fn given_ids_are_used() {
    let (mut db, ada, device) = setup();
    let fresh = Uuid::new_v4();
    assert_eq!(ensure_dm_as(&mut db, "bob", fresh, 1), fresh.to_text());
    assert_eq!(ensure_dm_as(&mut db, "bob", Uuid::new_v4(), 2), fresh.to_text());
    import_invite_as(&mut db, &invite_of("cara", &ada), fresh, 3).unwrap();
    assert_eq!(find_open_request(&db, "out", "cara").unwrap().id, fresh.to_text());
    let draft = build_friend_ask(&db, &ada, "ada", "Ada", "b", "cara").unwrap();
    let conversation = Uuid::new_v4();
    let message = Uuid::new_v4();
    let work = seal_draft_as(&ada, device, &draft, b"{}", conversation, message, 4).unwrap();
    assert_eq!(work.envelope.conversation_id, conversation);
    assert_eq!(work.envelope.message_id, message);
    assert_eq!(work.envelope.sender_device_id, device);
    assert_eq!(
        open_friend_payload(
            &ada,
            &ada.public().x_pubkey,
            "friend-ask:ada>cara",
            &work.envelope.ciphertext
        ),
        Ok(b"{}".to_vec())
    );
}
