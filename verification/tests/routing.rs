use hearth::control::{
    apply_stashed, check_accepted, drain_stash_for, open_stashed, receive_file_chunk, seal_control,
    seal_presence_envelope, send_missing_chunks, ChunksWanted,
};
use hearth::crypto::open_group;
use hearth::database::Database;
use hearth::error::Error;
use hearth::files::{prepare_offer, FileProgress, CHUNK_BYTES};
use hearth::friends::{
    accept_request, answer_envelope, block_user, build_friend_ask, find_open_request,
    import_invite, my_invite_code, seal_draft, unblock_user, Draft,
};
use hearth::groups::{add_members, create_group, CONTROL_START};
use hearth::identity::DeviceIdentity;
use hearth::ids::Uuid;
use hearth::messaging::{send_text, text_payload};
use hearth::payload::{ChatPayload, PresenceStatus};
use hearth::presence::{PresenceTracker, TypingTracker};
use hearth::protocol::{MessageType, ProtocolEnvelope};
use hearth::records::Contact;
use hearth::routing::{
    apply_opened, dm_peer_of, handle_of, identify_sender, note_endpoint, note_synced, open_handshake, route_inbound, FileTask,
    Opened, RouteOutcome, Routed, Stage,
};

struct Party {
    db: Database,
    identity: DeviceIdentity,
    typing: TypingTracker,
    presence: PresenceTracker,
}

fn party(name: &str) -> Party {
    let mut db = Database::in_memory();
    db.save_profile(name, &name.to_uppercase(), 1);
    Party {
        db,
        identity: DeviceIdentity::generate(),
        typing: TypingTracker::new(),
        presence: PresenceTracker::new(),
    }
}

fn befriend(party: &mut Party, name: &str, other: &DeviceIdentity, status: &str) {
    let public = other.public();
    party.db.upsert_contact(
        &Contact {
            username: name.into(),
            display_name: name.to_uppercase(),
            x25519_pubkey: Some(public.x_pubkey.to_vec()),
            ed_pubkey: Some(public.ed_pubkey.to_vec()),
            endpoint_id: None,
            endpoint_bundle: None,
            status: status.into(),
        },
        1,
    );
}

/// Ada and Bob, who are friends and share a direct conversation.
fn friends() -> (Party, Party, String) {
    let mut ada = party("ada");
    let mut bob = party("bob");
    let bob_identity = bob.identity.clone();
    let ada_identity = ada.identity.clone();
    befriend(&mut ada, "bob", &bob_identity, "pending");
    befriend(&mut bob, "ada", &ada_identity, "pending");
    let ask = build_friend_ask(&ada.db, &ada.identity, "ada", "Ada", "", "bob").unwrap();
    arrives(&ada, &mut bob, &ask, b"ask");
    let request = find_open_request(&bob.db, "in", "ada").unwrap().id;
    let (id, answer) = accept_request(&mut bob.db, "bob", "", &request, 2).unwrap();
    arrives(&bob, &mut ada, &answer, b"answer");
    (ada, bob, id)
}

fn open(party: &mut Party, envelope: &ProtocolEnvelope) -> Result<Opened, Error> {
    match route_inbound(&mut party.db, &party.identity, envelope, "{}", "node-x", 10)? {
        Routed::Open(opened) => Ok(opened),
        Routed::Done(_) => panic!("expected something to open"),
    }
}

fn apply(
    party: &mut Party,
    opened: &Opened,
    envelope: &ProtocolEnvelope,
    payload: ChatPayload,
) -> Result<RouteOutcome, Error> {
    apply_opened(
        &mut party.db,
        &mut party.typing,
        &mut party.presence,
        &party.identity,
        party.identity.device_id,
        opened,
        envelope,
        &Some(payload),
        "{\"offer\":1}",
        "node-x",
        Uuid::new_v4(),
        11,
    )
}

fn say(party: &mut Party, conversation: &str, body: &str) -> (ChatPayload, ProtocolEnvelope) {
    let payload = text_payload(&party.db, conversation, body, &None).unwrap();
    let sending = send_text(
        &mut party.db,
        &party.identity,
        party.identity.device_id,
        conversation,
        &payload,
        body.as_bytes(),
        Uuid::new_v4(),
        Uuid::new_v4(),
        9,
    )
    .unwrap();
    (payload, sending.envelope)
}

fn control(
    party: &mut Party,
    conversation: &str,
    message_type: MessageType,
    json: &[u8],
) -> ProtocolEnvelope {
    seal_control(
        &mut party.db,
        &party.identity,
        party.identity.device_id,
        conversation,
        message_type,
        json,
        12,
    )
    .unwrap()
}

#[test]
fn a_text_arrives_once() {
    let (mut ada, mut bob, id) = friends();
    let (payload, envelope) = say(&mut ada, &id, "hello");
    let opened = open(&mut bob, &envelope).unwrap();
    assert_eq!(opened.stage, Stage::Direct);
    assert_eq!(opened.from, "ada");
    assert_eq!(opened.json, b"hello");
    assert_eq!(bob.db.find_contact("ada").unwrap().endpoint_id.as_deref(), Some("node-x"));
    let outcome = apply(&mut bob, &opened, &envelope, payload.clone()).unwrap();
    assert!(outcome.changed);
    assert!(outcome.notify.is_some());
    let stored = bob.db.get_message(&envelope.message_id.to_text()).unwrap();
    assert_eq!((stored.body.as_str(), stored.status.as_str()), ("hello", "delivered"));
    assert_eq!(stored.sender_username, "ada");
    // Delivered again, it is neither stored nor announced.
    let outcome = apply(&mut bob, &opened, &envelope, payload).unwrap();
    assert!(outcome.notify.is_none());
    assert!(!outcome.changed);
    assert_eq!(bob.db.list_messages(&id, 50).len(), 1);
    note_synced(&mut bob.db, "ada", &id, &envelope, 12);
    assert_eq!(bob.db.cursors.len(), 1);
}

#[test]
fn strangers_are_refused() {
    let (mut ada, _, id) = friends();
    let mut cara = party("cara");
    let (_, envelope) = say(&mut ada, &id, "hello");
    assert!(identify_sender(&cara.db, &envelope, "node-x").is_none());
    assert!(matches!(open(&mut cara, &envelope), Err(Error::UnknownSender)));
    let ada_identity = ada.identity.clone();
    befriend(&mut cara, "ada", &ada_identity, "blocked");
    assert!(matches!(open(&mut cara, &envelope), Err(Error::UnknownSender)));
    befriend(&mut cara, "ada", &ada_identity, "friend");
    assert!(matches!(open(&mut cara, &envelope), Err(Error::UnknownConversation)));
    cara.db.create_conversation(&id, "dm", "", &vec!["bob".into()], 2);
    assert!(matches!(open(&mut cara, &envelope), Err(Error::NotThePeer)));
    assert_eq!(dm_peer_of(&cara.db, &id), "bob");
    cara.db.delete_conversation(&id);
    cara.db.create_conversation(&id, "group", "g", &vec!["bob".into()], 2);
    assert!(matches!(open(&mut cara, &envelope), Err(Error::NotAMember)));
}

#[test]
fn the_blocked_are_nobody() {
    let (mut ada, mut bob, id) = friends();
    let (_, envelope) = say(&mut ada, &id, "hello");
    assert_eq!(identify_sender(&bob.db, &envelope, "").unwrap().username, "ada");
    block_user(&mut bob.db, "ada", 5);
    assert!(identify_sender(&bob.db, &envelope, "").is_none());
    assert!(matches!(open(&mut bob, &envelope), Err(Error::UnknownSender)));
    unblock_user(&mut bob.db, "ada").unwrap();
    assert!(open(&mut bob, &envelope).is_ok());
}

#[test]
fn endpoints_decide_between_equal_keys() {
    let (mut ada, mut bob, id) = friends();
    let (_, envelope) = say(&mut ada, &id, "hello");
    let ada_identity = ada.identity.clone();
    befriend(&mut bob, "zoe", &ada_identity, "friend");
    assert_eq!(identify_sender(&bob.db, &envelope, "node-z").unwrap().username, "ada");
    note_endpoint(&mut bob.db, "zoe", "node-z", 6);
    assert_eq!(identify_sender(&bob.db, &envelope, "node-z").unwrap().username, "zoe");
}

#[test]
fn a_payload_names_its_sender() {
    let (mut ada, mut bob, id) = friends();
    let (_, envelope) = say(&mut ada, &id, "hello");
    let opened = open(&mut bob, &envelope).unwrap();
    let forged = ChatPayload::Text {
        from: "cara".into(),
        body: "hello".into(),
        reply_to: None,
        epoch: None,
    };
    assert!(matches!(apply(&mut bob, &opened, &envelope, forged), Err(Error::SenderMismatch)));
    let r = apply_opened(
        &mut bob.db,
        &mut bob.typing,
        &mut bob.presence,
        &bob.identity,
        bob.identity.device_id,
        &opened,
        &envelope,
        &None,
        "",
        "node-x",
        Uuid::new_v4(),
        11,
    );
    assert!(matches!(r, Err(Error::BadPayload)));
}

#[test]
fn only_authors_revise() {
    let (mut ada, mut bob, id) = friends();
    let (payload, envelope) = say(&mut ada, &id, "hello");
    let opened = open(&mut bob, &envelope).unwrap();
    apply(&mut bob, &opened, &envelope, payload).unwrap();
    let target = envelope.message_id.to_text();
    let edit = |from: &str, ref_id: &str| ChatPayload::Edit {
        from: from.into(),
        ref_id: ref_id.into(),
        body: "changed".into(),
        epoch: None,
    };
    let e = control(&mut ada, &id, MessageType::MessageEdit, b"edit");
    let opened = open(&mut bob, &e).unwrap();
    apply(&mut bob, &opened, &e, edit("ada", &target)).unwrap();
    assert_eq!(bob.db.get_message(&target).unwrap().body, "changed");
    // Bob's own message is not Ada's to change.
    let (_, own) = say(&mut bob, &id, "mine");
    let own_id = own.message_id.to_text();
    apply(&mut bob, &opened, &e, edit("ada", &own_id)).unwrap();
    assert_eq!(bob.db.get_message(&own_id).unwrap().body, "mine");
    let gone = ChatPayload::Delete { from: "ada".into(), ref_id: target.clone(), epoch: None };
    apply(&mut bob, &opened, &e, gone).unwrap();
    assert!(bob.db.get_message(&target).unwrap().deleted_at_ms.is_some());
}

#[test]
fn typing_and_receipts_leave_no_row() {
    let (mut ada, mut bob, id) = friends();
    let (_, sent) = say(&mut ada, &id, "hello");
    let e = control(&mut bob, &id, MessageType::Typing, b"typing");
    assert_eq!(e.sequence, 0);
    let opened = open(&mut ada, &e).unwrap();
    let typing = ChatPayload::Typing { from: "bob".into(), typing: true };
    let outcome = apply(&mut ada, &opened, &e, typing).unwrap();
    assert!(outcome.changed);
    assert_eq!(ada.typing.active_typists(&id), vec!["bob"]);
    assert_eq!(ada.db.messages.len(), 1);
    let e = control(&mut bob, &id, MessageType::ReadAck, b"read");
    let opened = open(&mut ada, &e).unwrap();
    let read = ChatPayload::Read { from: "bob".into(), ref_ids: vec![sent.message_id.to_text()] };
    apply(&mut ada, &opened, &e, read).unwrap();
    assert_eq!(ada.db.get_message(&sent.message_id.to_text()).unwrap().status, "read");
    let stopped = ChatPayload::Typing { from: "bob".into(), typing: false };
    apply(&mut ada, &opened, &e, stopped).unwrap();
    assert!(ada.typing.active_typists(&id).is_empty());
}

#[test]
fn heartbeats_update_presence() {
    let (ada, mut bob, _) = friends();
    let draft = seal_presence_envelope(&ada.db, "bob", PresenceStatus::Away).unwrap();
    assert_eq!(draft.context, "presence:ada>bob");
    let work =
        seal_draft(&ada.identity, ada.identity.device_id, &draft, b"away", 5).unwrap();
    assert_eq!(work.envelope.message_type, MessageType::Presence);
    let opened = open(&mut bob, &work.envelope).unwrap();
    assert_eq!(opened.stage, Stage::Presence);
    apply(&mut bob, &opened, &work.envelope, draft.payload).unwrap();
    assert_eq!(bob.presence.peer_status("ada").status, PresenceStatus::Away);
    assert!(seal_presence_envelope(&ada.db, "nobody", PresenceStatus::Away).is_err());
}

#[test]
fn an_ask_before_the_invite_is_stashed() {
    let mut ada = party("ada");
    let mut bob = party("bob");
    let invite = my_invite_code("bob", "Bob", &bob.identity, "node-b", "bund");
    import_invite(&mut ada.db, &invite, 1).unwrap();
    let ask = build_friend_ask(&ada.db, &ada.identity, "ada", "Ada", "bundle", "bob").unwrap();
    let work = seal_draft(&ada.identity, ada.identity.device_id, &ask, b"ask", 2).unwrap();
    let r = route_inbound(&mut bob.db, &bob.identity, &work.envelope, "{\"e\":1}", "node-a", 3);
    match r {
        Ok(Routed::Done(outcome)) => assert!(outcome.toast.is_some()),
        _ => panic!("expected the stash"),
    }
    assert!(drain_stash_for(&mut bob.db, "ada", 4).is_none());
    // Bob imports Ada's invite, and the stashed ask opens.
    let invite = my_invite_code("ada", "Ada", &ada.identity, "node-a", "bund");
    import_invite(&mut bob.db, &invite, 5).unwrap();
    let trial = drain_stash_for(&mut bob.db, "ada", 6).unwrap();
    assert_eq!(trial.stashed.len(), 1);
    assert_eq!(trial.stashed[0].envelope_json, "{\"e\":1}");
    let json =
        open_stashed(&bob.identity, &trial.me, &trial.contact, &work.envelope).unwrap();
    assert_eq!(json, b"ask");
    let outcome = apply_stashed(
        &mut bob.db,
        "ada",
        &work.envelope,
        &ask.payload,
        &trial.stashed[0],
        Uuid::new_v4(),
        7,
    )
    .unwrap();
    assert!(outcome.changed);
    assert!(bob.db.stash.is_empty());
    assert_eq!(handle_of("ada"), "@ada");
}

#[test]
fn group_texts_open_for_members() {
    let (mut ada, mut bob, _) = friends();
    let (group, drafts) =
        create_group(&mut ada.db, &ada.identity, "ada", "Squad", &vec!["bob".into()], 3).unwrap();
    let work =
        seal_draft(&ada.identity, ada.identity.device_id, &drafts[0], b"key", 3).unwrap();
    assert_eq!(work.envelope.conversation_id.to_text(), group);
    // Bob does not know the group yet.
    let opened = open(&mut bob, &work.envelope).unwrap();
    assert_eq!(opened.stage, Stage::GroupKey);
    assert_eq!(opened.json, b"key");
    apply(&mut bob, &opened, &work.envelope, drafts[0].payload.clone()).unwrap();
    assert_eq!(bob.db.load_group(&group).unwrap().members, vec!["ada", "bob"]);
    let (payload, envelope) = say(&mut ada, &group, "ready up");
    assert_eq!(envelope.message_type, MessageType::Message);
    let opened = open(&mut bob, &envelope).unwrap();
    assert_eq!(opened.stage, Stage::Group);
    assert_eq!(opened.json, b"ready up");
    apply(&mut bob, &opened, &envelope, payload).unwrap();
    assert_eq!(bob.db.list_messages(&group, 10)[0].body, "ready up");
    // What is not stored takes its number from a lane of its own.
    let e = control(&mut ada, &group, MessageType::Typing, b"typing");
    assert_eq!(e.sequence, CONTROL_START + 1);
    let again = control(&mut ada, &group, MessageType::Typing, b"typing");
    assert_eq!(again.sequence, CONTROL_START + 2);
    assert_ne!(e.ciphertext[..12], again.ciphertext[..12]);
    assert_eq!(open(&mut bob, &e).unwrap().json, b"typing");
}

#[test]
fn files_travel_in_chunks() {
    let (mut ada, mut bob, id) = friends();
    let data = vec![6u8; CHUNK_BYTES + 10];
    let (offer, sealed) = prepare_offer("f1", "a.bin", "", &data).unwrap();
    let e = control(&mut ada, &id, MessageType::FileOffer, b"offer");
    let opened = open(&mut bob, &e).unwrap();
    let payload = ChatPayload::FileOffer { from: "ada".into(), file: offer.clone() };
    apply(&mut bob, &opened, &e, payload).unwrap();
    assert_eq!(bob.db.load_file("f1").unwrap().filename, "a.bin");
    assert_eq!(bob.db.load_offer_json("f1").as_deref(), Some("{\"offer\":1}"));
    // A chunk becomes work for whoever keeps the files.
    let chunk = ChatPayload::FileChunk {
        from: "ada".into(),
        file_id: "f1".into(),
        index: 1,
        data: sealed[1].clone(),
    };
    let outcome = apply(&mut bob, &opened, &e, chunk).unwrap();
    match outcome.task {
        FileTask::TakeChunk { file_id, index, sealed: bytes, .. } => {
            assert_eq!((file_id.as_str(), index), ("f1", 1));
            assert_eq!(bytes, sealed[1]);
        }
        _ => panic!("expected a chunk to take"),
    }
    let unknown = ChatPayload::FileChunk {
        from: "ada".into(),
        file_id: "f9".into(),
        index: 1,
        data: vec![],
    };
    assert!(matches!(apply(&mut bob, &opened, &e, unknown), Err(Error::NoOffer)));
    let unknown =
        ChatPayload::FileAccept { from: "ada".into(), file_id: "f9".into(), have: vec![] };
    assert!(matches!(apply(&mut bob, &opened, &e, unknown), Err(Error::UnknownFile)));
    let half = FileProgress { received_chunks: 1, total_chunks: 2, complete: false };
    receive_file_chunk(&mut bob.db, "f1", &offer, half, "files", 12).unwrap();
    assert_eq!(bob.db.load_file("f1").unwrap().bytes_done, CHUNK_BYTES as i64);
    let done = FileProgress { received_chunks: 2, total_chunks: 2, complete: true };
    let (_, reply) = receive_file_chunk(&mut bob.db, "f1", &offer, done, "files", 13).unwrap();
    assert!(matches!(reply, Some(ChatPayload::FileAccept { .. })));
    let file = bob.db.load_file("f1").unwrap();
    assert_eq!(file.local_path.as_deref(), Some("files/a.bin"));
}

#[test]
fn missing_chunks_are_sealed_again() {
    let (mut ada, _, id) = friends();
    let data = vec![6u8; CHUNK_BYTES + 10];
    let (offer, _) = prepare_offer("f1", "a.bin", "", &data).unwrap();
    let payloads = send_missing_chunks("ada", "f1", &offer, &vec![0], &data).unwrap();
    assert_eq!(payloads.len(), 1);
    match &payloads[0] {
        ChatPayload::FileChunk { index, data: sealed, .. } => {
            assert_eq!(*index, 1);
            assert_eq!(open_group(&offer.file_key, 1, sealed).unwrap(), vec![6u8; 10]);
        }
        _ => panic!("expected a chunk"),
    }
    assert!(matches!(
        send_missing_chunks("ada", "f1", &offer, &vec![0], b"short"),
        Err(Error::SourceTooShort)
    ));
    ada.db
        .save_file(
            &hearth::records::FileTransfer {
                id: "f1".into(),
                conversation_id: id,
                filename: "a.bin".into(),
                mime_type: "".into(),
                size_bytes: 10,
                sha256_hex: "".into(),
                state: "active".into(),
                bytes_done: 0,
                local_path: None,
                created_at_ms: 4,
            },
            4,
        )
        .unwrap();
    assert!(matches!(
        check_accepted(&mut ada.db, "f1", &offer, &vec![0, 1], 5),
        Ok(ChunksWanted::Complete(_))
    ));
    assert!(matches!(
        check_accepted(&mut ada.db, "f1", &offer, &vec![0], 5),
        Ok(ChunksWanted::Missing)
    ));
}

#[test]
fn only_handshakes_open_as_handshakes() {
    let (mut ada, bob, id) = friends();
    let (payload, envelope) = say(&mut ada, &id, "hello");
    let contact = bob.db.find_contact("ada").unwrap();
    assert!(matches!(
        open_handshake(&bob.identity, "bob", &contact, &envelope),
        Err(Error::NotAHandshake)
    ));
    let mut bob = bob;
    let item = hearth::records::StashedEnvelope {
        message_id: "m".into(),
        endpoint_id: "node".into(),
        envelope_json: "{}".into(),
    };
    assert!(matches!(
        apply_stashed(&mut bob.db, "ada", &envelope, &payload, &item, Uuid::new_v4(), 5),
        Err(Error::NotAHandshake)
    ));
}

/// The draft, sealed with the given bytes in place of its JSON, as it arrives.
fn arrives(from: &Party, to: &mut Party, draft: &Draft, json: &[u8]) -> RouteOutcome {
    let work =
        seal_draft(&from.identity, from.identity.device_id, draft, json, 5).unwrap();
    let opened = open(to, &work.envelope).unwrap();
    assert_eq!(opened.json, json);
    apply(to, &opened, &work.envelope, draft.payload.clone()).unwrap()
}

/// What one writes in a conversation, as it arrives at the other.
fn heard(from: &mut Party, to: &mut Party, conversation: &str, body: &str) -> bool {
    let (payload, envelope) = say(from, conversation, body);
    let opened = open(to, &envelope).unwrap();
    apply(to, &opened, &envelope, payload).unwrap();
    to.db.list_messages(conversation, 10).iter().any(|m| m.body == body)
}

fn know(party: &mut Party, name: &str, other: &DeviceIdentity) {
    let invite = my_invite_code(name, name, other, "node", "bund");
    import_invite(&mut party.db, &invite, 1).unwrap();
}

#[test]
fn new_friends_write_each_other() {
    let mut ada = party("ada");
    let mut bob = party("bob");
    let bob_identity = bob.identity.clone();
    let ada_identity = ada.identity.clone();
    know(&mut ada, "bob", &bob_identity);
    know(&mut bob, "ada", &ada_identity);
    let ask = build_friend_ask(&ada.db, &ada.identity, "ada", "Ada", "bundle", "bob").unwrap();
    assert!(arrives(&ada, &mut bob, &ask, b"ask").changed);
    let request = find_open_request(&bob.db, "in", "ada").unwrap().id;
    let (id, answer) = accept_request(&mut bob.db, "bob", "bundle-bob", &request, 4).unwrap();
    assert!(arrives(&bob, &mut ada, &answer, b"answer").changed);
    assert_eq!(ada.db.find_dm_with("bob").as_deref(), Some(id.as_str()));
    assert_eq!(dm_peer_of(&ada.db, &id), "bob");
    assert!(heard(&mut bob, &mut ada, &id, "hi ada"));
    assert!(heard(&mut ada, &mut bob, &id, "hi bob"));
}

#[test]
fn an_answer_takes_no_conversation_over() {
    let mut ada = party("ada");
    let bob = party("bob");
    befriend(&mut ada, "bob", &bob.identity, "pending");
    let taken = Uuid::new_v4();
    ada.db.create_conversation(&taken.to_text(), "group", "Squad", &vec!["cara".into()], 2);
    let contact = Contact {
        username: "ada".into(),
        display_name: "Ada".into(),
        x25519_pubkey: Some(ada.identity.public().x_pubkey.to_vec()),
        ed_pubkey: None,
        endpoint_id: None,
        endpoint_bundle: None,
        status: "friend".into(),
    };
    let answer = answer_envelope("bob", "bund", &contact, &taken.to_text(), true).unwrap();
    arrives(&bob, &mut ada, &answer, b"answer");
    assert!(!ada.db.is_member(&taken.to_text(), "bob"));
    let id = ada.db.find_dm_with("bob").unwrap();
    assert_ne!(id, taken.to_text());
}

#[test]
fn an_epoch_works_for_three() {
    let mut ada = party("ada");
    let mut bob = party("bob");
    let mut cara = party("cara");
    let (a, b, c) = (ada.identity.clone(), bob.identity.clone(), cara.identity.clone());
    befriend(&mut ada, "bob", &b, "friend");
    befriend(&mut ada, "cara", &c, "friend");
    befriend(&mut bob, "ada", &a, "friend");
    befriend(&mut bob, "cara", &c, "friend");
    befriend(&mut cara, "ada", &a, "friend");
    befriend(&mut cara, "bob", &b, "friend");
    let (group, drafts) =
        create_group(&mut ada.db, &a, "ada", "Squad", &vec!["bob".into()], 3).unwrap();
    arrives(&ada, &mut bob, &drafts[0], b"key");
    assert!(heard(&mut bob, &mut ada, &group, "just us"));
    // Cara joins, and both are told the second epoch.
    let drafts = add_members(&mut ada.db, &a, "ada", &group, &vec!["cara".into()], 4).unwrap();
    assert_eq!(drafts.len(), 2);
    arrives(&ada, &mut bob, &drafts[0], b"key 2");
    arrives(&ada, &mut cara, &drafts[1], b"key 2");
    assert!(heard(&mut bob, &mut cara, &group, "welcome"));
    assert!(heard(&mut cara, &mut bob, &group, "thanks"));
    assert!(heard(&mut ada, &mut cara, &group, "hello"));
}

#[test]
fn an_unknown_conversation_begins_no_other_group() {
    let (mut ada, mut bob, _) = friends();
    let (group, drafts) =
        create_group(&mut ada.db, &ada.identity, "ada", "Squad", &vec!["bob".into()], 3).unwrap();
    let mut draft = drafts[0].clone();
    let elsewhere = Uuid::new_v4().to_text();
    draft.context = elsewhere.clone();
    draft.conversation_id = elsewhere;
    let work = seal_draft(&ada.identity, ada.identity.device_id, &draft, b"key", 3).unwrap();
    let opened = open(&mut bob, &work.envelope).unwrap();
    let r = apply(&mut bob, &opened, &work.envelope, draft.payload.clone());
    assert!(matches!(r, Err(Error::UnknownConversation)));
    assert!(bob.db.load_group(&group).is_none());
    // Nothing but a key begins a conversation.
    let (_, envelope) = say(&mut ada, &group, "ready up");
    assert!(matches!(open(&mut bob, &envelope), Err(Error::UnknownConversation)));
}

#[test]
fn a_file_offer_is_stored_once() {
    let (mut ada, mut bob, id) = friends();
    let (offer, _) = prepare_offer("f1", "a.bin", "", b"data").unwrap();
    let e = control(&mut ada, &id, MessageType::FileOffer, b"offer");
    let opened = open(&mut bob, &e).unwrap();
    let payload = ChatPayload::FileOffer { from: "ada".into(), file: offer };
    assert!(apply(&mut bob, &opened, &e, payload.clone()).unwrap().changed);
    let again = apply(&mut bob, &opened, &e, payload).unwrap();
    assert!(!again.changed && again.notify.is_none());
    assert_eq!(bob.db.list_messages(&id, 10).len(), 1);
}
