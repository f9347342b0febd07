use hearth::error::Error;
use hearth::ids::Uuid;
use hearth::protocol::{MessageType, ProtocolEnvelope, CURRENT_PROTOCOL_VERSION};
use hearth::transport::{
    ack_for, announced_length, backoff_delay, backoff_delay_with, decode_bundle, decode_json_frame,
    encode_bundle, judge_ack, judge_bundle, path_is_relay, ConnectionState, NetworkPath, Peers,
    SendOutcome, StreamAck, MAX_ENVELOPE_BYTES,
};
use iroh::{EndpointAddr, SecretKey};
use std::collections::BTreeSet;
use std::time::Duration;

#[test]
fn backoff_grows_and_caps() {
    assert!(Duration::from_secs(backoff_delay(0)) >= Duration::from_secs(1));
    assert!(Duration::from_secs(backoff_delay(0)) < Duration::from_secs(2));
    assert!(Duration::from_secs(backoff_delay(10)) <= Duration::from_secs(375));
    assert!(Duration::from_secs(backoff_delay(100)) <= Duration::from_secs(375));
    assert!(Duration::from_secs(backoff_delay(3)) >= Duration::from_secs(8));
}

#[test]
fn backoff_is_exact_for_a_sample() {
    assert_eq!(backoff_delay_with(0, 9_999), 1);
    assert_eq!(backoff_delay_with(3, 0), 8);
    assert_eq!(backoff_delay_with(8, 5_000), 256 + 32);
    assert_eq!(backoff_delay_with(9, 0), 300);
    assert_eq!(backoff_delay_with(u32::MAX, 9_999), 300 + 74);
}

#[test]
fn bundle_roundtrip() {
    let secret = SecretKey::generate();
    let addr = EndpointAddr { id: secret.public(), addrs: BTreeSet::new() };
    let bundle = encode_bundle(&serde_json::to_vec(&addr).unwrap());
    let decoded: EndpointAddr =
        serde_json::from_slice(&decode_bundle(&bundle).unwrap()).unwrap();
    assert_eq!(decoded, addr);
    assert!(decode_bundle("!!!not-a-bundle!!!").is_err());
}

#[test]
fn bundles_are_trimmed_and_judged() {
    let json = br#"{"id":"node","addrs":[]}"#;
    let bundle = encode_bundle(json);
    assert_eq!(bundle, "eyJpZCI6Im5vZGUiLCJhZGRycyI6W119");
    assert_eq!(decode_bundle(&format!(" {bundle}\n")).unwrap(), json);
    assert_eq!(judge_bundle(None), Err(Error::BadBundle));
    assert_eq!(judge_bundle(Some(vec![1])), Ok(vec![1]));
}

#[test]
fn bundles_are_plain_base64() {
    let bytes: Vec<u8> = (0..=255).collect();
    for n in 0..8 {
        let bundle = encode_bundle(&bytes[n..]);
        assert_eq!(bundle, hearth::bytes::base64_url(&bytes[n..]));
        assert_eq!(hearth::bytes::unbase64_url(&bundle).unwrap(), decode_bundle(&bundle).unwrap());
    }
}

#[test]
fn state_labels_stay_non_technical() {
    assert_eq!(ConnectionState::DirectConnected.label(), "Connected directly");
    assert_eq!(ConnectionState::RelayConnected.label(), "Connected through relay");
    assert_eq!(ConnectionState::Negotiating.label(), "Connecting");
    assert_eq!(ConnectionState::Offline.label(), "Offline");
}

fn envelope() -> ProtocolEnvelope {
    ProtocolEnvelope {
        version: CURRENT_PROTOCOL_VERSION,
        message_id: Uuid::new_v4(),
        conversation_id: Uuid::new_v4(),
        sender_device_id: Uuid::new_v4(),
        message_type: MessageType::Ping,
        sequence: 1,
        created_at_ms: 1,
        ciphertext: vec![1, 2, 3],
        sender_sig: vec![],
    }
}

#[test]
fn peers_follow_their_events() {
    let mut peers = Peers::new();
    assert_eq!(peers.peer_state("node-b"), ConnectionState::Offline);
    peers.start_send("node-b", &envelope()).unwrap();
    assert_eq!(peers.peer_state("node-b"), ConnectionState::Negotiating);
    assert!(peers
        .finish_send("node-b", &SendOutcome::Failed { message: "connect timed out".into() })
        .is_none());
    assert_eq!(peers.peer_state("node-b"), ConnectionState::Offline);
    peers.start_send("node-b", &envelope()).unwrap();
    let shown = peers
        .finish_send("node-b", &SendOutcome::Delivered { via_relay: false })
        .unwrap();
    assert_eq!(shown.state, ConnectionState::DirectConnected);
    assert_eq!(shown.detail, "direct path");
    assert_eq!(shown.reconnect_count, 1);
    assert_eq!(shown.last_error, None);
    let shown = peers
        .finish_send("node-c", &SendOutcome::Delivered { via_relay: true })
        .unwrap();
    assert_eq!(shown.state, ConnectionState::RelayConnected);
    assert_eq!(shown.detail, "relayed path");
    let list = peers.diagnostics();
    assert_eq!(list.len(), 2);
    assert_eq!(list[1].detail, "Connected through relay");
    let mut empty = envelope();
    empty.ciphertext.clear();
    assert!(peers.start_send("node-d", &empty).is_err());
    assert_eq!(peers.diagnostics().len(), 2);
}

#[test]
fn acks_are_of_the_message() {
    let sent = envelope();
    let ack = ack_for(&sent, 5);
    assert_eq!(ack.received_at_ms, 5);
    assert_eq!(judge_ack(&ack, &sent), Ok(()));
    let other = StreamAck { message_id: Uuid::new_v4(), received_at_ms: 5 };
    assert_eq!(judge_ack(&other, &sent), Err(Error::AckOfOther));
}

#[test]
fn frames_have_bounded_lengths() {
    assert_eq!(announced_length([0, 0, 0, 0]), Err(Error::FrameLength));
    assert_eq!(announced_length([0, 0, 1, 2]), Ok(258));
    assert_eq!(announced_length((MAX_ENVELOPE_BYTES as u32).to_be_bytes()), Ok(4_194_304));
    assert_eq!(announced_length([0, 64, 0, 1]), Err(Error::FrameLength));
    let frame = ProtocolEnvelope::encode_frame(b"{}");
    assert_eq!(decode_json_frame(&frame), Ok(b"{}".to_vec()));
    assert_eq!(decode_json_frame(&frame[..5]), Err(Error::AckLength));
    assert_eq!(decode_json_frame(&frame[..3]), Err(Error::AckTooShort));
}

#[test]
fn nothing_claims_a_direct_path_early() {
    let direct = NetworkPath { selected: true, relay: false };
    let relay = NetworkPath { selected: true, relay: true };
    let idle = NetworkPath { selected: false, relay: false };
    assert!(path_is_relay(&vec![]));
    assert!(path_is_relay(&vec![idle]));
    assert!(!path_is_relay(&vec![idle, direct, relay]));
    assert!(path_is_relay(&vec![relay, direct]));
}
