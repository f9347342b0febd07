use hearth::coordinator::{
    judge_lookup, judge_status, CloudflareCoordinator, DirectoryRecord, FriendDirective, HttpVerb,
    LocalCoordinator, LocalDirectory,
};
use hearth::error::Error;
use hearth::friends::InviteCode;

fn record(username: &str) -> DirectoryRecord {
    DirectoryRecord {
        username: username.into(),
        display_name: "Test".into(),
        ed_pubkey_hex: "aa".into(),
        x_pubkey_hex: "bb".into(),
        endpoint_id: "node1".into(),
        endpoint_bundle: "bundle".into(),
        updated_at_ms: 1,
    }
}

#[test]
fn local_register_and_lookup() {
    let coord = LocalCoordinator::new("/data/reg", "ada");
    let mut directory = LocalDirectory::empty();
    assert!(coord.lookup(&directory, "bob").is_none());
    coord.register(&mut directory, &record("bob"));
    assert_eq!(coord.lookup(&directory, "bob").unwrap().endpoint_id, "node1");
    let mut moved = record("bob");
    moved.endpoint_id = "node2".into();
    coord.register(&mut directory, &moved);
    assert_eq!(directory.users.len(), 1);
    assert_eq!(coord.lookup(&directory, "bob").unwrap().endpoint_id, "node2");
    assert_eq!(coord.path(), "/data/reg/coordinator.json");
    assert_eq!(coord.name(), "local");
}

#[test]
fn local_remote_mailbox_fails_loudly() {
    let coord = LocalCoordinator::new("mbox", "ada");
    assert!(coord.mailbox_put("bob").is_err());
    assert!(coord.mailbox_put("ada").is_ok());
    assert_eq!(coord.mailbox_put("bob"), Err(Error::NoSharedMailbox));
}

#[test]
fn local_requests_reach_only_the_owner() {
    let coord = LocalCoordinator::new("dir", "ada");
    let mut directory = LocalDirectory::empty();
    let directive = FriendDirective {
        id: "d1".into(),
        from_username: "bob".into(),
        from_display_name: "Bob".into(),
        from_ed_pubkey_hex: "aa".into(),
        from_x_pubkey_hex: "bb".into(),
        status: "pending".into(),
        created_at_ms: 4,
    };
    assert_eq!(
        coord.publish_friend_request(&mut directory, &directive, "cara"),
        Err(Error::NoSharedServer)
    );
    assert_eq!(coord.publish_friend_request(&mut directory, &directive, "ada"), Ok(()));
    assert_eq!(coord.fetch_friend_requests(&directory, "ada").len(), 1);
    assert_eq!(coord.fetch_friend_requests(&directory, "ada")[0].id, "d1");
    assert!(coord.fetch_friend_requests(&directory, "cara").is_empty());
}

#[test]
fn invite_code_roundtrip() {
    let json = br#"{"username":"ada","display_name":"Ada","ed_pubkey_hex":"aa","x_pubkey_hex":"bb","endpoint_id":"node1","endpoint_bundle":"bund-le_/~data"}"#;
    let code = InviteCode::encode(json);
    assert!(code.starts_with("hearth1"));
    let decoded = InviteCode::decode(&code).unwrap();
    assert_eq!(decoded, json);
    let value: serde_json::Value = serde_json::from_slice(&decoded).unwrap();
    assert_eq!(value["username"], "ada");
    assert_eq!(value["endpoint_bundle"], "bund-le_/~data");
    assert!(InviteCode::decode("nope").is_err());
    assert_eq!(InviteCode::decode("hearth1?"), Err(Error::BadBase64));
}

#[test]
fn cloud_addresses() {
    let cloud = CloudflareCoordinator::new("https://worker.example//");
    assert_eq!(cloud.base_url, "https://worker.example");
    assert_eq!(cloud.name(), "cloudflare");
    assert_eq!(cloud.register().url, "https://worker.example/v1/directory");
    assert_eq!(cloud.register().verb, HttpVerb::Post);
    assert_eq!(cloud.lookup("bob").url, "https://worker.example/v1/directory/bob");
    assert_eq!(
        cloud.publish_friend_request("bob").url,
        "https://worker.example/v1/friends/bob/requests"
    );
    assert_eq!(cloud.fetch_friend_requests("bob").verb, HttpVerb::Get);
    assert_eq!(cloud.mailbox_put("bob").url, "https://worker.example/v1/mailbox/bob");
    assert_eq!(cloud.mailbox_get("bob").verb, HttpVerb::Get);
    assert_eq!(cloud.mailbox_ack("bob", "m1").url, "https://worker.example/v1/mailbox/bob/m1");
    assert_eq!(cloud.mailbox_ack("bob", "m1").verb, HttpVerb::Delete);
}

#[test]
fn cloud_answers_are_judged() {
    assert_eq!(judge_status(200), Ok(()));
    assert_eq!(judge_status(299), Ok(()));
    assert_eq!(judge_status(500), Err(Error::CoordinatorStatus(500)));
    assert_eq!(judge_lookup(404), Ok(false));
    assert_eq!(judge_lookup(204), Ok(true));
    assert_eq!(judge_lookup(403), Err(Error::CoordinatorStatus(403)));
    assert_eq!(Error::CoordinatorStatus(403).message(), "coordinator answered 403");
}
