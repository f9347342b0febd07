use hearth::error::Error;
use hearth::identity::{
    kept_in, load_or_generate, DeviceIdentity, FileStore, KeyBackend, OsKeyringStore,
    StartingIdentity, StoredSecret, SERVICE_NAME,
};
use hearth::ids::Uuid;

#[test]
fn sign_verify_roundtrip() {
    let device = DeviceIdentity::generate();
    let public = device.public();
    let message = b"friend-request:ada>bob";
    let signature = device.sign(message);
    assert!(DeviceIdentity::verify(&public.ed_pubkey, message, &signature).is_ok());
    assert!(DeviceIdentity::verify(&public.ed_pubkey, b"tampered", &signature).is_err());
}

#[test]
fn rejects_corrupt_secret_blob() {
    assert!(DeviceIdentity::decode(&[0u8; 10]).is_err());
}

#[test]
fn stored_identity_is_read_back() {
    let identity = DeviceIdentity::generate();
    let bytes = identity.encode();
    assert_eq!(bytes.len(), 80);
    assert_eq!(&bytes[..16], &identity.device_id.bytes);
    let back = DeviceIdentity::decode(&bytes).unwrap();
    assert_eq!(back.device_id, identity.device_id);
    assert_eq!(back.ed_secret, identity.ed_secret);
    assert_eq!(back.x_secret, identity.x_secret);
    assert_ne!(identity.ed_secret, identity.x_secret);
}

#[test]
fn signatures_are_judged() {
    assert_eq!(DeviceIdentity::judge_signature(None), Err(Error::BadSigningKey));
    assert_eq!(DeviceIdentity::judge_signature(Some(false)), Err(Error::BadSignature));
    assert_eq!(DeviceIdentity::judge_signature(Some(true)), Ok(()));
    let device = DeviceIdentity::generate();
    let other = DeviceIdentity::generate();
    let signature = device.sign(b"x");
    assert_eq!(
        DeviceIdentity::verify(&other.public().ed_pubkey, b"x", &signature),
        Err(Error::BadSignature)
    );
    // No point of the curve has this encoding.
    let mut no_point = [0u8; 32];
    no_point[0] = 2;
    assert_eq!(DeviceIdentity::verify(&no_point, b"x", &signature), Err(Error::BadSigningKey));
}

#[test]
fn the_credential_store_comes_first() {
    let a = DeviceIdentity::generate();
    let b = DeviceIdentity::generate();
    match load_or_generate(StoredSecret::Found(a.encode()), StoredSecret::Found(b.encode())) {
        Ok(StartingIdentity::Kept(identity, backend)) => {
            assert_eq!(identity.device_id, a.device_id);
            assert_eq!(backend, KeyBackend::OsKeyring);
        }
        _ => panic!("expected the stored identity"),
    }
    match load_or_generate(StoredSecret::Unreadable, StoredSecret::Found(b.encode())) {
        Ok(StartingIdentity::Kept(identity, backend)) => {
            assert_eq!(identity.device_id, b.device_id);
            assert_eq!(backend, KeyBackend::File);
        }
        _ => panic!("expected the identity of the file"),
    }
    assert!(matches!(
        load_or_generate(StoredSecret::Absent, StoredSecret::Absent),
        Ok(StartingIdentity::New(_))
    ));
    assert!(matches!(
        load_or_generate(StoredSecret::Absent, StoredSecret::Unreadable),
        Err(Error::KeyFileUnreadable)
    ));
    assert!(matches!(
        load_or_generate(StoredSecret::Found(vec![1]), StoredSecret::Found(vec![2])),
        Err(Error::IdentityLength)
    ));
    assert_eq!(kept_in(true), KeyBackend::OsKeyring);
    assert_eq!(kept_in(false), KeyBackend::File);
}

#[test]
fn stores_know_their_place() {
    let os = OsKeyringStore::new(SERVICE_NAME, "device-identity");
    assert_eq!(os.service, "org.hearth.chat");
    assert_eq!(os.account, "device-identity");
    assert_eq!(FileStore::new("/tmp/device.key").path, "/tmp/device.key");
}

#[test]
fn identifiers_are_written_and_read() {
    let id = Uuid { bytes: [0x93, 0x6d, 0xa0, 0x1f, 0x9a, 0xbd, 0x4d, 0x9d, 0x80, 0xc7, 0x02, 0xaf, 0x85, 0xc8, 0x22, 0xa8] };
    assert_eq!(id.to_text(), "936da01f-9abd-4d9d-80c7-02af85c822a8");
    assert_eq!(Uuid::parse_str("936DA01F9ABD4D9D80C702AF85C822A8"), Some(id));
    assert_eq!(Uuid::parse_str("conv-1"), None);
    let fresh = Uuid::new_v4();
    assert_eq!(Uuid::parse_str(&fresh.to_text()), Some(fresh));
    assert_eq!(fresh.bytes[6] >> 4, 4);
    assert!(fresh.same(&fresh));
    assert!(!fresh.same(&id));
}
