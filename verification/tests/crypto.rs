use hearth::bytes::{base64_url, hex_decode_32, hex_encode, unbase64_url};
use hearth::crypto::{
    generate_x_secret, open_dm, open_group, random_32, seal_dm, seal_dm_with_nonce, seal_group,
    sha256_hex, take_group_key, unframe_dm, unwrap_group_key, wrap_group_key, x_public_from_secret,
    ChunkManifest,
};
use hearth::error::Error;

#[test]
fn dm_roundtrip() {
    let alice = generate_x_secret();
    let bob = generate_x_secret();
    let bob_pub = x_public_from_secret(&bob);
    let alice_pub = x_public_from_secret(&alice);
    let boxed = seal_dm(&alice, &bob_pub, b"conv-1", b"hello bob").unwrap();
    let opened = open_dm(&bob, &alice_pub, b"conv-1", &boxed).unwrap();
    assert_eq!(opened, b"hello bob");
}

#[test]
fn dm_rejects_tampered_ciphertext() {
    let alice = generate_x_secret();
    let bob = generate_x_secret();
    let bob_pub = x_public_from_secret(&bob);
    let alice_pub = x_public_from_secret(&alice);
    let mut boxed = seal_dm(&alice, &bob_pub, b"conv-1", b"hello").unwrap();
    let last = boxed.len() - 1;
    boxed[last] ^= 0x01;
    assert!(open_dm(&bob, &alice_pub, b"conv-1", &boxed).is_err());
}

#[test]
fn dm_rejects_wrong_recipient() {
    let alice = generate_x_secret();
    let bob = generate_x_secret();
    let mallory = generate_x_secret();
    let bob_pub = x_public_from_secret(&bob);
    let alice_pub = x_public_from_secret(&alice);
    let boxed = seal_dm(&alice, &bob_pub, b"conv-1", b"hello").unwrap();
    assert!(open_dm(&mallory, &alice_pub, b"conv-1", &boxed).is_err());
}

#[test]
fn dm_errors_are_told_apart() {
    let alice = [1u8; 32];
    let bob = [2u8; 32];
    let bob_pub = x_public_from_secret(&bob);
    let alice_pub = x_public_from_secret(&alice);
    let nonce = [7u8; 24];
    let boxed = seal_dm_with_nonce(&alice, &bob_pub, b"conv-1", b"hi", &nonce).unwrap();
    assert_eq!(&boxed[..24], &nonce);
    // Nonce, tag, two length bytes, context, text.
    assert_eq!(boxed.len(), 24 + 16 + 2 + 6 + 2);
    assert_eq!(boxed, seal_dm_with_nonce(&alice, &bob_pub, b"conv-1", b"hi", &nonce).unwrap());
    assert_eq!(open_dm(&bob, &alice_pub, b"conv-2", &boxed), Err(Error::DmContextMismatch));
    assert_eq!(open_dm(&bob, &alice_pub, b"conv-1", &boxed[..23]), Err(Error::DmTooShort));
    assert_eq!(open_dm(&bob, &bob_pub, b"conv-1", &boxed), Err(Error::DmOpenFailed));
    let long = vec![0u8; 65_536];
    assert_eq!(seal_dm(&alice, &bob_pub, &long, b""), Err(Error::DmContextTooLong));
    assert!(seal_dm(&alice, &bob_pub, &long[1..], b"").is_ok());
}

#[test]
fn frames_carry_their_context() {
    assert_eq!(unframe_dm(&[0, 2, 9, 8, 7], &[9, 8]), Ok(vec![7]));
    assert_eq!(unframe_dm(&[0, 2, 9, 8, 7], &[9, 9]), Err(Error::DmContextMismatch));
    assert_eq!(unframe_dm(&[0, 2, 9], &[9, 8]), Err(Error::DmFrameTruncated));
    assert_eq!(unframe_dm(&[0], &[]), Err(Error::DmFrameTooShort));
    assert_eq!(unframe_dm(&[0, 0], &[]), Ok(vec![]));
}

#[test]
fn group_key_wrap_and_message_roundtrip() {
    let alice = generate_x_secret();
    let bob = generate_x_secret();
    let bob_pub = x_public_from_secret(&bob);
    let alice_pub = x_public_from_secret(&alice);
    let group_key = random_32();
    let wrapped = wrap_group_key(&alice, &bob_pub, &group_key).unwrap();
    let unwrapped = unwrap_group_key(&bob, &alice_pub, &wrapped).unwrap();
    assert_eq!(unwrapped, group_key);
    let sealed = seal_group(&group_key, 7, b"group hello").unwrap();
    assert_eq!(open_group(&group_key, 7, &sealed).unwrap(), b"group hello");
    assert!(open_group(&group_key, 8, &sealed).is_err());
}

#[test]
fn group_errors_are_told_apart() {
    let key = [3u8; 32];
    let sealed = seal_group(&key, 258, b"x").unwrap();
    assert_eq!(&sealed[..12], &[b'H', b'G', b'1', b'G', 0, 0, 0, 0, 0, 0, 1, 2]);
    assert_eq!(sealed.len(), 12 + 1 + 16);
    assert_eq!(open_group(&key, 258, &sealed), Ok(vec![b'x']));
    assert_eq!(open_group(&key, 259, &sealed), Err(Error::GroupSequenceMismatch));
    assert_eq!(open_group(&[4u8; 32], 258, &sealed), Err(Error::GroupOpenFailed));
    assert_eq!(open_group(&key, 258, &sealed[..27]), Err(Error::GroupTooShort));
    assert_eq!(take_group_key(Ok(vec![1; 31])), Err(Error::GroupKeyLength));
    assert_eq!(take_group_key(Err(Error::DmTooShort)), Err(Error::GroupKeyUnwrap));
    assert_eq!(take_group_key(Ok(vec![1; 32])), Ok([1u8; 32]));
}

#[test]
fn known_public_key() {
    // RFC 7748: the product of the clamped scalar and the base point 9.
    assert_eq!(
        hex_encode(&x_public_from_secret(&[1u8; 32])),
        "a4e09292b651c278b9772c569f5fa9bb13d906b46ab68c9df9dc2b4409f8a209"
    );
}

#[test]
fn secrets_are_fresh() {
    assert_ne!(random_32(), random_32());
    assert_ne!(generate_x_secret(), generate_x_secret());
}

#[test]
fn known_digest() {
    assert_eq!(
        sha256_hex(b"abc"),
        "ba7816bf8f01cfea414140de5dae2223b00361a396177a9cb410ff61f20015ad"
    );
}

#[test]
fn chunk_manifest_detects_corruption() {
    let data = b"The quick brown fox jumps over the lazy dog".repeat(100);
    let manifest = ChunkManifest::build(&data, 64);
    assert!(manifest.verify_chunk(0, &data[..64]));
    let mut bad = data[..64].to_vec();
    bad[0] ^= 1;
    assert!(!manifest.verify_chunk(0, &bad));
    assert!(!manifest.verify_chunk(9999, &data[..64]));
}

#[test]
fn manifests_cover_the_last_chunk() {
    let data = vec![5u8; 130];
    let manifest = ChunkManifest::build(&data, 64);
    assert_eq!(manifest.chunk_hashes.len(), 3);
    assert_eq!(manifest.total_bytes, 130);
    assert!(manifest.verify_chunk(2, &data[128..]));
    assert!(ChunkManifest::build(&[], 64).chunk_hashes.is_empty());
}

#[test]
fn hex_reads_back_what_it_wrote() {
    let bytes: Vec<u8> = (0..32).map(|i| i * 8 + 3).collect();
    let text = hex_encode(&bytes);
    assert_eq!(hex_encode(&[0, 255, 16]), "00ff10");
    assert_eq!(hex_decode_32(&format!("  {}\n", text.to_uppercase())).unwrap().to_vec(), bytes);
    assert_eq!(hex_decode_32("abc"), Err(Error::HexLength));
    assert_eq!(hex_decode_32(&"zz".repeat(32)), Err(Error::BadHex));
    assert_eq!(hex_decode_32(&"+f".repeat(32)), Ok([15u8; 32]));
    assert_eq!(hex_decode_32(&"é".repeat(32)), Err(Error::BadHex));
}

#[test]
fn base64_reads_back_what_it_wrote() {
    assert_eq!(base64_url(b""), "");
    assert_eq!(base64_url(b"f"), "Zg");
    assert_eq!(base64_url(b"fo"), "Zm8");
    assert_eq!(base64_url(b"foobar"), "Zm9vYmFy");
    assert_eq!(base64_url(&[251, 255]), "-_8");
    let all: Vec<u8> = (0..=255).collect();
    for n in 0..20 {
        assert_eq!(unbase64_url(&base64_url(&all[n..])).unwrap(), &all[n..]);
    }
    assert_eq!(unbase64_url("Zg="), Err(Error::BadBase64));
    assert_eq!(unbase64_url("Z"), Ok(vec![]));
}
