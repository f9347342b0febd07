//! Encryption with reviewed primitives; no constructions of its own.
//!
//! * Direct messages: NaCl `crypto_box` (X25519 with XSalsa20-Poly1305).
//! * Groups: a random 32-byte key per epoch, used with ChaCha20-Poly1305 and
//!   handed to each member in a `crypto_box`.
//! * Integrity of files: SHA-256 of each chunk.
//!
//! What the primitives compute is named here ([`box_sealed`], [`aead_sealed`],
//! [`sha256`] and so on); everything around them is stated over those names.

use chacha20poly1305::aead::{Aead, KeyInit, Payload};
use crypto_box::aead::Aead as BoxAead;
use rand::TryRng;
use sha2::Digest;
use vstd::prelude::*;

use crate::bytes::{
    append_bytes, array_32, be16, be64, bytes_between, from_be16, hex, hex_encode,
    lemma_be64_injective, push_be16, push_be64,
};
use crate::error::Error;
use crate::text::{bytes_eq, text_eq, texts};

verus! {

// -- what the primitives compute ------------------------------------------------

/// The X25519 public key of a secret.
pub uninterp spec fn x25519_public(secret: Seq<u8>) -> Seq<u8>;

/// The `crypto_box` of a text under a nonce, from the holder of a secret to the
/// holder of a public key.
pub uninterp spec fn box_sealed(
    secret: Seq<u8>,
    public: Seq<u8>,
    nonce: Seq<u8>,
    text: Seq<u8>,
) -> Seq<u8>;

/// What a `crypto_box` holds for the holder of a secret, if it came from the
/// holder of a public key under this nonce.
pub uninterp spec fn box_opened(
    secret: Seq<u8>,
    public: Seq<u8>,
    nonce: Seq<u8>,
    sealed: Seq<u8>,
) -> Option<Seq<u8>>;

/// The ChaCha20-Poly1305 ciphertext of a text with associated data.
pub uninterp spec fn aead_sealed(
    key: Seq<u8>,
    nonce: Seq<u8>,
    aad: Seq<u8>,
    text: Seq<u8>,
) -> Seq<u8>;

/// The text of a ChaCha20-Poly1305 ciphertext, if it is authentic.
pub uninterp spec fn aead_opened(
    key: Seq<u8>,
    nonce: Seq<u8>,
    aad: Seq<u8>,
    sealed: Seq<u8>,
) -> Option<Seq<u8>>;

/// The SHA-256 digest.
pub uninterp spec fn sha256(data: Seq<u8>) -> Seq<u8>;

/// The longest text that ChaCha20-Poly1305 encrypts: as many blocks of 64 bytes as its
/// counter numbers behind the block that the tag takes.
pub const AEAD_BYTES: u64 = 274_877_906_816;

/// A text that ChaCha20-Poly1305 encrypts.
pub open spec fn aead_fits(len: nat) -> bool {
    len <= AEAD_BYTES
}

/// Calls `crypto_box::SecretKey::public_key` and names what it computes.
#[verifier::external_body]
fn derive_x25519(secret: &[u8; 32]) -> (public: [u8; 32])
    ensures
        public@ == x25519_public(secret@),
{
    *crypto_box::SecretKey::from(*secret).public_key().as_bytes()
}

/// Calls `rand::rngs::SysRng::try_fill_bytes`, which fills the buffer with
/// random bytes of the system. Without randomness the program cannot go on:
/// there is no safe fallback.
#[verifier::external_body]
fn system_random(count: usize) -> (bytes: Vec<u8>)
    ensures
        bytes@.len() == count,
{
    let mut bytes = vec![0u8; count];
    rand::rngs::SysRng.try_fill_bytes(&mut bytes).expect("OS RNG unavailable");
    bytes
}

/// Calls `encrypt` on a `crypto_box::SalsaBox` without associated data, which
/// succeeds on every text and adds a tag of 16 bytes. The holder of the
/// recipient's secret opens the result with the sender's public key.
#[verifier::external_body]
fn seal_box(secret: &[u8; 32], public: &[u8; 32], nonce: &[u8; 24], text: &[u8]) -> (sealed: Option<
    Vec<u8>,
>)
    ensures
        sealed is Some,
        sealed->0@ == box_sealed(secret@, public@, nonce@, text@),
        sealed->0@.len() == text@.len() + 16,
        forall|other: Seq<u8>|
            other.len() == 32 && #[trigger] x25519_public(other) == public@ ==> box_opened(
                other,
                x25519_public(secret@),
                nonce@,
                sealed->0@,
            ) == Some(text@),
{
    let recipient = crypto_box::PublicKey::from(*public);
    let sender = crypto_box::SecretKey::from(*secret);
    let cipher: crypto_box::SalsaBox = crypto_box::CryptoBox::new(&recipient, &sender);
    BoxAead::encrypt(&cipher, &crypto_box::Nonce::from(*nonce), text).ok()
}

/// Calls `decrypt` on a `crypto_box::SalsaBox` and names what it computes.
#[verifier::external_body]
fn open_box(secret: &[u8; 32], public: &[u8; 32], nonce: &[u8], sealed: &[u8]) -> (text: Option<
    Vec<u8>,
>)
    requires
        nonce@.len() == 24,
    ensures
        match (text, box_opened(secret@, public@, nonce@, sealed@)) {
            (Some(t), Some(m)) => t@ == m,
            (None, None) => true,
            _ => false,
        },
{
    let sender = crypto_box::PublicKey::from(*public);
    let recipient = crypto_box::SecretKey::from(*secret);
    let cipher: crypto_box::SalsaBox = crypto_box::CryptoBox::new(&sender, &recipient);
    BoxAead::decrypt(&cipher, crypto_box::Nonce::from_slice(nonce), sealed).ok()
}

/// Calls `encrypt` on a `chacha20poly1305::ChaCha20Poly1305`, which succeeds on every
/// text that its block counter can number, and adds a tag of 16 bytes. The same key,
/// nonce and associated data open the result.
#[verifier::external_body]
fn seal_aead(key: &[u8; 32], nonce: &[u8; 12], aad: &[u8], text: &[u8]) -> (sealed: Option<Vec<u8>>)
    requires
        aead_fits(text@.len()),
    ensures
        sealed is Some,
        sealed->0@ == aead_sealed(key@, nonce@, aad@, text@),
        sealed->0@.len() == text@.len() + 16,
        aead_opened(key@, nonce@, aad@, sealed->0@) == Some(text@),
{
    let cipher = chacha20poly1305::ChaCha20Poly1305::new(&chacha20poly1305::Key::from(*key));
    let nonce = chacha20poly1305::Nonce::from(*nonce);
    Aead::encrypt(&cipher, &nonce, Payload { msg: text, aad }).ok()
}

/// Calls `decrypt` on a `chacha20poly1305::ChaCha20Poly1305` and names what it
/// computes. Behind its tag a box holds no more than can be encrypted.
#[verifier::external_body]
fn open_aead(key: &[u8; 32], nonce: &[u8; 12], aad: &[u8], sealed: &[u8]) -> (text: Option<Vec<u8>>)
    requires
        sealed@.len() <= AEAD_BYTES + 16,
    ensures
        match (text, aead_opened(key@, nonce@, aad@, sealed@)) {
            (Some(t), Some(m)) => t@ == m,
            (None, None) => true,
            _ => false,
        },
{
    let cipher = chacha20poly1305::ChaCha20Poly1305::new(&chacha20poly1305::Key::from(*key));
    let nonce = chacha20poly1305::Nonce::from(*nonce);
    Aead::decrypt(&cipher, &nonce, Payload { msg: sealed, aad }).ok()
}

/// Calls `sha2::Sha256::digest` and names what it computes.
#[verifier::external_body]
fn digest_sha256(data: &[u8]) -> (digest: [u8; 32])
    ensures
        digest@ == sha256(data@),
{
    sha2::Sha256::digest(data).into()
}

// -- keys -----------------------------------------------------------------------

/// The X25519 public key of a 32-byte secret.
pub fn x_public_from_secret(secret: &[u8; 32]) -> (public: [u8; 32])
    ensures
        public@ == x25519_public(secret@),
{
    derive_x25519(secret)
}

/// 32 random bytes of the system.
pub fn random_32() -> (bytes: [u8; 32])
    ensures
        bytes@.len() == 32,
{
    array_32(system_random(32).as_slice())
}

/// A new X25519 secret.
pub fn generate_x_secret() -> (secret: [u8; 32])
    ensures
        secret@.len() == 32,
{
    random_32()
}

// -- direct messages --------------------------------------------------------------

/// How many bytes of a sealed direct message are its nonce.
pub const DM_NONCE_BYTES: usize = 24;

/// What a direct message encrypts: the length of its context, the context, the
/// text.
pub open spec fn dm_frame(context: Seq<u8>, text: Seq<u8>) -> Seq<u8> {
    be16(context.len() as u16) + context + text
}

/// A sealed direct message: the nonce, then the box of the frame.
pub open spec fn dm_sealed(
    secret: Seq<u8>,
    public: Seq<u8>,
    context: Seq<u8>,
    text: Seq<u8>,
    nonce: Seq<u8>,
) -> Seq<u8> {
    nonce + box_sealed(secret, public, nonce, dm_frame(context, text))
}

/// What a frame holds for a reader who expects `context`.
pub open spec fn dm_unframed(framed: Seq<u8>, context: Seq<u8>) -> Result<Seq<u8>, Error> {
    if framed.len() < 2 {
        Err(Error::DmFrameTooShort)
    } else if framed.len() < 2 + from_be16(framed) {
        Err(Error::DmFrameTruncated)
    } else if framed.subrange(2, 2 + from_be16(framed)) != context {
        Err(Error::DmContextMismatch)
    } else {
        Ok(framed.skip(2 + from_be16(framed)))
    }
}

/// What a sealed direct message holds for a reader who expects `context`.
pub open spec fn dm_opened(
    secret: Seq<u8>,
    public: Seq<u8>,
    context: Seq<u8>,
    boxed: Seq<u8>,
) -> Result<Seq<u8>, Error> {
    if boxed.len() < DM_NONCE_BYTES {
        Err(Error::DmTooShort)
    } else {
        match box_opened(
            secret,
            public,
            boxed.take(DM_NONCE_BYTES as int),
            boxed.skip(DM_NONCE_BYTES as int),
        ) {
            Some(framed) => dm_unframed(framed, context),
            None => Err(Error::DmOpenFailed),
        }
    }
}

/// The holder of the recipient's secret opens these bytes with the sender's public key
/// under their context, and is refused under any other.
pub open spec fn opens_for(
    sender_secret: Seq<u8>,
    recipient_pub: Seq<u8>,
    context: Seq<u8>,
    text: Seq<u8>,
    sealed: Seq<u8>,
) -> bool {
    forall|secret: Seq<u8>, expected: Seq<u8>|
        secret.len() == 32 && x25519_public(secret) == recipient_pub ==> #[trigger] dm_opened(
            secret,
            x25519_public(sender_secret),
            expected,
            sealed,
        ) == if expected == context {
            Ok::<Seq<u8>, Error>(text)
        } else {
            Err(Error::DmContextMismatch)
        }
}

/// The outcome of opening, with the bytes taken by their view.
pub open spec fn opened_view(r: Result<Vec<u8>, Error>) -> Result<Seq<u8>, Error> {
    match r {
        Ok(v) => Ok(v@),
        Err(e) => Err(e),
    }
}

/// Seals `plaintext` under a given nonce.
pub fn seal_dm_with_nonce(
    sender_secret: &[u8; 32],
    recipient_pub: &[u8; 32],
    context: &[u8],
    plaintext: &[u8],
    nonce: &[u8; 24],
) -> (sealed: Result<Vec<u8>, Error>)
    ensures
        context@.len() > u16::MAX ==> sealed == Err::<Vec<u8>, Error>(Error::DmContextTooLong),
        context@.len() <= u16::MAX ==> sealed is Ok && sealed->Ok_0@ == dm_sealed(
            sender_secret@,
            recipient_pub@,
            context@,
            plaintext@,
            nonce@,
        ),
        context@.len() <= u16::MAX ==> opens_for(
            sender_secret@,
            recipient_pub@,
            context@,
            plaintext@,
            sealed->Ok_0@,
        ),
{
    if context.len() > 0xffff {
        return Err(Error::DmContextTooLong);
    }
    let mut framed: Vec<u8> = Vec::new();
    push_be16(&mut framed, context.len() as u16);
    append_bytes(&mut framed, context);
    append_bytes(&mut framed, plaintext);
    assert(framed@ =~= dm_frame(context@, plaintext@));
    match seal_box(sender_secret, recipient_pub, nonce, framed.as_slice()) {
        Some(ciphertext) => {
            let mut out: Vec<u8> = Vec::new();
            append_bytes(&mut out, nonce.as_slice());
            append_bytes(&mut out, ciphertext.as_slice());
            assert(out@ =~= nonce@ + ciphertext@);
            proof {
                assert(out@.take(DM_NONCE_BYTES as int) =~= nonce@);
                assert(out@.skip(DM_NONCE_BYTES as int) =~= ciphertext@);
                law_dm_frame_round_trip(context@, plaintext@);
            }
            Ok(out)
        },
        None => Err(Error::DmOpenFailed),
    }
}

/// Encrypts `plaintext` so that only the holder of `recipient_pub` can read it,
/// authenticated as coming from `sender_secret`.
///
/// The context (such as the conversation id) is framed with the text, and the
/// reader must present the same one: a message cannot be replayed in another
/// context. The nonce is random and stands at the front of the result.
pub fn seal_dm(
    sender_secret: &[u8; 32],
    recipient_pub: &[u8; 32],
    context: &[u8],
    plaintext: &[u8],
) -> (sealed: Result<Vec<u8>, Error>)
    ensures
        context@.len() > u16::MAX ==> sealed == Err::<Vec<u8>, Error>(Error::DmContextTooLong),
        context@.len() <= u16::MAX ==> sealed is Ok && sealed->Ok_0@.len() >= DM_NONCE_BYTES
            && sealed->Ok_0@ == dm_sealed(
            sender_secret@,
            recipient_pub@,
            context@,
            plaintext@,
            sealed->Ok_0@.take(DM_NONCE_BYTES as int),
        ),
        context@.len() <= u16::MAX ==> opens_for(
            sender_secret@,
            recipient_pub@,
            context@,
            plaintext@,
            sealed->Ok_0@,
        ),
{
    let random = system_random(DM_NONCE_BYTES);
    let mut nonce: [u8; 24] = [0u8; 24];
    let mut i: usize = 0;
    while i < DM_NONCE_BYTES
        invariant
            i <= DM_NONCE_BYTES,
            random@.len() == DM_NONCE_BYTES,
        decreases DM_NONCE_BYTES - i,
    {
        nonce[i] = random[i];
        i += 1;
    }
    let sealed = seal_dm_with_nonce(sender_secret, recipient_pub, context, plaintext, &nonce);
    proof {
        if sealed is Ok {
            assert(sealed->Ok_0@.take(DM_NONCE_BYTES as int) =~= nonce@);
        }
    }
    sealed
}

/// Takes the text out of a decrypted frame, for a reader who expects the given
/// context.
pub fn unframe_dm(framed: &[u8], expected_context: &[u8]) -> (text: Result<Vec<u8>, Error>)
    ensures
        opened_view(text) == dm_unframed(framed@, expected_context@),
{
    if framed.len() < 2 {
        return Err(Error::DmFrameTooShort);
    }
    let context_len: usize = framed[0] as usize * 256 + framed[1] as usize;
    if framed.len() < 2 + context_len {
        return Err(Error::DmFrameTruncated);
    }
    let context = bytes_between(framed, 2, 2 + context_len);
    if !bytes_eq(context.as_slice(), expected_context) {
        return Err(Error::DmContextMismatch);
    }
    let text = bytes_between(framed, 2 + context_len, framed.len());
    assert(text@ =~= framed@.skip(2 + context_len));
    Ok(text)
}

/// Decrypts what [`seal_dm`] made, for a reader who expects the given context.
pub fn open_dm(
    recipient_secret: &[u8; 32],
    sender_pub: &[u8; 32],
    expected_context: &[u8],
    boxed: &[u8],
) -> (text: Result<Vec<u8>, Error>)
    ensures
        opened_view(text) == dm_opened(
            recipient_secret@,
            sender_pub@,
            expected_context@,
            boxed@,
        ),
{
    if boxed.len() < DM_NONCE_BYTES {
        return Err(Error::DmTooShort);
    }
    let nonce = bytes_between(boxed, 0, DM_NONCE_BYTES);
    let sealed = bytes_between(boxed, DM_NONCE_BYTES, boxed.len());
    assert(nonce@ =~= boxed@.take(DM_NONCE_BYTES as int));
    assert(sealed@ =~= boxed@.skip(DM_NONCE_BYTES as int));
    match open_box(recipient_secret, sender_pub, nonce.as_slice(), sealed.as_slice()) {
        Some(framed) => unframe_dm(framed.as_slice(), expected_context),
        None => Err(Error::DmOpenFailed),
    }
}

/// A frame gives its text back to a reader who expects its context, and refuses
/// a reader who expects any other.
pub proof fn law_dm_frame_round_trip(context: Seq<u8>, text: Seq<u8>)
    requires
        context.len() <= u16::MAX,
    ensures
        dm_unframed(dm_frame(context, text), context) == Ok::<Seq<u8>, Error>(text),
        forall|other: Seq<u8>|
            other != context ==> #[trigger] dm_unframed(dm_frame(context, text), other) == Err::<
                Seq<u8>,
                Error,
            >(Error::DmContextMismatch),
{
    let framed = dm_frame(context, text);
    let n = context.len() as int;
    assert(framed[0] == (n / 256) as u8);
    assert(framed[1] == (n % 256) as u8);
    assert(from_be16(framed) == n);
    assert(framed.subrange(2, 2 + n) =~= context);
    assert(framed.skip(2 + n) =~= text);
}

// -- group keys and messages ------------------------------------------------------

/// The context of a wrapped group key: `hearth/group-key/v1`.
pub const GROUP_KEY_CONTEXT: &'static str = "hearth/group-key/v1";

/// The associated data of a group message: `hearth/group/v1`.
pub const GROUP_AAD: &'static str = "hearth/group/v1";

/// How many bytes of a sealed group message are its nonce.
pub const GROUP_NONCE_BYTES: usize = 12;

/// The bytes of the context of a wrapped group key.
pub open spec fn group_key_context() -> Seq<u8> {
    vstd::utf8::encode_utf8(GROUP_KEY_CONTEXT@)
}

/// The associated data of a group message.
pub open spec fn group_aad() -> Seq<u8> {
    vstd::utf8::encode_utf8(GROUP_AAD@)
}

/// The nonce of a group message: the letters `HG1G`, then the number that it is sealed
/// under.
pub open spec fn group_nonce_bytes(sequence: u64) -> Seq<u8> {
    seq![72u8, 71u8, 49u8, 71u8] + be64(sequence)
}

/// A sealed group message: the nonce, then the ciphertext.
pub open spec fn group_sealed(key: Seq<u8>, sequence: u64, text: Seq<u8>) -> Seq<u8> {
    group_nonce_bytes(sequence) + aead_sealed(key, group_nonce_bytes(sequence), group_aad(), text)
}

/// What a sealed group message holds for a reader who expects its number.
pub open spec fn group_opened(key: Seq<u8>, sequence: u64, boxed: Seq<u8>) -> Result<Seq<u8>, Error> {
    if boxed.len() < GROUP_NONCE_BYTES + 16 {
        Err(Error::GroupTooShort)
    } else if boxed.take(GROUP_NONCE_BYTES as int) != group_nonce_bytes(sequence) {
        Err(Error::GroupSequenceMismatch)
    } else if boxed.len() > GROUP_NONCE_BYTES + AEAD_BYTES + 16 {
        Err(Error::GroupOpenFailed)
    } else {
        match aead_opened(
            key,
            group_nonce_bytes(sequence),
            group_aad(),
            boxed.skip(GROUP_NONCE_BYTES as int),
        ) {
            Some(text) => Ok(text),
            None => Err(Error::GroupOpenFailed),
        }
    }
}

/// What unwrapping a group key gives.
pub open spec fn key_unwrapped(opened: Result<Seq<u8>, Error>) -> Result<Seq<u8>, Error> {
    match opened {
        Ok(raw) => if raw.len() == 32 {
            Ok(raw)
        } else {
            Err(Error::GroupKeyLength)
        },
        Err(_) => Err(Error::GroupKeyUnwrap),
    }
}

/// The outcome of unwrapping, with the key taken by its view.
pub open spec fn key_view(r: Result<[u8; 32], Error>) -> Result<Seq<u8>, Error> {
    match r {
        Ok(k) => Ok(k@),
        Err(e) => Err(e),
    }
}

/// Wraps a group key for one member.
pub fn wrap_group_key(sender_secret: &[u8; 32], member_pub: &[u8; 32], group_key: &[u8; 32]) -> (wrapped:
    Result<Vec<u8>, Error>)
    ensures
        wrapped is Ok,
        wrapped->Ok_0@.len() >= DM_NONCE_BYTES,
        wrapped->Ok_0@ == dm_sealed(
            sender_secret@,
            member_pub@,
            group_key_context(),
            group_key@,
            wrapped->Ok_0@.take(DM_NONCE_BYTES as int),
        ),
        opens_for(
            sender_secret@,
            member_pub@,
            group_key_context(),
            group_key@,
            wrapped->Ok_0@,
        ),
{
    proof {
        lemma_group_key_context_len();
    }
    seal_dm(sender_secret, member_pub, GROUP_KEY_CONTEXT.as_bytes(), group_key.as_slice())
}

/// Takes the group key out of what was opened.
pub fn take_group_key(opened: Result<Vec<u8>, Error>) -> (key: Result<[u8; 32], Error>)
    ensures
        key_view(key) == key_unwrapped(opened_view(opened)),
{
    match opened {
        Ok(raw) => if raw.len() == 32 {
            Ok(array_32(raw.as_slice()))
        } else {
            Err(Error::GroupKeyLength)
        },
        Err(_) => Err(Error::GroupKeyUnwrap),
    }
}

/// Unwraps a group key that `sender_pub` wrapped for this member.
pub fn unwrap_group_key(member_secret: &[u8; 32], sender_pub: &[u8; 32], wrapped: &[u8]) -> (key:
    Result<[u8; 32], Error>)
    ensures
        key_view(key) == key_unwrapped(
            dm_opened(member_secret@, sender_pub@, group_key_context(), wrapped@),
        ),
{
    take_group_key(open_dm(member_secret, sender_pub, GROUP_KEY_CONTEXT.as_bytes(), wrapped))
}

fn group_nonce(sequence: u64) -> (nonce: [u8; 12])
    ensures
        nonce@ == group_nonce_bytes(sequence),
{
    let mut bytes: Vec<u8> = Vec::new();
    bytes.push(72);
    bytes.push(71);
    bytes.push(49);
    bytes.push(71);
    assert(bytes@ =~= seq![72u8, 71u8, 49u8, 71u8]);
    push_be64(&mut bytes, sequence);
    let mut nonce: [u8; 12] = [0u8; 12];
    let mut i: usize = 0;
    while i < 12
        invariant
            i <= 12,
            bytes@.len() == 12,
            forall|k: int| 0 <= k < i ==> nonce@[k] == bytes@[k],
        decreases 12 - i,
    {
        nonce[i] = bytes[i];
        i += 1;
    }
    assert(nonce@ =~= bytes@);
    nonce
}

/// Encrypts a group message with the key of its epoch.
pub fn seal_group(group_key: &[u8; 32], sequence: u64, plaintext: &[u8]) -> (sealed: Result<
    Vec<u8>,
    Error,
>)
    ensures
        !aead_fits(plaintext@.len()) ==> sealed == Err::<Vec<u8>, Error>(Error::GroupSealFailed),
        aead_fits(plaintext@.len()) ==> {
            &&& sealed is Ok
            &&& sealed->Ok_0@ == group_sealed(group_key@, sequence, plaintext@)
            &&& group_opened(group_key@, sequence, sealed->Ok_0@) == Ok::<Seq<u8>, Error>(
                plaintext@,
            )
        },
{
    if plaintext.len() as u64 > AEAD_BYTES {
        return Err(Error::GroupSealFailed);
    }
    let nonce = group_nonce(sequence);
    match seal_aead(group_key, &nonce, GROUP_AAD.as_bytes(), plaintext) {
        Some(ciphertext) => {
            let mut out: Vec<u8> = Vec::new();
            append_bytes(&mut out, nonce.as_slice());
            append_bytes(&mut out, ciphertext.as_slice());
            assert(out@ =~= nonce@ + ciphertext@);
            proof {
                assert(out@.take(GROUP_NONCE_BYTES as int) =~= nonce@);
                assert(out@.skip(GROUP_NONCE_BYTES as int) =~= ciphertext@);
            }
            Ok(out)
        },
        None => Err(Error::GroupSealFailed),
    }
}

/// Decrypts a group message. The reader names the number it expects, so that a
/// message cannot pass for another one.
pub fn open_group(group_key: &[u8; 32], sequence: u64, boxed: &[u8]) -> (text: Result<
    Vec<u8>,
    Error,
>)
    ensures
        opened_view(text) == group_opened(group_key@, sequence, boxed@),
{
    if boxed.len() < GROUP_NONCE_BYTES + 16 {
        return Err(Error::GroupTooShort);
    }
    let expected = group_nonce(sequence);
    let nonce = bytes_between(boxed, 0, GROUP_NONCE_BYTES);
    assert(nonce@ =~= boxed@.take(GROUP_NONCE_BYTES as int));
    if !bytes_eq(nonce.as_slice(), expected.as_slice()) {
        return Err(Error::GroupSequenceMismatch);
    }
    if boxed.len() as u64 > AEAD_BYTES + 28 {
        return Err(Error::GroupOpenFailed);
    }
    let sealed = bytes_between(boxed, GROUP_NONCE_BYTES, boxed.len());
    assert(sealed@ =~= boxed@.skip(GROUP_NONCE_BYTES as int));
    match open_aead(group_key, &expected, GROUP_AAD.as_bytes(), sealed.as_slice()) {
        Some(text) => Ok(text),
        None => Err(Error::GroupOpenFailed),
    }
}

proof fn lemma_group_key_context_len()
    ensures
        group_key_context().len() <= u16::MAX,
{
    reveal_strlit("hearth/group-key/v1");
    vstd::utf8::is_ascii_chars_encode_utf8(GROUP_KEY_CONTEXT@);
}

/// Different numbers have different nonces.
pub proof fn law_group_nonces_differ(a: u64, b: u64)
    requires
        a != b,
    ensures
        group_nonce_bytes(a) != group_nonce_bytes(b),
{
    if group_nonce_bytes(a) == group_nonce_bytes(b) {
        assert(group_nonce_bytes(a).skip(4) =~= be64(a));
        assert(group_nonce_bytes(b).skip(4) =~= be64(b));
        lemma_be64_injective(a, b);
    }
}

/// A group message is refused under any number but its own, whatever the key.
pub proof fn law_group_sequence_binds(
    key: Seq<u8>,
    other_key: Seq<u8>,
    sequence: u64,
    other: u64,
    text: Seq<u8>,
)
    requires
        sequence != other,
    ensures
        group_opened(other_key, other, group_sealed(key, sequence, text)) is Err,
{
    law_group_nonces_differ(sequence, other);
    let boxed = group_sealed(key, sequence, text);
    assert(boxed.take(GROUP_NONCE_BYTES as int) =~= group_nonce_bytes(sequence));
}

// -- hashing ----------------------------------------------------------------------

/// The SHA-256 digest in hex.
pub fn sha256_hex(data: &[u8]) -> (out: String)
    ensures
        out@ == hex(sha256(data@)),
{
    hex_encode(digest_sha256(data).as_slice())
}

/// The digests of the chunks of a file.
#[derive(Debug, Clone, PartialEq, Eq)]
pub struct ChunkManifest {
    pub chunk_bytes: u32,
    pub chunk_hashes: Vec<String>,
    pub total_bytes: u64,
}

/// The chunk at `index` when `data` is cut into pieces of `size` bytes; the last
/// one may be shorter.
pub open spec fn chunk_at(data: Seq<u8>, size: int, index: int) -> Seq<u8> {
    if (index + 1) * size <= data.len() {
        data.subrange(index * size, (index + 1) * size)
    } else {
        data.subrange(index * size, data.len() as int)
    }
}

/// How many chunks of `size` bytes hold `len` bytes.
pub open spec fn chunk_count(len: int, size: int) -> int {
    (len + size - 1) / size
}

/// The digest of each chunk, in hex.
pub open spec fn chunk_digests(data: Seq<u8>, size: int) -> Seq<Seq<char>> {
    Seq::new(
        chunk_count(data.len() as int, size) as nat,
        |i: int| hex(sha256(chunk_at(data, size, i))),
    )
}

pub(crate) proof fn lemma_chunk_count(len: int, size: int)
    requires
        size > 0,
        len >= 0,
    ensures
        chunk_count(len, size) >= 0,
        chunk_count(len, size) == 0 <==> len == 0,
{
    let n = chunk_count(len, size);
    assert(n >= 0 && (n == 0 <==> len == 0)) by (nonlinear_arith)
        requires
            size > 0,
            len >= 0,
            n == (len + size - 1) / size,
    ;
}

pub(crate) proof fn lemma_chunk_bounds(len: int, size: int, index: int)
    requires
        size > 0,
        len >= 0,
        0 <= index < chunk_count(len, size),
    ensures
        index * size < len,
        index * size >= 0,
        index + 1 < chunk_count(len, size) ==> (index + 1) * size < len,
        index + 1 == chunk_count(len, size) ==> (index + 1) * size >= len,
{
    let n = chunk_count(len, size);
    assert(n * size <= len + size - 1 && len + size - 1 < (n + 1) * size) by (nonlinear_arith)
        requires
            size > 0,
            len >= 0,
            n == (len + size - 1) / size,
    ;
    assert(index * size <= (n - 1) * size) by (nonlinear_arith)
        requires
            size > 0,
            index <= n - 1,
    ;
    assert((n - 1) * size == n * size - size) by (nonlinear_arith);
    assert((n + 1) * size == n * size + size) by (nonlinear_arith);
    assert(index * size >= 0) by (nonlinear_arith)
        requires
            size > 0,
            index >= 0,
    ;
    if index + 1 < n {
        assert((index + 1) * size <= (n - 1) * size) by (nonlinear_arith)
            requires
                size > 0,
                index + 1 <= n - 1,
        ;
    }
}

impl ChunkManifest {
    /// The manifest of a file cut into chunks of `chunk_bytes`.
    pub fn build(data: &[u8], chunk_bytes: u32) -> (manifest: ChunkManifest)
        requires
            chunk_bytes > 0,
        ensures
            manifest.chunk_bytes == chunk_bytes,
            manifest.total_bytes == data@.len(),
            texts(manifest.chunk_hashes@) == chunk_digests(data@, chunk_bytes as int),
    {
        let size: usize = chunk_bytes as usize;
        let ghost n = chunk_count(data@.len() as int, size as int);
        let mut hashes: Vec<String> = Vec::new();
        let mut at: usize = 0;
        proof {
            lemma_chunk_count(data@.len() as int, size as int);
        }
        while at < data.len()
            invariant
                size == chunk_bytes,
                size > 0,
                n == chunk_count(data@.len() as int, size as int),
                hashes.len() <= n,
                at < data.len() ==> hashes.len() < n && at == hashes.len() * size,
                at >= data.len() ==> hashes.len() == n,
                forall|i: int|
                    0 <= i < hashes.len() ==> (#[trigger] hashes@[i])@ == hex(
                        sha256(chunk_at(data@, size as int, i)),
                    ),
            decreases data.len() - at,
        {
            let ghost i = hashes.len() as int;
            proof {
                lemma_chunk_bounds(data@.len() as int, size as int, i);
                assert((i + 1) * size == i * size + size) by (nonlinear_arith);
            }
            let end: usize = if data.len() - at > size {
                at + size
            } else {
                data.len()
            };
            let chunk = bytes_between(data, at, end);
            assert(chunk@ =~= chunk_at(data@, size as int, i));
            hashes.push(sha256_hex(chunk.as_slice()));
            at = end;
        }
        proof {
            assert(texts(hashes@) =~= chunk_digests(data@, size as int));
        }
        ChunkManifest { chunk_bytes, chunk_hashes: hashes, total_bytes: data.len() as u64 }
    }

    /// Whether a chunk has the digest that the manifest lists for it.
    pub fn verify_chunk(&self, index: usize, chunk: &[u8]) -> (ok: bool)
        ensures
            ok == (index < self.chunk_hashes@.len() && self.chunk_hashes@[index as int]@ == hex(
                sha256(chunk@),
            )),
    {
        if index < self.chunk_hashes.len() {
            let digest = sha256_hex(chunk);
            text_eq(self.chunk_hashes[index].as_str(), digest.as_str())
        } else {
            false
        }
    }
}

/// A manifest accepts every chunk of the file it was built from.
pub proof fn law_manifest_accepts_own_chunks(
    data: Seq<u8>,
    manifest: ChunkManifest,
    index: int,
)
    requires
        manifest.chunk_bytes > 0,
        texts(manifest.chunk_hashes@) == chunk_digests(data, manifest.chunk_bytes as int),
        0 <= index < chunk_count(data.len() as int, manifest.chunk_bytes as int),
    ensures
        index < manifest.chunk_hashes@.len(),
        manifest.chunk_hashes@[index]@ == hex(
            sha256(chunk_at(data, manifest.chunk_bytes as int, index)),
        ),
{
    assert(texts(manifest.chunk_hashes@).len() == manifest.chunk_hashes@.len());
    assert(texts(manifest.chunk_hashes@)[index] == manifest.chunk_hashes@[index]@);
}

} // verus!
