//! The secrets of one device.
//!
//! A device signs with an Ed25519 key, which also names it on the network, and
//! encrypts with an X25519 key of its own, so that signing never decrypts. The
//! secrets live in the system's credential store when there is one, else in a
//! private file; which of the two holds them is reported, so that it can be
//! shown as it is.

use ed25519_dalek::{Signer, Verifier};
use vstd::prelude::*;

use crate::bytes::{append_bytes, array_32, bytes_between};
use crate::crypto::{random_32, x25519_public, x_public_from_secret};
use crate::error::Error;
use crate::ids::Uuid;

verus! {

/// The name under which the credential store keeps this program's secrets.
pub const SERVICE_NAME: &'static str = "org.hearth.chat";

/// The name of the device's secret in the credential store.
pub const IDENTITY_ACCOUNT: &'static str = "device-identity";

/// How many bytes a stored identity takes.
pub const IDENTITY_BYTES: usize = 80;

/// The Ed25519 public key of a secret.
pub uninterp spec fn ed25519_public(secret: Seq<u8>) -> Seq<u8>;

/// The Ed25519 signature of a message.
pub uninterp spec fn ed25519_signature(secret: Seq<u8>, message: Seq<u8>) -> Seq<u8>;

/// Whether a signature is valid; `None` where the public key is none.
pub uninterp spec fn ed25519_checked(
    public: Seq<u8>,
    message: Seq<u8>,
    signature: Seq<u8>,
) -> Option<bool>;

/// Calls `ed25519_dalek::SigningKey::verifying_key` and names what it computes.
#[verifier::external_body]
fn derive_ed25519(secret: &[u8; 32]) -> (public: [u8; 32])
    ensures
        public@ == ed25519_public(secret@),
{
    ed25519_dalek::SigningKey::from_bytes(secret).verifying_key().to_bytes()
}

/// Calls `sign` on an `ed25519_dalek::SigningKey`. The signature is a function
/// of key and message, and the public key of the secret accepts it.
#[verifier::external_body]
fn sign_ed25519(secret: &[u8; 32], message: &[u8]) -> (signature: [u8; 64])
    ensures
        signature@ == ed25519_signature(secret@, message@),
        ed25519_checked(ed25519_public(secret@), message@, signature@) == Some(true),
{
    ed25519_dalek::SigningKey::from_bytes(secret).sign(message).to_bytes()
}

/// Calls `verify` on the `ed25519_dalek::VerifyingKey` that
/// `VerifyingKey::from_bytes` reads, if it reads one, and names the outcome.
#[verifier::external_body]
fn check_ed25519(public: &[u8; 32], message: &[u8], signature: &[u8; 64]) -> (valid: Option<bool>)
    ensures
        valid == ed25519_checked(public@, message@, signature@),
{
    let key = ed25519_dalek::VerifyingKey::from_bytes(public).ok();
    let signature = ed25519_dalek::Signature::from_bytes(signature);
    key.map(|k| k.verify(message, &signature).is_ok())
}

/// The secrets of one device. Only the public keys ever leave it.
#[derive(Clone)]
pub struct DeviceIdentity {
    pub device_id: Uuid,
    pub ed_secret: [u8; 32],
    pub x_secret: [u8; 32],
}

/// The public half of a [`DeviceIdentity`].
#[derive(Debug, Clone, PartialEq, Eq)]
pub struct DevicePublic {
    pub device_id: Uuid,
    pub ed_pubkey: [u8; 32],
    pub x_pubkey: [u8; 32],
}

/// What a [`DeviceIdentity`] holds.
pub struct IdentityModel {
    pub device_id: Seq<u8>,
    pub ed_secret: Seq<u8>,
    pub x_secret: Seq<u8>,
}

impl View for DeviceIdentity {
    type V = IdentityModel;

    open spec fn view(&self) -> IdentityModel {
        IdentityModel {
            device_id: self.device_id@,
            ed_secret: self.ed_secret@,
            x_secret: self.x_secret@,
        }
    }
}

/// The stored form of an identity: the id, the signing secret, the encryption
/// secret.
pub open spec fn identity_bytes(m: IdentityModel) -> Seq<u8> {
    m.device_id + m.ed_secret + m.x_secret
}

/// The identity that a stored form holds.
pub open spec fn identity_of(bytes: Seq<u8>) -> Result<IdentityModel, Error> {
    if bytes.len() != IDENTITY_BYTES {
        Err(Error::IdentityLength)
    } else {
        Ok(
            IdentityModel {
                device_id: bytes.subrange(0, 16),
                ed_secret: bytes.subrange(16, 48),
                x_secret: bytes.subrange(48, 80),
            },
        )
    }
}

/// The outcome, with the identity taken by its view.
pub open spec fn identity_view(r: Result<DeviceIdentity, Error>) -> Result<IdentityModel, Error> {
    match r {
        Ok(i) => Ok(i@),
        Err(e) => Err(e),
    }
}

/// What checking a signature comes to.
pub open spec fn signature_outcome(checked: Option<bool>) -> Result<(), Error> {
    match checked {
        None => Err(Error::BadSigningKey),
        Some(false) => Err(Error::BadSignature),
        Some(true) => Ok(()),
    }
}

impl DeviceIdentity {
    /// A new device: a random id and two independent random secrets.
    pub fn generate() -> (identity: DeviceIdentity)
        ensures
            identity@.device_id[6] / 16 == 4,
            identity@.device_id[8] / 64 == 2,
            identity@.ed_secret.len() == 32,
            identity@.x_secret.len() == 32,
    {
        DeviceIdentity { device_id: Uuid::new_v4(), ed_secret: random_32(), x_secret: random_32() }
    }

    pub fn public(&self) -> (public: DevicePublic)
        ensures
            public.device_id@ == self@.device_id,
            public.ed_pubkey@ == ed25519_public(self@.ed_secret),
            public.x_pubkey@ == x25519_public(self@.x_secret),
    {
        DevicePublic {
            device_id: self.device_id,
            ed_pubkey: derive_ed25519(&self.ed_secret),
            x_pubkey: x_public_from_secret(&self.x_secret),
        }
    }

    /// The device's signature of a message; its public key accepts it.
    pub fn sign(&self, message: &[u8]) -> (signature: [u8; 64])
        ensures
            signature@ == ed25519_signature(self@.ed_secret, message@),
            ed25519_checked(ed25519_public(self@.ed_secret), message@, signature@) == Some(true),
    {
        sign_ed25519(&self.ed_secret, message)
    }

    /// What a checked signature comes to.
    pub fn judge_signature(checked: Option<bool>) -> (r: Result<(), Error>)
        ensures
            r == signature_outcome(checked),
    {
        match checked {
            None => Err(Error::BadSigningKey),
            Some(valid) => if valid {
                Ok(())
            } else {
                Err(Error::BadSignature)
            },
        }
    }

    /// Refuses a signature that the public key does not accept.
    pub fn verify(ed_pubkey: &[u8; 32], message: &[u8], signature: &[u8; 64]) -> (r: Result<
        (),
        Error,
    >)
        ensures
            r == signature_outcome(ed25519_checked(ed_pubkey@, message@, signature@)),
    {
        DeviceIdentity::judge_signature(check_ed25519(ed_pubkey, message, signature))
    }

    /// The stored form of the identity.
    pub fn encode(&self) -> (bytes: Vec<u8>)
        ensures
            bytes@ == identity_bytes(self@),
    {
        let mut out: Vec<u8> = Vec::new();
        append_bytes(&mut out, self.device_id.bytes.as_slice());
        append_bytes(&mut out, self.ed_secret.as_slice());
        append_bytes(&mut out, self.x_secret.as_slice());
        assert(out@ =~= identity_bytes(self@));
        out
    }

    /// Reads the stored form back.
    pub fn decode(bytes: &[u8]) -> (identity: Result<DeviceIdentity, Error>)
        ensures
            identity_view(identity) == identity_of(bytes@),
    {
        if bytes.len() != IDENTITY_BYTES {
            return Err(Error::IdentityLength);
        }
        let mut device_id: [u8; 16] = [0u8; 16];
        let mut i: usize = 0;
        while i < 16
            invariant
                i <= 16,
                bytes@.len() == IDENTITY_BYTES,
                forall|k: int| 0 <= k < i ==> device_id@[k] == bytes@[k],
            decreases 16 - i,
        {
            device_id[i] = bytes[i];
            i += 1;
        }
        assert(device_id@ =~= bytes@.subrange(0, 16));
        Ok(
            DeviceIdentity {
                device_id: Uuid { bytes: device_id },
                ed_secret: array_32(bytes_between(bytes, 16, 48).as_slice()),
                x_secret: array_32(bytes_between(bytes, 48, 80).as_slice()),
            },
        )
    }
}

/// Reading back a stored identity gives the same identity.
pub proof fn law_identity_round_trip(identity: DeviceIdentity)
    ensures
        identity_of(identity_bytes(identity@)) == Ok::<IdentityModel, Error>(identity@),
{
    let bytes = identity_bytes(identity@);
    assert(bytes.subrange(0, 16) =~= identity@.device_id);
    assert(bytes.subrange(16, 48) =~= identity@.ed_secret);
    assert(bytes.subrange(48, 80) =~= identity@.x_secret);
}

/// Where the secret is kept.
#[derive(Debug, Clone, Copy, PartialEq, Eq, Structural)]
pub enum KeyBackend {
    OsKeyring,
    File,
}

/// The place of a secret in the system's credential store.
pub struct OsKeyringStore {
    pub service: String,
    pub account: String,
}

impl OsKeyringStore {
    pub fn new(service: &str, account: &str) -> (store: OsKeyringStore)
        ensures
            store.service@ == service@,
            store.account@ == account@,
    {
        OsKeyringStore { service: service.to_owned(), account: account.to_owned() }
    }
}

/// The private file that keeps a secret where there is no credential store.
pub struct FileStore {
    pub path: String,
}

impl FileStore {
    pub fn new(path: &str) -> (store: FileStore)
        ensures
            store.path@ == path@,
    {
        FileStore { path: path.to_owned() }
    }
}

/// What reading a store came to.
pub enum StoredSecret {
    Found(Vec<u8>),
    Absent,
    Unreadable,
}

/// What a device starts with: an identity that a store kept, or a new one that
/// has to be stored.
pub enum StartingIdentity {
    Kept(DeviceIdentity, KeyBackend),
    New(DeviceIdentity),
}

/// The identity that a store keeps; nothing where it keeps none.
pub open spec fn secret_held(secret: StoredSecret) -> Result<Option<IdentityModel>, Error> {
    match secret {
        StoredSecret::Found(bytes) => match identity_of(bytes@) {
            Ok(i) => Ok(Some(i)),
            Err(e) => Err(e),
        },
        StoredSecret::Absent => Ok(None),
        StoredSecret::Unreadable => Err(Error::KeyFileUnreadable),
    }
}

fn held(secret: StoredSecret) -> (r: Result<Option<DeviceIdentity>, Error>)
    ensures
        match (r, secret_held(secret)) {
            (Ok(Some(i)), Ok(Some(m))) => i@ == m,
            (Ok(None), Ok(None)) => true,
            (Err(a), Err(b)) => a == b,
            _ => false,
        },
{
    match secret {
        StoredSecret::Found(bytes) => match DeviceIdentity::decode(bytes.as_slice()) {
            Ok(i) => Ok(Some(i)),
            Err(e) => Err(e),
        },
        StoredSecret::Absent => Ok(None),
        StoredSecret::Unreadable => Err(Error::KeyFileUnreadable),
    }
}

/// The identity that a device starts with, from what the keyring and the file hold.
pub open spec fn starts_as(
    keyring: StoredSecret,
    file: StoredSecret,
    start: Result<StartingIdentity, Error>,
) -> bool {
    &&& secret_held(keyring) matches Ok(Some(i)) ==> start matches Ok(
        StartingIdentity::Kept(k, b),
    ) && k@ == i && b == KeyBackend::OsKeyring
    &&& !(secret_held(keyring) matches Ok(Some(_))) ==> match secret_held(file) {
        Ok(Some(i)) => start matches Ok(StartingIdentity::Kept(k, b)) && k@ == i && b
            == KeyBackend::File,
        Ok(None) => start matches Ok(StartingIdentity::New(_)),
        Err(e) => start matches Err(f) && e == f,
    }
}

/// Picks the identity to start with. The credential store comes first, and one
/// that does not answer or holds something else is passed over; then the file,
/// whose failures are reported; then a new identity.
pub fn load_or_generate(keyring: StoredSecret, file: StoredSecret) -> (start: Result<
    StartingIdentity,
    Error,
>)
    ensures
        starts_as(keyring, file, start),

{
    match held(keyring) {
        Ok(Some(identity)) => {
            return Ok(StartingIdentity::Kept(identity, KeyBackend::OsKeyring));
        },
        _ => {},
    }
    match held(file) {
        Ok(Some(identity)) => Ok(StartingIdentity::Kept(identity, KeyBackend::File)),
        Ok(None) => Ok(StartingIdentity::New(DeviceIdentity::generate())),
        Err(e) => Err(e),
    }
}

/// Where a new identity is kept: in the credential store if that took it, else
/// in the file.
pub fn kept_in(keyring_took_it: bool) -> (backend: KeyBackend)
    ensures
        backend == if keyring_took_it {
            KeyBackend::OsKeyring
        } else {
            KeyBackend::File
        },
{
    if keyring_took_it {
        KeyBackend::OsKeyring
    } else {
        KeyBackend::File
    }
}

} // verus!
