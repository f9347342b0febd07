//! Sealing, signing and staging of envelopes.
//!
//! Every outbound message is stored before it is sent, and a retry keeps its
//! ids. Envelopes are signed by the sending device.

use vstd::prelude::*;
use vstd::string::*;
use vstd::utf8::*;

use crate::bytes::{append_bytes, be64, lemma_be64_injective, push_be64, to_unsigned, unsigned_bits};
use crate::crypto::{
    aead_fits, dm_opened, dm_sealed, group_opened, group_sealed, open_dm, open_group, opened_view,
    opens_for, seal_dm, seal_group, DM_NONCE_BYTES,
};
use crate::database::laws::{law_next_number_is_free, law_stored_message_is_found};
use crate::database::{Database, DbModel};
use crate::error::Error;
use crate::identity::{
    ed25519_checked, ed25519_public, ed25519_signature, signature_outcome, DeviceIdentity,
    IdentityModel,
};
use crate::ids::{uuid_parsed, uuid_text, Uuid};
use crate::payload::{ChatPayload, PayloadModel, PresenceStatus};
use crate::protocol::{
    type_label, EnvelopeModel, MessageType, ProtocolEnvelope, CURRENT_PROTOCOL_VERSION,
};
use crate::records::{Message, MessageModel};
use crate::text::copy_bytes;

verus! {

/// One envelope to send to one person.
#[derive(Debug, Clone)]
pub struct OutboundWork {
    /// The direct peer or group member that it is for.
    pub peer_username: String,
    pub envelope: ProtocolEnvelope,
}

// -- signatures -----------------------------------------------------------------

/// What the signature of an envelope covers: the ids of message and conversation,
/// the type's name, the number and the ciphertext.
pub open spec fn sign_bytes(e: EnvelopeModel) -> Seq<u8> {
    e.message_id + e.conversation_id + encode_utf8(type_label(e.message_type)) + be64(e.sequence)
        + e.ciphertext
}

/// The envelope with the signature that a device gives it.
pub open spec fn signed_by(identity: IdentityModel, e: EnvelopeModel) -> EnvelopeModel {
    EnvelopeModel { sender_sig: ed25519_signature(identity.ed_secret, sign_bytes(e)), ..e }
}

/// What checking the signature of an envelope comes to.
pub open spec fn envelope_checked(public: Seq<u8>, e: EnvelopeModel) -> Result<(), Error> {
    if e.sender_sig.len() != 64 {
        Err(Error::MissingSignature)
    } else {
        signature_outcome(ed25519_checked(public, sign_bytes(e), e.sender_sig))
    }
}

/// The bytes that the signature of an envelope covers.
pub fn envelope_sign_bytes(envelope: &ProtocolEnvelope) -> (bytes: Vec<u8>)
    ensures
        bytes@ == sign_bytes(envelope@),
{
    let mut bytes: Vec<u8> = Vec::new();
    append_bytes(&mut bytes, envelope.message_id.bytes.as_slice());
    append_bytes(&mut bytes, envelope.conversation_id.bytes.as_slice());
    append_bytes(&mut bytes, envelope.message_type.name().as_bytes());
    push_be64(&mut bytes, envelope.sequence);
    append_bytes(&mut bytes, envelope.ciphertext.as_slice());
    assert(bytes@ =~= sign_bytes(envelope@));
    bytes
}

/// Signs an envelope with the device's key.
pub fn sign_envelope(identity: &DeviceIdentity, envelope: &mut ProtocolEnvelope)
    ensures
        final(envelope)@ == signed_by(identity@, old(envelope)@),
        envelope_checked(ed25519_public(identity@.ed_secret), final(envelope)@) is Ok,
{
    let bytes = envelope_sign_bytes(envelope);
    let signature = identity.sign(bytes.as_slice());
    envelope.sender_sig = copy_bytes(signature.as_slice());
    assert(envelope.sender_sig@ =~= signature@);
    assert(sign_bytes(envelope@) == bytes@);
}

/// Refuses an envelope whose signature is missing or does not fit the key.
pub fn verify_envelope_signature(ed_pubkey: &[u8; 32], envelope: &ProtocolEnvelope) -> (r: Result<
    (),
    Error,
>)
    ensures
        r == envelope_checked(ed_pubkey@, envelope@),
{
    if envelope.sender_sig.len() != 64 {
        return Err(Error::MissingSignature);
    }
    let mut signature: [u8; 64] = [0u8; 64];
    let mut i: usize = 0;
    while i < 64
        invariant
            i <= 64,
            envelope.sender_sig@.len() == 64,
            forall|k: int| 0 <= k < i ==> signature@[k] == envelope.sender_sig@[k],
        decreases 64 - i,
    {
        signature[i] = envelope.sender_sig[i];
        i += 1;
    }
    assert(signature@ =~= envelope.sender_sig@);
    DeviceIdentity::verify(ed_pubkey, envelope_sign_bytes(envelope).as_slice(), &signature)
}

/// The signature depends on neither the version, the sending device nor the time:
/// an envelope that is sent again later needs no other one.
pub proof fn law_signature_covers(a: EnvelopeModel, b: EnvelopeModel)
    requires
        a.message_id == b.message_id,
        a.conversation_id == b.conversation_id,
        a.message_type == b.message_type,
        a.sequence == b.sequence,
        a.ciphertext == b.ciphertext,
    ensures
        sign_bytes(a) == sign_bytes(b),
{
}

/// `a` begins `b`.
pub open spec fn begins(a: Seq<u8>, b: Seq<u8>) -> bool {
    a.len() <= b.len() && b.take(a.len() as int) == a
}

/// The signature binds what it covers: envelopes of one type for which the same bytes are
/// signed agree in both ids, the number and the ciphertext. The same bytes are signed for
/// different types only where the name of one begins the name of the other.
pub proof fn law_signature_binds(a: EnvelopeModel, b: EnvelopeModel)
    requires
        a.message_id.len() == 16,
        a.conversation_id.len() == 16,
        b.message_id.len() == 16,
        b.conversation_id.len() == 16,
        sign_bytes(a) == sign_bytes(b),
    ensures
        a.message_id == b.message_id,
        a.conversation_id == b.conversation_id,
        a.message_type == b.message_type ==> a.sequence == b.sequence && a.ciphertext
            == b.ciphertext,
        a.message_type != b.message_type ==> begins(
            encode_utf8(type_label(a.message_type)),
            encode_utf8(type_label(b.message_type)),
        ) || begins(
            encode_utf8(type_label(b.message_type)),
            encode_utf8(type_label(a.message_type)),
        ),
{
    let x = sign_bytes(a);
    let y = sign_bytes(b);
    let n = encode_utf8(type_label(a.message_type));
    let m = encode_utf8(type_label(b.message_type));
    assert(x.subrange(0, 16) =~= a.message_id);
    assert(y.subrange(0, 16) =~= b.message_id);
    assert(x.subrange(16, 32) =~= a.conversation_id);
    assert(y.subrange(16, 32) =~= b.conversation_id);
    assert(x.subrange(32, 32 + n.len() as int) =~= n);
    assert(y.subrange(32, 32 + m.len() as int) =~= m);
    if a.message_type == b.message_type {
        let at: int = 32 + n.len() as int;
        assert(x.subrange(at, at + 8) =~= be64(a.sequence));
        assert(y.subrange(at, at + 8) =~= be64(b.sequence));
        lemma_be64_injective(a.sequence, b.sequence);
        assert(x.skip(at + 8) =~= a.ciphertext);
        assert(y.skip(at + 8) =~= b.ciphertext);
    } else if n.len() <= m.len() {
        assert(m.take(n.len() as int) =~= y.subrange(32, 32 + n.len() as int));
    } else {
        assert(n.take(m.len() as int) =~= x.subrange(32, 32 + m.len() as int));
    }
}

// -- sealed payloads --------------------------------------------------------------

/// Seals the JSON of a payload for a direct peer. The conversation's id is the
/// context, so that the result opens in that conversation only.
pub fn seal_dm_payload(
    sender_secret: &[u8; 32],
    recipient_pub: &[u8; 32],
    conversation_id: &str,
    json: &[u8],
) -> (sealed: Result<Vec<u8>, Error>)
    ensures
        sealed_in(
            sealed,
            sender_secret@,
            recipient_pub@,
            encode_utf8(conversation_id@),
            json@,
        ),
{
    seal_dm(sender_secret, recipient_pub, conversation_id.as_bytes(), json)
}

/// `sealed` is the direct message with this content and context, from one key to
/// another, which opens for the recipient; or the context was too long.
pub open spec fn sealed_in(
    sealed: Result<Vec<u8>, Error>,
    secret: Seq<u8>,
    public: Seq<u8>,
    context: Seq<u8>,
    json: Seq<u8>,
) -> bool {
    if context.len() > u16::MAX {
        sealed == Err::<Vec<u8>, Error>(Error::DmContextTooLong)
    } else {
        &&& sealed is Ok
        &&& box_of(sealed->Ok_0@, secret, public, context, json)
    }
}

/// These bytes are a direct message with this content and context, from one key
/// to another, and the holder of the other key opens it.
pub open spec fn box_of(
    sealed: Seq<u8>,
    secret: Seq<u8>,
    public: Seq<u8>,
    context: Seq<u8>,
    json: Seq<u8>,
) -> bool {
    &&& sealed.len() >= DM_NONCE_BYTES
    &&& sealed == dm_sealed(secret, public, context, json, sealed.take(DM_NONCE_BYTES as int))
    &&& opens_for(secret, public, context, json, sealed)
}

/// Opens a direct message of a conversation; the result is the payload's JSON.
pub fn open_dm_payload(
    recipient_secret: &[u8; 32],
    sender_pub: &[u8; 32],
    conversation_id: &str,
    boxed: &[u8],
) -> (json: Result<Vec<u8>, Error>)
    ensures
        opened_view(json) == dm_opened(
            recipient_secret@,
            sender_pub@,
            encode_utf8(conversation_id@),
            boxed@,
        ),
{
    open_dm(recipient_secret, sender_pub, conversation_id.as_bytes(), boxed)
}

/// The context of a message that names both parties.
pub open spec fn pair_context(kind: Seq<char>, from: Seq<char>, to: Seq<char>) -> Seq<char> {
    kind + from + ">"@ + to
}

/// The context of a message that names both parties.
pub fn context_between(kind: &str, from: &str, to: &str) -> (context: String)
    ensures
        context@ == pair_context(kind@, from@, to@),
{
    let mut context = kind.to_owned();
    context.append(from);
    context.append(">");
    context.append(to);
    context
}

/// What is sealed in a context for one person cannot be shown to another: the context
/// for any other person is another one.
pub proof fn law_pair_context_binds(
    kind: Seq<char>,
    from: Seq<char>,
    to: Seq<char>,
    other: Seq<char>,
)
    requires
        to != other,
    ensures
        encode_utf8(pair_context(kind, from, to)) != encode_utf8(pair_context(kind, from, other)),
{
    let a = pair_context(kind, from, to);
    let b = pair_context(kind, from, other);
    let n = (kind + from + ">"@).len() as int;
    assert(a.skip(n) =~= to);
    assert(b.skip(n) =~= other);
    encode_utf8_decode_utf8(a);
    encode_utf8_decode_utf8(b);
}

/// The payload of a presence heartbeat.
pub fn presence_payload(from: &str, status: PresenceStatus) -> (payload: ChatPayload)
    ensures
        payload@ == (PayloadModel::Presence { from: from@, status }),
{
    ChatPayload::Presence { from: from.to_owned(), status }
}

/// Seals the JSON of a presence heartbeat for one friend. The context names both
/// parties, so that a heartbeat cannot be shown to a third.
pub fn seal_presence_payload(
    sender_secret: &[u8; 32],
    recipient_pub: &[u8; 32],
    from: &str,
    to: &str,
    json: &[u8],
) -> (sealed: Result<Vec<u8>, Error>)
    ensures
        sealed_in(
            sealed,
            sender_secret@,
            recipient_pub@,
            encode_utf8(pair_context("presence:"@, from@, to@)),
            json@,
        ),
{
    let context = context_between("presence:", from, to);
    seal_dm(sender_secret, recipient_pub, context.as_str().as_bytes(), json)
}

/// Opens a presence heartbeat; the result is the payload's JSON.
pub fn open_presence_payload(
    recipient_secret: &[u8; 32],
    sender_pub: &[u8; 32],
    from: &str,
    to: &str,
    boxed: &[u8],
) -> (json: Result<Vec<u8>, Error>)
    ensures
        opened_view(json) == dm_opened(
            recipient_secret@,
            sender_pub@,
            encode_utf8(pair_context("presence:"@, from@, to@)),
            boxed@,
        ),
{
    let context = context_between("presence:", from, to);
    open_dm(recipient_secret, sender_pub, context.as_str().as_bytes(), boxed)
}

/// Refuses what came in a heartbeat and is not one.
pub fn presence_of(payload: &ChatPayload) -> (status: Result<PresenceStatus, Error>)
    ensures
        status == match payload@ {
            PayloadModel::Presence { from, status } => Ok::<PresenceStatus, Error>(status),
            _ => Err(Error::NotPresence),
        },
{
    match payload {
        ChatPayload::Presence { status, .. } => Ok(*status),
        _ => Err(Error::NotPresence),
    }
}

/// Seals the JSON of a payload with the key of a group's epoch.
pub fn seal_group_payload(group_key: &[u8; 32], sequence: u64, json: &[u8]) -> (sealed: Result<
    Vec<u8>,
    Error,
>)
    ensures
        group_sealed_in(sealed, group_key@, sequence, json@),
{
    seal_group(group_key, sequence, json)
}

/// `sealed` is the group message with this content and number, which opens under
/// the same key and number; or the content was too long.
pub open spec fn group_sealed_in(
    sealed: Result<Vec<u8>, Error>,
    key: Seq<u8>,
    sequence: u64,
    json: Seq<u8>,
) -> bool {
    if aead_fits(json.len()) {
        &&& sealed is Ok
        &&& sealed->Ok_0@ == group_sealed(key, sequence, json)
        &&& group_opened(key, sequence, sealed->Ok_0@) == Ok::<Seq<u8>, Error>(json)
    } else {
        sealed == Err::<Vec<u8>, Error>(Error::GroupSealFailed)
    }
}

/// Opens a group message; the result is the payload's JSON.
pub fn open_group_payload(group_key: &[u8; 32], sequence: u64, boxed: &[u8]) -> (json: Result<
    Vec<u8>,
    Error,
>)
    ensures
        opened_view(json) == group_opened(group_key@, sequence, boxed@),
{
    open_group(group_key, sequence, boxed)
}

// -- envelopes --------------------------------------------------------------------

/// The signed envelope of a ciphertext.
pub open spec fn envelope_of(
    identity: IdentityModel,
    device: Seq<u8>,
    conversation: Seq<u8>,
    message: Seq<u8>,
    message_type: MessageType,
    sequence: u64,
    ciphertext: Seq<u8>,
    now_ms: i64,
) -> EnvelopeModel {
    signed_by(
        identity,
        EnvelopeModel {
            version: CURRENT_PROTOCOL_VERSION,
            message_id: message,
            conversation_id: conversation,
            sender_device_id: device,
            message_type,
            sequence,
            created_at_ms: now_ms,
            ciphertext,
            sender_sig: Seq::empty(),
        },
    )
}

/// The signed envelope of a ciphertext. It carries the current version, and the
/// device's public key accepts its signature.
pub fn build_envelope(
    identity: &DeviceIdentity,
    device_uuid: Uuid,
    conversation_id: Uuid,
    message_id: Uuid,
    message_type: MessageType,
    sequence: u64,
    ciphertext: Vec<u8>,
    now_ms: i64,
) -> (envelope: ProtocolEnvelope)
    ensures
        envelope@ == envelope_of(
            identity@,
            device_uuid@,
            conversation_id@,
            message_id@,
            message_type,
            sequence,
            ciphertext@,
            now_ms,
        ),
        envelope_checked(ed25519_public(identity@.ed_secret), envelope@) is Ok,
{
    let mut envelope = ProtocolEnvelope {
        version: CURRENT_PROTOCOL_VERSION,
        message_id,
        conversation_id,
        sender_device_id: device_uuid,
        message_type,
        sequence,
        created_at_ms: now_ms,
        ciphertext,
        sender_sig: Vec::new(),
    };
    assert(envelope@.sender_sig =~= Seq::<u8>::empty());
    sign_envelope(identity, &mut envelope);
    envelope
}

/// The row of a message that was just staged.
pub open spec fn staged_row(
    device: Seq<u8>,
    me: Seq<char>,
    conversation: Seq<char>,
    payload: PayloadModel,
    body: Seq<char>,
    ciphertext: Seq<u8>,
    message: Seq<u8>,
    sequence: i64,
    now_ms: i64,
) -> MessageModel {
    MessageModel {
        id: uuid_text(message),
        conversation_id: conversation,
        sender_device_id: uuid_text(device),
        sender_username: me,
        message_type: type_label(payload.message_type()),
        body,
        ciphertext,
        sequence,
        status: "local"@,
        reply_to: payload.reply_to(),
        created_at_ms: now_ms,
        edited_at_ms: None,
        deleted_at_ms: None,
    }
}

/// The id that envelopes of a conversation carry: the one that its text writes,
/// or else `stand_in`.
pub open spec fn conversation_uuid_of(conversation: Seq<char>, stand_in: Seq<u8>) -> Seq<u8> {
    match uuid_parsed(conversation) {
        Some(id) => id,
        None => stand_in,
    }
}

/// Envelopes carry this id of a conversation as it is: whoever reads it off an envelope
/// and writes it down has the same text.
pub open spec fn carried(conversation: Seq<char>) -> bool {
    match uuid_parsed(conversation) {
        Some(id) => uuid_text(id) == conversation,
        None => false,
    }
}

/// The id that envelopes of a conversation carry: the one that its text writes,
/// or else `stand_in`.
pub fn conversation_uuid(conversation: &str, stand_in: Uuid) -> (id: Uuid)
    ensures
        id@ == conversation_uuid_of(conversation@, stand_in@),
{
    match Uuid::parse_str(conversation) {
        Some(id) => id,
        None => stand_in,
    }
}

/// What staging a message does: it is stored under the device's next number in the
/// conversation, and its envelope is built.
pub open spec fn message_staged(
    before: DbModel,
    after: DbModel,
    identity: IdentityModel,
    device: Seq<u8>,
    me: Seq<char>,
    conversation: Seq<char>,
    payload: PayloadModel,
    body: Seq<char>,
    ciphertext: Seq<u8>,
    message: Seq<u8>,
    stand_in: Seq<u8>,
    now_ms: i64,
    staged: Result<(Message, ProtocolEnvelope), Error>,
) -> bool {
    let number = before.next_number(conversation, uuid_text(device));
    let row = staged_row(
        device,
        me,
        conversation,
        payload,
        body,
        ciphertext,
        message,
        number as i64,
        now_ms,
    );
    if number > i64::MAX {
        &&& staged == Err::<(Message, ProtocolEnvelope), Error>(Error::SequenceExhausted)
        &&& after == before
    } else if !before.clashes(row) && !before.has_conversation(conversation) {
        &&& staged == Err::<(Message, ProtocolEnvelope), Error>(Error::Constraint)
        &&& after == before
    } else {
        &&& staged is Ok
        &&& staged->Ok_0.0@ == row
        &&& staged->Ok_0.1@ == envelope_of(
            identity,
            device,
            conversation_uuid_of(conversation, stand_in),
            message,
            payload.message_type(),
            unsigned_bits(number),
            ciphertext,
            now_ms,
        )
        &&& envelope_checked(ed25519_public(identity.ed_secret), staged->Ok_0.1@) is Ok
        &&& after == before.insert_message(row)
        &&& !before.has_message(row.id) ==> after.message(row.id) == Some(row)
        &&& uuid_parsed(row.id) == Some(message)
    }
}

/// Stores an outbound message under the given id and builds its envelope.
///
/// The message gets the device's next number in the conversation. `stand_in` is
/// the conversation's id on the envelope where its text writes none.
pub fn stage_message_as(
    db: &mut Database,
    identity: &DeviceIdentity,
    device_uuid: Uuid,
    my_username: &str,
    conversation_id: &str,
    payload: &ChatPayload,
    body_preview: &str,
    ciphertext: Vec<u8>,
    message_id: Uuid,
    stand_in: Uuid,
    now_ms: i64,
) -> (staged: Result<(Message, ProtocolEnvelope), Error>)
    ensures
        message_staged(
            old(db)@,
            final(db)@,
            identity@,
            device_uuid@,
            my_username@,
            conversation_id@,
            payload@,
            body_preview@,
            ciphertext@,
            message_id@,
            stand_in@,
            now_ms,
            staged,
        ),
{
    let conversation = conversation_uuid(conversation_id, stand_in);
    let device_text = device_uuid.to_text();
    let sequence: i64 = match db.next_sequence(conversation_id, device_text.as_str()) {
        Ok(n) => n,
        Err(e) => {
            return Err(e);
        },
    };
    let body_copy = copy_bytes(ciphertext.as_slice());
    let envelope = build_envelope(
        identity,
        device_uuid,
        conversation,
        message_id,
        payload.message_type(),
        to_unsigned(sequence),
        ciphertext,
        now_ms,
    );
    let message = Message {
        id: message_id.to_text(),
        conversation_id: conversation_id.to_owned(),
        sender_device_id: device_text,
        sender_username: my_username.to_owned(),
        message_type: payload.message_type().name().to_owned(),
        body: body_preview.to_owned(),
        ciphertext: body_copy,
        sequence,
        status: "local".to_owned(),
        reply_to: payload.reply_to(),
        created_at_ms: now_ms,
        edited_at_ms: None,
        deleted_at_ms: None,
    };
    proof {
        if !db@.has_message(message@.id) {
            law_next_number_is_free(db@, conversation_id@, message@.sender_device_id, message@);
            law_stored_message_is_found(db@, message@);
        }
    }
    match db.insert_message(&message) {
        Ok(_) => Ok((message, envelope)),
        Err(e) => Err(e),
    }
}

/// Stores an outbound message under a new id and builds its envelope: the row is
/// there before anything is sent.
pub fn stage_message(
    db: &mut Database,
    identity: &DeviceIdentity,
    device_uuid: Uuid,
    my_username: &str,
    conversation_id: &str,
    payload: &ChatPayload,
    body_preview: &str,
    ciphertext: Vec<u8>,
    now_ms: i64,
) -> (staged: Result<(Message, ProtocolEnvelope), Error>)
    ensures
        exists|message: Seq<u8>, stand_in: Seq<u8>| #[trigger]
            message_staged(
                old(db)@,
                final(db)@,
                identity@,
                device_uuid@,
                my_username@,
                conversation_id@,
                payload@,
                body_preview@,
                ciphertext@,
                message,
                stand_in,
                now_ms,
                staged,
            ),
{
    let message_id = Uuid::new_v4();
    let stand_in = Uuid::new_v4();
    stage_message_as(
        db,
        identity,
        device_uuid,
        my_username,
        conversation_id,
        payload,
        body_preview,
        ciphertext,
        message_id,
        stand_in,
        now_ms,
    )
}

} // verus!
