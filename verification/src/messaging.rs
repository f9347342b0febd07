//! What the user sends: texts, edits, deletions, files; and leaving a group.
//!
//! Each goes in two steps. First the payload is made, so that its JSON can be written.
//! Then the JSON is sealed for the conversation, the store is changed and the envelope
//! for the other members is built.

use vstd::prelude::*;
use vstd::string::*;
use vstd::utf8::*;

use crate::bytes::{signed_bits, to_signed, to_unsigned, unsigned_bits};
use crate::crypto::{
    dm_opened, group_nonce_bytes, law_group_nonces_differ, opens_for, x25519_public,
    GROUP_NONCE_BYTES,
};
use crate::database::model::{conversation_is, file_is, group_key_for, member_is, member_of};
use crate::database::{Database, DbModel};
use crate::envelope::{
    box_of, build_envelope, conversation_uuid, conversation_uuid_of, envelope_checked, envelope_of,
    seal_dm_payload, stage_message_as, staged_row,
};
use crate::error::Error;
use crate::files::{
    chunks_sealed, join_path, joined_path, offer_of, offer_refused, prepare_offer_with,
};
use crate::groups::{
    contact_key_of, contact_pub, epoch_key, epoch_sealed, first_place, law_epoch_nonces_differ,
    law_epochs_newest_first, law_listed_shares_are_places, lemma_first_place, lemma_number_tells,
    other_members, others, own_epoch_key, seal_in_epoch, share_number, unnoted, CONTROL_START,
    SHARE_NUMBERS,
};
use crate::identity::{ed25519_public, DeviceIdentity, IdentityModel};
use crate::ids::{uuid_text, Uuid};
use crate::payload::{ChatPayload, FileOfferModel, PayloadModel};
use crate::protocol::{EnvelopeModel, MessageType, ProtocolEnvelope};
use crate::records::{FileTransfer, FileTransferModel, GroupKeyModel, Message, MessageModel};
use crate::routing::{
    content_routed, dm_peer_of, handle, handle_of, least_name, lemma_listed_len, offered_file,
    OpenedModel, RoutedModel, Stage,
};
use crate::table::{lemma_first_row, lemma_without, some_row};
use crate::text::{chars_of, copy_opt_text, copy_texts, opt_text, text_eq, texts, trim, trimmed};

verus! {

/// The longest text of a message, in characters.
pub const MESSAGE_CHARS: usize = 2000;

/// The text of a message.
pub open spec fn message_text(raw: Seq<char>) -> Result<Seq<char>, Error> {
    let body = trimmed(raw);
    if 1 <= body.len() <= MESSAGE_CHARS {
        Ok(body)
    } else {
        Err(Error::MessageLength)
    }
}

fn valid_text(raw: &str) -> (body: Result<String, Error>)
    ensures
        match (body, message_text(raw@)) {
            (Ok(a), Ok(b)) => a@ == b,
            (Err(a), Err(b)) => a == b,
            _ => false,
        },
{
    let body = trim(raw);
    let chars = chars_of(body.as_str());
    if chars.len() == 0 || chars.len() > MESSAGE_CHARS {
        return Err(Error::MessageLength);
    }
    Ok(body)
}

/// An envelope for the other members of a conversation.
#[derive(Debug, Clone)]
pub struct Sending {
    /// The message that it is about.
    pub message_id: String,
    pub envelope: ProtocolEnvelope,
    pub peers: Vec<String>,
}

/// `peers` are the members of a conversation but this user, in the order of their
/// names.
pub open spec fn peers_are(
    db: DbModel,
    conversation: Seq<char>,
    me: Seq<char>,
    peers: Seq<Seq<char>>,
) -> bool {
    exists|all: Seq<Seq<char>>| #[trigger]
        db.members_listed(conversation, all) && peers == others(all, me)
}

/// The epoch that a payload of a conversation names: none in a direct one, the current
/// one in a group.
pub open spec fn epoch_of(db: DbModel, conversation: Seq<char>) -> Result<Option<i64>, Error> {
    match db.conversation(conversation) {
        None => Err(Error::UnknownConversation),
        Some(row) => if row.kind == "dm"@ {
            Ok(None)
        } else {
            match db.group(conversation) {
                None => Err(Error::UnknownGroup),
                Some(group) => Ok(Some(group.current_epoch)),
            }
        },
    }
}

fn current_epoch(db: &Database, conversation_id: &str) -> (epoch: Result<Option<i64>, Error>)
    ensures
        epoch == epoch_of(db@, conversation_id@),
{
    match db.get_conversation(conversation_id) {
        None => Err(Error::UnknownConversation),
        Some(row) => {
            if text_eq(row.kind.as_str(), "dm") {
                return Ok(None);
            }
            match db.load_group(conversation_id) {
                None => Err(Error::UnknownGroup),
                Some(group) => Ok(Some(group.current_epoch)),
            }
        },
    }
}

/// What sealing the JSON of a payload for a conversation comes to: the ciphertext, and
/// the device's next number in the conversation.
pub open spec fn content_sealed(
    db: DbModel,
    identity: IdentityModel,
    device: Seq<u8>,
    me: Seq<char>,
    conversation: Seq<char>,
    json: Seq<u8>,
    r: Result<(Seq<u8>, i64), Error>,
) -> bool {
    let number = db.next_number(conversation, uuid_text(device));
    match db.conversation(conversation) {
        None => r == Err::<(Seq<u8>, i64), Error>(Error::UnknownConversation),
        Some(row) => if row.kind == "dm"@ {
            match db.contact(db.dm_peer(conversation)) {
                None => r == Err::<(Seq<u8>, i64), Error>(Error::UnknownContact),
                Some(contact) => match contact_key_of(contact) {
                    None => r == Err::<(Seq<u8>, i64), Error>(Error::NoContactKey),
                    Some(key) => if encode_utf8(conversation).len() > u16::MAX {
                        r == Err::<(Seq<u8>, i64), Error>(Error::DmContextTooLong)
                    } else if number > i64::MAX {
                        r == Err::<(Seq<u8>, i64), Error>(Error::SequenceExhausted)
                    } else {
                        &&& r is Ok
                        &&& r->Ok_0.1 == number
                        &&& box_of(
                            r->Ok_0.0,
                            identity.x_secret,
                            key,
                            encode_utf8(conversation),
                            json,
                        )
                    },
                },
            }
        } else {
            match db.group(conversation) {
                None => r == Err::<(Seq<u8>, i64), Error>(Error::UnknownGroup),
                Some(group) => group_content_sealed(
                    db,
                    identity,
                    device,
                    me,
                    conversation,
                    group.current_epoch,
                    json,
                    r,
                ),
            }
        },
    }
}

/// What sealing the JSON of a payload with the key of an epoch comes to: the ciphertext
/// under the device's next number, and that number.
pub open spec fn group_content_sealed(
    db: DbModel,
    identity: IdentityModel,
    device: Seq<u8>,
    me: Seq<char>,
    conversation: Seq<char>,
    epoch: i64,
    json: Seq<u8>,
    r: Result<(Seq<u8>, i64), Error>,
) -> bool {
    let number = db.next_number(conversation, uuid_text(device));
    match epoch_key(db, identity.x_secret, conversation, epoch, me) {
        Err(e) => r == Err::<(Seq<u8>, i64), Error>(e),
        Ok(_) => if number >= CONTROL_START {
            r == Err::<(Seq<u8>, i64), Error>(Error::SequenceExhausted)
        } else {
            &&& r is Ok ==> r->Ok_0.1 == number
            &&& epoch_sealed(
                db,
                identity.x_secret,
                conversation,
                epoch,
                me,
                unsigned_bits(number),
                json,
                match r {
                    Ok(s) => Ok(s.0),
                    Err(e) => Err(e),
                },
            )
        },
    }
}

/// The outcome, with the ciphertext taken by its view.
pub open spec fn sealed_view(r: Result<(Vec<u8>, i64), Error>) -> Result<(Seq<u8>, i64), Error> {
    match r {
        Ok(s) => Ok((s.0@, s.1)),
        Err(e) => Err(e),
    }
}

fn seal_group_content(
    db: &Database,
    identity: &DeviceIdentity,
    device_uuid: Uuid,
    me: &str,
    conversation_id: &str,
    epoch: i64,
    json: &[u8],
) -> (r: Result<(Vec<u8>, i64), Error>)
    ensures
        group_content_sealed(
            db@,
            identity@,
            device_uuid@,
            me@,
            conversation_id@,
            epoch,
            json@,
            sealed_view(r),
        ),
{
    match own_epoch_key(db, identity, conversation_id, epoch, me) {
        Ok(_) => {},
        Err(e) => {
            return Err(e);
        },
    }
    let device = device_uuid.to_text();
    let number: i64 = match db.next_sequence(conversation_id, device.as_str()) {
        Ok(n) => n,
        Err(e) => {
            return Err(e);
        },
    };
    if number >= CONTROL_START as i64 {
        return Err(Error::SequenceExhausted);
    }
    match seal_in_epoch(db, identity, conversation_id, epoch, me, to_unsigned(number), json) {
        Ok(c) => Ok((c, number)),
        Err(e) => Err(e),
    }
}

fn seal_content(
    db: &Database,
    identity: &DeviceIdentity,
    device_uuid: Uuid,
    me: &str,
    conversation_id: &str,
    json: &[u8],
) -> (r: Result<(Vec<u8>, i64), Error>)
    ensures
        content_sealed(
            db@,
            identity@,
            device_uuid@,
            me@,
            conversation_id@,
            json@,
            sealed_view(r),
        ),
{
    let row = match db.get_conversation(conversation_id) {
        Some(c) => c,
        None => {
            return Err(Error::UnknownConversation);
        },
    };
    if text_eq(row.kind.as_str(), "dm") {
        let peer = dm_peer_of(db, conversation_id);
        let contact = match db.find_contact(peer.as_str()) {
            Some(c) => c,
            None => {
                return Err(Error::UnknownContact);
            },
        };
        let key = match contact_pub(&contact) {
            Some(k) => k,
            None => {
                return Err(Error::NoContactKey);
            },
        };
        let ciphertext = match seal_dm_payload(&identity.x_secret, &key, conversation_id, json) {
            Ok(c) => c,
            Err(e) => {
                return Err(e);
            },
        };
        let device = device_uuid.to_text();
        match db.next_sequence(conversation_id, device.as_str()) {
            Ok(n) => Ok((ciphertext, n)),
            Err(e) => Err(e),
        }
    } else {
        match db.load_group(conversation_id) {
            None => Err(Error::UnknownGroup),
            Some(group) => seal_group_content(
                db,
                identity,
                device_uuid,
                me,
                conversation_id,
                group.current_epoch,
                json,
            ),
        }
    }
}

/// What is sealed for a direct conversation arrives: the peer, whose key the sender has
/// and who has the conversation too, opens exactly what was sealed.
pub proof fn law_direct_content_arrives(
    from_db: DbModel,
    sender: IdentityModel,
    device: Seq<u8>,
    from: Seq<char>,
    conversation: Seq<char>,
    json: Seq<u8>,
    sealed: (Seq<u8>, i64),
    to_db: DbModel,
    secret: Seq<u8>,
    me: Seq<char>,
    e: EnvelopeModel,
)
    requires
        content_sealed(
            from_db,
            sender,
            device,
            from,
            conversation,
            json,
            Ok::<(Seq<u8>, i64), Error>(sealed),
        ),
        from_db.conversation(conversation)->0.kind == "dm"@,
        contact_key_of(from_db.contact(from_db.dm_peer(conversation))->0) == Some(
            x25519_public(secret),
        ),
        secret.len() == 32,
        uuid_text(e.conversation_id) == conversation,
        e.ciphertext == sealed.0,
        to_db.conversation(conversation) is Some,
        to_db.conversation(conversation)->0.kind == "dm"@,
        to_db.dm_peer(conversation) == from,
    ensures
        content_routed(to_db, secret, me, from, x25519_public(sender.x_secret), e) == Ok::<
            RoutedModel,
            Error,
        >(
            RoutedModel::Open(
                OpenedModel {
                    stage: Stage::Direct,
                    from,
                    conversation_id: conversation,
                    json,
                },
            ),
        ),
{
    let context = encode_utf8(conversation);
    assert(opens_for(sender.x_secret, x25519_public(secret), context, json, sealed.0));
    assert(dm_opened(secret, x25519_public(sender.x_secret), context, sealed.0) == Ok::<
        Seq<u8>,
        Error,
    >(json));
}

/// What is sealed for a group arrives: a member who knows the sender as one, and has the
/// same key of the current epoch, opens exactly what was sealed.
pub proof fn law_group_content_arrives(
    from_db: DbModel,
    sender: IdentityModel,
    device: Seq<u8>,
    from: Seq<char>,
    group: Seq<char>,
    json: Seq<u8>,
    sealed: (Seq<u8>, i64),
    to_db: DbModel,
    secret: Seq<u8>,
    me: Seq<char>,
    key: Seq<u8>,
    e: EnvelopeModel,
)
    requires
        content_sealed(
            from_db,
            sender,
            device,
            from,
            group,
            json,
            Ok::<(Seq<u8>, i64), Error>(sealed),
        ),
        from_db.conversation(group)->0.kind != "dm"@,
        to_db.conversation(group) is Some,
        to_db.conversation(group)->0.kind != "dm"@,
        to_db.is_member(group, from),
        to_db.group(group) is Some,
        to_db.group(group)->0.current_epoch == from_db.group(group)->0.current_epoch,
        epoch_key(
            to_db,
            secret,
            group,
            to_db.group(group)->0.current_epoch,
            me,
        ) == epoch_key(
            from_db,
            sender.x_secret,
            group,
            from_db.group(group)->0.current_epoch,
            from,
        ),
        uuid_text(e.conversation_id) == group,
        e.message_type != MessageType::GroupCommit,
        e.ciphertext == sealed.0,
        e.sequence == unsigned_bits(sealed.1 as int),
    ensures
        content_routed(to_db, secret, me, from, key, e) == Ok::<RoutedModel, Error>(
            RoutedModel::Open(
                OpenedModel { stage: Stage::Group, from, conversation_id: group, json },
            ),
        ),
{
    law_epochs_newest_first(to_db, group, me, None);
}

/// A device uses each of its numbers in a group once: what it seals after a number was
/// used up has another number and another nonce, whatever happened in between that kept
/// the numbers used up.
pub proof fn law_group_seals_use_new_numbers(
    first_db: DbModel,
    later_db: DbModel,
    identity: IdentityModel,
    device: Seq<u8>,
    me: Seq<char>,
    group: Seq<char>,
    first_epoch: i64,
    later_epoch: i64,
    first_json: Seq<u8>,
    later_json: Seq<u8>,
    first: (Seq<u8>, i64),
    later: (Seq<u8>, i64),
)
    requires
        group_content_sealed(
            first_db,
            identity,
            device,
            me,
            group,
            first_epoch,
            first_json,
            Ok::<(Seq<u8>, i64), Error>(first),
        ),
        later_db.used_number(group, uuid_text(device), false) is Some,
        later_db.used_number(group, uuid_text(device), false)->0 >= first.1,
        group_content_sealed(
            later_db,
            identity,
            device,
            me,
            group,
            later_epoch,
            later_json,
            Ok::<(Seq<u8>, i64), Error>(later),
        ),
    ensures
        later.1 > first.1,
        later.0.take(GROUP_NONCE_BYTES as int) != first.0.take(GROUP_NONCE_BYTES as int),
{
    let a = first_db.next_number(group, uuid_text(device));
    let b = later_db.next_number(group, uuid_text(device));
    assert(first.1 == a && later.1 == b);
    assert(b > later_db.used_number(group, uuid_text(device), false)->0);
    lemma_sealed_nonce(
        first_db,
        identity.x_secret,
        group,
        first_epoch,
        me,
        unsigned_bits(a),
        first_json,
        first.0,
    );
    lemma_sealed_nonce(
        later_db,
        identity.x_secret,
        group,
        later_epoch,
        me,
        unsigned_bits(b),
        later_json,
        later.0,
    );
    let p = share_number(first_db.share_of(group, first_epoch, me), unsigned_bits(a))->Ok_0;
    let q = share_number(later_db.share_of(group, later_epoch, me), unsigned_bits(b))->Ok_0;
    assert(p as int % (SHARE_NUMBERS as int) != q as int % (SHARE_NUMBERS as int));
    law_group_nonces_differ(p, q);
}

/// What is sealed in an epoch begins with the nonce of its number.
proof fn lemma_sealed_nonce(
    db: DbModel,
    secret: Seq<u8>,
    group: Seq<char>,
    epoch: i64,
    me: Seq<char>,
    sequence: u64,
    json: Seq<u8>,
    sealed: Seq<u8>,
)
    requires
        epoch_sealed(
            db,
            secret,
            group,
            epoch,
            me,
            sequence,
            json,
            Ok::<Seq<u8>, Error>(sealed),
        ),
    ensures
        ({
            let told = share_number(db.share_of(group, epoch, me), sequence);
            &&& told is Ok
            &&& sequence < SHARE_NUMBERS
            &&& told->Ok_0 as int % (SHARE_NUMBERS as int) == sequence
            &&& sealed.take(GROUP_NONCE_BYTES as int) == group_nonce_bytes(told->Ok_0)
        }),
{
    let share = db.share_of(group, epoch, me);
    lemma_number_tells(share, sequence);
    let told = share_number(share, sequence)->Ok_0;
    assert(sealed.take(GROUP_NONCE_BYTES as int) =~= group_nonce_bytes(told));
}

/// The share of an epoch that a store has for a member is their place in a list: it was
/// noted so, or it is not noted and the list is that of the members in the store.
pub open spec fn shares_by(
    db: DbModel,
    group: Seq<char>,
    epoch: i64,
    members: Seq<Seq<char>>,
    member: Seq<char>,
) -> bool {
    if unnoted(db, group, epoch, member) {
        db.consistent() && db.members_listed(group, members)
    } else {
        db.group_key(group, epoch, member)->0.share == Some(first_place(members, member) as u64)
            && members.len() <= u64::MAX
    }
}

proof fn lemma_shares_by(
    db: DbModel,
    group: Seq<char>,
    epoch: i64,
    members: Seq<Seq<char>>,
    member: Seq<char>,
)
    requires
        shares_by(db, group, epoch, members, member),
        members.contains(member),
    ensures
        db.share_of(group, epoch, member) == first_place(members, member),
{
    lemma_first_place(members, member);
    if unnoted(db, group, epoch, member) {
        law_listed_shares_are_places(
            db,
            GroupKeyModel {
                group_id: group,
                epoch,
                wrapped_for: member,
                wrapped_key: Seq::empty(),
                wrapper_x_pub: None,
                share: None,
            },
            members,
        );
    }
}

/// Two members who seal with the key of one epoch never share a nonce, whatever numbers
/// of their own they use, where the shares of both come from one list of the members.
pub proof fn law_members_never_share_a_nonce(
    group: Seq<char>,
    epoch: i64,
    members: Seq<Seq<char>>,
    a_db: DbModel,
    b_db: DbModel,
    a_secret: Seq<u8>,
    b_secret: Seq<u8>,
    a: Seq<char>,
    b: Seq<char>,
    a_sequence: u64,
    b_sequence: u64,
    a_json: Seq<u8>,
    b_json: Seq<u8>,
    a_box: Seq<u8>,
    b_box: Seq<u8>,
)
    requires
        members.contains(a),
        members.contains(b),
        a != b,
        shares_by(a_db, group, epoch, members, a),
        shares_by(b_db, group, epoch, members, b),
        epoch_sealed(
            a_db,
            a_secret,
            group,
            epoch,
            a,
            a_sequence,
            a_json,
            Ok::<Seq<u8>, Error>(a_box),
        ),
        epoch_sealed(
            b_db,
            b_secret,
            group,
            epoch,
            b,
            b_sequence,
            b_json,
            Ok::<Seq<u8>, Error>(b_box),
        ),
    ensures
        a_box.take(GROUP_NONCE_BYTES as int) != b_box.take(GROUP_NONCE_BYTES as int),
{
    lemma_shares_by(a_db, group, epoch, members, a);
    lemma_shares_by(b_db, group, epoch, members, b);
    law_epoch_nonces_differ(members, a, b, a_sequence, b_sequence);
    lemma_sealed_nonce(a_db, a_secret, group, epoch, a, a_sequence, a_json, a_box);
    lemma_sealed_nonce(b_db, b_secret, group, epoch, b, b_sequence, b_json, b_box);
}

// -- texts ------------------------------------------------------------------------------------

/// The outcome, with the payload taken by its view.
pub open spec fn payload_view(r: Result<ChatPayload, Error>) -> Result<PayloadModel, Error> {
    match r {
        Ok(p) => Ok(p@),
        Err(e) => Err(e),
    }
}

/// The payload of a text, or why there is none.
pub open spec fn text_of(
    db: DbModel,
    conversation: Seq<char>,
    body: Seq<char>,
    reply_to: Option<Seq<char>>,
) -> Result<PayloadModel, Error> {
    match (message_text(body), db.username(), epoch_of(db, conversation)) {
        (Err(e), _, _) => Err(e),
        (Ok(_), None, _) => Err(Error::NoProfile),
        (Ok(_), Some(_), Err(e)) => Err(e),
        (Ok(text), Some(me), Ok(epoch)) => Ok(
            PayloadModel::Text { from: me, body: text, reply_to, epoch },
        ),
    }
}

/// The payload of a text.
pub fn text_payload(
    db: &Database,
    conversation_id: &str,
    body: &str,
    reply_to: &Option<String>,
) -> (payload: Result<ChatPayload, Error>)
    ensures
        payload_view(payload) == text_of(db@, conversation_id@, body@, opt_text(*reply_to)),
{
    let text = match valid_text(body) {
        Ok(t) => t,
        Err(e) => {
            return Err(e);
        },
    };
    let me = match db.load_profile() {
        Some(p) => p.0,
        None => {
            return Err(Error::NoProfile);
        },
    };
    match current_epoch(db, conversation_id) {
        Err(e) => Err(e),
        Ok(epoch) => Ok(
            ChatPayload::Text { from: me, body: text, reply_to: copy_opt_text(reply_to), epoch },
        ),
    }
}

/// Why nobody can be written to in a conversation: a direct one needs a peer who is a
/// friend.
pub open spec fn not_writable(db: DbModel, conversation: Seq<char>) -> Option<Error> {
    match db.conversation(conversation) {
        None => Some(Error::UnknownConversation),
        Some(row) => if row.kind != "dm"@ {
            None
        } else if least_name(db.members.filter(member_of(conversation))) is None {
            Some(Error::NoPeer)
        } else {
            match db.contact(db.dm_peer(conversation)) {
                None => Some(Error::UnknownContact),
                Some(contact) => if contact.status == "friend"@ {
                    None
                } else {
                    Some(Error::NotAFriend)
                },
            }
        },
    }
}

fn check_writable(db: &Database, conversation_id: &str) -> (refused: Option<Error>)
    ensures
        refused == not_writable(db@, conversation_id@),
{
    let row = match db.get_conversation(conversation_id) {
        None => {
            return Some(Error::UnknownConversation);
        },
        Some(r) => r,
    };
    if !text_eq(row.kind.as_str(), "dm") {
        return None;
    }
    let names = db.conversation_members(conversation_id);
    proof {
        lemma_listed_len(db@, conversation_id@, texts(names@));
    }
    if names.len() == 0 {
        return Some(Error::NoPeer);
    }
    let peer = dm_peer_of(db, conversation_id);
    match db.find_contact(peer.as_str()) {
        None => Some(Error::UnknownContact),
        Some(contact) => if text_eq(contact.status.as_str(), "friend") {
            None
        } else {
            Some(Error::NotAFriend)
        },
    }
}

/// The outcome of sending a text: it is sealed, stored and ready for the other
/// members.
pub open spec fn text_sent(
    before: DbModel,
    after: DbModel,
    identity: IdentityModel,
    device: Seq<u8>,
    conversation: Seq<char>,
    payload: PayloadModel,
    json: Seq<u8>,
    message: Seq<u8>,
    stand_in: Seq<u8>,
    now_ms: i64,
    r: Result<Sending, Error>,
) -> bool {
    match (payload, before.username(), not_writable(before, conversation)) {
        (PayloadModel::Text { body, .. }, Some(me), None) => exists|
            sealed: Result<(Seq<u8>, i64), Error>,
        |
            {
                &&& #[trigger] content_sealed(
                    before,
                    identity,
                    device,
                    me,
                    conversation,
                    json,
                    sealed,
                )
                &&& match sealed {
                    Err(e) => r == Err::<Sending, Error>(e) && after == before,
                    Ok(s) => {
                        let row = staged_row(
                            device,
                            me,
                            conversation,
                            payload,
                            body,
                            s.0,
                            message,
                            s.1,
                            now_ms,
                        );
                        &&& r is Ok
                        &&& after == seal_counted(
                            before,
                            before.insert_message(row),
                            conversation,
                            uuid_text(device),
                            s.1,
                        )
                        &&& r->Ok_0.message_id@ == uuid_text(message)
                        &&& r->Ok_0.envelope@ == envelope_of(
                            identity,
                            device,
                            conversation_uuid_of(conversation, stand_in),
                            message,
                            payload.message_type(),
                            unsigned_bits(s.1 as int),
                            s.0,
                            now_ms,
                        )
                        &&& envelope_checked(
                            ed25519_public(identity.ed_secret),
                            r->Ok_0.envelope@,
                        ) is Ok
                        &&& peers_are(before, conversation, me, texts(r->Ok_0.peers@))
                    },
                }
            },
        (PayloadModel::Text { .. }, Some(_), Some(e)) => r == Err::<Sending, Error>(e) && after
            == before,
        (PayloadModel::Text { .. }, None, _) => r == Err::<Sending, Error>(Error::NoProfile)
            && after == before,
        _ => r == Err::<Sending, Error>(Error::BadPayload) && after == before,
    }
}

/// Sends a text, of which `json` is the JSON of the payload: seals it for the
/// conversation, stores it and builds the envelope for the other members. The number
/// under which a group text is sealed is the one that the stored message gets.
pub fn send_text(
    db: &mut Database,
    identity: &DeviceIdentity,
    device_uuid: Uuid,
    conversation_id: &str,
    payload: &ChatPayload,
    json: &[u8],
    message: Uuid,
    stand_in: Uuid,
    now_ms: i64,
) -> (r: Result<Sending, Error>)
    ensures
        text_sent(
            old(db)@,
            final(db)@,
            identity@,
            device_uuid@,
            conversation_id@,
            payload@,
            json@,
            message@,
            stand_in@,
            now_ms,
            r,
        ),
{
    let body = match payload {
        ChatPayload::Text { body, .. } => body,
        _ => {
            return Err(Error::BadPayload);
        },
    };
    let me = match db.load_profile() {
        Some(p) => p.0,
        None => {
            return Err(Error::NoProfile);
        },
    };
    match check_writable(db, conversation_id) {
        Some(e) => {
            return Err(e);
        },
        None => {},
    }
    let peers = other_members(db, conversation_id, me.as_str());
    stage_sealed(
        db,
        identity,
        device_uuid,
        me.as_str(),
        conversation_id,
        payload,
        body.as_str(),
        json,
        message,
        stand_in,
        peers,
        now_ms,
    )
}

/// A conversation is a direct one.
pub open spec fn direct(db: DbModel, conversation: Seq<char>) -> bool {
    db.conversation(conversation) is Some && db.conversation(conversation)->0.kind == "dm"@
}

fn is_direct(db: &Database, conversation_id: &str) -> (b: bool)
    ensures
        b == direct(db@, conversation_id@),
{
    match db.get_conversation(conversation_id) {
        Some(c) => text_eq(c.kind.as_str(), "dm"),
        None => false,
    }
}

/// The store `after`, where what was sealed in a group has used up its number. In a direct
/// conversation, whose nonces are random, numbers only count the stored messages.
pub open spec fn seal_counted(
    before: DbModel,
    after: DbModel,
    conversation: Seq<char>,
    device: Seq<char>,
    number: i64,
) -> DbModel {
    if direct(before, conversation) {
        after
    } else {
        after.use_number(conversation, device, false, number)
    }
}

/// The outcome of sealing and storing a message.
pub open spec fn sealed_and_staged(
    before: DbModel,
    after: DbModel,
    identity: IdentityModel,
    device: Seq<u8>,
    me: Seq<char>,
    conversation: Seq<char>,
    payload: PayloadModel,
    body: Seq<char>,
    json: Seq<u8>,
    message: Seq<u8>,
    stand_in: Seq<u8>,
    peers: Seq<Seq<char>>,
    now_ms: i64,
    sealed: Result<(Seq<u8>, i64), Error>,
    r: Result<Sending, Error>,
) -> bool {
    &&& content_sealed(before, identity, device, me, conversation, json, sealed)
    &&& match sealed {
        Err(e) => r == Err::<Sending, Error>(e) && after == before,
        Ok(s) => {
            let row = staged_row(
                device,
                me,
                conversation,
                payload,
                body,
                s.0,
                message,
                s.1,
                now_ms,
            );
            &&& r is Ok
            &&& after == seal_counted(
                before,
                before.insert_message(row),
                conversation,
                uuid_text(device),
                s.1,
            )
            &&& r->Ok_0.message_id@ == uuid_text(message)
            &&& r->Ok_0.envelope@ == envelope_of(
                identity,
                device,
                conversation_uuid_of(conversation, stand_in),
                message,
                payload.message_type(),
                unsigned_bits(s.1 as int),
                s.0,
                now_ms,
            )
            &&& envelope_checked(ed25519_public(identity.ed_secret), r->Ok_0.envelope@) is Ok
            &&& texts(r->Ok_0.peers@) == peers
        },
    }
}

fn stage_sealed(
    db: &mut Database,
    identity: &DeviceIdentity,
    device_uuid: Uuid,
    me: &str,
    conversation_id: &str,
    payload: &ChatPayload,
    body: &str,
    json: &[u8],
    message: Uuid,
    stand_in: Uuid,
    peers: Vec<String>,
    now_ms: i64,
) -> (r: Result<Sending, Error>)
    ensures
        exists|sealed: Result<(Seq<u8>, i64), Error>|
            #[trigger] sealed_and_staged(
                old(db)@,
                final(db)@,
                identity@,
                device_uuid@,
                me@,
                conversation_id@,
                payload@,
                body@,
                json@,
                message@,
                stand_in@,
                texts(peers@),
                now_ms,
                sealed,
                r,
            ),
{
    let ghost before = db@;
    let direct = is_direct(db, conversation_id);
    let sealed = seal_content(db, identity, device_uuid, me, conversation_id, json);
    let ghost view = sealed_view(sealed);
    proof {
        lemma_first_row(
            before.conversations,
            conversation_is(conversation_id@),
        );
    }
    let s = match sealed {
        Ok(s) => s,
        Err(e) => {
            assert(sealed_and_staged(
                before,
                db@,
                identity@,
                device_uuid@,
                me@,
                conversation_id@,
                payload@,
                body@,
                json@,
                message@,
                stand_in@,
                texts(peers@),
                now_ms,
                view,
                Err::<Sending, Error>(e),
            ));
            return Err(e);
        },
    };
    let staged = stage_message_as(
        db,
        identity,
        device_uuid,
        me,
        conversation_id,
        payload,
        body,
        s.0,
        message,
        stand_in,
        now_ms,
    );
    match staged {
        Ok(pair) => {
            if !direct {
                let device = device_uuid.to_text();
                db.use_number(conversation_id, device.as_str(), false, s.1);
            }
            let r: Result<Sending, Error> = Ok(
                Sending { message_id: pair.0.id, envelope: pair.1, peers },
            );
            assert(sealed_and_staged(
                before,
                db@,
                identity@,
                device_uuid@,
                me@,
                conversation_id@,
                payload@,
                body@,
                json@,
                message@,
                stand_in@,
                texts(peers@),
                now_ms,
                view,
                r,
            ));
            r
        },
        Err(e) => {
            assert(false);
            Err(e)
        },
    }
}

/// The store once a text was sent to its peers: it is delivered if none of them failed.
pub open spec fn text_finished(db: DbModel, message_id: Seq<char>, failures: nat) -> DbModel {
    db.set_message_status(
        message_id,
        if failures == 0 {
            "delivered"@
        } else {
            "queued"@
        },
    )
}

/// Notes how sending a text to its peers went: it is delivered if all of them got it,
/// else it stays queued.
pub fn finish_text(db: &mut Database, message_id: &str, failures: usize)
    ensures
        final(db)@ == text_finished(old(db)@, message_id@, failures as nat),
{
    if failures == 0 {
        db.set_message_status(message_id, "delivered");
    } else {
        db.set_message_status(message_id, "queued");
    }
}

// -- edits and deletions --------------------------------------------------------------------------

/// A message of this user's own, with the user's name.
pub open spec fn own_message(db: DbModel, id: Seq<char>) -> Result<(Seq<char>, MessageModel), Error> {
    match (db.username(), db.message(id)) {
        (None, _) => Err(Error::NoProfile),
        (Some(_), None) => Err(Error::MessageNotFound),
        (Some(me), Some(m)) => if m.sender_username == me {
            Ok((me, m))
        } else {
            Err(Error::NotYourMessage)
        },
    }
}

fn find_own_message(db: &Database, id: &str) -> (own: Result<(String, Message), Error>)
    ensures
        match (own, own_message(db@, id@)) {
            (Ok(a), Ok(b)) => a.0@ == b.0 && a.1@ == b.1,
            (Err(a), Err(b)) => a == b,
            _ => false,
        },
{
    let me = match db.load_profile() {
        Some(p) => p.0,
        None => {
            return Err(Error::NoProfile);
        },
    };
    match db.get_message(id) {
        None => Err(Error::MessageNotFound),
        Some(m) => if text_eq(m.sender_username.as_str(), me.as_str()) {
            Ok((me, m))
        } else {
            Err(Error::NotYourMessage)
        },
    }
}

/// The payload of an edit of one's own message, or why there is none.
pub open spec fn edit_of(db: DbModel, message_id: Seq<char>, body: Seq<char>) -> Result<
    PayloadModel,
    Error,
> {
    match (message_text(body), own_message(db, message_id)) {
        (Err(e), _) => Err(e),
        (Ok(_), Err(e)) => Err(e),
        (Ok(text), Ok(own)) => match epoch_of(db, own.1.conversation_id) {
            Err(e) => Err(e),
            Ok(epoch) => Ok(
                PayloadModel::Edit { from: own.0, ref_id: message_id, body: text, epoch },
            ),
        },
    }
}

/// The payload of the deletion of one's own message, or why there is none.
pub open spec fn deletion_of(db: DbModel, message_id: Seq<char>) -> Result<PayloadModel, Error> {
    match own_message(db, message_id) {
        Err(e) => Err(e),
        Ok(own) => match epoch_of(db, own.1.conversation_id) {
            Err(e) => Err(e),
            Ok(epoch) => Ok(PayloadModel::Delete { from: own.0, ref_id: message_id, epoch }),
        },
    }
}

/// The payload of an edit of one's own message.
pub fn edit_payload(db: &Database, message_id: &str, body: &str) -> (payload: Result<
    ChatPayload,
    Error,
>)
    ensures
        payload_view(payload) == edit_of(db@, message_id@, body@),
{
    let text = match valid_text(body) {
        Ok(t) => t,
        Err(e) => {
            return Err(e);
        },
    };
    let own = match find_own_message(db, message_id) {
        Ok(o) => o,
        Err(e) => {
            return Err(e);
        },
    };
    match current_epoch(db, own.1.conversation_id.as_str()) {
        Err(e) => Err(e),
        Ok(epoch) => Ok(
            ChatPayload::Edit { from: own.0, ref_id: message_id.to_owned(), body: text, epoch },
        ),
    }
}

/// The payload of the deletion of one's own message.
pub fn delete_payload(db: &Database, message_id: &str) -> (payload: Result<ChatPayload, Error>)
    ensures
        payload_view(payload) == deletion_of(db@, message_id@),
{
    let own = match find_own_message(db, message_id) {
        Ok(o) => o,
        Err(e) => {
            return Err(e);
        },
    };
    match current_epoch(db, own.1.conversation_id.as_str()) {
        Err(e) => Err(e),
        Ok(epoch) => Ok(ChatPayload::Delete { from: own.0, ref_id: message_id.to_owned(), epoch }),
    }
}

/// The conversation of a stored message.
pub open spec fn conversation_of(db: DbModel, message_id: Seq<char>) -> Seq<char> {
    match db.message(message_id) {
        Some(m) => m.conversation_id,
        None => ""@,
    }
}

fn find_conversation_of(db: &Database, message_id: &str) -> (id: String)
    ensures
        id@ == conversation_of(db@, message_id@),
{
    match db.get_message(message_id) {
        Some(m) => m.conversation_id,
        None => "".to_owned(),
    }
}

/// What sealing an edit or a deletion of one's own message comes to.
pub open spec fn revision_sealed(
    db: DbModel,
    identity: IdentityModel,
    device: Seq<u8>,
    message_id: Seq<char>,
    payload: PayloadModel,
    json: Seq<u8>,
    message: Seq<u8>,
    stand_in: Seq<u8>,
    now_ms: i64,
    r: Result<Sending, Error>,
) -> bool {
    match own_message(db, message_id) {
        Err(e) => r == Err::<Sending, Error>(e),
        Ok(own) => exists|sealed: Result<(Seq<u8>, i64), Error>|
            {
                &&& #[trigger] content_sealed(
                    db,
                    identity,
                    device,
                    own.0,
                    own.1.conversation_id,
                    json,
                    sealed,
                )
                &&& match sealed {
                    Err(e) => r == Err::<Sending, Error>(e),
                    Ok(s) => {
                        &&& r is Ok
                        &&& r->Ok_0.message_id@ == message_id
                        &&& r->Ok_0.envelope@ == envelope_of(
                            identity,
                            device,
                            conversation_uuid_of(own.1.conversation_id, stand_in),
                            message,
                            payload.message_type(),
                            unsigned_bits(s.1 as int),
                            s.0,
                            now_ms,
                        )
                        &&& envelope_checked(
                            ed25519_public(identity.ed_secret),
                            r->Ok_0.envelope@,
                        ) is Ok
                        &&& peers_are(db, own.1.conversation_id, own.0, texts(r->Ok_0.peers@))
                    },
                }
            },
    }
}

fn seal_revision(
    db: &Database,
    identity: &DeviceIdentity,
    device_uuid: Uuid,
    message_id: &str,
    payload: &ChatPayload,
    json: &[u8],
    message: Uuid,
    stand_in: Uuid,
    now_ms: i64,
) -> (r: Result<Sending, Error>)
    ensures
        revision_sealed(
            db@,
            identity@,
            device_uuid@,
            message_id@,
            payload@,
            json@,
            message@,
            stand_in@,
            now_ms,
            r,
        ),
{
    let own = match find_own_message(db, message_id) {
        Ok(o) => o,
        Err(e) => {
            return Err(e);
        },
    };
    let conversation = own.1.conversation_id.as_str();
    let sealed = seal_content(db, identity, device_uuid, own.0.as_str(), conversation, json);
    assert(content_sealed(
        db@,
        identity@,
        device_uuid@,
        own.0@,
        conversation@,
        json@,
        sealed_view(sealed),
    ));
    match sealed {
        Err(e) => Err(e),
        Ok(s) => {
            let envelope = build_envelope(
                identity,
                device_uuid,
                conversation_uuid(conversation, stand_in),
                message,
                payload.message_type(),
                to_unsigned(s.1),
                s.0,
                now_ms,
            );
            let peers = other_members(db, conversation, own.0.as_str());
            Ok(Sending { message_id: message_id.to_owned(), envelope, peers })
        },
    }
}

/// What editing a message of one's own does.
pub open spec fn own_edited(
    before: DbModel,
    after: DbModel,
    identity: IdentityModel,
    device: Seq<u8>,
    message_id: Seq<char>,
    payload: PayloadModel,
    json: Seq<u8>,
    message: Seq<u8>,
    stand_in: Seq<u8>,
    now_ms: i64,
    r: Result<Sending, Error>,
) -> bool {
    match payload {
        PayloadModel::Edit { body, .. } => {
            &&& revision_sealed(
                before,
                identity,
                device,
                message_id,
                payload,
                json,
                message,
                stand_in,
                now_ms,
                r,
            )
            &&& after == match r {
                Ok(s) => seal_counted(
                    before,
                    before.edit_message(message_id, body, s.envelope@.ciphertext, now_ms),
                    conversation_of(before, message_id),
                    uuid_text(device),
                    signed_bits(s.envelope@.sequence),
                ),
                Err(_) => before,
            }
        },
        _ => r == Err::<Sending, Error>(Error::BadPayload) && after == before,
    }
}

/// Edits one's own message, where `json` is the JSON of the payload of [`edit_payload`].
pub fn edit_message(
    db: &mut Database,
    identity: &DeviceIdentity,
    device_uuid: Uuid,
    message_id: &str,
    payload: &ChatPayload,
    json: &[u8],
    message: Uuid,
    stand_in: Uuid,
    now_ms: i64,
) -> (r: Result<Sending, Error>)
    ensures
        own_edited(
            old(db)@,
            final(db)@,
            identity@,
            device_uuid@,
            message_id@,
            payload@,
            json@,
            message@,
            stand_in@,
            now_ms,
            r,
        ),
{
    match payload {
        ChatPayload::Edit { body, .. } => {
            let r = seal_revision(
                db,
                identity,
                device_uuid,
                message_id,
                payload,
                json,
                message,
                stand_in,
                now_ms,
            );
            match r {
                Err(e) => Err(e),
                Ok(sending) => {
                    let conversation = find_conversation_of(db, message_id);
                    let direct = is_direct(db, conversation.as_str());
                    db.edit_message(
                        message_id,
                        body.as_str(),
                        sending.envelope.ciphertext.as_slice(),
                        now_ms,
                    );
                    if !direct {
                        let device = device_uuid.to_text();
                        db.use_number(
                            conversation.as_str(),
                            device.as_str(),
                            false,
                            to_signed(sending.envelope.sequence),
                        );
                    }
                    Ok(sending)
                },
            }
        },
        _ => Err(Error::BadPayload),
    }
}

/// What deleting a message of one's own does.
pub open spec fn own_deleted(
    before: DbModel,
    after: DbModel,
    identity: IdentityModel,
    device: Seq<u8>,
    message_id: Seq<char>,
    payload: PayloadModel,
    json: Seq<u8>,
    message: Seq<u8>,
    stand_in: Seq<u8>,
    now_ms: i64,
    r: Result<Sending, Error>,
) -> bool {
    match payload {
        PayloadModel::Delete { .. } => {
            &&& revision_sealed(
                before,
                identity,
                device,
                message_id,
                payload,
                json,
                message,
                stand_in,
                now_ms,
                r,
            )
            &&& after == match r {
                Ok(s) => seal_counted(
                    before,
                    before.tombstone_message(message_id, now_ms),
                    conversation_of(before, message_id),
                    uuid_text(device),
                    signed_bits(s.envelope@.sequence),
                ),
                Err(_) => before,
            }
        },
        _ => r == Err::<Sending, Error>(Error::BadPayload) && after == before,
    }
}

/// Deletes one's own message, where `json` is the JSON of the payload of
/// [`delete_payload`].
pub fn delete_message(
    db: &mut Database,
    identity: &DeviceIdentity,
    device_uuid: Uuid,
    message_id: &str,
    payload: &ChatPayload,
    json: &[u8],
    message: Uuid,
    stand_in: Uuid,
    now_ms: i64,
) -> (r: Result<Sending, Error>)
    ensures
        own_deleted(
            old(db)@,
            final(db)@,
            identity@,
            device_uuid@,
            message_id@,
            payload@,
            json@,
            message@,
            stand_in@,
            now_ms,
            r,
        ),
{
    match payload {
        ChatPayload::Delete { .. } => {
            let r = seal_revision(
                db,
                identity,
                device_uuid,
                message_id,
                payload,
                json,
                message,
                stand_in,
                now_ms,
            );
            match r {
                Err(e) => Err(e),
                Ok(sending) => {
                    let conversation = find_conversation_of(db, message_id);
                    let direct = is_direct(db, conversation.as_str());
                    db.tombstone_message(message_id, now_ms);
                    if !direct {
                        let device = device_uuid.to_text();
                        db.use_number(
                            conversation.as_str(),
                            device.as_str(),
                            false,
                            to_signed(sending.envelope.sequence),
                        );
                    }
                    Ok(sending)
                },
            }
        },
        _ => Err(Error::BadPayload),
    }
}

// -- leaving a group --------------------------------------------------------------------------------

/// The farewell of someone who leaves a group.
pub open spec fn farewell(me: Seq<char>, epoch: i64) -> PayloadModel {
    PayloadModel::Text {
        from: me,
        body: handle(me) + " left the group"@,
        reply_to: None,
        epoch: Some(epoch),
    }
}

/// What this user says on leaving a group.
pub open spec fn farewell_to(db: DbModel, group_id: Seq<char>) -> Result<PayloadModel, Error> {
    match (db.username(), db.group(group_id)) {
        (None, _) => Err(Error::NoProfile),
        (Some(_), None) => Err(Error::UnknownGroup),
        (Some(me), Some(group)) => Ok(farewell(me, group.current_epoch)),
    }
}

/// The payload that tells a group that this user leaves it.
pub fn leave_payload(db: &Database, group_id: &str) -> (payload: Result<ChatPayload, Error>)
    ensures
        payload_view(payload) == farewell_to(db@, group_id@),

{
    let me = match db.load_profile() {
        Some(p) => p.0,
        None => {
            return Err(Error::NoProfile);
        },
    };
    match db.load_group(group_id) {
        None => Err(Error::UnknownGroup),
        Some(group) => {
            let mut body = handle_of(me.as_str());
            body.append(" left the group");
            Ok(
                ChatPayload::Text {
                    from: me,
                    body,
                    reply_to: None,
                    epoch: Some(group.current_epoch),
                },
            )
        },
    }
}

/// The outcome of leaving a group.
pub open spec fn group_left(
    before: DbModel,
    after: DbModel,
    identity: IdentityModel,
    device: Seq<u8>,
    group_id: Seq<char>,
    json: Seq<u8>,
    message: Seq<u8>,
    stand_in: Seq<u8>,
    now_ms: i64,
    r: Result<Sending, Error>,
) -> bool {
    match (before.username(), before.group(group_id)) {
        (None, _) => r == Err::<Sending, Error>(Error::NoProfile) && after == before,
        (Some(_), None) => r == Err::<Sending, Error>(Error::UnknownGroup) && after == before,
        (Some(me), Some(group)) => exists|sealed: Result<(Seq<u8>, i64), Error>|
            {
                &&& #[trigger] group_content_sealed(
                    before,
                    identity,
                    device,
                    me,
                    group_id,
                    group.current_epoch,
                    json,
                    sealed,
                )
                &&& match sealed {
                    Err(e) => r == Err::<Sending, Error>(e) && after == before,
                    Ok(s) => {
                        &&& r is Ok
                        &&& r->Ok_0.message_id@ == uuid_text(message)
                        &&& r->Ok_0.envelope@ == envelope_of(
                            identity,
                            device,
                            conversation_uuid_of(group_id, stand_in),
                            message,
                            MessageType::Message,
                            unsigned_bits(s.1 as int),
                            s.0,
                            now_ms,
                        )
                        &&& envelope_checked(
                            ed25519_public(identity.ed_secret),
                            r->Ok_0.envelope@,
                        ) is Ok
                        &&& peers_are(before, group_id, me, texts(r->Ok_0.peers@))
                        &&& after == before.delete_wrapped_keys_for(
                            group_id,
                            me,
                        ).remove_conversation_member(group_id, me).use_number(
                            group_id,
                            uuid_text(device),
                            false,
                            s.1,
                        )
                    },
                }
            },
    }
}

/// Leaves a group, where `json` is the JSON of the payload of [`leave_payload`]: this
/// user's keys and membership go, the history stays. The others rotate at the next
/// change of the membership.
pub fn leave_group(
    db: &mut Database,
    identity: &DeviceIdentity,
    device_uuid: Uuid,
    group_id: &str,
    json: &[u8],
    message: Uuid,
    stand_in: Uuid,
    now_ms: i64,
) -> (r: Result<Sending, Error>)
    ensures
        group_left(
            old(db)@,
            final(db)@,
            identity@,
            device_uuid@,
            group_id@,
            json@,
            message@,
            stand_in@,
            now_ms,
            r,
        ),
{
    let me = match db.load_profile() {
        Some(p) => p.0,
        None => {
            return Err(Error::NoProfile);
        },
    };
    let group = match db.load_group(group_id) {
        None => {
            return Err(Error::UnknownGroup);
        },
        Some(g) => g,
    };
    let sealed = seal_group_content(
        db,
        identity,
        device_uuid,
        me.as_str(),
        group_id,
        group.current_epoch,
        json,
    );
    assert(group_content_sealed(
        old(db)@,
        identity@,
        device_uuid@,
        me@,
        group_id@,
        group.current_epoch,
        json@,
        sealed_view(sealed),
    ));
    match sealed {
        Err(e) => Err(e),
        Ok(s) => {
            let envelope = build_envelope(
                identity,
                device_uuid,
                conversation_uuid(group_id, stand_in),
                message,
                MessageType::Message,
                to_unsigned(s.1),
                s.0,
                now_ms,
            );
            let peers = other_members(db, group_id, me.as_str());
            assert(peers_are(old(db)@, group_id@, me@, texts(peers@)));
            db.delete_wrapped_keys_for(group_id, me.as_str());
            db.remove_conversation_member(group_id, me.as_str());
            let device = device_uuid.to_text();
            db.use_number(group_id, device.as_str(), false, s.1);
            let sending = Sending { message_id: message.to_text(), envelope, peers };
            Ok(sending)
        },
    }
}

/// Whoever left a group holds none of its keys and is no member.
pub proof fn law_leaver_keeps_no_key(db: DbModel, group: Seq<char>, me: Seq<char>)
    ensures
        !some_row(
            db.delete_wrapped_keys_for(group, me).remove_conversation_member(group, me).group_keys,
            group_key_for(group, me),
        ),
        !db.delete_wrapped_keys_for(group, me).remove_conversation_member(group, me).is_member(
            group,
            me,
        ),
{
    lemma_without(
        db.group_keys,
        group_key_for(group, me),
    );
    lemma_without(db.members, member_is(group, me));
}

// -- files ------------------------------------------------------------------------------------------

/// The offer that is made of a file, and its sealed chunks.
pub open spec fn offer_made(
    db: DbModel,
    conversation: Seq<char>,
    filename: Seq<char>,
    mime_type: Seq<char>,
    data: Seq<u8>,
    file_id: Seq<u8>,
    file_key: Seq<u8>,
    offer: Result<(ChatPayload, Vec<Vec<u8>>), Error>,
) -> bool {
    match (db.username(), db.conversation(conversation)) {
        (None, _) => offer == Err::<(ChatPayload, Vec<Vec<u8>>), Error>(Error::NoProfile),
        (Some(_), None) => offer == Err::<(ChatPayload, Vec<Vec<u8>>), Error>(
            Error::UnknownConversation,
        ),
        (Some(me), Some(_)) => match offer_refused(trimmed(filename), data) {
            Some(e) => offer == Err::<(ChatPayload, Vec<Vec<u8>>), Error>(e),
            None => {
                &&& offer is Ok
                &&& offer->Ok_0.0@ == (PayloadModel::FileOffer {
                    from: me,
                    file: offer_of(
                        uuid_text(file_id),
                        trimmed(filename),
                        mime_type,
                        data,
                        file_key,
                    ),
                })
                &&& chunks_sealed(data, file_key, offer->Ok_0.1@)
            },
        },
    }
}

/// The offer of a file in a conversation, with the file's sealed chunks. The file gets
/// the given id and key.
pub fn file_offer(
    db: &Database,
    conversation_id: &str,
    filename: &str,
    mime_type: &str,
    data: &[u8],
    file_id: Uuid,
    file_key: [u8; 32],
) -> (offer: Result<(ChatPayload, Vec<Vec<u8>>), Error>)
    ensures
        offer_made(
            db@,
            conversation_id@,
            filename@,
            mime_type@,
            data@,
            file_id@,
            file_key@,
            offer,
        ),

{
    let me = match db.load_profile() {
        Some(p) => p.0,
        None => {
            return Err(Error::NoProfile);
        },
    };
    if !db.has_conversation(conversation_id) {
        proof {
            lemma_first_row(
                db@.conversations,
                conversation_is(conversation_id@),
            );
        }
        return Err(Error::UnknownConversation);
    }
    proof {
        lemma_first_row(
            db@.conversations,
            conversation_is(conversation_id@),
        );
    }
    let id = file_id.to_text();
    let name = trim(filename);
    match prepare_offer_with(id.as_str(), name.as_str(), mime_type, data, file_key) {
        Err(e) => Err(e),
        Ok(made) => Ok((ChatPayload::FileOffer { from: me, file: made.0 }, made.1)),
    }
}

/// Where the source of a file that is being sent is kept.
pub open spec fn source_place(files_dir: Seq<char>, file_id: Seq<char>) -> Seq<char> {
    joined_path(files_dir, file_id + ".src"@)
}

/// Where the source of a file that is being sent is kept.
pub fn source_path(files_dir: &str, file_id: &str) -> (path: String)
    ensures
        path@ == source_place(files_dir@, file_id@),
{
    let mut name = file_id.to_owned();
    name.append(".src");
    join_path(files_dir, name.as_str())
}

/// The transfer of a file that is being sent.
pub open spec fn sending_file(
    offer: FileOfferModel,
    conversation: Seq<char>,
    files_dir: Seq<char>,
    now_ms: i64,
) -> FileTransferModel {
    FileTransferModel {
        local_path: Some(source_place(files_dir, offer.file_id)),
        ..offered_file(offer, conversation, "sending"@, now_ms)
    }
}

/// The outcome of offering a file: the offer is sealed, stored as a message and ready
/// for the other members, and the transfer is noted.
pub open spec fn file_sent(
    before: DbModel,
    after: DbModel,
    identity: IdentityModel,
    device: Seq<u8>,
    conversation: Seq<char>,
    payload: PayloadModel,
    json: Seq<u8>,
    offer_json: Seq<char>,
    files_dir: Seq<char>,
    message: Seq<u8>,
    stand_in: Seq<u8>,
    now_ms: i64,
    r: Result<Sending, Error>,
) -> bool {
    match (payload, before.username()) {
        (PayloadModel::FileOffer { file, .. }, Some(me)) => exists|
            sealed: Result<(Seq<u8>, i64), Error>,
        |
            {
                &&& #[trigger] content_sealed(
                    before,
                    identity,
                    device,
                    me,
                    conversation,
                    json,
                    sealed,
                )
                &&& match sealed {
                    Err(e) => r == Err::<Sending, Error>(e) && after == before,
                    Ok(s) => {
                        let row = staged_row(
                            device,
                            me,
                            conversation,
                            payload,
                            "File: "@ + file.filename,
                            s.0,
                            message,
                            s.1,
                            now_ms,
                        );
                        &&& r is Ok
                        &&& after == seal_counted(
                            before,
                            before.insert_message(row),
                            conversation,
                            uuid_text(device),
                            s.1,
                        ).save_file(
                            sending_file(file, conversation, files_dir, now_ms),
                        ).save_offer_json(file.file_id, offer_json)
                        &&& r->Ok_0.message_id@ == uuid_text(message)
                        &&& r->Ok_0.envelope@ == envelope_of(
                            identity,
                            device,
                            conversation_uuid_of(conversation, stand_in),
                            message,
                            payload.message_type(),
                            unsigned_bits(s.1 as int),
                            s.0,
                            now_ms,
                        )
                        &&& envelope_checked(
                            ed25519_public(identity.ed_secret),
                            r->Ok_0.envelope@,
                        ) is Ok
                        &&& peers_are(before, conversation, me, texts(r->Ok_0.peers@))
                    },
                }
            },
        (PayloadModel::FileOffer { .. }, None) => r == Err::<Sending, Error>(Error::NoProfile)
            && after == before,
        _ => r == Err::<Sending, Error>(Error::BadPayload) && after == before,
    }
}

/// Offers a file, where `json` is the JSON of the payload of [`file_offer`] and
/// `offer_json` that of the offer in it.
pub fn send_file(
    db: &mut Database,
    identity: &DeviceIdentity,
    device_uuid: Uuid,
    conversation_id: &str,
    payload: &ChatPayload,
    json: &[u8],
    offer_json: &str,
    files_dir: &str,
    message: Uuid,
    stand_in: Uuid,
    now_ms: i64,
) -> (r: Result<Sending, Error>)
    ensures
        file_sent(
            old(db)@,
            final(db)@,
            identity@,
            device_uuid@,
            conversation_id@,
            payload@,
            json@,
            offer_json@,
            files_dir@,
            message@,
            stand_in@,
            now_ms,
            r,
        ),
{
    let offer = match payload {
        ChatPayload::FileOffer { file, .. } => file,
        _ => {
            return Err(Error::BadPayload);
        },
    };
    let me = match db.load_profile() {
        Some(p) => p.0,
        None => {
            return Err(Error::NoProfile);
        },
    };
    let peers = other_members(db, conversation_id, me.as_str());
    let mut shown = "File: ".to_owned();
    shown.append(offer.filename.as_str());
    let ghost before = db@;
    let staged = stage_sealed(
        db,
        identity,
        device_uuid,
        me.as_str(),
        conversation_id,
        payload,
        shown.as_str(),
        json,
        message,
        stand_in,
        peers,
        now_ms,
    );
    let ghost sealed = choose|sealed: Result<(Seq<u8>, i64), Error>|
        #[trigger] sealed_and_staged(
            before,
            db@,
            identity@,
            device_uuid@,
            me@,
            conversation_id@,
            payload@,
            shown@,
            json@,
            message@,
            stand_in@,
            texts(peers@),
            now_ms,
            sealed,
            staged,
        );
    assert(content_sealed(
        before,
        identity@,
        device_uuid@,
        me@,
        conversation_id@,
        json@,
        sealed,
    ));
    match staged {
        Err(e) => Err(e),
        Ok(sending) => {
            let file = FileTransfer {
                id: offer.file_id.clone(),
                conversation_id: conversation_id.to_owned(),
                filename: offer.filename.clone(),
                mime_type: offer.mime_type.clone(),
                size_bytes: to_signed(offer.size_bytes),
                sha256_hex: offer.sha256_hex.clone(),
                state: "sending".to_owned(),
                bytes_done: 0,
                local_path: Some(source_path(files_dir, offer.file_id.as_str())),
                created_at_ms: now_ms,
            };
            proof {
                let p = conversation_is(conversation_id@);
                lemma_first_row(before.conversations, p);
                lemma_insert_keeps_conversation(
                    before,
                    staged_row(
                        device_uuid@,
                        me@,
                        conversation_id@,
                        payload@,
                        shown@,
                        sealed->Ok_0.0,
                        message@,
                        sealed->Ok_0.1,
                        now_ms,
                    ),
                    conversation_id@,
                );
            }
            match db.save_file(&file, now_ms) {
                Ok(_) => {},
                Err(e) => {
                    assert(false);
                    return Err(e);
                },
            }
            db.save_offer_json(offer.file_id.as_str(), offer_json);
            Ok(sending)
        },
    }
}

/// Storing a message takes no conversation away.
pub proof fn lemma_insert_keeps_conversation(db: DbModel, row: MessageModel, id: Seq<char>)
    requires
        db.has_conversation(id),
    ensures
        db.insert_message(row).has_conversation(id),
{
    let p = conversation_is(id);
    let i: int = choose|i: int| 0 <= i < db.conversations.len() && p(#[trigger] db.conversations[i]);
    let after = db.insert_message(row);
    if !db.clashes(row) {
        assert(p(after.conversations[i]));
    } else {
        assert(p(after.conversations[i]));
    }
}

/// The store once the chunks of a file were sent.
pub open spec fn file_finished(
    db: DbModel,
    conversation: Seq<char>,
    file_id: Seq<char>,
    now_ms: i64,
) -> DbModel {
    match db.file(file_id) {
        Some(file) => if file.state == "sending"@ {
            db.set_conversation_preview(conversation, "File sent: "@ + file.filename, now_ms)
        } else {
            db
        },
        None => db,
    }
}

/// Notes that all chunks of a file have gone out, while it is still being sent.
pub fn finish_file(db: &mut Database, conversation_id: &str, file_id: &str, now_ms: i64)
    ensures
        final(db)@ == file_finished(old(db)@, conversation_id@, file_id@, now_ms),

{
    match db.load_file(file_id) {
        Some(file) => {
            if text_eq(file.state.as_str(), "sending") {
                let mut preview = "File sent: ".to_owned();
                preview.append(file.filename.as_str());
                db.set_conversation_preview(conversation_id, preview.as_str(), now_ms);
            }
        },
        None => {},
    }
}

// -- control payloads ---------------------------------------------------------------------------------

/// A control payload for a conversation, and the members that get it.
#[derive(Debug, Clone)]
pub struct ControlPlan {
    pub conversation_id: String,
    pub payload: ChatPayload,
    pub peers: Vec<String>,
}

/// `plan` sends a payload to the other members of a conversation.
pub open spec fn plan_is(
    plan: ControlPlan,
    db: DbModel,
    conversation: Seq<char>,
    me: Seq<char>,
    payload: PayloadModel,
) -> bool {
    &&& plan.conversation_id@ == conversation
    &&& plan.payload@ == payload
    &&& peers_are(db, conversation, me, texts(plan.peers@))
}

/// What cancelling a file transfer does: it is cancelled, and telling so is planned.
pub open spec fn cancels_file(
    before: DbModel,
    after: DbModel,
    file_id: Seq<char>,
    plan: Result<ControlPlan, Error>,
) -> bool {
    match (before.username(), before.file(file_id)) {
        (None, _) => plan == Err::<ControlPlan, Error>(Error::NoProfile) && after == before,
        (Some(_), None) => plan == Err::<ControlPlan, Error>(Error::UnknownFile) && after
            == before,
        (Some(me), Some(file)) => {
            &&& after == before.save_file(FileTransferModel { state: "cancelled"@, ..file })
            &&& if before.has_conversation(file.conversation_id) {
                plan is Ok && plan_is(
                    plan->Ok_0,
                    before,
                    file.conversation_id,
                    me,
                    PayloadModel::FileCancel { from: me, file_id },
                )
            } else {
                plan == Err::<ControlPlan, Error>(Error::UnknownConversation)
            }
        },
    }
}

/// Cancels a file transfer and plans to tell the other members.
pub fn cancel_file(db: &mut Database, file_id: &str, now_ms: i64) -> (plan: Result<
    ControlPlan,
    Error,
>)
    ensures
        cancels_file(old(db)@, final(db)@, file_id@, plan),
{
    let me = match db.load_profile() {
        Some(p) => p.0,
        None => {
            return Err(Error::NoProfile);
        },
    };
    let file = match db.load_file(file_id) {
        Some(f) => f,
        None => {
            return Err(Error::UnknownFile);
        },
    };
    proof {
        lemma_first_row(db@.files, file_is(file_id@));
    }
    let peers = other_members(db, file.conversation_id.as_str(), me.as_str());
    let conversation = file.conversation_id.clone();
    let mut cancelled = file;
    cancelled.state = "cancelled".to_owned();
    match db.save_file(&cancelled, now_ms) {
        Ok(_) => {},
        Err(e) => {
            return Err(e);
        },
    }
    if !db.has_conversation(conversation.as_str()) {
        return Err(Error::UnknownConversation);
    }
    Ok(
        ControlPlan {
            conversation_id: conversation,
            payload: ChatPayload::FileCancel { from: me, file_id: file_id.to_owned() },
            peers,
        },
    )
}

/// The store with these messages marked as read.
pub open spec fn ids_read(db: DbModel, ids: Seq<Seq<char>>) -> DbModel
    decreases ids.len(),
{
    if ids.len() == 0 {
        db
    } else {
        ids_read(db, ids.drop_last()).set_message_status(ids.last(), "read"@)
    }
}

proof fn lemma_ids_read_frame(db: DbModel, ids: Seq<Seq<char>>)
    ensures
        ids_read(db, ids) == (DbModel { messages: ids_read(db, ids).messages, ..db }),
    decreases ids.len(),
{
    if ids.len() > 0 {
        lemma_ids_read_frame(db, ids.drop_last());
    }
}

/// What marking messages as read does: they are read, and the receipt is planned.
pub open spec fn marks_read(
    before: DbModel,
    after: DbModel,
    conversation: Seq<char>,
    ids: Seq<Seq<char>>,
    plan: Result<ControlPlan, Error>,
) -> bool {
    match before.username() {
        None => plan == Err::<ControlPlan, Error>(Error::NoProfile) && after == before,
        Some(me) => {
            &&& after == ids_read(before, ids)
            &&& if before.has_conversation(conversation) {
                plan is Ok && plan_is(
                    plan->Ok_0,
                    before,
                    conversation,
                    me,
                    PayloadModel::Read { from: me, ref_ids: ids },
                )
            } else {
                plan == Err::<ControlPlan, Error>(Error::UnknownConversation)
            }
        },
    }
}

/// Marks messages as read and plans the receipt for the other members.
pub fn mark_read(db: &mut Database, conversation_id: &str, read_ids: &Vec<String>) -> (plan: Result<
    ControlPlan,
    Error,
>)
    ensures
        marks_read(old(db)@, final(db)@, conversation_id@, texts(read_ids@), plan),
{
    let me = match db.load_profile() {
        Some(p) => p.0,
        None => {
            return Err(Error::NoProfile);
        },
    };
    let peers = other_members(db, conversation_id, me.as_str());
    let ghost before = db@;
    let ghost ids = texts(read_ids@);
    let mut i: usize = 0;
    assert(ids.take(0) =~= Seq::<Seq<char>>::empty());
    while i < read_ids.len()
        invariant
            i <= read_ids.len(),
            ids == texts(read_ids@),
            db@ == ids_read(before, ids.take(i as int)),
        decreases read_ids.len() - i,
    {
        assert(ids.take(i + 1).drop_last() =~= ids.take(i as int));
        assert(ids.take(i + 1).last() == read_ids@[i as int]@);
        db.set_message_status(read_ids[i].as_str(), "read");
        i += 1;
    }
    assert(ids.take(i as int) =~= ids);
    proof {
        lemma_ids_read_frame(before, ids);
    }
    if !db.has_conversation(conversation_id) {
        return Err(Error::UnknownConversation);
    }
    Ok(
        ControlPlan {
            conversation_id: conversation_id.to_owned(),
            payload: ChatPayload::Read { from: me, ref_ids: copy_texts(read_ids) },
            peers,
        },
    )
}

/// Telling the others in a conversation that this user types, or stopped.
pub open spec fn typing_planned(
    db: DbModel,
    conversation: Seq<char>,
    typing: bool,
    plan: Result<Option<ControlPlan>, Error>,
) -> bool {
    if db.me().len() == 0 {
        plan is Ok && plan->Ok_0 is None
    } else if !db.has_conversation(conversation) {
        plan == Err::<Option<ControlPlan>, Error>(Error::UnknownConversation)
    } else {
        plan is Ok && plan->Ok_0 is Some && plan_is(
            plan->Ok_0->0,
            db,
            conversation,
            db.me(),
            PayloadModel::Typing { from: db.me(), typing },
        )
    }
}

/// Plans to tell the other members that this user started or stopped typing. Without a
/// profile there is nothing to tell.
pub fn send_typing(db: &Database, conversation_id: &str, typing: bool) -> (plan: Result<
    Option<ControlPlan>,
    Error,
>)
    ensures
        typing_planned(db@, conversation_id@, typing, plan),

{
    let me = match db.load_profile() {
        Some(p) => p.0,
        None => {
            return Ok(None);
        },
    };
    if me.as_str().is_empty() {
        return Ok(None);
    }
    if !db.has_conversation(conversation_id) {
        return Err(Error::UnknownConversation);
    }
    let peers = other_members(db, conversation_id, me.as_str());
    Ok(
        Some(
            ControlPlan {
                conversation_id: conversation_id.to_owned(),
                payload: ChatPayload::Typing { from: me, typing },
                peers,
            },
        ),
    )
}

} // verus!
