//! What goes over the wire: how numbers, keys and payloads are written.

use vstd::prelude::*;

use crate::bytes::{be32, be64, from_be32, hex};
use crate::crypto::{group_nonce_bytes, group_sealed};
use crate::payload::{PayloadModel, PresenceStatus};
use crate::protocol::{frame_prefix, MessageType};
use crate::text::decimal;

verus! {

/// Numbers are written with the highest byte first.
pub proof fn law_numbers_are_big_endian(n: u64, m: u32)
    ensures
        be32(m).len() == 4,
        be32(m)[0] * 0x100_0000 + be32(m)[1] * 0x1_0000 + be32(m)[2] * 0x100 + be32(m)[3] == m,
        be64(n).len() == 8,
        ((be64(n)[0] * 0x100_0000 + be64(n)[1] * 0x1_0000 + be64(n)[2] * 0x100 + be64(n)[3])
            * 0x1_0000_0000 + be64(n)[4] * 0x100_0000 + be64(n)[5] * 0x1_0000 + be64(n)[6] * 0x100
            + be64(n)[7]) == n,
{
    let high = (n / 0x1_0000_0000) as u32;
    let low = (n % 0x1_0000_0000) as u32;
    assert(be64(n) == be32(high) + be32(low));
    lemma_be32(m);
    lemma_be32(high);
    lemma_be32(low);
    assert(be64(n)[0] == be32(high)[0] && be64(n)[3] == be32(high)[3]);
    assert(be64(n)[4] == be32(low)[0] && be64(n)[7] == be32(low)[3]);
}

proof fn lemma_be32(m: u32)
    ensures
        be32(m).len() == 4,
        be32(m)[0] * 0x100_0000 + be32(m)[1] * 0x1_0000 + be32(m)[2] * 0x100 + be32(m)[3] == m,
{
}

/// A frame begins with the length of its body.
pub proof fn law_frames_begin_with_their_length(body: Seq<u8>)
    requires
        body.len() < 0x1_0000_0000,
    ensures
        frame_prefix(body).len() == 4,
        from_be32(frame_prefix(body)) == body.len(),
{
    lemma_be32(body.len() as u32);
}

/// Bytes in hex are two digits each, the high one first, in lower case.
pub proof fn law_hex_digits(b: Seq<u8>, i: int)
    requires
        0 <= i < b.len(),
    ensures
        hex(b).len() == 2 * b.len(),
        ({
            let high = b[i] as int / 16;
            let low = b[i] as int % 16;
            &&& hex(b)[2 * i] == "0123456789abcdef"@[high]
            &&& hex(b)[2 * i + 1] == "0123456789abcdef"@[low]
        }),
{
    reveal_strlit("0123456789abcdef");
    let high = b[i] as int / 16;
    let low = b[i] as int % 16;
    assert((2 * i) / 2 == i && (2 * i + 1) / 2 == i);
    lemma_hex_digit(high);
    lemma_hex_digit(low);
}

proof fn lemma_hex_digit(v: int)
    requires
        0 <= v < 16,
    ensures
        crate::bytes::hex_digit(v) == "0123456789abcdef"@[v],
{
    reveal_strlit("0123456789abcdef");
    assert(v == 0 || v == 1 || v == 2 || v == 3 || v == 4 || v == 5 || v == 6 || v == 7 || v == 8
        || v == 9 || v == 10 || v == 11 || v == 12 || v == 13 || v == 14 || v == 15);
}

/// What is sealed for a group begins with `HG1G` and the number that it is sealed under.
pub proof fn law_group_boxes_begin_with_their_number(key: Seq<u8>, number: u64, text: Seq<u8>)
    ensures
        group_nonce_bytes(number).len() == 12,
        ({
            let sealed = group_sealed(key, number, text);
            &&& sealed.len() >= 12
            &&& sealed[0] == 'H' as u8 && sealed[1] == 'G' as u8 && sealed[2] == '1' as u8
                && sealed[3] == 'G' as u8
            &&& sealed.subrange(4, 12) == be64(number)
        }),
{
    law_numbers_are_big_endian(number, 0);
    let sealed = group_sealed(key, number, text);
    assert(sealed.subrange(4, 12) =~= be64(number));
}

/// A number is written in decimal digits without a leading zero: the last digit is the
/// remainder by ten, what stands before it writes the rest.
pub proof fn law_decimal_digits(n: nat)
    ensures
        n < 10 ==> decimal(n).len() == 1,
        n >= 10 ==> decimal(n).len() == decimal(n / 10).len() + 1 && decimal(n).drop_last()
            == decimal(n / 10),
        decimal(n).last() == "0123456789"@[(n % 10) as int],
{
    reveal_strlit("0123456789");
    if n >= 10 {
        assert(decimal(n).drop_last() =~= decimal(n / 10));
    }
    let d = n % 10;
    assert(d == 0 || d == 1 || d == 2 || d == 3 || d == 4 || d == 5 || d == 6 || d == 7 || d == 8
        || d == 9);
}

/// Each payload goes in an envelope of its own type, which only it has.
pub proof fn law_payloads_have_types_of_their_own(a: PayloadModel, b: PayloadModel)
    ensures
        a.message_type() == b.message_type() ==> {
            &&& a is Text <==> b is Text
            &&& a is Edit <==> b is Edit
            &&& a is Delete <==> b is Delete
            &&& a is Read <==> b is Read
            &&& a is Typing <==> b is Typing
            &&& a is GroupKey <==> b is GroupKey
            &&& a is GroupMeta <==> b is GroupMeta
            &&& a is FileOffer <==> b is FileOffer
            &&& a is FileChunk <==> b is FileChunk
            &&& a is FileAccept <==> b is FileAccept
            &&& a is FileCancel <==> b is FileCancel
            &&& a is SyncRequest <==> b is SyncRequest
            &&& a is FriendAsk <==> b is FriendAsk
            &&& a is FriendAnswer <==> b is FriendAnswer
            &&& a is Presence <==> b is Presence
        },
        a is Text ==> a.message_type() == MessageType::Message,
        a is GroupKey ==> a.message_type() == MessageType::GroupCommit,
        a is FriendAsk ==> a.message_type() == MessageType::FriendRequest,
        a is FriendAnswer ==> a.message_type() == MessageType::FriendResponse,
        a is Presence ==> a.message_type() == MessageType::Presence,
        a is Typing ==> a.message_type() == MessageType::Typing,
        a is Read ==> a.message_type() == MessageType::ReadAck,
        a is FileOffer ==> a.message_type() == MessageType::FileOffer,
        a is SyncRequest ==> a.message_type() == MessageType::SyncRequest,
{
}

/// The words that are shown for a presence choose it, whatever their case and the blanks
/// around them; nobody chooses to be offline.
pub proof fn law_presence_words_choose(status: PresenceStatus)
    ensures
        status != PresenceStatus::Offline ==> crate::payload::presence_chosen(
            crate::payload::presence_label(status),
        ) == Some(status),
        crate::payload::presence_chosen(
            crate::payload::presence_label(PresenceStatus::Offline),
        ) is None,
        forall|raw: Seq<char>|
            #[trigger] crate::payload::presence_chosen(raw) != Some(PresenceStatus::Offline),
{
    lemma_word("online"@);
    lemma_word("away"@);
    lemma_word("do not disturb"@);
    lemma_word("offline"@);
    reveal_strlit("online");
    reveal_strlit("away");
    reveal_strlit("dnd");
    reveal_strlit("do not disturb");
    reveal_strlit("disturb");
    reveal_strlit("offline");
    assert("online"@.len() == 6 && "away"@.len() == 4 && "dnd"@.len() == 3);
    assert("do not disturb"@.len() == 14 && "disturb"@.len() == 7 && "offline"@.len() == 7);
    assert("disturb"@[0] == 'd' && "offline"@[0] == 'o');
}

/// A word in lower case with no blank at its ends stays as it is.
proof fn lemma_word(word: Seq<char>)
    ensures
        word == "online"@ || word == "away"@ || word == "do not disturb"@ || word == "offline"@
            ==> crate::text::lowered(crate::text::trimmed(word)) == word,
{
    reveal_strlit("online");
    reveal_strlit("away");
    reveal_strlit("do not disturb");
    reveal_strlit("offline");
    if word == "online"@ || word == "away"@ || word == "do not disturb"@ || word == "offline"@ {
        assert(word.len() >= 4);
        crate::text::lemma_trimmed_fixed(word);
        assert(crate::text::lowered(word) =~= word);
    }
}

/// An envelope is valid if it is of the current version and carries something.
pub proof fn law_valid_envelopes(e: crate::protocol::EnvelopeModel)
    ensures
        crate::protocol::validated(e) is Ok <==> e.version == 1 && e.ciphertext.len() > 0,
        e.version != 1 ==> crate::protocol::validated(e) == Err::<
            (),
            crate::protocol::EnvelopeError,
        >(crate::protocol::EnvelopeError::UnsupportedVersion(e.version)),
{
}

/// What is said of who leaves a group, and what the chat list shows of a payload.
pub proof fn law_words_that_are_shown(me: Seq<char>, epoch: i64, payload: PayloadModel)
    ensures
        crate::messaging::farewell(me, epoch) == (PayloadModel::Text {
            from: me,
            body: "@"@ + me + " left the group"@,
            reply_to: None,
            epoch: Some(epoch),
        }),
        payload is Text && payload->Text_body.len() <= 120 ==> crate::sync::preview_of(payload)
            == payload->Text_body,
        payload is Text ==> crate::sync::preview_of(payload).len() <= 120,
        payload is FileOffer ==> crate::sync::preview_of(payload) == "File: "@
            + payload->FileOffer_file.filename,
{
}

} // verus!
