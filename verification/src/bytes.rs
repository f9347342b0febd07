//! Bytes as text and as numbers: hex, URL-safe base64 and big-endian integers.

use vstd::prelude::*;
use vstd::utf8::*;

use crate::error::Error;
use crate::text::{chars_of, is_white_space, lemma_trimmed_fixed, trim, trimmed};

verus! {

// -- hex ----------------------------------------------------------------------

/// The lower-case hex digit of a value below 16.
pub open spec fn hex_digit(v: int) -> char {
    if v < 10 {
        ((48 + v) as u8) as char
    } else {
        ((87 + v) as u8) as char
    }
}

/// Two lower-case hex digits for each byte, the high one first.
pub open spec fn hex(b: Seq<u8>) -> Seq<char> {
    Seq::new(
        (2 * b.len()) as nat,
        |i: int| hex_digit(if i % 2 == 0 { b[i / 2] as int / 16 } else { b[i / 2] as int % 16 }),
    )
}

/// The value of an ASCII hex digit of either case.
pub open spec fn hex_value(c: u8) -> Option<int> {
    if 48 <= c <= 57 {
        Some(c - 48)
    } else if 97 <= c <= 102 {
        Some(c - 87)
    } else if 65 <= c <= 70 {
        Some(c - 55)
    } else {
        None
    }
}

/// The number that two ASCII characters write in hex: two digits, or a plus
/// sign and one digit.
pub open spec fn hex_pair(high: u8, low: u8) -> Option<int> {
    match (hex_value(high), hex_value(low)) {
        (Some(h), Some(l)) => Some(16 * h + l),
        (None, Some(l)) => if high == 43 {
            Some(l)
        } else {
            None
        },
        _ => None,
    }
}

/// What [`hex_decode_32`] reads from a text.
pub open spec fn hex_decoded_32(text: Seq<char>) -> Result<Seq<u8>, Error> {
    let b = encode_utf8(trimmed(text));
    if b.len() != 64 {
        Err(Error::HexLength)
    } else if forall|i: int| 0 <= i < 32 ==> hex_pair(#[trigger] b[2 * i], b[2 * i + 1]) is Some {
        Ok(Seq::new(32, |i: int| hex_pair(b[2 * i], b[2 * i + 1])->0 as u8))
    } else {
        Err(Error::BadHex)
    }
}

fn digit_of(v: u8) -> (c: char)
    requires
        v < 16,
    ensures
        c == hex_digit(v as int),
{
    if v < 10 {
        (48 + v) as char
    } else {
        (87 + v) as char
    }
}

/// Lower-case hex of key material and digests.
pub fn hex_encode(bytes: &[u8]) -> (out: String)
    ensures
        out@ == hex(bytes@),
{
    let mut out = String::new();
    let mut i: usize = 0;
    while i < bytes.len()
        invariant
            i <= bytes.len(),
            out@ == hex(bytes@.take(i as int)),
        decreases bytes.len() - i,
    {
        out.push(digit_of(bytes[i] / 16));
        out.push(digit_of(bytes[i] % 16));
        proof {
            let next = bytes@.take(i + 1);
            assert(out@ =~= hex(next)) by {
                assert forall|k: int| 0 <= k < hex(next).len() implies out@[k] == hex(next)[k] by {
                    if k < 2 * i {
                        assert(hex(bytes@.take(i as int))[k] == hex(next)[k]);
                    }
                }
            }
        }
        i += 1;
    }
    assert(bytes@.take(i as int) =~= bytes@);
    out
}

fn value_of(c: u8) -> (v: Option<u8>)
    ensures
        match (v, hex_value(c)) {
            (Some(a), Some(b)) => a == b && a < 16,
            (None, None) => true,
            _ => false,
        },
{
    if 48 <= c && c <= 57 {
        Some((c - 48) as u8)
    } else if 97 <= c && c <= 102 {
        Some((c - 87) as u8)
    } else if 65 <= c && c <= 70 {
        Some((c - 55) as u8)
    } else {
        None
    }
}

fn pair_value(high: u8, low: u8) -> (v: Option<u8>)
    ensures
        match (v, hex_pair(high, low)) {
            (Some(a), Some(b)) => a == b,
            (None, None) => true,
            _ => false,
        },
{
    match (value_of(high), value_of(low)) {
        (Some(h), Some(l)) => Some((16 * h + l) as u8),
        (None, Some(l)) => if high == 43 {
            Some(l)
        } else {
            None
        },
        _ => None,
    }
}

/// Reads 32 bytes of hex, white space around them ignored.
pub fn hex_decode_32(hex: &str) -> (out: Result<[u8; 32], Error>)
    ensures
        match (out, hex_decoded_32(hex@)) {
            (Ok(a), Ok(b)) => a@ == b,
            (Err(a), Err(b)) => a == b,
            _ => false,
        },
{
    let text = trim(hex);
    let b = text.as_str().as_bytes();
    if b.len() != 64 {
        return Err(Error::HexLength);
    }
    let mut out: [u8; 32] = [0u8; 32];
    let mut i: usize = 0;
    while i < 32
        invariant
            i <= 32,
            b@.len() == 64,
            b@ == encode_utf8(trimmed(hex@)),
            forall|k: int|
                0 <= k < i ==> hex_pair(#[trigger] b@[2 * k], b@[2 * k + 1]) is Some && out@[k]
                    == hex_pair(b@[2 * k], b@[2 * k + 1])->0,
        decreases 32 - i,
    {
        match pair_value(b[2 * i], b[2 * i + 1]) {
            Some(v) => {
                out[i] = v;
            },
            None => {
                assert(hex_pair(b@[2 * i], b@[2 * i + 1]) is None);
                return Err(Error::BadHex);
            },
        }
        i += 1;
    }
    proof {
        let expected = hex_decoded_32(hex@)->Ok_0;
        assert(out@ =~= expected);
    }
    Ok(out)
}

/// Reading back what was written in hex gives the same 32 bytes.
pub proof fn law_hex_round_trip(b: Seq<u8>)
    requires
        b.len() == 32,
    ensures
        hex_decoded_32(hex(b)) == Ok::<Seq<u8>, Error>(b),
{
    let text = hex(b);
    assert(text.len() == 64);
    assert forall|i: int| 0 <= i < 64 implies '0' <= #[trigger] text[i] <= 'f' by {
        let v: int = if i % 2 == 0 {
            b[i / 2] as int / 16
        } else {
            b[i / 2] as int % 16
        };
        assert(0 <= v < 16);
    }
    assert(!is_white_space(text[0]));
    assert(!is_white_space(text.last()));
    lemma_trimmed_fixed(text);
    assert(is_ascii_chars(text)) by {
        assert forall|i: int| 0 <= i < text.len() implies (0 <= #[trigger] (text[i] as nat) < 128) by {
            assert('0' <= text[i] <= 'f');
        }
    }
    is_ascii_chars_encode_utf8(text);
    let e = encode_utf8(text);
    assert forall|i: int| 0 <= i < 32 implies hex_pair(#[trigger] e[2 * i], e[2 * i + 1]) == Some(
        b[i] as int,
    ) by {
        assert((2 * i) / 2 == i);
        assert((2 * i + 1) / 2 == i);
        assert((2 * i) % 2 == 0);
        assert((2 * i + 1) % 2 == 1);
        assert(text[2 * i] == hex_digit(b[i] as int / 16));
        assert(text[2 * i + 1] == hex_digit(b[i] as int % 16));
        assert(e[2 * i] == text[2 * i] as u8);
        assert(e[2 * i + 1] == text[2 * i + 1] as u8);
        assert(b[i] as int == 16 * (b[i] as int / 16) + b[i] as int % 16);
    }
    assert(hex_decoded_32(text)->Ok_0 =~= b);
}

// -- URL-safe base64 without padding ------------------------------------------

/// The character of a value below 64.
pub open spec fn base64_char(v: int) -> char {
    if v < 26 {
        ((65 + v) as u8) as char
    } else if v < 52 {
        ((97 + v - 26) as u8) as char
    } else if v < 62 {
        ((48 + v - 52) as u8) as char
    } else if v == 62 {
        '-'
    } else {
        '_'
    }
}

/// The value of a character of the alphabet.
pub open spec fn base64_value(c: char) -> Option<int> {
    if 'A' <= c <= 'Z' {
        Some(c as u32 - 65)
    } else if 'a' <= c <= 'z' {
        Some(c as u32 - 97 + 26)
    } else if '0' <= c <= '9' {
        Some(c as u32 - 48 + 52)
    } else if c == '-' {
        Some(62)
    } else if c == '_' {
        Some(63)
    } else {
        None
    }
}

/// The byte at `i`, or 0 behind the last one.
pub open spec fn byte_at(b: Seq<u8>, i: int) -> int {
    if 0 <= i < b.len() {
        b[i] as int
    } else {
        0
    }
}

/// The six bits that stand at place `i` when the bytes are read as one string
/// of bits.
pub open spec fn sextet(b: Seq<u8>, i: int) -> int {
    let k = 3 * (i / 4);
    if i % 4 == 0 {
        byte_at(b, k) / 4
    } else if i % 4 == 1 {
        (byte_at(b, k) % 4) * 16 + byte_at(b, k + 1) / 16
    } else if i % 4 == 2 {
        (byte_at(b, k + 1) % 16) * 4 + byte_at(b, k + 2) / 64
    } else {
        byte_at(b, k + 2) % 64
    }
}

/// The bytes six bits at a time, the last ones filled up with zero bits.
pub open spec fn base64(b: Seq<u8>) -> Seq<char> {
    Seq::new(((4 * b.len() + 2) / 3) as nat, |i: int| base64_char(sextet(b, i)))
}

/// The eight bits that stand at place `j` when the values are read as one
/// string of bits.
pub open spec fn octet(v: Seq<int>, j: int) -> int {
    let k = 4 * (j / 3);
    if j % 3 == 0 {
        v[k] * 4 + v[k + 1] / 16
    } else if j % 3 == 1 {
        (v[k + 1] % 16) * 16 + v[k + 2] / 4
    } else {
        (v[k + 2] % 4) * 64 + v[k + 3]
    }
}

/// The values of the characters.
pub open spec fn base64_values(text: Seq<char>) -> Seq<int> {
    text.map_values(|c: char| base64_value(c)->0)
}

/// The whole bytes that a text of the alphabet writes.
pub open spec fn base64_decoded(text: Seq<char>) -> Result<Seq<u8>, Error> {
    if forall|i: int| 0 <= i < text.len() ==> base64_value(#[trigger] text[i]) is Some {
        Ok(
            Seq::new(
                (3 * text.len() / 4) as nat,
                |j: int| octet(base64_values(text), j) as u8,
            ),
        )
    } else {
        Err(Error::BadBase64)
    }
}

fn symbol(v: u8) -> (c: char)
    requires
        v < 64,
    ensures
        c == base64_char(v as int),
{
    if v < 26 {
        (65 + v) as char
    } else if v < 52 {
        (97 + (v - 26)) as char
    } else if v < 62 {
        (48 + (v - 52)) as char
    } else if v == 62 {
        '-'
    } else {
        '_'
    }
}

/// URL-safe base64 without padding.
pub fn base64_url(bytes: &[u8]) -> (out: String)
    ensures
        out@ == base64(bytes@),
{
    let mut out = String::new();
    let ghost goal = base64(bytes@);
    let mut k: usize = 0;
    while k < bytes.len()
        invariant
            k % 3 == 0,
            k < bytes.len() + 3,
            goal == base64(bytes@),
            k < bytes.len() ==> out@ == goal.take(4 * (k as int / 3)),
            k >= bytes.len() ==> out@ == goal,
            4 * (k as int / 3) <= goal.len() || k >= bytes.len(),
        decreases bytes.len() + 3 - k,
    {
        let ghost i0 = 4 * (k as int / 3);
        let left: usize = bytes.len() - k;
        let a = bytes[k];
        let b = if left > 1 { bytes[k + 1] } else { 0u8 };
        let c = if left > 2 { bytes[k + 2] } else { 0u8 };
        assert(i0 / 4 == k as int / 3 && 3 * (i0 / 4) == k);
        assert((i0 + 1) / 4 == i0 / 4 && (i0 + 2) / 4 == i0 / 4 && (i0 + 3) / 4 == i0 / 4);
        assert(i0 % 4 == 0 && (i0 + 1) % 4 == 1 && (i0 + 2) % 4 == 2 && (i0 + 3) % 4 == 3);
        assert(b == byte_at(bytes@, k + 1));
        assert(c == byte_at(bytes@, k + 2));
        let ghost before = out@;
        out.push(symbol(a / 4));
        out.push(symbol((a % 4) * 16 + b / 16));
        assert(out@ =~= goal.take(i0 + 2));
        if left > 1 {
            out.push(symbol((b % 16) * 4 + c / 64));
            assert(out@ =~= goal.take(i0 + 3));
        }
        if left > 2 {
            out.push(symbol(c % 64));
            assert(out@ =~= goal.take(i0 + 4));
        } else {
            assert(out@ =~= goal);
            return out;
        }
        if left == 3 {
            assert(out@ =~= goal);
            return out;
        }
        k += 3;
        assert(4 * (k as int / 3) == i0 + 4);
    }
    assert(bytes.len() == 0 ==> out@ =~= goal);
    out
}

fn symbol_value(c: char) -> (v: Option<u8>)
    ensures
        match (v, base64_value(c)) {
            (Some(a), Some(b)) => a == b && a < 64,
            (None, None) => true,
            _ => false,
        },
{
    if 'A' <= c && c <= 'Z' {
        Some((c as u32 - 65) as u8)
    } else if 'a' <= c && c <= 'z' {
        Some((c as u32 - 97 + 26) as u8)
    } else if '0' <= c && c <= '9' {
        Some((c as u32 - 48 + 52) as u8)
    } else if c == '-' {
        Some(62)
    } else if c == '_' {
        Some(63)
    } else {
        None
    }
}

/// Reads URL-safe base64 without padding. Bits that do not fill a byte are
/// dropped.
pub fn unbase64_url(text: &str) -> (out: Result<Vec<u8>, Error>)
    ensures
        match (out, base64_decoded(text@)) {
            (Ok(a), Ok(b)) => a@ == b,
            (Err(a), Err(b)) => a == b,
            _ => false,
        },
{
    let chars = chars_of(text);
    let mut values: Vec<u8> = Vec::new();
    let mut i: usize = 0;
    while i < chars.len()
        invariant
            i <= chars.len(),
            chars@ == text@,
            values.len() == i,
            forall|k: int|
                0 <= k < i ==> base64_value(#[trigger] chars@[k]) == Some(values@[k] as int)
                    && values@[k] < 64,
        decreases chars.len() - i,
    {
        match symbol_value(chars[i]) {
            Some(v) => {
                values.push(v);
            },
            None => {
                assert(base64_value(text@[i as int]) is None);
                return Err(Error::BadBase64);
            },
        }
        i += 1;
    }
    let ghost v = base64_values(text@);
    let ghost goal = base64_decoded(text@)->Ok_0;
    assert forall|k: int| 0 <= k < values.len() implies v[k] == #[trigger] values@[k] as int by {
        assert(base64_value(chars@[k]) == Some(values@[k] as int));
    }
    let mut out: Vec<u8> = Vec::new();
    let mut k: usize = 0;
    assert(out@ =~= goal.take(0));
    while k < values.len()
        invariant
            k % 4 == 0,
            k <= values.len(),
            base64_decoded(text@) == Ok::<Seq<u8>, Error>(goal),
            v.len() == values.len(),
            goal.len() == 3 * v.len() as int / 4,
            forall|j: int| 0 <= j < goal.len() ==> #[trigger] goal[j] == octet(v, j) as u8,
            forall|j: int| 0 <= j < values.len() ==> v[j] == #[trigger] values@[j] as int,
            forall|j: int| 0 <= j < values.len() ==> #[trigger] values@[j] < 64,
            3 * (k as int / 4) <= goal.len(),
            out@ == goal.take(3 * (k as int / 4)),
        decreases values.len() - k,
    {
        let ghost j0 = 3 * (k as int / 4);
        let left: usize = values.len() - k;
        assert(4 * (j0 / 3) == k);
        assert((j0 + 1) / 3 == j0 / 3 && (j0 + 2) / 3 == j0 / 3);
        assert(j0 % 3 == 0 && (j0 + 1) % 3 == 1 && (j0 + 2) % 3 == 2);
        if left > 1 {
            out.push(values[k] * 4 + values[k + 1] / 16);
            assert(goal[j0] == octet(v, j0) as u8);
            assert(out@ =~= goal.take(j0 + 1));
        }
        if left > 2 {
            out.push((values[k + 1] % 16) * 16 + values[k + 2] / 4);
            assert(goal[j0 + 1] == octet(v, j0 + 1) as u8);
            assert(out@ =~= goal.take(j0 + 2));
        }
        if left > 3 {
            out.push((values[k + 2] % 4) * 64 + values[k + 3]);
            assert(goal[j0 + 2] == octet(v, j0 + 2) as u8);
            assert(out@ =~= goal.take(j0 + 3));
        } else {
            assert(out@ =~= goal);
            return Ok(out);
        }
        k += 4;
        assert(3 * (k as int / 4) == j0 + 3);
    }
    assert(out@ =~= goal);
    Ok(out)
}

/// Six bits are below 64.
pub(crate) proof fn lemma_sextet_range(b: Seq<u8>, i: int)
    ensures
        0 <= sextet(b, i) < 64,
{
}

proof fn lemma_three_bytes(x: int, y: int, z: int)
    requires
        0 <= x < 256,
        0 <= y < 256,
        0 <= z < 256,
    ensures
        (x / 4) * 4 + ((x % 4) * 16 + y / 16) / 16 == x,
        (((x % 4) * 16 + y / 16) % 16) * 16 + ((y % 16) * 4 + z / 64) / 4 == y,
        (((y % 16) * 4 + z / 64) % 4) * 64 + z % 64 == z,
{
}

proof fn lemma_octet_of_sextets(b: Seq<u8>, v: Seq<int>, j: int)
    requires
        0 <= j < b.len(),
        v.len() == (4 * b.len() + 2) / 3,
        forall|i: int| 0 <= i < v.len() ==> #[trigger] v[i] == sextet(b, i),
    ensures
        octet(v, j) == b[j],
{
    let q = j / 3;
    let k = 4 * q;
    let g = 3 * q;
    assert(k / 4 == q && (k + 1) / 4 == q && (k + 2) / 4 == q && (k + 3) / 4 == q);
    assert(k % 4 == 0 && (k + 1) % 4 == 1 && (k + 2) % 4 == 2 && (k + 3) % 4 == 3);
    let x = byte_at(b, g);
    let y = byte_at(b, g + 1);
    let z = byte_at(b, g + 2);
    lemma_three_bytes(x, y, z);
    assert(sextet(b, k) == x / 4);
    assert(sextet(b, k + 1) == (x % 4) * 16 + y / 16);
    assert(sextet(b, k + 2) == (y % 16) * 4 + z / 64);
    assert(sextet(b, k + 3) == z % 64);
    if j == g {
        assert(v[k] == x / 4);
        assert(v[k + 1] == (x % 4) * 16 + y / 16);
    } else if j == g + 1 {
        assert(v[k + 1] == (x % 4) * 16 + y / 16);
        assert(v[k + 2] == (y % 16) * 4 + z / 64);
    } else {
        assert(j == g + 2);
        assert(v[k + 2] == (y % 16) * 4 + z / 64);
        assert(v[k + 3] == z % 64);
    }
}

/// Reading back what was written in base64 gives the same bytes.
pub proof fn law_base64_round_trip(b: Seq<u8>)
    ensures
        base64_decoded(base64(b)) == Ok::<Seq<u8>, Error>(b),
{
    let text = base64(b);
    let v = base64_values(text);
    assert forall|i: int| 0 <= i < text.len() implies base64_value(#[trigger] text[i]) == Some(
        sextet(b, i),
    ) by {
        assert(0 <= sextet(b, i) < 64);
    }
    assert forall|i: int| 0 <= i < text.len() implies #[trigger] v[i] == sextet(b, i) by {
        assert(base64_value(text[i]) == Some(sextet(b, i)));
    }
    assert(3 * text.len() as int / 4 == b.len());
    assert forall|j: int| 0 <= j < b.len() implies octet(v, j) == #[trigger] b[j] as int by {
        lemma_octet_of_sextets(b, v, j);
    }
    assert(base64_decoded(text)->Ok_0 =~= b);
}

// -- big-endian numbers --------------------------------------------------------

/// Two bytes, the high one first.
pub open spec fn be16(n: u16) -> Seq<u8> {
    seq![(n / 256) as u8, (n % 256) as u8]
}

/// Four bytes, the highest one first.
pub open spec fn be32(n: u32) -> Seq<u8> {
    be16((n / 0x1_0000) as u16) + be16((n % 0x1_0000) as u16)
}

/// Eight bytes, the highest one first.
pub open spec fn be64(n: u64) -> Seq<u8> {
    be32((n / 0x1_0000_0000) as u32) + be32((n % 0x1_0000_0000) as u32)
}

/// The number that two bytes write, the high one first.
pub open spec fn from_be16(b: Seq<u8>) -> int {
    b[0] * 256 + b[1]
}

/// The number that four bytes write, the highest one first.
pub open spec fn from_be32(b: Seq<u8>) -> int {
    b[0] * 0x100_0000 + b[1] * 0x1_0000 + b[2] * 0x100 + b[3]
}

/// What eight bytes stand for, the highest first.
pub open spec fn from_be64(b: Seq<u8>) -> int {
    from_be32(b.take(4)) * 0x1_0000_0000 + from_be32(b.skip(4))
}

pub(crate) fn read_be32(b: &[u8], at: usize) -> (n: u32)
    requires
        at + 4 <= b@.len(),
    ensures
        n == from_be32(b@.subrange(at as int, at + 4)),
{
    let ghost part = b@.subrange(at as int, at + 4);
    assert(part[0] == b@[at as int] && part[1] == b@[at + 1] && part[2] == b@[at + 2] && part[3]
        == b@[at + 3]);
    b[at] as u32 * 0x100_0000 + b[at + 1] as u32 * 0x1_0000 + b[at + 2] as u32 * 0x100
        + b[at + 3] as u32
}

pub(crate) fn read_be64(b: &[u8], at: usize) -> (n: u64)
    requires
        at + 8 <= b@.len(),
    ensures
        n == from_be64(b@.subrange(at as int, at + 8)),
{
    let ghost part = b@.subrange(at as int, at + 8);
    assert(part.take(4) =~= b@.subrange(at as int, at + 4));
    assert(part.skip(4) =~= b@.subrange(at + 4, at + 8));
    let len: usize = b.len();
    assert(at + 8 <= len);
    read_be32(b, at) as u64 * 0x1_0000_0000 + read_be32(b, at + 4) as u64
}

/// Eight bytes read back as the number that they were written for.
pub proof fn lemma_be64_reads(n: u64)
    ensures
        be64(n).len() == 8,
        from_be64(be64(n)) == n,
{
    lemma_be32_reads((n / 0x1_0000_0000) as u32);
    lemma_be32_reads((n % 0x1_0000_0000) as u32);
    assert(be64(n).take(4) =~= be32((n / 0x1_0000_0000) as u32));
    assert(be64(n).skip(4) =~= be32((n % 0x1_0000_0000) as u32));
}

pub(crate) fn push_be16(out: &mut Vec<u8>, n: u16)
    ensures
        final(out)@ == old(out)@ + be16(n),
{
    out.push((n / 256) as u8);
    out.push((n % 256) as u8);
    assert(out@ =~= old(out)@ + be16(n));
}

pub(crate) fn push_be32(out: &mut Vec<u8>, n: u32)
    ensures
        final(out)@ == old(out)@ + be32(n),
{
    push_be16(out, (n / 0x1_0000) as u16);
    push_be16(out, (n % 0x1_0000) as u16);
    assert(out@ =~= old(out)@ + be32(n));
}

pub(crate) fn push_be64(out: &mut Vec<u8>, n: u64)
    ensures
        final(out)@ == old(out)@ + be64(n),
{
    push_be32(out, (n / 0x1_0000_0000) as u32);
    push_be32(out, (n % 0x1_0000_0000) as u32);
    assert(out@ =~= old(out)@ + be64(n));
}

/// Different numbers are written differently.
pub proof fn lemma_be64_injective(a: u64, b: u64)
    requires
        be64(a) == be64(b),
    ensures
        a == b,
{
    lemma_be32_reads((a / 0x1_0000_0000) as u32);
    lemma_be32_reads((a % 0x1_0000_0000) as u32);
    lemma_be32_reads((b / 0x1_0000_0000) as u32);
    lemma_be32_reads((b % 0x1_0000_0000) as u32);
    assert(be64(a).take(4) =~= be32((a / 0x1_0000_0000) as u32));
    assert(be64(b).take(4) =~= be32((b / 0x1_0000_0000) as u32));
    assert(be64(a).skip(4) =~= be32((a % 0x1_0000_0000) as u32));
    assert(be64(b).skip(4) =~= be32((b % 0x1_0000_0000) as u32));
}

/// Reading back four bytes gives the number that was written.
pub proof fn lemma_be32_reads(n: u32)
    ensures
        be32(n).len() == 4,
        from_be32(be32(n)) == n,
{
    let h: int = n as int / 0x1_0000;
    let l: int = n as int % 0x1_0000;
    assert(h == 256 * (h / 256) + h % 256);
    assert(l == 256 * (l / 256) + l % 256);
    assert(n == 0x1_0000 * h + l);
}

/// The bits of a signed number, read as an unsigned one.
pub open spec fn unsigned_bits(n: int) -> u64 {
    if n >= 0 {
        n as u64
    } else {
        (n + 0x1_0000_0000_0000_0000) as u64
    }
}

/// The bits of an unsigned number, read as a signed one.
pub open spec fn signed_bits(n: u64) -> i64 {
    if n <= i64::MAX {
        n as i64
    } else {
        (n - 0x1_0000_0000_0000_0000) as i64
    }
}

pub(crate) fn to_unsigned(n: i64) -> (bits: u64)
    ensures
        bits == unsigned_bits(n as int),
{
    if n >= 0 {
        n as u64
    } else {
        let distance: u64 = (-(n + 1)) as u64;
        u64::MAX - distance
    }
}

pub(crate) fn to_signed(n: u64) -> (bits: i64)
    ensures
        bits == signed_bits(n),
{
    if n <= 0x7fff_ffff_ffff_ffff {
        n as i64
    } else {
        let distance: u64 = u64::MAX - n;
        -(distance as i64) - 1
    }
}

/// The 32 bytes of a slice of that length.
pub(crate) fn array_32(b: &[u8]) -> (out: [u8; 32])
    requires
        b@.len() == 32,
    ensures
        out@ == b@,
{
    let mut out: [u8; 32] = [0u8; 32];
    let mut i: usize = 0;
    while i < 32
        invariant
            i <= 32,
            b@.len() == 32,
            forall|k: int| 0 <= k < i ==> out@[k] == b@[k],
        decreases 32 - i,
    {
        out[i] = b[i];
        i += 1;
    }
    assert(out@ =~= b@);
    out
}

/// Adds all bytes of `more`.
pub(crate) fn append_bytes(out: &mut Vec<u8>, more: &[u8])
    ensures
        final(out)@ == old(out)@ + more@,
{
    let ghost before = out@;
    let mut i: usize = 0;
    while i < more.len()
        invariant
            i <= more.len(),
            before == old(out)@,
            out@ == before + more@.take(i as int),
        decreases more.len() - i,
    {
        out.push(more[i]);
        assert(out@ =~= before + more@.take(i + 1));
        i += 1;
    }
    assert(more@.take(i as int) =~= more@);
}

/// The bytes from `from` up to `to`.
pub(crate) fn bytes_between(b: &[u8], from: usize, to: usize) -> (out: Vec<u8>)
    requires
        from <= to <= b@.len(),
    ensures
        out@ == b@.subrange(from as int, to as int),
{
    let part = vstd::slice::slice_subrange(b, from, to);
    vstd::slice::slice_to_vec(part)
}

} // verus!
