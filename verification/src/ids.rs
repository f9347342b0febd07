//! Identifiers of devices, conversations and messages.

use vstd::prelude::*;

use crate::bytes::hex;
use crate::text::bytes_eq;

verus! {

/// A 128-bit identifier.
#[derive(Debug, Clone, Copy, PartialEq, Eq)]
pub struct Uuid {
    pub bytes: [u8; 16],
}

impl View for Uuid {
    type V = Seq<u8>;

    open spec fn view(&self) -> Seq<u8> {
        self.bytes@
    }
}

/// The bytes in hex, in groups of 4, 2, 2, 2 and 6 bytes with hyphens between
/// them.
pub open spec fn uuid_text(b: Seq<u8>) -> Seq<char> {
    hex(b.subrange(0, 4)) + seq!['-'] + hex(b.subrange(4, 6)) + seq!['-'] + hex(b.subrange(6, 8))
        + seq!['-'] + hex(b.subrange(8, 10)) + seq!['-'] + hex(b.subrange(10, 16))
}

/// What `uuid::Uuid::parse_str` reads from a text: the simple, hyphenated,
/// braced and URN forms, in either case.
pub uninterp spec fn uuid_parsed(text: Seq<char>) -> Option<Seq<u8>>;

/// Calls `uuid::Uuid::new_v4`. The bits are random but for the version, which
/// is 4, and the variant.
#[verifier::external_body]
fn random_uuid() -> (bytes: [u8; 16])
    ensures
        bytes@[6] / 16 == 4,
        bytes@[8] / 64 == 2,
{
    *uuid::Uuid::new_v4().as_bytes()
}

/// Calls `to_string` on a `uuid::Uuid`. The result is the hyphenated form in
/// lower case, which `uuid::Uuid::parse_str` reads back as the same bytes.
#[verifier::external_body]
fn format_uuid(bytes: &[u8; 16]) -> (text: String)
    ensures
        text@ == uuid_text(bytes@),
        uuid_parsed(text@) == Some(bytes@),
{
    uuid::Uuid::from_bytes(*bytes).to_string()
}

/// Calls `uuid::Uuid::parse_str` and names what it reads.
#[verifier::external_body]
fn parse_uuid(text: &str) -> (bytes: Option<[u8; 16]>)
    ensures
        match (bytes, uuid_parsed(text@)) {
            (Some(b), Some(m)) => b@ == m,
            (None, None) => true,
            _ => false,
        },
{
    uuid::Uuid::parse_str(text).ok().map(|u| *u.as_bytes())
}

impl Uuid {
    /// A new random identifier.
    pub fn new_v4() -> (id: Uuid)
        ensures
            id@[6] / 16 == 4,
            id@[8] / 64 == 2,
    {
        Uuid { bytes: random_uuid() }
    }

    /// The hyphenated text; [`Uuid::parse_str`] reads it back.
    pub fn to_text(&self) -> (text: String)
        ensures
            text@ == uuid_text(self@),
            uuid_parsed(text@) == Some(self@),
    {
        format_uuid(&self.bytes)
    }

    pub fn parse_str(text: &str) -> (id: Option<Uuid>)
        ensures
            opt_uuid(id) == uuid_parsed(text@),
    {
        match parse_uuid(text) {
            Some(bytes) => Some(Uuid { bytes }),
            None => None,
        }
    }

    /// Whether two identifiers are the same.
    pub fn same(&self, other: &Uuid) -> (b: bool)
        ensures
            b == (self@ == other@),
    {
        bytes_eq(self.bytes.as_slice(), other.bytes.as_slice())
    }
}

/// The identifier that was read.
pub open spec fn opt_uuid(id: Option<Uuid>) -> Option<Seq<u8>> {
    match id {
        Some(id) => Some(id@),
        None => None,
    }
}

} // verus!
