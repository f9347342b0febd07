//! Hearth: a local-first messenger between devices.
//!
//! This library decides and computes; it touches neither disk nor network. What is
//! sealed, signed, stored, routed and retried is stated in the contracts, over models of
//! the store ([`database::DbModel`]), of envelopes ([`protocol::EnvelopeModel`]) and of
//! payloads ([`payload::PayloadModel`]).
//!
//! JSON is read and written by the caller: functions that send take the JSON of a payload
//! that the library made, and functions that open return JSON for the caller to read.
//! Where a result rests on chance or the clock, a variant of the function takes the
//! sample (`_as`, `_with`, `_at`) and says exactly what comes of it.

pub mod arrival;
pub mod bytes;
pub mod control;
pub mod coordinator;
pub mod crypto;
pub mod database;
pub mod delivery;
pub mod envelope;
pub mod error;
pub mod files;
pub mod friends;
pub mod groups;
pub mod identity;
pub mod ids;
pub mod messaging;
pub mod payload;
pub mod presence;
pub mod promises;
pub mod protocol;
pub mod records;
pub mod routing;
pub mod shell;
pub mod sync;
pub mod table;
pub mod text;
pub mod transport;
pub mod validation;
