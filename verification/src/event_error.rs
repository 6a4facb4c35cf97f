//! Errors of event identity and verification.
use vstd::prelude::*;
use crate::basecore::ParseError;
use crate::basecore::AsymmetricKeyError;

verus! {

/// Errors when building or parsing an event id.
#[derive(Debug, Clone, PartialEq, Eq)]
pub enum EventIdError {
    /// A malformed rendering of an id.
    Parse(ParseError),
    /// Text that is neither a hex id nor a bech32 id.
    InvalidEventId,
}

/// Errors when parsing or verifying an event.
#[derive(Debug, Clone, PartialEq, Eq)]
pub enum EventDataError {
    /// A malformed rendering of a field.
    Parse(ParseError),
    /// A malformed event id.
    InvalidEventId(EventIdError),
    /// Malformed key material.
    Keys(AsymmetricKeyError),
    /// A malformed coordinate.
    InvalidCoordinate,
    /// A bech32 entity of an unknown prefix.
    InvalidResource,
    /// The stored id does not match the recomputed hash.
    InvalidEventHash,
    /// The signature does not verify against the id and the author key.
    InvalidEventSignature(AsymmetricKeyError),
    /// The id does not carry the demanded leading zero bits.
    InvalidEventIdPow(u8),
}

} // verus!
