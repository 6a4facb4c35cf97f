//! Errors of tag parsing and standardization.
use vstd::prelude::*;
use crate::basecore::{ParseError, AsymmetricKeyError};
use crate::event_error::{EventIdError, EventDataError};

verus! {

/// Errors when parsing or standardizing a tag.
#[derive(Debug, Clone, PartialEq, Eq)]
pub enum TagError {
    /// A tag with no tokens at all.
    EmptyTag,
    /// A malformed rendering of a field.
    Parse(ParseError),
    /// Malformed key material inside a tag.
    Keys(AsymmetricKeyError),
    /// A malformed event id inside a tag.
    InvalidEventId(EventIdError),
    /// A malformed event inside a tag.
    InvalidEvent(EventDataError),
    /// A tag whose first token is missing.
    KindNotFound,
    /// A malformed relay-metadata marker, with the text seen.
    InvalidRelayMetadata(String),
    /// A malformed tag field, with the text seen.
    InvalidTagField(String),
    /// A well-formed tag whose shape matches no known rule; the tag itself
    /// stays usable uninterpreted.
    UnknownStandardizedTag,
}

} // verus!
