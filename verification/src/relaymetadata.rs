//! Relay read/write markers (NIP-65).
use vstd::prelude::*;
use crate::nostrbech32::str_eq_chars;
use vstd::string::{StrSliceExecFns, StringExecFns};

verus! {

/// A marker of unusable text, carrying the text seen.
#[derive(Debug, Clone, PartialEq, Eq)]
pub enum RelayMetaError {
    /// Text that names no relay marker.
    InvalidRelayMetadata(String),
}

/// How a relay is used: for reading or for writing.
#[derive(Debug, Clone, Copy, PartialEq, Eq, Structural, Hash)]
pub enum RelayMetadata {
    /// Read.
    Read,
    /// Write.
    Write,
}

/// The text of each marker.
pub open spec fn relay_metadata_chars(m: RelayMetadata) -> Seq<char> {
    match m {
        RelayMetadata::Read => "read"@,
        RelayMetadata::Write => "write"@,
    }
}

/// The marker a text names, if any.
pub open spec fn relay_metadata_of_chars(s: Seq<char>) -> Option<RelayMetadata> {
    if s == "read"@ {
        Some(RelayMetadata::Read)
    } else if s == "write"@ {
        Some(RelayMetadata::Write)
    } else {
        None
    }
}

impl RelayMetadata {
    /// The marker's text.
    pub fn to_marker_string(&self) -> (r: String)
        ensures
            r@ == relay_metadata_chars(*self),
    {
        match self {
            RelayMetadata::Read => String::from_str("read"),
            RelayMetadata::Write => String::from_str("write"),
        }
    }

    /// Parse a marker from its text; reject any other text, carrying it.
    pub fn parse_str(s: &str) -> (r: Result<RelayMetadata, RelayMetaError>)
        ensures
            match r {
                Ok(m) => relay_metadata_of_chars(s@) == Some(m),
                Err(e) => relay_metadata_of_chars(s@) is None && (
                e matches RelayMetaError::InvalidRelayMetadata(t) && t@ == s@),
            },
    {
        if str_eq_chars(s, "read") {
            Ok(RelayMetadata::Read)
        } else if str_eq_chars(s, "write") {
            Ok(RelayMetadata::Write)
        } else {
            Err(RelayMetaError::InvalidRelayMetadata(String::from_str(s)))
        }
    }
}

} // verus!
