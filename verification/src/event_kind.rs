//! Event kind: a 16-bit number naming the shape of an event.
use vstd::prelude::*;
use crate::basecore::ParseError;
use crate::decutil::{parse_dec_u16, dec_parseable, dec_parsed, dec_chars_of, u64_to_dec_bytes};
use crate::strutil::{ascii_chars_of, ascii_to_string};

verus! {

/// Event kind (NIP-01), held as its 16-bit wire value.
#[derive(Debug, Clone, Copy, PartialEq, Eq, Structural, Hash)]
pub struct Kind(pub u16);

impl Kind {
    /// Wrap a raw 16-bit kind value.
    pub fn from_u16(value: u16) -> (r: Kind)
        ensures
            r.0 == value,
    {
        Kind(value)
    }

    /// The raw 16-bit kind value.
    pub fn as_u16(&self) -> (r: u16)
        ensures
            r == self.0,
    {
        self.0
    }

    /// The kind widened to the 32-bit form that TLV records carry.
    pub fn as_u32(&self) -> (r: u32)
        ensures
            r == self.0 as u32,
    {
        self.0 as u32
    }

    /// Parse a kind from its decimal rendering; reject text that is not a
    /// decimal number within 16 bits.
    pub fn parse_str(s: &str) -> (r: Result<Kind, ParseError>)
        ensures
            match r {
                Ok(k) => dec_parseable(s@, u16::MAX as int) && k.0 == dec_parsed(s@),
                Err(e) => !dec_parseable(s@, u16::MAX as int) && e == ParseError::ParseInt,
            },
    {
        match parse_dec_u16(s) {
            Some(v) => Ok(Kind(v)),
            None => Err(ParseError::ParseInt),
        }
    }

    /// The decimal rendering of the kind.
    pub fn to_dec_string(&self) -> (r: String)
        ensures
            r@ =~= dec_chars_of(self.0 as nat),
    {
        let bytes = u64_to_dec_bytes(self.0 as u64);
        ascii_to_string(bytes)
    }
}

} // verus!
