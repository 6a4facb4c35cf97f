//! Bech32 text encoding (NIP-19): the outside encoder and decoder behind
//! trusted wrappers, and the registry of Nostr prefixes.
use vstd::prelude::*;
use crate::basecore::ParseError;

verus! {

/// TLV type code of the primary payload.
pub const SPECIAL: u8 = 0;

/// TLV type code of a relay entry; may repeat.
pub const RELAY: u8 = 1;

/// TLV type code of the author key.
pub const AUTHOR: u8 = 2;

/// TLV type code of the event kind, carried as four big-endian bytes.
pub const KIND: u8 = 3;

/// The bech32 rendering of a prefix and payload; a function of the two alone.
pub uninterp spec fn bech32_encoding(hrp: Seq<char>, data: Seq<u8>) -> Seq<char>;

/// What the bech32 decoder returns on a string: the prefix (lowercased) and
/// the payload, or nothing; a function of the string alone.
pub uninterp spec fn bech32_decoding(s: Seq<char>) -> Option<(Seq<char>, Seq<u8>)>;

/// True for prefixes the bech32 encoder accepts and returns in this form:
/// one to 83 printable ASCII characters, none of them uppercase.
pub open spec fn valid_hrp(h: Seq<char>) -> bool {
    &&& 1 <= h.len() <= 83
    &&& forall|i: int|
        0 <= i < h.len() ==> 33 <= (#[trigger] h[i]) as u32 <= 126 && !('A' <= h[i] <= 'Z')
}

/// True when a prefix and payload of these lengths stay within the 1023
/// characters the bech32 code length allows.
pub open spec fn bech32_fits(hrp_len: int, data_len: int) -> bool {
    hrp_len + 7 + (data_len * 8 + 4) / 5 <= 1023
}

/// True when no character of the text is a colon.
pub open spec fn no_colon(s: Seq<char>) -> bool {
    forall|i: int| 0 <= i < s.len() ==> (#[trigger] s[i]) != ':'
}

/// Relies on bech32::encode with the Bech32 checksum, after Hrp::parse on the
/// prefix: the output is a function of prefix and payload alone, and encoding
/// fails exactly when it would leave the 1023-character code length. The
/// output is the prefix, the `1` separator, and data and checksum characters
/// from the bech32 alphabet, which holds no colon: with a colon-free prefix
/// the whole output is colon-free.
#[verifier::external_body]
fn bech32_encode_raw(hrp: &str, data: &[u8]) -> (r: Option<String>)
    requires
        valid_hrp(hrp@),
    ensures
        match r {
            Some(s) => bech32_fits(hrp@.len() as int, data@.len() as int) && s@ == bech32_encoding(
                hrp@,
                data@,
            ) && (no_colon(hrp@) ==> no_colon(s@)),
            None => !bech32_fits(hrp@.len() as int, data@.len() as int),
        },
{
    let h = match bech32::Hrp::parse(hrp) {
        Ok(h) => h,
        Err(_) => return None,
    };
    bech32::encode::<bech32::Bech32>(h, data).ok()
}

/// Relies on bech32::decode: its result is a function of the string alone, and
/// on the canonical encodings that bech32::encode produces it hands back
/// exactly the prefix and payload they were made from.
#[verifier::external_body]
fn bech32_decode_raw(s: &str) -> (r: Option<(String, Vec<u8>)>)
    ensures
        match r {
            Some(p) => bech32_decoding(s@) == Some((p.0@, p.1@)),
            None => bech32_decoding(s@) is None,
        },
        forall|h: Seq<char>, d: Seq<u8>|
            valid_hrp(h) && bech32_fits(h.len() as int, d.len() as int) && s@
                == #[trigger] bech32_encoding(h, d) ==> r is Some && (r->0).0@ == h && (r->0).1@
                == d,
{
    match bech32::decode(s) {
        Ok((hrp, data)) => Some((hrp.to_lowercase(), data)),
        Err(_) => None,
    }
}

/// Encode a payload under a prefix; report a payload too long to carry.
pub fn encode_bech32(hrp: &str, data: &Vec<u8>) -> (r: Result<String, ParseError>)
    requires
        valid_hrp(hrp@),
    ensures
        match r {
            Ok(s) => bech32_fits(hrp@.len() as int, data@.len() as int) && s@ == bech32_encoding(
                hrp@,
                data@,
            ) && (no_colon(hrp@) ==> no_colon(s@)),
            Err(e) => !bech32_fits(hrp@.len() as int, data@.len() as int) && e
                == ParseError::ToBech32,
        },
{
    match bech32_encode_raw(hrp, data.as_slice()) {
        Some(s) => Ok(s),
        None => Err(ParseError::ToBech32),
    }
}

/// Decode a bech32 string into its lowercased prefix and payload; report text
/// that is not bech32.
pub fn decode_bech32(s: &str) -> (r: Result<(String, Vec<u8>), ParseError>)
    ensures
        match r {
            Ok(p) => bech32_decoding(s@) == Some((p.0@, p.1@)),
            Err(e) => bech32_decoding(s@) is None && e == ParseError::Bech32,
        },
        forall|h: Seq<char>, d: Seq<u8>|
            valid_hrp(h) && bech32_fits(h.len() as int, d.len() as int) && s@
                == #[trigger] bech32_encoding(h, d) ==> r is Ok && (r->Ok_0).0@ == h && (
            r->Ok_0).1@ == d,
{
    match bech32_decode_raw(s) {
        Some(p) => Ok(p),
        None => Err(ParseError::Bech32),
    }
}

/// The Nostr entity kinds that bech32 prefixes name (NIP-19).
#[derive(Debug, Clone, Copy, PartialEq, Eq, Structural)]
pub enum NostrBech32Prefix {
    /// Secret key, `nsec`.
    NSec,
    /// Public key, `npub`.
    NPub,
    /// Event id, `note`.
    Note,
    /// Profile, `nprofile`.
    NProfile,
    /// Shared event, `nevent`.
    NEvent,
    /// Coordinate, `naddr`.
    NAddr,
    /// Relay, `nrelay`.
    NRelay,
}

/// The prefix registry as a mapping from prefix text to entity kind.
pub open spec fn prefix_of_chars(s: Seq<char>) -> Option<NostrBech32Prefix> {
    if s == "nsec"@ {
        Some(NostrBech32Prefix::NSec)
    } else if s == "npub"@ {
        Some(NostrBech32Prefix::NPub)
    } else if s == "note"@ {
        Some(NostrBech32Prefix::Note)
    } else if s == "nprofile"@ {
        Some(NostrBech32Prefix::NProfile)
    } else if s == "nevent"@ {
        Some(NostrBech32Prefix::NEvent)
    } else if s == "naddr"@ {
        Some(NostrBech32Prefix::NAddr)
    } else if s == "nrelay"@ {
        Some(NostrBech32Prefix::NRelay)
    } else {
        None
    }
}

impl NostrBech32Prefix {
    /// Look a prefix up in the registry; reject the rest.
    pub fn from_hrp(value: &str) -> (r: Result<NostrBech32Prefix, ParseError>)
        ensures
            match r {
                Ok(p) => prefix_of_chars(value@) == Some(p),
                Err(e) => prefix_of_chars(value@) is None && e
                    == ParseError::WrongBech32PrefixOrVariant,
            },
    {
        if str_eq_chars(value, "nsec") {
            Ok(NostrBech32Prefix::NSec)
        } else if str_eq_chars(value, "npub") {
            Ok(NostrBech32Prefix::NPub)
        } else if str_eq_chars(value, "note") {
            Ok(NostrBech32Prefix::Note)
        } else if str_eq_chars(value, "nprofile") {
            Ok(NostrBech32Prefix::NProfile)
        } else if str_eq_chars(value, "nevent") {
            Ok(NostrBech32Prefix::NEvent)
        } else if str_eq_chars(value, "naddr") {
            Ok(NostrBech32Prefix::NAddr)
        } else if str_eq_chars(value, "nrelay") {
            Ok(NostrBech32Prefix::NRelay)
        } else {
            Err(ParseError::WrongBech32PrefixOrVariant)
        }
    }

    /// Look a prefix up in the registry; reject the rest.
    pub fn parse_str(value: &str) -> (r: Result<NostrBech32Prefix, ParseError>)
        ensures
            match r {
                Ok(p) => prefix_of_chars(value@) == Some(p),
                Err(e) => prefix_of_chars(value@) is None && e
                    == ParseError::WrongBech32PrefixOrVariant,
            },
    {
        Self::from_hrp(value)
    }
}

/// Compare a string against another for equal characters.
pub fn str_eq_chars(a: &str, b: &str) -> (r: bool)
    ensures
        r == (a@ == b@),
{
    let ab = a.as_bytes();
    let bb = b.as_bytes();
    proof {
        vstd::utf8::encode_utf8_decode_utf8(a@);
        vstd::utf8::encode_utf8_decode_utf8(b@);
    }
    if ab.len() != bb.len() {
        return false;
    }
    let n = ab.len();
    let mut i: usize = 0;
    while i < n
        invariant
            n == ab@.len() == bb@.len(),
            i <= n,
            ab@ == vstd::utf8::encode_utf8(a@),
            bb@ == vstd::utf8::encode_utf8(b@),
            forall|j: int| 0 <= j < i ==> ab@[j] == bb@[j],
        decreases n - i,
    {
        if ab[i] != bb[i] {
            proof {
                assert(ab@ != bb@);
            }
            return false;
        }
        i += 1;
    }
    proof {
        assert(ab@ =~= bb@);
        assert(vstd::utf8::decode_utf8(ab@) == a@);
        assert(vstd::utf8::decode_utf8(bb@) == b@);
    }
    true
}

} // verus!
