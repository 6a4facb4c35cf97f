//! Event id: the 32-byte SHA-256 of the canonical event preimage (NIP-01),
//! with its hex and proof-of-work views.
use vstd::prelude::*;
use vstd::utf8::encode_utf8;
use crate::basecore::ParseError;
use crate::event_error::EventIdError;
use crate::event_kind::Kind;
use crate::hexutil::{hex_of, hex_bytes_of, is_hex_str, bytes_to_hex, hex_to_bytes, lemma_hex_of_shape};
use crate::jsonfmt::{
    json_string_bytes, string_list_json, join_comma, lemma_join_comma_snoc, append_json_string_str,
    append_string_list_json,
};
use crate::nostrpow::{leading_zero_bits, get_leading_zero_bits};
use crate::nostrbech32::{
    bech32_decoding, bech32_encoding, decode_bech32, encode_bech32, str_eq_chars,
};
use crate::signing::{NostrPubKey, lemma_nostr_hrps_valid};
use crate::strutil::{
    ascii_bytes_of, ascii_chars_of, lemma_ascii_chars_to_bytes, lemma_ascii_bytes_chars_inverse,
};
use crate::tagdata::TagData;
use crate::time::Timestamp;
use crate::encryption::{sha256, sha256_of};
use crate::decutil::{dec_chars_of, u64_to_dec_bytes};

verus! {

/// The token byte strings of one tag: the UTF-8 bytes of each token.
pub open spec fn tag_tokens_bytes(tok: Seq<Seq<char>>) -> Seq<Seq<u8>> {
    Seq::new(tok.len(), |j: int| encode_utf8(tok[j]))
}

/// The token byte strings of a tag list.
pub open spec fn tags_bytes_view(tags: Seq<TagData>) -> Seq<Seq<Seq<u8>>> {
    Seq::new(tags.len(), |i: int| tag_tokens_bytes(tags[i]@))
}

/// The canonical hash preimage of an event (NIP-01): the UTF-8 bytes of the
/// JSON array `[0,<pubkey hex>,<created_at>,<kind>,<tags>,<content>]`, with
/// the author key as a lowercase-hex string, the numbers in plain decimal,
/// and the tags as an array of arrays of strings.
pub open spec fn event_preimage(
    pk: Seq<u8>,
    created_at: u64,
    kind: u16,
    tags: Seq<Seq<Seq<u8>>>,
    content: Seq<u8>,
) -> Seq<u8> {
    seq![91u8, 48u8, 44u8] + json_string_bytes(ascii_bytes_of(hex_of(pk))) + seq![44u8]
        + ascii_bytes_of(dec_chars_of(created_at as nat)) + seq![44u8] + ascii_bytes_of(
        dec_chars_of(kind as nat),
    ) + seq![44u8, 91u8] + join_comma(Seq::new(tags.len(), |i: int| string_list_json(tags[i])))
        + seq![93u8, 44u8] + json_string_bytes(content) + seq![93u8]
}

/// True when the string is the 64-digit hex rendering of an event id.
pub open spec fn event_id_hex_ok(s: Seq<char>) -> bool {
    is_hex_str(s) && hex_bytes_of(s).len() == EVENT_ID_SIZE
}

/// The 32-byte payload of a `note` bech32 string, if the string decodes to
/// that prefix with a payload of that width.
pub open spec fn event_id_bech32_payload(s: Seq<char>) -> Option<Seq<u8>> {
    match bech32_decoding(s) {
        Some(p) => if p.0 == "note"@ && p.1.len() == EVENT_ID_SIZE {
            Some(p.1)
        } else {
            None
        },
        None => None,
    }
}

/// Byte width of an event id.
pub const EVENT_ID_SIZE: usize = 32;

/// A 32-byte event identifier.
#[derive(Debug, Hash)]
pub struct EventId {
    bytes: Vec<u8>,
}

impl Clone for EventId {
    fn clone(&self) -> (r: EventId)
        ensures
            r@ == self@,
    {
        proof {
            use_type_invariant(self);
        }
        EventId { bytes: self.bytes.clone() }
    }
}

impl View for EventId {
    type V = Seq<u8>;

    closed spec fn view(&self) -> Seq<u8> {
        self.bytes@
    }
}

impl EventId {
    /// The id is always exactly 32 bytes.
    #[verifier::type_invariant]
    closed spec fn type_inv(self) -> bool {
        self.bytes@.len() == EVENT_ID_SIZE
    }

    /// Derive the id of an event: the SHA-256 of the canonical preimage built
    /// from author key, creation time, kind, tags and content.
    pub fn new(
        public_key: &NostrPubKey,
        created_at: &Timestamp,
        kind: &Kind,
        tags: &[TagData],
        content: &str,
    ) -> (r: EventId)
        ensures
            r@ == sha256_of(
                event_preimage(
                    public_key@,
                    created_at.0,
                    kind.0,
                    tags_bytes_view(tags@),
                    encode_utf8(content@),
                ),
            ),
    {
        let ghost tb = tags_bytes_view(tags@);
        let ghost parts = Seq::new(tb.len(), |i: int| string_list_json(tb[i]));
        let mut out: Vec<u8> = Vec::new();
        out.push(91);
        out.push(48);
        out.push(44);
        let pk_hex = bytes_to_hex(public_key.as_bytes().as_slice());
        append_json_string_str(&mut out, pk_hex.as_str());
        proof {
            lemma_hex_of_shape(public_key@);
            lemma_ascii_chars_to_bytes(hex_of(public_key@));
        }
        out.push(44);
        let mut ca = u64_to_dec_bytes(created_at.as_u64());
        proof {
            lemma_ascii_bytes_chars_inverse(ca@);
        }
        out.append(&mut ca);
        out.push(44);
        let mut kd = u64_to_dec_bytes(kind.as_u16() as u64);
        proof {
            lemma_ascii_bytes_chars_inverse(kd@);
        }
        out.append(&mut kd);
        out.push(44);
        out.push(91);
        let ghost mid = out@;
        let n = tags.len();
        let mut i: usize = 0;
        proof {
            assert(join_comma(parts.take(0)) =~= Seq::<u8>::empty());
        }
        while i < n
            invariant
                n == tags@.len(),
                i <= n,
                tb == tags_bytes_view(tags@),
                parts == Seq::new(tb.len(), |j: int| string_list_json(tb[j])),
                tb.len() == n,
                mid.len() > 0,
                out@ =~= mid + join_comma(parts.take(i as int)),
            decreases n - i,
        {
            if i > 0 {
                out.push(44);
            }
            let tv = tags[i].as_vec();
            append_string_list_json(&mut out, tv);
            proof {
                let items = Seq::new(tv.deep_view().len(), |j: int| encode_utf8(tv.deep_view()[j]));
                assert(items =~= tag_tokens_bytes(tags@[i as int]@));
                let cur = parts.take(i + 1);
                assert(cur.drop_last() =~= parts.take(i as int));
                assert(cur.last() == parts[i as int]);
                lemma_join_comma_snoc(cur);
            }
            i += 1;
        }
        proof {
            assert(parts.take(n as int) =~= parts);
        }
        out.push(93);
        out.push(44);
        append_json_string_str(&mut out, content);
        out.push(93);
        proof {
            assert(out@ =~= event_preimage(
                public_key@,
                created_at.0,
                kind.0,
                tags_bytes_view(tags@),
                encode_utf8(content@),
            ));
        }
        let digest = sha256(out.as_slice());
        EventId { bytes: digest }
    }

    /// Wrap an owned 32-byte buffer as an id.
    pub fn owned(bytes: Vec<u8>) -> (r: EventId)
        requires
            bytes@.len() == EVENT_ID_SIZE,
        ensures
            r@ == bytes@,
    {
        EventId { bytes }
    }

    /// Read an id out of a byte slice; reject any length but 32.
    pub fn from_slice(slice: &[u8]) -> (r: Result<EventId, EventIdError>)
        ensures
            match r {
                Ok(id) => slice@.len() == EVENT_ID_SIZE && id@ == slice@,
                Err(e) => slice@.len() != EVENT_ID_SIZE && e == EventIdError::Parse(
                    ParseError::TryFromSlice,
                ),
            },
    {
        if slice.len() != EVENT_ID_SIZE {
            return Err(EventIdError::Parse(ParseError::TryFromSlice));
        }
        let mut bytes: Vec<u8> = Vec::new();
        let mut i: usize = 0;
        while i < EVENT_ID_SIZE
            invariant
                slice@.len() == EVENT_ID_SIZE,
                i <= EVENT_ID_SIZE,
                bytes@ =~= slice@.take(i as int),
            decreases EVENT_ID_SIZE - i,
        {
            bytes.push(slice[i]);
            i += 1;
        }
        proof {
            assert(slice@.take(EVENT_ID_SIZE as int) =~= slice@);
        }
        Ok(EventId { bytes })
    }

    /// Parse an id from its 64-digit hex rendering; reject anything else.
    pub fn from_hex(s: &str) -> (r: Result<EventId, EventIdError>)
        ensures
            match r {
                Ok(id) => is_hex_str(s@) && hex_bytes_of(s@).len() == EVENT_ID_SIZE && id@
                    == hex_bytes_of(s@),
                Err(e) => !(is_hex_str(s@) && hex_bytes_of(s@).len() == EVENT_ID_SIZE) && e
                    == EventIdError::InvalidEventId,
            },
    {
        match hex_to_bytes(s) {
            Some(bytes) => {
                if bytes.len() != EVENT_ID_SIZE {
                    return Err(EventIdError::InvalidEventId);
                }
                Ok(EventId { bytes })
            },
            None => Err(EventIdError::InvalidEventId),
        }
    }

    /// The all-zero id.
    pub fn all_zeros() -> (r: EventId)
        ensures
            r@ =~= Seq::new(EVENT_ID_SIZE as nat, |i: int| 0u8),
    {
        let mut bytes: Vec<u8> = Vec::new();
        let mut i: usize = 0;
        while i < EVENT_ID_SIZE
            invariant
                i <= EVENT_ID_SIZE,
                bytes@.len() == i,
                forall|j: int| 0 <= j < i ==> bytes@[j] == 0,
            decreases EVENT_ID_SIZE - i,
        {
            bytes.push(0);
            i += 1;
        }
        EventId { bytes }
    }

    /// Borrow the 32 id bytes.
    pub fn as_bytes(&self) -> (r: &Vec<u8>)
        ensures
            r@ == self@,
            r@.len() == EVENT_ID_SIZE,
    {
        proof {
            use_type_invariant(self);
        }
        &self.bytes
    }

    /// Consume the id and keep its bytes.
    pub fn to_bytes(self) -> (r: Vec<u8>)
        ensures
            r@ == self@,
            r@.len() == EVENT_ID_SIZE,
    {
        proof {
            use_type_invariant(&self);
        }
        self.bytes
    }

    /// The lowercase hex rendering of the id.
    pub fn to_hex(&self) -> (r: String)
        ensures
            r@ =~= hex_of(self@),
    {
        bytes_to_hex(self.bytes.as_slice())
    }

    /// Whether the id clears the given proof-of-work difficulty: at least
    /// `difficulty` leading zero bits (NIP-13).
    pub fn check_pow(&self, difficulty: u8) -> (r: bool)
        ensures
            r == (leading_zero_bits(self@) >= difficulty),
    {
        proof {
            use_type_invariant(self);
        }
        let z = get_leading_zero_bits(self.bytes.as_slice());
        z >= difficulty as u32
    }

    /// The id's `note` bech32 rendering; 32 bytes always fit, so this never
    /// fails.
    pub fn to_bech32(&self) -> (r: Result<String, EventIdError>)
        ensures
            match r {
                Ok(s) => s@ == bech32_encoding("note"@, self@) && crate::nostrbech32::no_colon(s@),
                Err(_) => false,
            },
    {
        proof {
            use_type_invariant(self);
            lemma_nostr_hrps_valid();
            reveal_strlit("note");
        }
        match encode_bech32("note", &self.bytes) {
            Ok(s) => Ok(s),
            Err(_) => {
                proof {
                    assert(false);
                }
                Err(EventIdError::Parse(ParseError::ToBech32))
            },
        }
    }

    /// Parse an id from its `note` bech32 rendering; reject other text, other
    /// prefixes, and payloads of the wrong width, each with its own error.
    pub fn from_bech32(s: &str) -> (r: Result<EventId, EventIdError>)
        ensures
            match r {
                Ok(id) => event_id_bech32_payload(s@) == Some(id@),
                Err(e) => match bech32_decoding(s@) {
                    None => e == EventIdError::Parse(ParseError::Bech32),
                    Some(p) => if p.0 != "note"@ {
                        e == EventIdError::Parse(ParseError::WrongBech32PrefixOrVariant)
                    } else {
                        p.1.len() != EVENT_ID_SIZE && e == EventIdError::Parse(
                            ParseError::TryFromSlice,
                        )
                    },
                },
            },
    {
        match decode_bech32(s) {
            Ok((hrp, data)) => {
                if str_eq_chars(hrp.as_str(), "note") {
                    match Self::from_slice(data.as_slice()) {
                        Ok(id) => Ok(id),
                        Err(e) => Err(e),
                    }
                } else {
                    Err(EventIdError::Parse(ParseError::WrongBech32PrefixOrVariant))
                }
            },
            Err(e) => Err(EventIdError::Parse(e)),
        }
    }

    /// Read an id out of a decoded bech32 payload.
    pub fn from_bech32_data(srcdata: &[u8]) -> (r: Result<EventId, EventIdError>)
        ensures
            match r {
                Ok(id) => srcdata@.len() == EVENT_ID_SIZE && id@ == srcdata@,
                Err(e) => srcdata@.len() != EVENT_ID_SIZE && e == EventIdError::Parse(
                    ParseError::TryFromSlice,
                ),
            },
    {
        Self::from_slice(srcdata)
    }

    /// Parse an id from hex first, then from bech32; reject text that is
    /// neither.
    pub fn parse(id: &str) -> (r: Result<EventId, EventIdError>)
        ensures
            match r {
                Ok(v) => if event_id_hex_ok(id@) {
                    v@ == hex_bytes_of(id@)
                } else {
                    event_id_bech32_payload(id@) == Some(v@)
                },
                Err(e) => !event_id_hex_ok(id@) && event_id_bech32_payload(id@) is None && e
                    == EventIdError::InvalidEventId,
            },
    {
        match Self::from_hex(id) {
            Ok(v) => Ok(v),
            Err(_) => match Self::from_bech32(id) {
                Ok(v) => Ok(v),
                Err(_) => Err(EventIdError::InvalidEventId),
            },
        }
    }

    /// Compare two ids by their bytes.
    pub fn eq_id(&self, other: &EventId) -> (r: bool)
        ensures
            r == (self@ =~= other@),
    {
        proof {
            use_type_invariant(self);
            use_type_invariant(other);
        }
        let n = self.bytes.len();
        let mut i: usize = 0;
        while i < n
            invariant
                n == self@.len() == other@.len(),
                i <= n,
                forall|j: int| 0 <= j < i ==> self@[j] == other@[j],
            decreases n - i,
        {
            if self.bytes[i] != other.bytes[i] {
                return false;
            }
            i += 1;
        }
        true
    }
}

impl PartialEq for EventId {
    fn eq(&self, other: &EventId) -> (r: bool) {
        self.eq_id(other)
    }
}

impl vstd::std_specs::cmp::PartialEqSpecImpl for EventId {
    open spec fn obeys_eq_spec() -> bool {
        true
    }

    open spec fn eq_spec(&self, other: &EventId) -> bool {
        self@ == other@
    }
}

impl Eq for EventId {

}

/// An id whose count of leading zero bits is `n` clears exactly the
/// difficulties up to `n`: `d <= n` clears, anything above fails.
pub proof fn lemma_pow_boundary(id: EventId, n: u8, d: u8)
    requires
        leading_zero_bits(id@) == n,
    ensures
        (leading_zero_bits(id@) >= d) <==> d <= n,
{
}

} // verus!
