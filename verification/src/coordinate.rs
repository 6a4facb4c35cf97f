//! A coordinate of a (parametrized) replaceable event (`a` tag, `naddr`):
//! kind, author key and `d`-tag identifier, with relays; its text and
//! bech32/TLV codecs.
use vstd::prelude::*;
use vstd::utf8::{
    encode_utf8, decode_utf8, valid_utf8, encode_utf8_valid_utf8, encode_utf8_decode_utf8,
};
use crate::basecore::{ParseError, MissingField, AsymmetricKeyError};
use crate::decutil::{dec_parseable, dec_parsed};
use crate::event_error::EventDataError;
use crate::event_id::EventId;
use crate::event_kind::Kind;
use crate::hexutil::hex_bytes_of;
use crate::nostrbech32::{
    SPECIAL, RELAY, AUTHOR, KIND, bech32_decoding, bech32_encoding, bech32_fits, decode_bech32,
    encode_bech32, str_eq_chars,
};
use crate::assymetric_secp256k1::{public_key_hex_ok, bech32_payload};
use crate::signing::{NostrPubKey, pubkey_bytes_ok, lemma_nostr_hrps_valid};
use crate::strutil::utf8_to_string;
use crate::tlv::{
    tlv_parse, tlv_records_bytes, tlv_records_wf, lemma_tlv_round_trip, lemma_tlv_records_snoc,
    recs_view, parse_tlv_records, append_tlv_record, be32_bytes, be32_value, be32_to_bytes,
    be32_from_bytes, lemma_be32_u16_round_trip,
};
use vstd::string::{StrSliceExecFns, StringExecFns};

verus! {

/// The fields read while scanning an `naddr` record list: identifier, key,
/// kind, relays.
pub type CoordScan = (Option<Seq<char>>, Option<Seq<u8>>, Option<u16>, Seq<Seq<char>>);

/// The records of a coordinate: identifier, author, kind, then one record per
/// relay.
pub open spec fn coordinate_records(
    kind: u16,
    pk: Seq<u8>,
    identifier: Seq<char>,
    relays: Seq<Seq<char>>,
) -> Seq<(u8, Seq<u8>)> {
    seq![
        (SPECIAL, encode_utf8(identifier)),
        (AUTHOR, pk),
        (KIND, be32_bytes(kind as u32)),
    ] + Seq::new(relays.len(), |i: int| (RELAY, encode_utf8(relays[i])))
}

/// The TLV payload of a coordinate.
pub open spec fn coordinate_tlv(
    kind: u16,
    pk: Seq<u8>,
    identifier: Seq<char>,
    relays: Seq<Seq<char>>,
) -> Seq<u8> {
    tlv_records_bytes(coordinate_records(kind, pk, identifier, relays))
}

/// True when a coordinate fits its encoding: the identifier and every relay
/// url fit the one TLV length byte, and the whole payload stays within the
/// bech32 code length under the five-character `naddr` prefix.
pub open spec fn coordinate_encodable(
    kind: u16,
    pk: Seq<u8>,
    identifier: Seq<char>,
    relays: Seq<Seq<char>>,
) -> bool {
    &&& encode_utf8(identifier).len() <= 255
    &&& forall|k: int| 0 <= k < relays.len() ==> encode_utf8(#[trigger] relays[k]).len() <= 255
    &&& bech32_fits(5, coordinate_tlv(kind, pk, identifier, relays).len() as int)
}

/// The state of a left-to-right scan over an `naddr` record list after `i`
/// records: first identifier, first author key (which must be valid), first
/// four-byte kind, relays accumulated, unknown types skipped; or the error
/// that stopped the scan.
pub open spec fn coord_scan(recs: Seq<(u8, Seq<u8>)>, i: int) -> Result<CoordScan, EventDataError>
    decreases i,
{
    if i <= 0 {
        Ok((None, None, None, Seq::empty()))
    } else {
        match coord_scan(recs, i - 1) {
            Err(e) => Err(e),
            Ok(st) => {
                let t = recs[i - 1].0;
                let p = recs[i - 1].1;
                if t == SPECIAL && st.0 is None {
                    if !valid_utf8(p) {
                        Err(EventDataError::Parse(ParseError::FromUTF8))
                    } else {
                        Ok((Some(decode_utf8(p)), st.1, st.2, st.3))
                    }
                } else if t == AUTHOR && st.1 is None {
                    if !pubkey_bytes_ok(p) {
                        Err(EventDataError::Keys(AsymmetricKeyError::InvalidPublicKey))
                    } else {
                        Ok((st.0, Some(p), st.2, st.3))
                    }
                } else if t == KIND && st.2 is None {
                    if p.len() != 4 {
                        Err(EventDataError::Parse(ParseError::TryFromSlice))
                    } else {
                        Ok((st.0, st.1, Some((be32_value(p) & 0xFFFF) as u16), st.3))
                    }
                } else if t == RELAY {
                    if !valid_utf8(p) {
                        Err(EventDataError::Parse(ParseError::FromUTF8))
                    } else {
                        Ok((st.0, st.1, st.2, st.3 + seq![decode_utf8(p)]))
                    }
                } else {
                    Ok(st)
                }
            },
        }
    }
}

/// The coordinate read out of an `naddr` TLV payload, or the error: framing,
/// key, width or UTF-8 trouble, or a missing field, checked in the order
/// kind, key, identifier.
pub open spec fn coordinate_from_tlv(data: Seq<u8>) -> Result<CoordScan, EventDataError> {
    match tlv_parse(data) {
        None => Err(EventDataError::Parse(ParseError::TLV)),
        Some(recs) => match coord_scan(recs, recs.len() as int) {
            Err(e) => Err(e),
            Ok(st) => if st.2 is None {
                Err(EventDataError::Parse(ParseError::FieldMissing(MissingField::Kind)))
            } else if st.1 is None {
                Err(EventDataError::Parse(ParseError::FieldMissing(MissingField::Pubkey)))
            } else if st.0 is None {
                Err(EventDataError::Parse(ParseError::FieldMissing(MissingField::Identifier)))
            } else {
                Ok(st)
            },
        },
    }
}

/// A scan that has failed stays failed over any more records.
proof fn lemma_coord_scan_err_persists(recs: Seq<(u8, Seq<u8>)>, i: int, j: int)
    requires
        0 <= i <= j,
        coord_scan(recs, i) is Err,
    ensures
        coord_scan(recs, j) == coord_scan(recs, i),
    decreases j - i,
{
    if j > i {
        lemma_coord_scan_err_persists(recs, i, j - 1);
    }
}

/// Scanning relay records after the fixed fields accumulates the relays in
/// order.
proof fn lemma_coord_scan_relays(
    recs: Seq<(u8, Seq<u8>)>,
    base: int,
    st0: CoordScan,
    relays: Seq<Seq<char>>,
    i: int,
)
    requires
        0 <= base,
        base + relays.len() <= recs.len(),
        coord_scan(recs, base) == Ok::<CoordScan, EventDataError>(st0),
        st0.0 is Some && st0.1 is Some && st0.2 is Some && st0.3 == Seq::<Seq<char>>::empty(),
        forall|k: int|
            0 <= k < relays.len() ==> recs[base + k] == (RELAY, encode_utf8(#[trigger] relays[k])),
        0 <= i <= relays.len(),
    ensures
        coord_scan(recs, base + i) == Ok::<CoordScan, EventDataError>(
            (st0.0, st0.1, st0.2, relays.take(i)),
        ),
    decreases i,
{
    if i == 0 {
        assert(relays.take(0) =~= Seq::<Seq<char>>::empty());
        assert((st0.0, st0.1, st0.2, relays.take(0)) == st0);
    } else {
        lemma_coord_scan_relays(recs, base, st0, relays, i - 1);
        assert(recs[base + (i - 1)] == (RELAY, encode_utf8(relays[i - 1])));
        encode_utf8_valid_utf8(relays[i - 1]);
        encode_utf8_decode_utf8(relays[i - 1]);
        assert(relays.take(i) =~= relays.take(i - 1) + seq![relays[i - 1]]);
    }
}

/// Decoding the TLV payload of a well-formed coordinate gives the coordinate
/// back.
pub proof fn lemma_coordinate_tlv_round_trip(
    kind: u16,
    pk: Seq<u8>,
    identifier: Seq<char>,
    relays: Seq<Seq<char>>,
)
    requires
        pubkey_bytes_ok(pk),
        encode_utf8(identifier).len() <= 255,
        forall|k: int| 0 <= k < relays.len() ==> encode_utf8(#[trigger] relays[k]).len() <= 255,
    ensures
        coordinate_from_tlv(coordinate_tlv(kind, pk, identifier, relays)) == Ok::<
            CoordScan,
            EventDataError,
        >((Some(identifier), Some(pk), Some(kind), relays)),
{
    let recs = coordinate_records(kind, pk, identifier, relays);
    assert(tlv_records_wf(recs)) by {
        assert forall|k: int| 0 <= k < recs.len() implies (#[trigger] recs[k]).1.len() <= 255 by {
            if k >= 3 {
                assert(recs[k] == (RELAY, encode_utf8(relays[k - 3])));
            }
        }
    }
    lemma_tlv_round_trip(recs);
    encode_utf8_valid_utf8(identifier);
    encode_utf8_decode_utf8(identifier);
    lemma_be32_u16_round_trip(kind);
    assert(coord_scan(recs, 0) == Ok::<CoordScan, EventDataError>(
        (None, None, None, Seq::empty()),
    ));
    assert(coord_scan(recs, 1) == Ok::<CoordScan, EventDataError>(
        (Some(identifier), None, None, Seq::empty()),
    ));
    assert(coord_scan(recs, 2) == Ok::<CoordScan, EventDataError>(
        (Some(identifier), Some(pk), None, Seq::empty()),
    ));
    assert(coord_scan(recs, 3) == Ok::<CoordScan, EventDataError>(
        (Some(identifier), Some(pk), Some(kind), Seq::empty()),
    ));
    assert forall|k: int|
        0 <= k < relays.len() implies recs[3 + k] == (RELAY, encode_utf8(
        #[trigger] relays[k],
    )) by {}
    lemma_coord_scan_relays(
        recs,
        3,
        (Some(identifier), Some(pk), Some(kind), Seq::empty()),
        relays,
        relays.len() as int,
    );
    assert(relays.take(relays.len() as int) =~= relays);
}

/// The first position of a character at or after `from`, or the length where
/// it never appears.
pub open spec fn find_char_from(s: Seq<char>, c: char, from: int) -> int
    decreases s.len() - from,
{
    if from < 0 || from >= s.len() {
        s.len() as int
    } else if s[from] == c {
        from
    } else {
        find_char_from(s, c, from + 1)
    }
}

/// The three leading colon-separated parts of a coordinate text, where at
/// least two colons appear: kind, key, and identifier (anything past a third
/// colon is dropped).
pub open spec fn kpi_split(s: Seq<char>) -> Option<(Seq<char>, Seq<char>, Seq<char>)> {
    let i1 = find_char_from(s, ':', 0);
    if i1 == s.len() {
        None
    } else {
        let i2 = find_char_from(s, ':', i1 + 1);
        if i2 == s.len() {
            None
        } else {
            let i3 = find_char_from(s, ':', i2 + 1);
            Some((s.take(i1), s.subrange(i1 + 1, i2), s.subrange(i2 + 1, i3)))
        }
    }
}

/// Find a character in a text, from a given position on.
pub fn find_char(s: &str, c: char, from: usize) -> (r: usize)
    requires
        from <= s@.len(),
    ensures
        r == find_char_from(s@, c, from as int),
        from <= r <= s@.len(),
        r < s@.len() ==> s@[r as int] == c,
    decreases s@.len() - from,
{
    let n = s.unicode_len();
    let mut i = from;
    while i < n
        invariant
            n == s@.len(),
            from <= i <= n,
            find_char_from(s@, c, from as int) == find_char_from(s@, c, i as int),
        decreases n - i,
    {
        if s.get_char(i) == c {
            return i;
        }
        i += 1;
    }
    n
}

/// A coordinate: kind, author key, `d`-tag identifier (empty for a plain
/// replaceable event) and relays.
#[derive(Debug, Clone, PartialEq, Eq)]
pub struct Coordinate {
    /// Kind.
    pub kind: Kind,
    /// Author key.
    pub public_key: NostrPubKey,
    /// `d` tag identifier; empty for a non-parametrized replaceable event.
    pub identifier: String,
    /// Relays.
    pub relays: Vec<String>,
}

impl Coordinate {
    /// A coordinate of a plain replaceable event: empty identifier, no
    /// relays.
    pub fn new(kind: Kind, public_key: NostrPubKey) -> (r: Coordinate)
        ensures
            r.kind == kind,
            r.public_key@ == public_key@,
            r.identifier@ == Seq::<char>::empty(),
            r.relays@ == Seq::<String>::empty(),
    {
        Coordinate { kind, public_key, identifier: String::new(), relays: Vec::new() }
    }

    /// Parse a coordinate from the `<kind>:<pubkey>:<d-tag>` text form;
    /// reject anything else.
    pub fn parse(coordinate: &str) -> (r: Result<Coordinate, EventDataError>)
        ensures
            match r {
                Ok(c) => match kpi_split(coordinate@) {
                    Some(parts) => {
                        &&& dec_parseable(parts.0, u16::MAX as int)
                        &&& c.kind.0 == dec_parsed(parts.0)
                        &&& pubkey_bytes_ok(c.public_key@)
                        &&& (if public_key_hex_ok(parts.1) {
                            c.public_key@ == hex_bytes_of(parts.1)
                        } else {
                            bech32_payload(parts.1, "npub"@) == Some(c.public_key@)
                        })
                        &&& c.identifier@ == parts.2
                        &&& c.relays@.len() == 0
                    },
                    None => false,
                },
                Err(e) => e == EventDataError::InvalidCoordinate && match kpi_split(coordinate@) {
                    Some(parts) => !dec_parseable(parts.0, u16::MAX as int) || (!public_key_hex_ok(
                        parts.1,
                    ) && match bech32_payload(parts.1, "npub"@) {
                        Some(d) => !pubkey_bytes_ok(d),
                        None => true,
                    }),
                    None => true,
                },
            },
    {
        match Self::from_kpi_format(coordinate) {
            Ok(c) => Ok(c),
            Err(_) => Err(EventDataError::InvalidCoordinate),
        }
    }

    /// Parse a coordinate from the `<kind>:<pubkey>:<d-tag>` text form: the
    /// kind in decimal, the key as hex or bech32, the identifier up to a
    /// third colon or the end; reject text without two colons, with a kind
    /// out of range, or with an unusable key.
    pub fn from_kpi_format(coordinate: &str) -> (r: Result<Coordinate, EventDataError>)
        ensures
            match r {
                Ok(c) => match kpi_split(coordinate@) {
                    Some(parts) => {
                        &&& dec_parseable(parts.0, u16::MAX as int)
                        &&& c.kind.0 == dec_parsed(parts.0)
                        &&& pubkey_bytes_ok(c.public_key@)
                        &&& (if public_key_hex_ok(parts.1) {
                            c.public_key@ == hex_bytes_of(parts.1)
                        } else {
                            bech32_payload(parts.1, "npub"@) == Some(c.public_key@)
                        })
                        &&& c.identifier@ == parts.2
                        &&& c.relays@.len() == 0
                    },
                    None => false,
                },
                Err(e) => match kpi_split(coordinate@) {
                    Some(parts) => if !dec_parseable(parts.0, u16::MAX as int) {
                        e == EventDataError::Parse(ParseError::ParseInt)
                    } else {
                        &&& e matches EventDataError::Keys(_)
                        &&& !public_key_hex_ok(parts.1)
                        &&& (match bech32_payload(parts.1, "npub"@) {
                            Some(d) => !pubkey_bytes_ok(d),
                            None => true,
                        })
                    },
                    None => e == EventDataError::InvalidCoordinate,
                },
            },
    {
        let n = coordinate.unicode_len();
        let i1 = find_char(coordinate, ':', 0);
        if i1 == n {
            return Err(EventDataError::InvalidCoordinate);
        }
        let i2 = find_char(coordinate, ':', i1 + 1);
        if i2 == n {
            return Err(EventDataError::InvalidCoordinate);
        }
        let i3 = find_char(coordinate, ':', i2 + 1);
        let kind_str = coordinate.substring_char(0, i1);
        let pk_str = coordinate.substring_char(i1 + 1, i2);
        let ident_str = coordinate.substring_char(i2 + 1, i3);
        let kind = match Kind::parse_str(kind_str) {
            Ok(k) => k,
            Err(_) => {
                return Err(EventDataError::Parse(ParseError::ParseInt));
            },
        };
        let public_key = match NostrPubKey::parse_str(pk_str) {
            Ok(k) => k,
            Err(e) => {
                return Err(EventDataError::Keys(e));
            },
        };
        Ok(
            Coordinate {
                kind,
                public_key,
                identifier: String::from_str(ident_str),
                relays: Vec::new(),
            },
        )
    }

    /// Replace the identifier, builder-style.
    pub fn identifier(self, identifier: String) -> (r: Coordinate)
        ensures
            r.kind == self.kind,
            r.public_key@ == self.public_key@,
            r.identifier@ == identifier@,
            r.relays@ == self.relays@,
    {
        Coordinate { identifier, ..self }
    }

    /// The coordinate's `naddr` bech32 rendering; fails exactly on an
    /// identifier or relay url that the one TLV length byte or the bech32
    /// code length cannot carry.
    pub fn to_bech32(&self) -> (r: Result<String, EventDataError>)
        ensures
            match r {
                Ok(s) => coordinate_encodable(
                    self.kind.0,
                    self.public_key@,
                    self.identifier@,
                    self.relays.deep_view(),
                ) && s@ == bech32_encoding(
                    "naddr"@,
                    coordinate_tlv(
                        self.kind.0,
                        self.public_key@,
                        self.identifier@,
                        self.relays.deep_view(),
                    ),
                ) && crate::nostrbech32::no_colon(s@),
                Err(e) => e == EventDataError::Parse(ParseError::ToBech32)
                    && !coordinate_encodable(
                    self.kind.0,
                    self.public_key@,
                    self.identifier@,
                    self.relays.deep_view(),
                ),
            },
    {
        proof {
            lemma_nostr_hrps_valid();
            reveal_strlit("naddr");
        }
        let ghost rl = self.relays.deep_view();
        let ghost recs = coordinate_records(self.kind.0, self.public_key@, self.identifier@, rl);
        let ident_bytes = self.identifier.as_str().as_bytes_vec();
        if ident_bytes.len() > 255 {
            return Err(EventDataError::Parse(ParseError::ToBech32));
        }
        let mut bytes: Vec<u8> = Vec::new();
        append_tlv_record(&mut bytes, SPECIAL, ident_bytes.as_slice());
        proof {
            let r0 = seq![(SPECIAL, encode_utf8(self.identifier@))];
            assert(r0.drop_first() =~= Seq::<(u8, Seq<u8>)>::empty());
            assert(tlv_records_bytes(r0.drop_first()) =~= Seq::<u8>::empty());
            assert(bytes@ =~= tlv_records_bytes(r0));
            assert(recs.take(1) =~= r0);
        }
        append_tlv_record(&mut bytes, AUTHOR, self.public_key.as_bytes().as_slice());
        proof {
            let cur = recs.take(2);
            assert(cur.drop_last() =~= recs.take(1));
            assert(cur.last() == recs[1]);
            assert(recs[1] == (AUTHOR, self.public_key@));
            lemma_tlv_records_snoc(cur);
        }
        let kb = be32_to_bytes(self.kind.as_u32());
        append_tlv_record(&mut bytes, KIND, kb.as_slice());
        proof {
            let cur = recs.take(3);
            assert(cur.drop_last() =~= recs.take(2));
            assert(cur.last() == recs[2]);
            assert(recs[2] == (KIND, be32_bytes(self.kind.0 as u32)));
            lemma_tlv_records_snoc(cur);
        }
        let n = self.relays.len();
        let mut i: usize = 0;
        while i < n
            invariant
                n == self.relays@.len(),
                i <= n,
                rl == self.relays.deep_view(),
                recs == coordinate_records(self.kind.0, self.public_key@, self.identifier@, rl),
                rl.len() == n,
                recs.len() == 3 + n,
                encode_utf8(self.identifier@).len() <= 255,
                forall|k: int| 0 <= k < i ==> encode_utf8(#[trigger] rl[k]).len() <= 255,
                bytes@ =~= tlv_records_bytes(recs.take(3 + i)),
            decreases n - i,
        {
            proof {
                assert(rl[i as int] == self.relays@[i as int]@);
            }
            let ub = self.relays[i].as_str().as_bytes_vec();
            if ub.len() > 255 {
                proof {
                    assert(encode_utf8(rl[i as int]).len() > 255);
                }
                return Err(EventDataError::Parse(ParseError::ToBech32));
            }
            append_tlv_record(&mut bytes, RELAY, ub.as_slice());
            proof {
                let cur = recs.take(3 + i + 1);
                assert(cur.drop_last() =~= recs.take(3 + i));
                assert(cur.last() == recs[3 + i]);
                assert(recs[3 + i] == (RELAY, encode_utf8(rl[i as int])));
                lemma_tlv_records_snoc(cur);
            }
            i += 1;
        }
        proof {
            assert(recs.take(3 + n) =~= recs);
        }
        match encode_bech32("naddr", &bytes) {
            Ok(s) => Ok(s),
            Err(_) => Err(EventDataError::Parse(ParseError::ToBech32)),
        }
    }

    /// Parse a coordinate from its `naddr` bech32 rendering.
    pub fn from_bech32(s: &str) -> (r: Result<Coordinate, EventDataError>)
        ensures
            match r {
                Ok(c) => match bech32_decoding(s@) {
                    Some(pr) => pr.0 == "naddr"@ && coordinate_from_tlv(pr.1) == Ok::<
                        CoordScan,
                        EventDataError,
                    >(
                        (
                            Some(c.identifier@),
                            Some(c.public_key@),
                            Some(c.kind.0),
                            c.relays.deep_view(),
                        ),
                    ),
                    None => false,
                },
                Err(e) => match bech32_decoding(s@) {
                    None => e == EventDataError::Parse(ParseError::Bech32),
                    Some(pr) => if pr.0 != "naddr"@ {
                        e == EventDataError::Parse(ParseError::WrongBech32PrefixOrVariant)
                    } else {
                        coordinate_from_tlv(pr.1) is Err && e == coordinate_from_tlv(pr.1)->Err_0
                    },
                },
            },
    {
        match decode_bech32(s) {
            Ok((hrp, data)) => {
                if str_eq_chars(hrp.as_str(), "naddr") {
                    Self::from_bech32_data(data.as_slice())
                } else {
                    Err(EventDataError::Parse(ParseError::WrongBech32PrefixOrVariant))
                }
            },
            Err(e) => Err(EventDataError::Parse(e)),
        }
    }

    /// Read a coordinate out of a decoded bech32 payload.
    pub fn from_bech32_data(srcdata: &[u8]) -> (r: Result<Coordinate, EventDataError>)
        ensures
            match r {
                Ok(c) => coordinate_from_tlv(srcdata@) == Ok::<CoordScan, EventDataError>(
                    (
                        Some(c.identifier@),
                        Some(c.public_key@),
                        Some(c.kind.0),
                        c.relays.deep_view(),
                    ),
                ),
                Err(e) => coordinate_from_tlv(srcdata@) is Err && e == coordinate_from_tlv(
                    srcdata@,
                )->Err_0,
            },
    {
        let recs = match parse_tlv_records(srcdata) {
            Some(recs) => recs,
            None => {
                return Err(EventDataError::Parse(ParseError::TLV));
            },
        };
        let ghost grecs = recs_view(recs@);
        let n = recs.len();
        let mut identifier: Option<String> = None;
        let mut pubkey: Option<NostrPubKey> = None;
        let mut kind: Option<Kind> = None;
        let mut relays: Vec<String> = Vec::new();
        let mut i: usize = 0;
        proof {
            assert(relays.deep_view() =~= Seq::<Seq<char>>::empty());
        }
        while i < n
            invariant
                n == recs@.len(),
                grecs == recs_view(recs@),
                grecs.len() == n,
                tlv_parse(srcdata@) == Some(grecs),
                i <= n,
                coord_scan(grecs, i as int) == Ok::<CoordScan, EventDataError>(
                    (
                        match identifier {
                            Some(s) => Some(s@),
                            None => None,
                        },
                        match pubkey {
                            Some(k) => Some(k@),
                            None => None,
                        },
                        match kind {
                            Some(k) => Some(k.0),
                            None => None,
                        },
                        relays.deep_view(),
                    ),
                ),
            decreases n - i,
        {
            proof {
                assert(grecs[i as int] == (recs@[i as int].0, recs@[i as int].1@));
            }
            let t = recs[i].0;
            if t == SPECIAL && identifier.is_none() {
                let payload = crate::strutil::bytes_of_slice(recs[i].1.as_slice());
                match utf8_to_string(payload) {
                    Some(text) => {
                        proof {
                            encode_utf8_decode_utf8(text@);
                        }
                        identifier = Some(text);
                    },
                    None => {
                        proof {
                            assert(coord_scan(grecs, i + 1) == Err::<CoordScan, EventDataError>(
                                EventDataError::Parse(ParseError::FromUTF8),
                            ));
                            lemma_coord_scan_err_persists(grecs, i + 1, grecs.len() as int);
                        }
                        return Err(EventDataError::Parse(ParseError::FromUTF8));
                    },
                }
            } else if t == AUTHOR && pubkey.is_none() {
                match NostrPubKey::try_from_slice(recs[i].1.as_slice()) {
                    Ok(k) => {
                        pubkey = Some(k);
                    },
                    Err(e) => {
                        proof {
                            assert(coord_scan(grecs, i + 1) == Err::<CoordScan, EventDataError>(
                                EventDataError::Keys(AsymmetricKeyError::InvalidPublicKey),
                            ));
                            lemma_coord_scan_err_persists(grecs, i + 1, grecs.len() as int);
                        }
                        return Err(EventDataError::Keys(e));
                    },
                }
            } else if t == KIND && kind.is_none() {
                if recs[i].1.len() != 4 {
                    proof {
                        assert(coord_scan(grecs, i + 1) == Err::<CoordScan, EventDataError>(
                            EventDataError::Parse(ParseError::TryFromSlice),
                        ));
                        lemma_coord_scan_err_persists(grecs, i + 1, grecs.len() as int);
                    }
                    return Err(EventDataError::Parse(ParseError::TryFromSlice));
                }
                let v = be32_from_bytes(recs[i].1.as_slice());
                kind = Some(Kind::from_u16((v & 0xFFFF) as u16));
            } else if t == RELAY {
                let payload = crate::strutil::bytes_of_slice(recs[i].1.as_slice());
                let text = match utf8_to_string(payload) {
                    Some(t) => t,
                    None => {
                        proof {
                            assert(coord_scan(grecs, i + 1) == Err::<CoordScan, EventDataError>(
                                EventDataError::Parse(ParseError::FromUTF8),
                            ));
                            lemma_coord_scan_err_persists(grecs, i + 1, grecs.len() as int);
                        }
                        return Err(EventDataError::Parse(ParseError::FromUTF8));
                    },
                };
                proof {
                    encode_utf8_decode_utf8(text@);
                }
                let ghost prev = relays.deep_view();
                relays.push(text);
                proof {
                    assert(relays.deep_view() =~= prev + seq![decode_utf8(grecs[i as int].1)])
                        by {
                        assert(forall|k: int|
                            0 <= k < prev.len() ==> #[trigger] relays.deep_view()[k] == relays@[k]@
                                && prev[k] == relays@[k]@);
                        assert(relays.deep_view()[prev.len() as int] == relays@[prev.len() as int]@);
                    }
                }
            }
            i += 1;
        }
        let kind = match kind {
            Some(k) => k,
            None => {
                return Err(EventDataError::Parse(ParseError::FieldMissing(MissingField::Kind)));
            },
        };
        let public_key = match pubkey {
            Some(k) => k,
            None => {
                return Err(EventDataError::Parse(ParseError::FieldMissing(MissingField::Pubkey)));
            },
        };
        let identifier = match identifier {
            Some(s) => s,
            None => {
                return Err(
                    EventDataError::Parse(ParseError::FieldMissing(MissingField::Identifier)),
                );
            },
        };
        Ok(Coordinate { kind, public_key, identifier, relays })
    }
}

/// An event named either by its id or by its coordinate.
#[derive(Debug, Clone)]
pub enum EventIdOrCoordinate {
    /// An event id.
    Id(EventId),
    /// A coordinate (`a` tag).
    Coordinate(Coordinate),
}

impl EventIdOrCoordinate {
    /// Wrap an id.
    pub fn from_id(id: EventId) -> (r: EventIdOrCoordinate)
        ensures
            r matches EventIdOrCoordinate::Id(v) && v@ == id@,
    {
        EventIdOrCoordinate::Id(id)
    }

    /// Wrap a coordinate.
    pub fn from_coordinate(coordinate: Coordinate) -> (r: EventIdOrCoordinate)
        ensures
            r matches EventIdOrCoordinate::Coordinate(c) && c == coordinate,
    {
        EventIdOrCoordinate::Coordinate(coordinate)
    }
}

} // verus!
