//! A shareable event reference (`nevent`): the event id with optional author
//! and kind and any number of relays, and its bech32/TLV codec.
use vstd::prelude::*;
use vstd::utf8::{
    encode_utf8, decode_utf8, valid_utf8, encode_utf8_valid_utf8, encode_utf8_decode_utf8,
};
use crate::basecore::{ParseError, MissingField};
use crate::event_id::EventId;
use crate::event_kind::Kind;
use crate::nostrbech32::{
    SPECIAL, RELAY, AUTHOR, KIND, bech32_decoding, bech32_encoding, bech32_fits, decode_bech32,
    encode_bech32, str_eq_chars,
};
use crate::signing::{NostrPubKey, pubkey_bytes_ok, lemma_nostr_hrps_valid};
use crate::strutil::utf8_to_string;
use crate::tlv::{
    tlv_parse, tlv_records_bytes, tlv_records_wf, lemma_tlv_round_trip, lemma_tlv_records_snoc,
    recs_view, parse_tlv_records, append_tlv_record, be32_bytes, be32_value, be32_to_bytes,
    be32_from_bytes, lemma_be32_u16_round_trip,
};
use vstd::string::StrSliceExecFns;

verus! {

/// The fields read while scanning an `nevent` record list: id, author, kind,
/// relays.
pub type SharedScan = (Option<Seq<u8>>, Option<Seq<u8>>, Option<u16>, Seq<Seq<char>>);

/// The optional author and kind records of a shared event.
pub open spec fn shared_opt_records(author: Option<Seq<u8>>, kind: Option<u16>) -> Seq<
    (u8, Seq<u8>),
> {
    (match author {
        Some(a) => seq![(AUTHOR, a)],
        None => Seq::empty(),
    }) + (match kind {
        Some(k) => seq![(KIND, be32_bytes(k as u32))],
        None => Seq::empty(),
    })
}

/// The records of a shared event: the id, the optional author and kind, then
/// one record per relay.
pub open spec fn shared_event_records(
    id: Seq<u8>,
    author: Option<Seq<u8>>,
    kind: Option<u16>,
    relays: Seq<Seq<char>>,
) -> Seq<(u8, Seq<u8>)> {
    seq![(SPECIAL, id)] + shared_opt_records(author, kind) + Seq::new(
        relays.len(),
        |i: int| (RELAY, encode_utf8(relays[i])),
    )
}

/// The TLV payload of a shared event.
pub open spec fn shared_event_tlv(
    id: Seq<u8>,
    author: Option<Seq<u8>>,
    kind: Option<u16>,
    relays: Seq<Seq<char>>,
) -> Seq<u8> {
    tlv_records_bytes(shared_event_records(id, author, kind, relays))
}

/// True when a shared event fits its encoding: every relay url fits the one
/// TLV length byte, and the whole payload stays within the bech32 code length
/// under the six-character `nevent` prefix.
pub open spec fn shared_event_encodable(
    id: Seq<u8>,
    author: Option<Seq<u8>>,
    kind: Option<u16>,
    relays: Seq<Seq<char>>,
) -> bool {
    &&& forall|k: int| 0 <= k < relays.len() ==> encode_utf8(#[trigger] relays[k]).len() <= 255
    &&& bech32_fits(6, shared_event_tlv(id, author, kind, relays).len() as int)
}

/// The state of a left-to-right scan over an `nevent` record list after `i`
/// records. The first SPECIAL record must be a 32-byte id; the first AUTHOR
/// record is kept only when its bytes form a key, and dropped silently
/// otherwise; the first KIND record must be four bytes, read big-endian and
/// narrowed to 16 bits; relays accumulate; unknown types are skipped.
pub open spec fn shared_scan(recs: Seq<(u8, Seq<u8>)>, i: int) -> Result<SharedScan, ParseError>
    decreases i,
{
    if i <= 0 {
        Ok((None, None, None, Seq::empty()))
    } else {
        match shared_scan(recs, i - 1) {
            Err(e) => Err(e),
            Ok(st) => {
                let t = recs[i - 1].0;
                let p = recs[i - 1].1;
                if t == SPECIAL && st.0 is None {
                    if p.len() != 32 {
                        Err(ParseError::TryFromSlice)
                    } else {
                        Ok((Some(p), st.1, st.2, st.3))
                    }
                } else if t == AUTHOR && st.1 is None {
                    if pubkey_bytes_ok(p) {
                        Ok((st.0, Some(p), st.2, st.3))
                    } else {
                        Ok(st)
                    }
                } else if t == KIND && st.2 is None {
                    if p.len() != 4 {
                        Err(ParseError::TryFromSlice)
                    } else {
                        Ok((st.0, st.1, Some((be32_value(p) & 0xFFFF) as u16), st.3))
                    }
                } else if t == RELAY {
                    if !valid_utf8(p) {
                        Err(ParseError::FromUTF8)
                    } else {
                        Ok((st.0, st.1, st.2, st.3 + seq![decode_utf8(p)]))
                    }
                } else {
                    Ok(st)
                }
            },
        }
    }
}

/// The shared event read out of an `nevent` TLV payload, or the error:
/// framing, width, UTF-8 trouble, or a missing id field.
pub open spec fn shared_event_from_tlv(data: Seq<u8>) -> Result<SharedScan, ParseError> {
    match tlv_parse(data) {
        None => Err(ParseError::TLV),
        Some(recs) => match shared_scan(recs, recs.len() as int) {
            Err(e) => Err(e),
            Ok(st) => if st.0 is Some {
                Ok(st)
            } else {
                Err(ParseError::FieldMissing(MissingField::EventId))
            },
        },
    }
}

/// A scan that has failed stays failed over any more records.
proof fn lemma_shared_scan_err_persists(recs: Seq<(u8, Seq<u8>)>, i: int, j: int)
    requires
        0 <= i <= j,
        shared_scan(recs, i) is Err,
    ensures
        shared_scan(recs, j) == shared_scan(recs, i),
    decreases j - i,
{
    if j > i {
        lemma_shared_scan_err_persists(recs, i, j - 1);
    }
}

/// Scanning relay records after the fixed fields accumulates the relays in
/// order.
proof fn lemma_shared_scan_relays(
    recs: Seq<(u8, Seq<u8>)>,
    base: int,
    id: Seq<u8>,
    author: Option<Seq<u8>>,
    kind: Option<u16>,
    relays: Seq<Seq<char>>,
    i: int,
)
    requires
        0 <= base,
        base + relays.len() <= recs.len(),
        shared_scan(recs, base) == Ok::<SharedScan, ParseError>(
            (Some(id), author, kind, Seq::empty()),
        ),
        forall|k: int|
            0 <= k < relays.len() ==> recs[base + k] == (RELAY, encode_utf8(#[trigger] relays[k])),
        0 <= i <= relays.len(),
    ensures
        shared_scan(recs, base + i) == Ok::<SharedScan, ParseError>(
            (Some(id), author, kind, relays.take(i)),
        ),
    decreases i,
{
    if i == 0 {
        assert(relays.take(0) =~= Seq::<Seq<char>>::empty());
    } else {
        lemma_shared_scan_relays(recs, base, id, author, kind, relays, i - 1);
        assert(recs[base + (i - 1)] == (RELAY, encode_utf8(relays[i - 1])));
        encode_utf8_valid_utf8(relays[i - 1]);
        encode_utf8_decode_utf8(relays[i - 1]);
        assert(relays.take(i) =~= relays.take(i - 1) + seq![relays[i - 1]]);
    }
}

/// Decoding the TLV payload of a well-formed shared event gives the event
/// back, optional fields in either state.
pub proof fn lemma_shared_event_tlv_round_trip(
    id: Seq<u8>,
    author: Option<Seq<u8>>,
    kind: Option<u16>,
    relays: Seq<Seq<char>>,
)
    requires
        id.len() == 32,
        author matches Some(a) ==> pubkey_bytes_ok(a),
        forall|k: int| 0 <= k < relays.len() ==> encode_utf8(#[trigger] relays[k]).len() <= 255,
    ensures
        shared_event_from_tlv(shared_event_tlv(id, author, kind, relays)) == Ok::<
            SharedScan,
            ParseError,
        >((Some(id), author, kind, relays)),
{
    let recs = shared_event_records(id, author, kind, relays);
    let base = 1 + shared_opt_records(author, kind).len() as int;
    assert(tlv_records_wf(recs)) by {
        assert forall|k: int| 0 <= k < recs.len() implies (#[trigger] recs[k]).1.len() <= 255 by {
            if k >= base {
                assert(recs[k] == (RELAY, encode_utf8(relays[k - base])));
            } else if k == 0 {
                assert(recs[0] == (SPECIAL, id));
            } else {
                if author is Some && k == 1 {
                    assert(recs[k] == (AUTHOR, author->0));
                } else {
                    assert(recs[k] == (KIND, be32_bytes(kind->0 as u32)));
                }
            }
        }
    }
    lemma_tlv_round_trip(recs);
    assert(recs[0] == (SPECIAL, id));
    assert(shared_scan(recs, 0) == Ok::<SharedScan, ParseError>(
        (None, None, None, Seq::empty()),
    ));
    assert(shared_scan(recs, 1) == Ok::<SharedScan, ParseError>(
        (Some(id), None, None, Seq::empty()),
    ));
    if author is Some {
        assert(recs[1] == (AUTHOR, author->0));
        assert(shared_scan(recs, 2) == Ok::<SharedScan, ParseError>(
            (Some(id), author, None, Seq::empty()),
        ));
        if kind is Some {
            assert(recs[2] == (KIND, be32_bytes(kind->0 as u32)));
            lemma_be32_u16_round_trip(kind->0);
            assert(shared_scan(recs, 3) == Ok::<SharedScan, ParseError>(
                (Some(id), author, kind, Seq::empty()),
            ));
        }
    } else {
        if kind is Some {
            assert(recs[1] == (KIND, be32_bytes(kind->0 as u32)));
            lemma_be32_u16_round_trip(kind->0);
            assert(shared_scan(recs, 2) == Ok::<SharedScan, ParseError>(
                (Some(id), author, kind, Seq::empty()),
            ));
        }
    }
    assert(shared_scan(recs, base) == Ok::<SharedScan, ParseError>(
        (Some(id), author, kind, Seq::empty()),
    ));
    assert forall|k: int|
        0 <= k < relays.len() implies recs[base + k] == (RELAY, encode_utf8(
        #[trigger] relays[k],
    )) by {}
    lemma_shared_scan_relays(recs, base, id, author, kind, relays, relays.len() as int);
    assert(relays.take(relays.len() as int) =~= relays);
}

/// A shareable event reference: id, optional author and kind, relays.
#[derive(Debug, Clone, PartialEq, Eq)]
pub struct SharedEvent {
    /// The event's id.
    pub event_id: EventId,
    /// The event's author, where the payload carried a valid key.
    pub author: Option<NostrPubKey>,
    /// The event's kind, where the payload carried one.
    pub kind: Option<Kind>,
    /// Relays the event can be found on.
    pub relays: Vec<String>,
}

/// The author field's byte view.
pub open spec fn author_view(a: Option<NostrPubKey>) -> Option<Seq<u8>> {
    match a {
        Some(k) => Some(k@),
        None => None,
    }
}

/// The kind field's numeric view.
pub open spec fn kind_view(k: Option<Kind>) -> Option<u16> {
    match k {
        Some(k) => Some(k.0),
        None => None,
    }
}

impl SharedEvent {
    /// Assemble a shared event from an id and relays, with no author or kind.
    pub fn new(event_id: EventId, relays: Vec<String>) -> (r: SharedEvent)
        ensures
            r.event_id@ == event_id@,
            r.author is None,
            r.kind is None,
            r.relays@ == relays@,
    {
        SharedEvent { event_id, author: None, kind: None, relays }
    }

    /// Add the author.
    pub fn author(self, author: NostrPubKey) -> (r: SharedEvent)
        ensures
            r.event_id@ == self.event_id@,
            author_view(r.author) == Some(author@),
            r.kind == self.kind,
            r.relays@ == self.relays@,
    {
        SharedEvent { author: Some(author), ..self }
    }

    /// Add the kind.
    pub fn kind(self, kind: Kind) -> (r: SharedEvent)
        ensures
            r.event_id@ == self.event_id@,
            r.author == self.author,
            r.kind == Some(kind),
            r.relays@ == self.relays@,
    {
        SharedEvent { kind: Some(kind), ..self }
    }

    /// The event's `nevent` bech32 rendering; fails exactly on a relay url
    /// that the one TLV length byte or the bech32 code length cannot carry.
    pub fn to_bech32(&self) -> (r: Result<String, ParseError>)
        ensures
            match r {
                Ok(s) => shared_event_encodable(
                    self.event_id@,
                    author_view(self.author),
                    kind_view(self.kind),
                    self.relays.deep_view(),
                ) && s@ == bech32_encoding(
                    "nevent"@,
                    shared_event_tlv(
                        self.event_id@,
                        author_view(self.author),
                        kind_view(self.kind),
                        self.relays.deep_view(),
                    ),
                ) && crate::nostrbech32::no_colon(s@),
                Err(e) => e == ParseError::ToBech32 && !shared_event_encodable(
                    self.event_id@,
                    author_view(self.author),
                    kind_view(self.kind),
                    self.relays.deep_view(),
                ),
            },
    {
        proof {
            lemma_nostr_hrps_valid();
            reveal_strlit("nevent");
        }
        let ghost rl = self.relays.deep_view();
        let ghost recs = shared_event_records(
            self.event_id@,
            author_view(self.author),
            kind_view(self.kind),
            rl,
        );
        let ghost base = 1 + shared_opt_records(
            author_view(self.author),
            kind_view(self.kind),
        ).len() as int;
        let mut bytes: Vec<u8> = Vec::new();
        append_tlv_record(&mut bytes, SPECIAL, self.event_id.as_bytes().as_slice());
        proof {
            let r0 = seq![(SPECIAL, self.event_id@)];
            assert(r0.drop_first() =~= Seq::<(u8, Seq<u8>)>::empty());
            assert(tlv_records_bytes(r0.drop_first()) =~= Seq::<u8>::empty());
            assert(bytes@ =~= tlv_records_bytes(r0));
            assert(recs.take(1) =~= r0);
        }
        match &self.author {
            Some(author) => {
                append_tlv_record(&mut bytes, AUTHOR, author.as_bytes().as_slice());
                proof {
                    let cur = recs.take(2);
                    assert(cur.drop_last() =~= recs.take(1));
                    assert(cur.last() == recs[1]);
                    assert(recs[1] == (AUTHOR, author@));
                    lemma_tlv_records_snoc(cur);
                    assert(bytes@ =~= tlv_records_bytes(recs.take(2)));
                }
            },
            None => {
            },
        }
        let ghost k_at = if self.author is Some {
            2int
        } else {
            1int
        };
        match &self.kind {
            Some(kind) => {
                let kb = be32_to_bytes(kind.as_u32());
                append_tlv_record(&mut bytes, KIND, kb.as_slice());
                proof {
                    let cur = recs.take(k_at + 1);
                    assert(cur.drop_last() =~= recs.take(k_at));
                    assert(cur.last() == recs[k_at]);
                    assert(recs[k_at] == (KIND, be32_bytes(kind.0 as u32)));
                    lemma_tlv_records_snoc(cur);
                    assert(bytes@ =~= tlv_records_bytes(recs.take(k_at + 1)));
                }
            },
            None => {
            },
        }
        proof {
            assert(bytes@ =~= tlv_records_bytes(recs.take(base)));
        }
        let n = self.relays.len();
        let mut i: usize = 0;
        while i < n
            invariant
                n == self.relays@.len(),
                i <= n,
                rl == self.relays.deep_view(),
                recs == shared_event_records(
                    self.event_id@,
                    author_view(self.author),
                    kind_view(self.kind),
                    rl,
                ),
                base == 1 + shared_opt_records(
                    author_view(self.author),
                    kind_view(self.kind),
                ).len() as int,
                rl.len() == n,
                recs.len() == base + n,
                forall|k: int| 0 <= k < i ==> encode_utf8(#[trigger] rl[k]).len() <= 255,
                bytes@ =~= tlv_records_bytes(recs.take(base + i)),
            decreases n - i,
        {
            proof {
                assert(rl[i as int] == self.relays@[i as int]@);
            }
            let ub = self.relays[i].as_str().as_bytes_vec();
            if ub.len() > 255 {
                proof {
                    assert(encode_utf8(rl[i as int]).len() > 255);
                }
                return Err(ParseError::ToBech32);
            }
            append_tlv_record(&mut bytes, RELAY, ub.as_slice());
            proof {
                let cur = recs.take(base + i + 1);
                assert(cur.drop_last() =~= recs.take(base + i));
                assert(cur.last() == recs[base + i]);
                assert(recs[base + i] == (RELAY, encode_utf8(rl[i as int])));
                lemma_tlv_records_snoc(cur);
            }
            i += 1;
        }
        proof {
            assert(recs.take(base + n) =~= recs);
        }
        match encode_bech32("nevent", &bytes) {
            Ok(s) => Ok(s),
            Err(_) => Err(ParseError::ToBech32),
        }
    }

    /// Parse a shared event from its `nevent` bech32 rendering.
    pub fn from_bech32(s: &str) -> (r: Result<SharedEvent, ParseError>)
        ensures
            match r {
                Ok(e) => match bech32_decoding(s@) {
                    Some(pr) => pr.0 == "nevent"@ && shared_event_from_tlv(pr.1) == Ok::<
                        SharedScan,
                        ParseError,
                    >(
                        (
                            Some(e.event_id@),
                            author_view(e.author),
                            kind_view(e.kind),
                            e.relays.deep_view(),
                        ),
                    ),
                    None => false,
                },
                Err(e) => match bech32_decoding(s@) {
                    None => e == ParseError::Bech32,
                    Some(pr) => if pr.0 != "nevent"@ {
                        e == ParseError::WrongBech32PrefixOrVariant
                    } else {
                        shared_event_from_tlv(pr.1) is Err && e == shared_event_from_tlv(
                            pr.1,
                        )->Err_0
                    },
                },
            },
    {
        match decode_bech32(s) {
            Ok((hrp, data)) => {
                if str_eq_chars(hrp.as_str(), "nevent") {
                    Self::from_bech32_data(data.as_slice())
                } else {
                    Err(ParseError::WrongBech32PrefixOrVariant)
                }
            },
            Err(e) => Err(e),
        }
    }

    /// Read a shared event out of a decoded bech32 payload.
    pub fn from_bech32_data(srcdata: &[u8]) -> (r: Result<SharedEvent, ParseError>)
        ensures
            match r {
                Ok(e) => shared_event_from_tlv(srcdata@) == Ok::<SharedScan, ParseError>(
                    (
                        Some(e.event_id@),
                        author_view(e.author),
                        kind_view(e.kind),
                        e.relays.deep_view(),
                    ),
                ),
                Err(e) => shared_event_from_tlv(srcdata@) is Err && e == shared_event_from_tlv(
                    srcdata@,
                )->Err_0,
            },
    {
        let recs = match parse_tlv_records(srcdata) {
            Some(recs) => recs,
            None => {
                return Err(ParseError::TLV);
            },
        };
        let ghost grecs = recs_view(recs@);
        let n = recs.len();
        let mut event_id: Option<EventId> = None;
        let mut author: Option<NostrPubKey> = None;
        let mut kind: Option<Kind> = None;
        let mut relays: Vec<String> = Vec::new();
        let mut i: usize = 0;
        proof {
            assert(relays.deep_view() =~= Seq::<Seq<char>>::empty());
        }
        while i < n
            invariant
                n == recs@.len(),
                grecs == recs_view(recs@),
                grecs.len() == n,
                tlv_parse(srcdata@) == Some(grecs),
                i <= n,
                shared_scan(grecs, i as int) == Ok::<SharedScan, ParseError>(
                    (
                        match event_id {
                            Some(id) => Some(id@),
                            None => None,
                        },
                        author_view(author),
                        kind_view(kind),
                        relays.deep_view(),
                    ),
                ),
            decreases n - i,
        {
            proof {
                assert(grecs[i as int] == (recs@[i as int].0, recs@[i as int].1@));
            }
            let t = recs[i].0;
            if t == SPECIAL && event_id.is_none() {
                match EventId::from_slice(recs[i].1.as_slice()) {
                    Ok(id) => {
                        event_id = Some(id);
                    },
                    Err(_) => {
                        proof {
                            assert(shared_scan(grecs, i + 1) == Err::<SharedScan, ParseError>(
                                ParseError::TryFromSlice,
                            ));
                            lemma_shared_scan_err_persists(grecs, i + 1, grecs.len() as int);
                        }
                        return Err(ParseError::TryFromSlice);
                    },
                }
            } else if t == AUTHOR && author.is_none() {
                match NostrPubKey::try_from_slice(recs[i].1.as_slice()) {
                    Ok(k) => {
                        author = Some(k);
                    },
                    Err(_) => {
                    },
                }
            } else if t == KIND && kind.is_none() {
                if recs[i].1.len() != 4 {
                    proof {
                        assert(shared_scan(grecs, i + 1) == Err::<SharedScan, ParseError>(
                            ParseError::TryFromSlice,
                        ));
                        lemma_shared_scan_err_persists(grecs, i + 1, grecs.len() as int);
                    }
                    return Err(ParseError::TryFromSlice);
                }
                let v = be32_from_bytes(recs[i].1.as_slice());
                kind = Some(Kind::from_u16((v & 0xFFFF) as u16));
                proof {
                    assert((be32_value(grecs[i as int].1) & 0xFFFF) as u16 == (v & 0xFFFF) as u16);
                }
            } else if t == RELAY {
                let payload = crate::strutil::bytes_of_slice(recs[i].1.as_slice());
                let text = match utf8_to_string(payload) {
                    Some(t) => t,
                    None => {
                        proof {
                            assert(shared_scan(grecs, i + 1) == Err::<SharedScan, ParseError>(
                                ParseError::FromUTF8,
                            ));
                            lemma_shared_scan_err_persists(grecs, i + 1, grecs.len() as int);
                        }
                        return Err(ParseError::FromUTF8);
                    },
                };
                proof {
                    encode_utf8_decode_utf8(text@);
                }
                let ghost prev = relays.deep_view();
                relays.push(text);
                proof {
                    assert(relays.deep_view() =~= prev + seq![decode_utf8(grecs[i as int].1)])
                        by {
                        assert(forall|k: int|
                            0 <= k < prev.len() ==> #[trigger] relays.deep_view()[k] == relays@[k]@
                                && prev[k] == relays@[k]@);
                        assert(relays.deep_view()[prev.len() as int] == relays@[prev.len() as int]@);
                    }
                }
            }
            i += 1;
        }
        match event_id {
            Some(id) => Ok(SharedEvent { event_id: id, author, kind, relays }),
            None => Err(ParseError::FieldMissing(MissingField::EventId)),
        }
    }
}

} // verus!
