//! A shareable profile (`nprofile`): a public key with relay urls, and its
//! bech32/TLV codec.
use vstd::prelude::*;
use vstd::utf8::{
    encode_utf8, decode_utf8, valid_utf8, encode_utf8_valid_utf8, encode_utf8_decode_utf8,
};
use crate::basecore::{ParseError, MissingField};
use crate::nostrbech32::{
    SPECIAL, RELAY, bech32_decoding, bech32_encoding, bech32_fits, decode_bech32, encode_bech32,
    str_eq_chars,
};
use crate::relayinfo::{RelayUrl, url_normalized, url_parse_normalize};
use crate::signing::{NostrPubKey, pubkey_bytes_ok, lemma_nostr_hrps_valid};
use crate::strutil::utf8_to_string;
use crate::tlv::{
    tlv_parse, tlv_records_bytes, tlv_records_wf, lemma_tlv_round_trip, lemma_tlv_records_snoc,
    recs_view, parse_tlv_records, append_tlv_record,
};
use vstd::string::StrSliceExecFns;

verus! {

/// The records of a profile: the key, then one record per relay.
pub open spec fn profile_records(pk: Seq<u8>, relays: Seq<Seq<char>>) -> Seq<(u8, Seq<u8>)> {
    seq![(SPECIAL, pk)] + Seq::new(relays.len(), |i: int| (RELAY, encode_utf8(relays[i])))
}

/// The TLV payload of a profile.
pub open spec fn profile_tlv(pk: Seq<u8>, relays: Seq<Seq<char>>) -> Seq<u8> {
    tlv_records_bytes(profile_records(pk, relays))
}

/// True when a profile fits its encoding: every relay url fits the one TLV
/// length byte, and the whole payload stays within the bech32 code length
/// under the eight-character `nprofile` prefix.
pub open spec fn profile_encodable(pk: Seq<u8>, relays: Seq<Seq<char>>) -> bool {
    &&& forall|k: int| 0 <= k < relays.len() ==> encode_utf8(#[trigger] relays[k]).len() <= 255
    &&& bech32_fits(8, profile_tlv(pk, relays).len() as int)
}

/// The state of a left-to-right scan over an `nprofile` record list after `i`
/// records: the first SPECIAL record as the key, relays accumulated in order,
/// unknown types skipped; or the error that stopped the scan.
pub open spec fn profile_scan(recs: Seq<(u8, Seq<u8>)>, i: int) -> Result<
    (Option<Seq<u8>>, Seq<Seq<char>>),
    ParseError,
>
    decreases i,
{
    if i <= 0 {
        Ok((None, Seq::empty()))
    } else {
        match profile_scan(recs, i - 1) {
            Err(e) => Err(e),
            Ok(st) => {
                let t = recs[i - 1].0;
                let p = recs[i - 1].1;
                if t == SPECIAL && st.0 is None {
                    if !pubkey_bytes_ok(p) {
                        Err(ParseError::TryFromSlice)
                    } else {
                        Ok((Some(p), st.1))
                    }
                } else if t == RELAY {
                    if !valid_utf8(p) {
                        Err(ParseError::FromUTF8)
                    } else {
                        match url_normalized(decode_utf8(p)) {
                            Some(u) => Ok((st.0, st.1 + seq![u])),
                            None => Err(ParseError::URL),
                        }
                    }
                } else {
                    Ok(st)
                }
            },
        }
    }
}

/// The profile read out of an `nprofile` TLV payload, or the error: framing,
/// key, UTF-8 or url trouble, or a missing key field.
pub open spec fn profile_from_tlv(data: Seq<u8>) -> Result<
    (Seq<u8>, Seq<Seq<char>>),
    ParseError,
> {
    match tlv_parse(data) {
        None => Err(ParseError::TLV),
        Some(recs) => match profile_scan(recs, recs.len() as int) {
            Err(e) => Err(e),
            Ok(st) => match st.0 {
                Some(pk) => Ok((pk, st.1)),
                None => Err(ParseError::FieldMissing(MissingField::Pubkey)),
            },
        },
    }
}

/// A scan that has failed stays failed over any more records.
proof fn lemma_profile_scan_err_persists(recs: Seq<(u8, Seq<u8>)>, i: int, j: int)
    requires
        0 <= i <= j,
        profile_scan(recs, i) is Err,
    ensures
        profile_scan(recs, j) == profile_scan(recs, i),
    decreases j - i,
{
    if j > i {
        lemma_profile_scan_err_persists(recs, i, j - 1);
    }
}

/// Scanning the relay records of a canonical profile accumulates the relays
/// in order.
proof fn lemma_profile_scan_relays(pk: Seq<u8>, relays: Seq<Seq<char>>, i: int)
    requires
        pubkey_bytes_ok(pk),
        forall|k: int|
            0 <= k < relays.len() ==> url_normalized(#[trigger] relays[k]) == Some(relays[k]),
        0 <= i <= relays.len(),
    ensures
        profile_scan(profile_records(pk, relays), 1 + i) == Ok::<
            (Option<Seq<u8>>, Seq<Seq<char>>),
            ParseError,
        >((Some(pk), relays.take(i))),
    decreases i,
{
    let recs = profile_records(pk, relays);
    if i == 0 {
        assert(profile_scan(recs, 0) == Ok::<(Option<Seq<u8>>, Seq<Seq<char>>), ParseError>(
            (None, Seq::empty()),
        ));
        assert(recs[0] == (SPECIAL, pk));
        assert(relays.take(0) =~= Seq::<Seq<char>>::empty());
    } else {
        lemma_profile_scan_relays(pk, relays, i - 1);
        assert(recs[i] == (RELAY, encode_utf8(relays[i - 1])));
        encode_utf8_valid_utf8(relays[i - 1]);
        encode_utf8_decode_utf8(relays[i - 1]);
        assert(relays.take(i) =~= relays.take(i - 1) + seq![relays[i - 1]]);
    }
}

/// Decoding the TLV payload of a well-formed profile gives the profile back.
pub proof fn lemma_profile_tlv_round_trip(pk: Seq<u8>, relays: Seq<Seq<char>>)
    requires
        pubkey_bytes_ok(pk),
        forall|k: int|
            0 <= k < relays.len() ==> url_normalized(#[trigger] relays[k]) == Some(relays[k]),
        forall|k: int| 0 <= k < relays.len() ==> encode_utf8(#[trigger] relays[k]).len() <= 255,
    ensures
        profile_from_tlv(profile_tlv(pk, relays)) == Ok::<(Seq<u8>, Seq<Seq<char>>), ParseError>(
            (pk, relays),
        ),
{
    let recs = profile_records(pk, relays);
    assert(tlv_records_wf(recs)) by {
        assert(forall|k: int| 1 <= k < recs.len() ==> recs[k] == (RELAY, encode_utf8(relays[k - 1])));
    }
    lemma_tlv_round_trip(recs);
    lemma_profile_scan_relays(pk, relays, relays.len() as int);
    assert(relays.take(relays.len() as int) =~= relays);
}

/// A shareable profile: a public key and the relays it can be found on.
#[derive(Debug, Clone, PartialEq, Eq)]
pub struct NostrProfile {
    /// The profile's key.
    pub public_key: NostrPubKey,
    /// Relays the profile can be found on, in canonical url form.
    pub relays: Vec<RelayUrl>,
}

impl NostrProfile {
    /// Assemble a profile from a key and relay url texts; reject text that is
    /// not a url.
    pub fn new(public_key: NostrPubKey, relays: &[String]) -> (r: Result<
        NostrProfile,
        ParseError,
    >)
        ensures
            match r {
                Ok(p) => {
                    &&& p.public_key@ == public_key@
                    &&& p.relays@.len() == relays@.len()
                    &&& forall|k: int|
                        0 <= k < relays@.len() ==> url_normalized(relays.deep_view()[k]) == Some(
                            #[trigger] p.relays.deep_view()[k],
                        )
                },
                Err(e) => e == ParseError::URL && exists|k: int|
                    0 <= k < relays@.len() && url_normalized(#[trigger] relays.deep_view()[k])
                        is None,
            },
    {
        let n = relays.len();
        let mut out: Vec<RelayUrl> = Vec::new();
        let mut i: usize = 0;
        while i < n
            invariant
                n == relays@.len(),
                i <= n,
                out@.len() == i,
                forall|k: int|
                    0 <= k < i ==> url_normalized(relays.deep_view()[k]) == Some(
                        #[trigger] out.deep_view()[k],
                    ),
            decreases n - i,
        {
            proof {
                assert(relays.deep_view()[i as int] == relays@[i as int]@);
            }
            match RelayUrl::new(relays[i].as_str()) {
                Ok(u) => {
                    let ghost prev = out.deep_view();
                    out.push(u);
                    proof {
                        assert forall|k: int| 0 <= k < i + 1 implies url_normalized(
                            relays.deep_view()[k],
                        ) == Some(#[trigger] out.deep_view()[k]) by {
                            assert(out.deep_view()[k] == out@[k]@);
                            if k < i {
                                assert(prev[k] == out@[k]@);
                            }
                        }
                    }
                },
                Err(_) => {
                    return Err(ParseError::URL);
                },
            }
            i += 1;
        }
        Ok(NostrProfile { public_key, relays: out })
    }

    /// The profile's `nprofile` bech32 rendering; fails exactly on a relay
    /// url that the one TLV length byte or the bech32 code length cannot
    /// carry.
    pub fn to_bech32(&self) -> (r: Result<String, ParseError>)
        ensures
            match r {
                Ok(s) => profile_encodable(self.public_key@, self.relays.deep_view()) && s@
                    == bech32_encoding(
                    "nprofile"@,
                    profile_tlv(self.public_key@, self.relays.deep_view()),
                ) && crate::nostrbech32::no_colon(s@),
                Err(e) => e == ParseError::ToBech32 && !profile_encodable(
                    self.public_key@,
                    self.relays.deep_view(),
                ),
            },
    {
        proof {
            lemma_nostr_hrps_valid();
            reveal_strlit("nprofile");
        }
        let ghost rl = self.relays.deep_view();
        let ghost recs = profile_records(self.public_key@, rl);
        let mut bytes: Vec<u8> = Vec::new();
        let pkb = self.public_key.as_bytes();
        append_tlv_record(&mut bytes, SPECIAL, pkb.as_slice());
        proof {
            let r0 = seq![(SPECIAL, self.public_key@)];
            assert(r0.drop_first() =~= Seq::<(u8, Seq<u8>)>::empty());
            assert(tlv_records_bytes(r0.drop_first()) =~= Seq::<u8>::empty());
            assert(bytes@ =~= tlv_records_bytes(r0));
            assert(recs.take(1) =~= r0);
        }
        let n = self.relays.len();
        let mut i: usize = 0;
        while i < n
            invariant
                n == self.relays@.len(),
                i <= n,
                rl == self.relays.deep_view(),
                recs == profile_records(self.public_key@, rl),
                rl.len() == n,
                recs.len() == n + 1,
                forall|k: int| 0 <= k < i ==> encode_utf8(#[trigger] rl[k]).len() <= 255,
                bytes@ =~= tlv_records_bytes(recs.take(i + 1)),
            decreases n - i,
        {
            proof {
                assert(rl[i as int] == self.relays@[i as int]@);
            }
            let ub = self.relays[i].as_str().as_bytes_vec();
            if ub.len() > 255 {
                proof {
                    assert(encode_utf8(rl[i as int]).len() > 255);
                }
                return Err(ParseError::ToBech32);
            }
            append_tlv_record(&mut bytes, RELAY, ub.as_slice());
            proof {
                let cur = recs.take(i + 2);
                assert(cur.drop_last() =~= recs.take(i + 1));
                assert(cur.last() == recs[i + 1]);
                assert(recs[i + 1] == (RELAY, encode_utf8(rl[i as int])));
                lemma_tlv_records_snoc(cur);
            }
            i += 1;
        }
        proof {
            assert(recs.take(n + 1) =~= recs);
        }
        match encode_bech32("nprofile", &bytes) {
            Ok(s) => Ok(s),
            Err(_) => Err(ParseError::ToBech32),
        }
    }

    /// Parse a profile from its `nprofile` bech32 rendering.
    pub fn from_bech32(s: &str) -> (r: Result<NostrProfile, ParseError>)
        ensures
            match r {
                Ok(p) => match bech32_decoding(s@) {
                    Some(pr) => pr.0 == "nprofile"@ && profile_from_tlv(pr.1) == Ok::<
                        (Seq<u8>, Seq<Seq<char>>),
                        ParseError,
                    >((p.public_key@, p.relays.deep_view())),
                    None => false,
                },
                Err(e) => match bech32_decoding(s@) {
                    None => e == ParseError::Bech32,
                    Some(pr) => if pr.0 != "nprofile"@ {
                        e == ParseError::WrongBech32PrefixOrVariant
                    } else {
                        profile_from_tlv(pr.1) is Err && e == profile_from_tlv(pr.1)->Err_0
                    },
                },
            },
    {
        match decode_bech32(s) {
            Ok((hrp, data)) => {
                if str_eq_chars(hrp.as_str(), "nprofile") {
                    Self::from_bech32_data(data.as_slice())
                } else {
                    Err(ParseError::WrongBech32PrefixOrVariant)
                }
            },
            Err(e) => Err(e),
        }
    }

    /// Read a profile out of a decoded bech32 payload.
    pub fn from_bech32_data(srcdata: &[u8]) -> (r: Result<NostrProfile, ParseError>)
        ensures
            match r {
                Ok(p) => profile_from_tlv(srcdata@) == Ok::<(Seq<u8>, Seq<Seq<char>>), ParseError>(
                    (p.public_key@, p.relays.deep_view()),
                ),
                Err(e) => profile_from_tlv(srcdata@) is Err && e == profile_from_tlv(
                    srcdata@,
                )->Err_0,
            },
    {
        let recs = match parse_tlv_records(srcdata) {
            Some(recs) => recs,
            None => {
                return Err(ParseError::TLV);
            },
        };
        let ghost grecs = recs_view(recs@);
        let n = recs.len();
        let mut public_key: Option<NostrPubKey> = None;
        let mut relays: Vec<RelayUrl> = Vec::new();
        let mut i: usize = 0;
        proof {
            assert(relays.deep_view() =~= Seq::<Seq<char>>::empty());
        }
        while i < n
            invariant
                n == recs@.len(),
                grecs == recs_view(recs@),
                grecs.len() == n,
                tlv_parse(srcdata@) == Some(grecs),
                i <= n,
                profile_scan(grecs, i as int) == Ok::<
                    (Option<Seq<u8>>, Seq<Seq<char>>),
                    ParseError,
                >(
                    (
                        match public_key {
                            Some(k) => Some(k@),
                            None => None,
                        },
                        relays.deep_view(),
                    ),
                ),
            decreases n - i,
        {
            proof {
                assert(grecs[i as int] == (recs@[i as int].0, recs@[i as int].1@));
            }
            let t = recs[i].0;
            if t == SPECIAL && public_key.is_none() {
                match NostrPubKey::try_from_slice(recs[i].1.as_slice()) {
                    Ok(k) => {
                        public_key = Some(k);
                    },
                    Err(_) => {
                        proof {
                            assert(profile_scan(grecs, i + 1) == Err::<
                                (Option<Seq<u8>>, Seq<Seq<char>>),
                                ParseError,
                            >(ParseError::TryFromSlice));
                            lemma_profile_scan_err_persists(grecs, i + 1, grecs.len() as int);
                        }
                        return Err(ParseError::TryFromSlice);
                    },
                }
            } else if t == RELAY {
                let payload = crate::strutil::bytes_of_slice(recs[i].1.as_slice());
                let text = match utf8_to_string(payload) {
                    Some(t) => t,
                    None => {
                        proof {
                            assert(profile_scan(grecs, i + 1) == Err::<
                                (Option<Seq<u8>>, Seq<Seq<char>>),
                                ParseError,
                            >(ParseError::FromUTF8));
                            lemma_profile_scan_err_persists(grecs, i + 1, grecs.len() as int);
                        }
                        return Err(ParseError::FromUTF8);
                    },
                };
                proof {
                    encode_utf8_decode_utf8(text@);
                }
                match RelayUrl::new(text.as_str()) {
                    Ok(u) => {
                        let ghost prev = relays.deep_view();
                        relays.push(u);
                        proof {
                            assert(relays.deep_view() =~= prev + seq![u@]) by {
                                assert(forall|k: int|
                                    0 <= k < prev.len() ==> #[trigger] relays.deep_view()[k]
                                        == relays@[k]@ && prev[k] == relays@[k]@);
                                assert(relays.deep_view()[prev.len() as int] == u@);
                            }
                        }
                    },
                    Err(_) => {
                        proof {
                            assert(profile_scan(grecs, i + 1) == Err::<
                                (Option<Seq<u8>>, Seq<Seq<char>>),
                                ParseError,
                            >(ParseError::URL));
                            lemma_profile_scan_err_persists(grecs, i + 1, grecs.len() as int);
                        }
                        return Err(ParseError::URL);
                    },
                }
            }
            i += 1;
        }
        match public_key {
            Some(k) => Ok(NostrProfile { public_key: k, relays }),
            None => Err(ParseError::FieldMissing(MissingField::Pubkey)),
        }
    }
}

} // verus!
