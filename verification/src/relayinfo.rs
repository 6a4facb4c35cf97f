//! A relay url in the canonical form the url parser gives it, and its
//! `nrelay` bech32 codec.
use vstd::prelude::*;
use vstd::utf8::{
    encode_utf8, decode_utf8, valid_utf8, encode_utf8_valid_utf8, encode_utf8_decode_utf8,
};
use crate::basecore::{ParseError, MissingField};
use crate::nostrbech32::{
    SPECIAL, bech32_decoding, bech32_encoding, bech32_fits, decode_bech32, encode_bech32,
    str_eq_chars,
};
use crate::signing::lemma_nostr_hrps_valid;
use crate::tlv::{
    tlv_parse, tlv_records_bytes, tlv_records_wf, lemma_tlv_round_trip, recs_view,
    parse_tlv_records, append_tlv_record,
};
use crate::strutil::utf8_to_string;
use vstd::string::StrSliceExecFns;

verus! {

/// The canonical rendering the url parser gives a url text, or nothing where
/// the text is not a url; a function of the text alone.
pub uninterp spec fn url_normalized(s: Seq<char>) -> Option<Seq<char>>;

/// Relies on url::Url::parse and Url::as_str: the parse result is a function
/// of the text alone, and parsing a parsed url's own rendering gives that
/// rendering back.
#[verifier::external_body]
pub(crate) fn url_parse_normalize(s: &str) -> (r: Option<String>)
    ensures
        match r {
            Some(u) => url_normalized(s@) == Some(u@) && url_normalized(u@) == Some(u@),
            None => url_normalized(s@) is None,
        },
{
    match url::Url::parse(s) {
        Ok(u) => Some(u.as_str().to_string()),
        Err(_) => None,
    }
}

/// The TLV payload of a relay url: one record holding its UTF-8 bytes.
pub open spec fn relay_url_tlv(url: Seq<char>) -> Seq<u8> {
    tlv_records_bytes(seq![(SPECIAL, encode_utf8(url))])
}

/// True when a relay url fits its encoding: the one TLV length byte carries
/// its bytes, and the whole payload stays within the bech32 code length under
/// the six-character `nrelay` prefix.
pub open spec fn relay_url_encodable(url: Seq<char>) -> bool {
    encode_utf8(url).len() <= 255 && bech32_fits(6, relay_url_tlv(url).len() as int)
}

/// The state of a left-to-right scan over an `nrelay` record list after `i`
/// records: the first SPECIAL record parsed as a url, or the error that
/// stopped the scan. Unknown record types are skipped.
pub open spec fn relay_scan(recs: Seq<(u8, Seq<u8>)>, i: int) -> Result<
    Option<Seq<char>>,
    ParseError,
>
    decreases i,
{
    if i <= 0 {
        Ok(None)
    } else {
        match relay_scan(recs, i - 1) {
            Err(e) => Err(e),
            Ok(st) => {
                let t = recs[i - 1].0;
                let p = recs[i - 1].1;
                if t == SPECIAL && st is None {
                    if !valid_utf8(p) {
                        Err(ParseError::UTF8)
                    } else {
                        match url_normalized(decode_utf8(p)) {
                            Some(u) => Ok(Some(u)),
                            None => Err(ParseError::URL),
                        }
                    }
                } else {
                    Ok(st)
                }
            },
        }
    }
}

/// The relay url read out of an `nrelay` TLV payload, or the error: framing,
/// UTF-8, url syntax, or a missing url field.
pub open spec fn relay_url_from_tlv(data: Seq<u8>) -> Result<Seq<char>, ParseError> {
    match tlv_parse(data) {
        None => Err(ParseError::TLV),
        Some(recs) => match relay_scan(recs, recs.len() as int) {
            Err(e) => Err(e),
            Ok(st) => match st {
                Some(u) => Ok(u),
                None => Err(ParseError::FieldMissing(MissingField::Url)),
            },
        },
    }
}

/// A scan that has failed stays failed over any more records.
proof fn lemma_relay_scan_err_persists(recs: Seq<(u8, Seq<u8>)>, i: int, j: int)
    requires
        0 <= i <= j,
        relay_scan(recs, i) is Err,
    ensures
        relay_scan(recs, j) == relay_scan(recs, i),
    decreases j - i,
{
    if j > i {
        lemma_relay_scan_err_persists(recs, i, j - 1);
    }
}

/// Decoding the TLV payload of a well-formed relay url gives the url back.
pub proof fn lemma_relay_url_tlv_round_trip(url: Seq<char>)
    requires
        url_normalized(url) == Some(url),
        encode_utf8(url).len() <= 255,
    ensures
        relay_url_from_tlv(relay_url_tlv(url)) == Ok::<Seq<char>, ParseError>(url),
{
    let recs = seq![(SPECIAL, encode_utf8(url))];
    assert(tlv_records_wf(recs));
    lemma_tlv_round_trip(recs);
    encode_utf8_valid_utf8(url);
    encode_utf8_decode_utf8(url);
    assert(relay_scan(recs, 0) == Ok::<Option<Seq<char>>, ParseError>(None));
    assert(relay_scan(recs, 1) == Ok::<Option<Seq<char>>, ParseError>(Some(url)));
}

/// A relay url, held in canonical form.
#[derive(Debug)]
pub struct RelayUrl {
    url: String,
}

impl View for RelayUrl {
    type V = Seq<char>;

    closed spec fn view(&self) -> Seq<char> {
        self.url@
    }
}

impl DeepView for RelayUrl {
    type V = Seq<char>;

    open spec fn deep_view(&self) -> Seq<char> {
        self.view()
    }
}

impl RelayUrl {
    /// The url is always its own canonical form.
    #[verifier::type_invariant]
    closed spec fn type_inv(self) -> bool {
        url_normalized(self.url@) == Some(self.url@)
    }

    /// Parse a url text into its canonical form; reject text that is not a
    /// url.
    pub fn new(url: &str) -> (r: Result<RelayUrl, ParseError>)
        ensures
            match r {
                Ok(u) => url_normalized(url@) == Some(u@),
                Err(e) => url_normalized(url@) is None && e == ParseError::URL,
            },
    {
        match url_parse_normalize(url) {
            Some(u) => Ok(RelayUrl { url: u }),
            None => Err(ParseError::URL),
        }
    }

    /// The url text.
    pub fn as_str(&self) -> (r: &str)
        ensures
            r@ == self@,
            url_normalized(self@) == Some(self@),
    {
        proof {
            use_type_invariant(self);
        }
        self.url.as_str()
    }

    /// The url's `nrelay` bech32 rendering; fails exactly on a url that the
    /// one TLV length byte or the bech32 code length cannot carry.
    pub fn to_bech32(&self) -> (r: Result<String, ParseError>)
        ensures
            match r {
                Ok(s) => relay_url_encodable(self@) && s@ == bech32_encoding(
                    "nrelay"@,
                    relay_url_tlv(self@),
                ) && crate::nostrbech32::no_colon(s@),
                Err(e) => e == ParseError::ToBech32 && !relay_url_encodable(self@),
            },
    {
        proof {
            use_type_invariant(self);
            lemma_nostr_hrps_valid();
            reveal_strlit("nrelay");
        }
        let url_bytes = self.url.as_str().as_bytes_vec();
        if url_bytes.len() > 255 {
            return Err(ParseError::ToBech32);
        }
        let mut bytes: Vec<u8> = Vec::new();
        append_tlv_record(&mut bytes, SPECIAL, url_bytes.as_slice());
        proof {
            let recs = seq![(SPECIAL, encode_utf8(self@))];
            assert(recs.drop_first() =~= Seq::<(u8, Seq<u8>)>::empty());
            assert(tlv_records_bytes(recs.drop_first()) =~= Seq::<u8>::empty());
            assert(bytes@ =~= relay_url_tlv(self@));
        }
        encode_bech32("nrelay", &bytes)
    }

    /// Parse a relay url from its `nrelay` bech32 rendering.
    pub fn from_bech32(s: &str) -> (r: Result<RelayUrl, ParseError>)
        ensures
            match r {
                Ok(u) => match bech32_decoding(s@) {
                    Some(p) => p.0 == "nrelay"@ && relay_url_from_tlv(p.1) == Ok::<Seq<char>, ParseError>(u@),
                    None => false,
                },
                Err(e) => match bech32_decoding(s@) {
                    None => e == ParseError::Bech32,
                    Some(p) => if p.0 != "nrelay"@ {
                        e == ParseError::WrongBech32PrefixOrVariant
                    } else {
                        relay_url_from_tlv(p.1) == Err::<Seq<char>, ParseError>(e)
                    },
                },
            },
    {
        match decode_bech32(s) {
            Ok((hrp, data)) => {
                if str_eq_chars(hrp.as_str(), "nrelay") {
                    Self::from_bech32_data(data.as_slice())
                } else {
                    Err(ParseError::WrongBech32PrefixOrVariant)
                }
            },
            Err(e) => Err(e),
        }
    }

    /// Read a relay url out of a decoded bech32 payload.
    pub fn from_bech32_data(srcdata: &[u8]) -> (r: Result<RelayUrl, ParseError>)
        ensures
            match r {
                Ok(u) => relay_url_from_tlv(srcdata@) == Ok::<Seq<char>, ParseError>(u@),
                Err(e) => relay_url_from_tlv(srcdata@) == Err::<Seq<char>, ParseError>(e),
            },
    {
        let recs = match parse_tlv_records(srcdata) {
            Some(recs) => recs,
            None => {
                return Err(ParseError::TLV);
            },
        };
        let ghost grecs = recs_view(recs@);
        let n = recs.len();
        let mut url: Option<String> = None;
        let mut i: usize = 0;
        while i < n
            invariant
                n == recs@.len(),
                grecs == recs_view(recs@),
                grecs.len() == n,
                tlv_parse(srcdata@) == Some(grecs),
                i <= n,
                relay_scan(grecs, i as int) == match url {
                    Some(u) => Ok::<Option<Seq<char>>, ParseError>(Some(u@)),
                    None => Ok::<Option<Seq<char>>, ParseError>(None),
                },
                match url {
                    Some(u) => url_normalized(u@) == Some(u@),
                    None => true,
                },
            decreases n - i,
        {
            proof {
                assert(grecs[i as int] == (recs@[i as int].0, recs@[i as int].1@));
            }
            if recs[i].0 == SPECIAL && url.is_none() {
                let payload = crate::strutil::bytes_of_slice(recs[i].1.as_slice());
                let text = match utf8_to_string(payload) {
                    Some(t) => t,
                    None => {
                        proof {
                            assert(!valid_utf8(grecs[i as int].1));
                            assert(relay_scan(grecs, i + 1) == Err::<
                                Option<Seq<char>>,
                                ParseError,
                            >(ParseError::UTF8));
                            lemma_relay_scan_err_persists(grecs, i + 1, grecs.len() as int);
                        }
                        return Err(ParseError::UTF8);
                    },
                };
                proof {
                    vstd::utf8::encode_utf8_decode_utf8(text@);
                }
                match url_parse_normalize(text.as_str()) {
                    Some(u) => {
                        proof {
                            assert(valid_utf8(grecs[i as int].1));
                            assert(decode_utf8(grecs[i as int].1) == text@);
                            assert(relay_scan(grecs, i + 1) == Ok::<
                                Option<Seq<char>>,
                                ParseError,
                            >(Some(u@)));
                        }
                        url = Some(u);
                    },
                    None => {
                        proof {
                            assert(valid_utf8(grecs[i as int].1));
                            assert(decode_utf8(grecs[i as int].1) == text@);
                            assert(relay_scan(grecs, i + 1) == Err::<
                                Option<Seq<char>>,
                                ParseError,
                            >(ParseError::URL));
                            lemma_relay_scan_err_persists(grecs, i + 1, grecs.len() as int);
                        }
                        return Err(ParseError::URL);
                    },
                }
            }
            i += 1;
        }
        match url {
            Some(u) => Ok(RelayUrl { url: u }),
            None => Err(ParseError::FieldMissing(MissingField::Url)),
        }
    }
}

impl Clone for RelayUrl {
    fn clone(&self) -> (r: RelayUrl)
        ensures
            r@ == self@,
    {
        proof {
            use_type_invariant(self);
        }
        RelayUrl { url: self.url.clone() }
    }
}

impl PartialEq for RelayUrl {
    fn eq(&self, other: &RelayUrl) -> (r: bool) {
        str_eq_chars(self.url.as_str(), other.url.as_str())
    }
}

impl vstd::std_specs::cmp::PartialEqSpecImpl for RelayUrl {
    open spec fn obeys_eq_spec() -> bool {
        true
    }

    open spec fn eq_spec(&self, other: &RelayUrl) -> bool {
        self@ == other@
    }
}

impl Eq for RelayUrl {

}

} // verus!
