//! Tag standardization: promote a raw token list to one of the known tag
//! shapes, dispatching on the first token and then on arity and content.
//! Unrecognized shapes are a soft failure: the raw tag stays usable.
use vstd::prelude::*;
use crate::basecore::ParseError;
use crate::coordinate::{Coordinate, kpi_split};
use crate::decutil::{dec_parseable, dec_parsed, parse_dec_u8, parse_dec_u128, parse_dec_usize};
use crate::delegation::{Conditions, ConditionError, conditions_parsed};
use crate::event_id::{EventId, event_id_hex_ok};
use crate::event_kind::Kind;
use crate::hexutil::{hex_bytes_of, is_hex_str, hex_to_bytes};
use crate::marker::{Marker, marker_of_chars};
use crate::nostrbech32::str_eq_chars;
use crate::nostrhttpmethod::{NostrHttpMethod, http_method_of_chars};
use crate::nostrimage::{ImageDimensions, dimensions_of_chars};
use crate::relayinfo::{url_normalized, url_parse_normalize};
use crate::relaymetadata::{RelayMetadata, relay_metadata_of_chars};
use crate::report::{Report, report_of_chars};
use crate::signing::{NostrPubKey, NostrSignature, pubkey_bytes_ok};
use crate::assymetric_secp256k1::{public_key_hex_ok, bech32_payload, is_valid_signature_bytes};
use crate::tagerror::TagError;
use crate::time::Timestamp;
use vstd::string::{StrSliceExecFns, StringExecFns};

verus! {

/// A standardized tag: one of the known shapes, or the states of a tag that
/// has not been, or could not be, standardized.
#[derive(Debug, Clone, PartialEq, Eq)]
pub enum TagStandard {
    /// Not standardized yet.
    NotProcessed,
    /// A well-formed tag that no rule places, kept by its kind.
    Uncategorized(String),
    /// A tag that failed standardization.
    Malformed,
    /// An event reference (`e`), with optional relay, marker and author.
    Event {
        /// The referenced event.
        event_id: EventId,
        /// A relay the event can be found on.
        relay_url: Option<String>,
        /// How the reference relates to the thread.
        marker: Option<Marker>,
        /// The referenced event's author.
        public_key: Option<NostrPubKey>,
    },
    /// An event report (`e` with a report reason, NIP-56).
    EventReport(EventId, Report),
    /// A key reference (`p`/`P`), with optional relay and alias.
    PublicKey {
        /// The referenced key.
        public_key: NostrPubKey,
        /// A relay the key can be found on.
        relay_url: Option<String>,
        /// A petname for the key.
        alias: Option<String>,
        /// Whether the tag kind was an uppercase `P`.
        uppercase: bool,
    },
    /// A key report (`p` with a report reason, NIP-56).
    PublicKeyReport(NostrPubKey, Report),
    /// A generic reference (`r` that is not a relay url).
    Reference(String),
    /// A relay with optional read/write marker (`r`, NIP-65).
    RelayMetadata {
        /// The relay url, in canonical form.
        relay_url: String,
        /// How the relay is used.
        metadata: Option<RelayMetadata>,
    },
    /// A hashtag (`t`).
    Hashtag(String),
    /// A geohash (`g`).
    Geohash(String),
    /// A `d` identifier.
    Identifier(String),
    /// A coordinate reference (`a`), with an optional relay.
    Coordinate {
        /// The referenced coordinate.
        coordinate: Coordinate,
        /// A relay the event can be found on.
        relay_url: Option<String>,
    },
    /// A kind reference (`k`).
    Kind(Kind),
    /// A relay url (`relay`), kept as given.
    Relay(String),
    /// A proof-of-work commitment (`nonce`, NIP-13).
    POW {
        /// The mined nonce.
        nonce: u128,
        /// The difficulty aimed for.
        difficulty: u8,
    },
    /// A delegation (`delegation`, NIP-26).
    Delegation {
        /// The delegator's key.
        delegator: NostrPubKey,
        /// The delegated conditions.
        conditions: Conditions,
        /// The delegator's signature over the token.
        sig: NostrSignature,
    },
    /// A content warning, with an optional reason.
    ContentWarning {
        /// Why the content warrants a warning.
        reason: Option<String>,
    },
    /// An expiration time (NIP-40).
    Expiration(Timestamp),
    /// A subject.
    Subject(String),
    /// An authentication challenge (NIP-42).
    Challenge(String),
    /// A title.
    Title(String),
    /// An image url with optional dimensions.
    Image(String, Option<ImageDimensions>),
    /// A thumbnail url with optional dimensions.
    Thumb(String, Option<ImageDimensions>),
    /// A summary.
    Summary(String),
    /// A description.
    Description(String),
    /// A bolt11 invoice (NIP-57).
    Bolt11(String),
    /// A payment preimage (NIP-57).
    Preimage(String),
    /// Relay urls (`relays`), kept as given.
    Relays(Vec<String>),
    /// A name.
    Name(String),
    /// A publication time.
    PublishedAt(Timestamp),
    /// A url, in canonical form.
    Url(String),
    /// A MIME type (`m`).
    MimeType(String),
    /// An AES-256-GCM key and iv (NIP-04 style payloads).
    Aes256Gcm {
        /// The key, as given.
        key: String,
        /// The iv, as given.
        iv: String,
    },
    /// A SHA-256 digest (`x`), as its 32 bytes.
    Sha256(Vec<u8>),
    /// A size in bytes (NIP-94).
    Size(usize),
    /// Image dimensions (NIP-94).
    Dim(ImageDimensions),
    /// A magnet link.
    Magnet(String),
    /// A blurhash (NIP-94).
    Blurhash(String),
    /// An HTTP method (NIP-98).
    Method(NostrHttpMethod),
    /// An absolute url (`u`, NIP-98).
    AbsoluteURL(String),
    /// A payload digest (NIP-98), as its 32 bytes.
    Payload(Vec<u8>),
    /// An anonymous marker, with an optional message.
    Anon {
        /// The message, where one is given.
        msg: Option<String>,
    },
    /// A custom emoji (NIP-30).
    Emoji {
        /// The emoji name, alphanumeric and underscores.
        shortcode: String,
        /// The url of the emoji's image.
        url: String,
    },
    /// An encrypted marker.
    Encrypted,
    /// A word (NIP-51 mute words).
    Word(String),
    /// A label namespace (`L`, NIP-32).
    LabelNamespace(String),
    /// A label (`l`, NIP-32).
    Label(Vec<String>),
}

/// Whether an optional token field reads position `i` of the list: the token
/// where it exists and is nonempty, nothing otherwise.
pub open spec fn opt_token(toks: Seq<Seq<char>>, i: int, o: Option<String>) -> bool {
    match o {
        Some(s) => i < toks.len() && toks[i].len() > 0 && s@ == toks[i],
        None => i >= toks.len() || toks[i].len() == 0,
    }
}

/// Whether key bytes read a key text: valid on the curve, from hex first and
/// bech32 second.
pub open spec fn public_key_parsed(s: Seq<char>, pk: Seq<u8>) -> bool {
    &&& pubkey_bytes_ok(pk)
    &&& (if public_key_hex_ok(s) {
        pk == hex_bytes_of(s)
    } else {
        bech32_payload(s, "npub"@) == Some(pk)
    })
}

/// True when the text announces a websocket url.
pub open spec fn ws_url_prefix(s: Seq<char>) -> bool {
    (s.len() >= 5 && s.take(5) == "ws://"@) || (s.len() >= 6 && s.take(6) == "wss://"@)
}

/// Whether a coordinate value reads the `<kind>:<pubkey>:<d-tag>` text.
pub open spec fn coordinate_parsed(s: Seq<char>, c: Coordinate) -> bool {
    match kpi_split(s) {
        Some(parts) => {
            &&& dec_parseable(parts.0, u16::MAX as int)
            &&& c.kind.0 == dec_parsed(parts.0)
            &&& public_key_parsed(parts.1, c.public_key@)
            &&& c.identifier@ == parts.2
            &&& c.relays@.len() == 0
        },
        None => false,
    }
}

/// Whether a standardized tag reads the given token list, shape by shape.
/// Exactly the shapes below are recognized; the fallback states read nothing.
pub open spec fn tag_std_matches(toks: Seq<Seq<char>>, t: TagStandard) -> bool {
    toks.len() > 0 && match t {
        TagStandard::NotProcessed => false,
        TagStandard::Uncategorized(_) => false,
        TagStandard::Malformed => false,
        TagStandard::Event { event_id, relay_url, marker, public_key } => {
            &&& toks[0] == "e"@
            &&& toks.len() >= 2
            &&& event_id_hex_ok(toks[1])
            &&& event_id@ == hex_bytes_of(toks[1])
            &&& if toks.len() == 2 {
                relay_url is None && marker is None && public_key is None
            } else {
                &&& report_of_chars(toks[2]) is None
                &&& opt_token(toks, 2, relay_url)
                &&& (match marker {
                    Some(m) => toks.len() >= 4 && toks[3].len() > 0 && marker_of_chars(
                        toks[3],
                        m,
                    ),
                    None => toks.len() < 4 || toks[3].len() == 0,
                })
                &&& (match public_key {
                    Some(pk) => toks.len() >= 5 && public_key_parsed(toks[4], pk@),
                    None => toks.len() < 5,
                })
            }
        },
        TagStandard::EventReport(event_id, report) => {
            &&& toks[0] == "e"@
            &&& toks.len() >= 3
            &&& event_id_hex_ok(toks[1])
            &&& event_id@ == hex_bytes_of(toks[1])
            &&& report_of_chars(toks[2]) == Some(report)
        },
        TagStandard::PublicKey { public_key, relay_url, alias, uppercase } => {
            &&& toks[0] == (if uppercase {
                "P"@
            } else {
                "p"@
            })
            &&& toks.len() >= 2
            &&& public_key_parsed(toks[1], public_key@)
            &&& if toks.len() == 2 {
                relay_url is None && alias is None
            } else {
                &&& report_of_chars(toks[2]) is None
                &&& opt_token(toks, 2, relay_url)
                &&& (match alias {
                    Some(a) => toks.len() >= 4 && toks[3].len() > 0 && a@ == toks[3],
                    None => toks.len() < 4 || toks[3].len() == 0,
                })
            }
        },
        TagStandard::PublicKeyReport(public_key, report) => {
            &&& (toks[0] == "p"@ || toks[0] == "P"@)
            &&& toks.len() >= 3
            &&& public_key_parsed(toks[1], public_key@)
            &&& report_of_chars(toks[2]) == Some(report)
        },
        TagStandard::Reference(s) => {
            &&& toks[0] == "r"@
            &&& toks.len() == 2
            &&& !ws_url_prefix(toks[1])
            &&& s@ == toks[1]
        },
        TagStandard::RelayMetadata { relay_url, metadata } => {
            &&& toks[0] == "r"@
            &&& toks.len() >= 2
            &&& ws_url_prefix(toks[1])
            &&& url_normalized(toks[1]) == Some(relay_url@)
            &&& (match metadata {
                Some(m) => toks.len() == 3 && toks[2].len() > 0 && relay_metadata_of_chars(
                    toks[2],
                ) == Some(m),
                None => toks.len() == 2,
            })
        },
        TagStandard::Hashtag(s) => toks[0] == "t"@ && toks.len() == 2 && s@ == toks[1],
        TagStandard::Geohash(s) => toks[0] == "g"@ && toks.len() == 2 && s@ == toks[1],
        TagStandard::Identifier(s) => toks[0] == "d"@ && toks.len() == 2 && s@ == toks[1],
        TagStandard::Coordinate { coordinate, relay_url } => {
            &&& toks[0] == "a"@
            &&& toks.len() >= 2
            &&& coordinate_parsed(toks[1], coordinate)
            &&& opt_token(toks, 2, relay_url)
        },
        TagStandard::Kind(k) => {
            &&& toks[0] == "k"@
            &&& toks.len() == 2
            &&& dec_parseable(toks[1], u16::MAX as int)
            &&& k.0 == dec_parsed(toks[1])
        },
        TagStandard::Relay(s) => toks[0] == "relay"@ && toks.len() == 2 && s@ == toks[1],
        TagStandard::POW { nonce, difficulty } => {
            &&& toks[0] == "nonce"@
            &&& toks.len() == 3
            &&& dec_parseable(toks[1], u128::MAX as int)
            &&& nonce == dec_parsed(toks[1])
            &&& dec_parseable(toks[2], u8::MAX as int)
            &&& difficulty == dec_parsed(toks[2])
        },
        TagStandard::Delegation { delegator, conditions, sig } => {
            &&& toks[0] == "delegation"@
            &&& toks.len() >= 4
            &&& public_key_parsed(toks[1], delegator@)
            &&& conditions_parsed(toks[2]) == Ok::<Seq<crate::delegation::Condition>, ConditionError>(
                conditions@,
            )
            &&& is_hex_str(toks[3])
            &&& hex_bytes_of(toks[3]).len() == 64
            &&& is_valid_signature_bytes(hex_bytes_of(toks[3]))
            &&& sig@ == hex_bytes_of(toks[3])
        },
        TagStandard::ContentWarning { reason } => {
            toks[0] == "content-warning"@ && opt_token(toks, 1, reason)
        },
        TagStandard::Expiration(ts) => {
            &&& toks[0] == "expiration"@
            &&& toks.len() == 2
            &&& dec_parseable(toks[1], u64::MAX as int)
            &&& ts.0 == dec_parsed(toks[1])
        },
        TagStandard::Subject(s) => toks[0] == "subject"@ && toks.len() == 2 && s@ == toks[1],
        TagStandard::Challenge(s) => toks[0] == "challenge"@ && toks.len() == 2 && s@ == toks[1],
        TagStandard::Title(s) => toks[0] == "title"@ && toks.len() == 2 && s@ == toks[1],
        TagStandard::Image(u, dim) => {
            &&& toks[0] == "image"@
            &&& toks.len() >= 2
            &&& u@ == toks[1]
            &&& (match dim {
                Some(d) => toks.len() == 3 && dimensions_of_chars(toks[2]) == Some(d),
                None => toks.len() == 2,
            })
        },
        TagStandard::Thumb(u, dim) => {
            &&& toks[0] == "thumb"@
            &&& toks.len() >= 2
            &&& u@ == toks[1]
            &&& (match dim {
                Some(d) => toks.len() == 3 && dimensions_of_chars(toks[2]) == Some(d),
                None => toks.len() == 2,
            })
        },
        TagStandard::Summary(s) => toks[0] == "summary"@ && toks.len() == 2 && s@ == toks[1],
        TagStandard::Description(s) => toks[0] == "description"@ && toks.len() == 2 && s@
            == toks[1],
        TagStandard::Bolt11(s) => toks[0] == "bolt11"@ && toks.len() == 2 && s@ == toks[1],
        TagStandard::Preimage(s) => toks[0] == "preimage"@ && toks.len() == 2 && s@ == toks[1],
        TagStandard::Relays(urls) => toks[0] == "relays"@ && urls.deep_view() == toks.skip(1),
        TagStandard::Name(s) => toks[0] == "name"@ && toks.len() == 2 && s@ == toks[1],
        TagStandard::PublishedAt(ts) => {
            &&& toks[0] == "published_at"@
            &&& toks.len() == 2
            &&& dec_parseable(toks[1], u64::MAX as int)
            &&& ts.0 == dec_parsed(toks[1])
        },
        TagStandard::Url(u) => {
            &&& toks[0] == "url"@
            &&& toks.len() == 2
            &&& url_normalized(toks[1]) == Some(u@)
        },
        TagStandard::MimeType(s) => toks[0] == "m"@ && toks.len() == 2 && s@ == toks[1],
        TagStandard::Aes256Gcm { key, iv } => {
            &&& toks[0] == "aes-256-gcm"@
            &&& toks.len() == 3
            &&& key@ == toks[1]
            &&& iv@ == toks[2]
        },
        TagStandard::Sha256(b) => {
            &&& toks[0] == "x"@
            &&& toks.len() == 2
            &&& is_hex_str(toks[1])
            &&& hex_bytes_of(toks[1]).len() == 32
            &&& b@ == hex_bytes_of(toks[1])
        },
        TagStandard::Size(v) => {
            &&& toks[0] == "size"@
            &&& toks.len() == 2
            &&& dec_parseable(toks[1], usize::MAX as int)
            &&& v == dec_parsed(toks[1])
        },
        TagStandard::Dim(d) => {
            &&& toks[0] == "dim"@
            &&& toks.len() == 2
            &&& dimensions_of_chars(toks[1]) == Some(d)
        },
        TagStandard::Magnet(s) => toks[0] == "magnet"@ && toks.len() == 2 && s@ == toks[1],
        TagStandard::Blurhash(s) => toks[0] == "blurhash"@ && toks.len() == 2 && s@ == toks[1],
        TagStandard::Method(m) => {
            &&& toks[0] == "method"@
            &&& toks.len() == 2
            &&& http_method_of_chars(toks[1]) == Some(m)
        },
        TagStandard::AbsoluteURL(s) => toks[0] == "u"@ && toks.len() == 2 && s@ == toks[1],
        TagStandard::Payload(b) => {
            &&& toks[0] == "payload"@
            &&& toks.len() == 2
            &&& is_hex_str(toks[1])
            &&& hex_bytes_of(toks[1]).len() == 32
            &&& b@ == hex_bytes_of(toks[1])
        },
        TagStandard::Anon { msg } => toks[0] == "anon"@ && opt_token(toks, 1, msg),
        TagStandard::Emoji { shortcode, url } => {
            &&& toks[0] == "emoji"@
            &&& toks.len() == 3
            &&& shortcode@ == toks[1]
            &&& url@ == toks[2]
        },
        TagStandard::Encrypted => toks[0] == "encrypted"@,
        TagStandard::Word(s) => toks[0] == "word"@ && toks.len() == 2 && s@ == toks[1],
        TagStandard::LabelNamespace(s) => toks[0] == "L"@ && toks.len() == 2 && s@ == toks[1],
        TagStandard::Label(labels) => toks[0] == "l"@ && labels.deep_view() == toks.skip(1),
    }
}

/// The optional token at position `i`: the token where it exists and is
/// nonempty.
fn opt_string(params: &[String], i: usize) -> (r: Option<String>)
    ensures
        opt_token(params.deep_view(), i as int, r),
{
    if i < params.len() {
        proof {
            assert(params.deep_view()[i as int] == params@[i as int]@);
        }
        if params[i].as_str().unicode_len() > 0 {
            Some(params[i].clone())
        } else {
            None
        }
    } else {
        None
    }
}

/// Whether the text announces a websocket url.
fn ws_prefix_check(s: &str) -> (r: bool)
    ensures
        r == ws_url_prefix(s@),
{
    let n = s.unicode_len();
    let short = n >= 5 && str_eq_chars(s.substring_char(0, 5), "ws://");
    let long = n >= 6 && str_eq_chars(s.substring_char(0, 6), "wss://");
    short || long
}

/// The length and characters of every tag keyword literal, pinned as ground
/// facts so that distinct keywords are known distinct when shapes are told
/// apart.
proof fn lemma_tag_keywords()
    ensures
        "a"@.len() == 1,
        "a"@[0] == 'a',
        "e"@.len() == 1,
        "e"@[0] == 'e',
        "l"@.len() == 1,
        "l"@[0] == 'l',
        "p"@.len() == 1,
        "p"@[0] == 'p',
        "P"@.len() == 1,
        "P"@[0] == 'P',
        "r"@.len() == 1,
        "r"@[0] == 'r',
        "t"@.len() == 1,
        "t"@[0] == 't',
        "g"@.len() == 1,
        "g"@[0] == 'g',
        "d"@.len() == 1,
        "d"@[0] == 'd',
        "k"@.len() == 1,
        "k"@[0] == 'k',
        "m"@.len() == 1,
        "m"@[0] == 'm',
        "x"@.len() == 1,
        "x"@[0] == 'x',
        "u"@.len() == 1,
        "u"@[0] == 'u',
        "L"@.len() == 1,
        "L"@[0] == 'L',
        "anon"@.len() == 4,
        "anon"@[0] == 'a',
        "anon"@[1] == 'n',
        "anon"@[2] == 'o',
        "anon"@[3] == 'n',
        "content-warning"@.len() == 15,
        "content-warning"@[0] == 'c',
        "content-warning"@[1] == 'o',
        "content-warning"@[2] == 'n',
        "content-warning"@[3] == 't',
        "content-warning"@[4] == 'e',
        "content-warning"@[5] == 'n',
        "content-warning"@[6] == 't',
        "content-warning"@[7] == '-',
        "content-warning"@[8] == 'w',
        "content-warning"@[9] == 'a',
        "content-warning"@[10] == 'r',
        "content-warning"@[11] == 'n',
        "content-warning"@[12] == 'i',
        "content-warning"@[13] == 'n',
        "content-warning"@[14] == 'g',
        "delegation"@.len() == 10,
        "delegation"@[0] == 'd',
        "delegation"@[1] == 'e',
        "delegation"@[2] == 'l',
        "delegation"@[3] == 'e',
        "delegation"@[4] == 'g',
        "delegation"@[5] == 'a',
        "delegation"@[6] == 't',
        "delegation"@[7] == 'i',
        "delegation"@[8] == 'o',
        "delegation"@[9] == 'n',
        "encrypted"@.len() == 9,
        "encrypted"@[0] == 'e',
        "encrypted"@[1] == 'n',
        "encrypted"@[2] == 'c',
        "encrypted"@[3] == 'r',
        "encrypted"@[4] == 'y',
        "encrypted"@[5] == 'p',
        "encrypted"@[6] == 't',
        "encrypted"@[7] == 'e',
        "encrypted"@[8] == 'd',
        "relays"@.len() == 6,
        "relays"@[0] == 'r',
        "relays"@[1] == 'e',
        "relays"@[2] == 'l',
        "relays"@[3] == 'a',
        "relays"@[4] == 'y',
        "relays"@[5] == 's',
        "relay"@.len() == 5,
        "relay"@[0] == 'r',
        "relay"@[1] == 'e',
        "relay"@[2] == 'l',
        "relay"@[3] == 'a',
        "relay"@[4] == 'y',
        "expiration"@.len() == 10,
        "expiration"@[0] == 'e',
        "expiration"@[1] == 'x',
        "expiration"@[2] == 'p',
        "expiration"@[3] == 'i',
        "expiration"@[4] == 'r',
        "expiration"@[5] == 'a',
        "expiration"@[6] == 't',
        "expiration"@[7] == 'i',
        "expiration"@[8] == 'o',
        "expiration"@[9] == 'n',
        "subject"@.len() == 7,
        "subject"@[0] == 's',
        "subject"@[1] == 'u',
        "subject"@[2] == 'b',
        "subject"@[3] == 'j',
        "subject"@[4] == 'e',
        "subject"@[5] == 'c',
        "subject"@[6] == 't',
        "challenge"@.len() == 9,
        "challenge"@[0] == 'c',
        "challenge"@[1] == 'h',
        "challenge"@[2] == 'a',
        "challenge"@[3] == 'l',
        "challenge"@[4] == 'l',
        "challenge"@[5] == 'e',
        "challenge"@[6] == 'n',
        "challenge"@[7] == 'g',
        "challenge"@[8] == 'e',
        "title"@.len() == 5,
        "title"@[0] == 't',
        "title"@[1] == 'i',
        "title"@[2] == 't',
        "title"@[3] == 'l',
        "title"@[4] == 'e',
        "image"@.len() == 5,
        "image"@[0] == 'i',
        "image"@[1] == 'm',
        "image"@[2] == 'a',
        "image"@[3] == 'g',
        "image"@[4] == 'e',
        "thumb"@.len() == 5,
        "thumb"@[0] == 't',
        "thumb"@[1] == 'h',
        "thumb"@[2] == 'u',
        "thumb"@[3] == 'm',
        "thumb"@[4] == 'b',
        "summary"@.len() == 7,
        "summary"@[0] == 's',
        "summary"@[1] == 'u',
        "summary"@[2] == 'm',
        "summary"@[3] == 'm',
        "summary"@[4] == 'a',
        "summary"@[5] == 'r',
        "summary"@[6] == 'y',
        "published_at"@.len() == 12,
        "published_at"@[0] == 'p',
        "published_at"@[1] == 'u',
        "published_at"@[2] == 'b',
        "published_at"@[3] == 'l',
        "published_at"@[4] == 'i',
        "published_at"@[5] == 's',
        "published_at"@[6] == 'h',
        "published_at"@[7] == 'e',
        "published_at"@[8] == 'd',
        "published_at"@[9] == '_',
        "published_at"@[10] == 'a',
        "published_at"@[11] == 't',
        "description"@.len() == 11,
        "description"@[0] == 'd',
        "description"@[1] == 'e',
        "description"@[2] == 's',
        "description"@[3] == 'c',
        "description"@[4] == 'r',
        "description"@[5] == 'i',
        "description"@[6] == 'p',
        "description"@[7] == 't',
        "description"@[8] == 'i',
        "description"@[9] == 'o',
        "description"@[10] == 'n',
        "bolt11"@.len() == 6,
        "bolt11"@[0] == 'b',
        "bolt11"@[1] == 'o',
        "bolt11"@[2] == 'l',
        "bolt11"@[3] == 't',
        "bolt11"@[4] == '1',
        "bolt11"@[5] == '1',
        "preimage"@.len() == 8,
        "preimage"@[0] == 'p',
        "preimage"@[1] == 'r',
        "preimage"@[2] == 'e',
        "preimage"@[3] == 'i',
        "preimage"@[4] == 'm',
        "preimage"@[5] == 'a',
        "preimage"@[6] == 'g',
        "preimage"@[7] == 'e',
        "name"@.len() == 4,
        "name"@[0] == 'n',
        "name"@[1] == 'a',
        "name"@[2] == 'm',
        "name"@[3] == 'e',
        "url"@.len() == 3,
        "url"@[0] == 'u',
        "url"@[1] == 'r',
        "url"@[2] == 'l',
        "magnet"@.len() == 6,
        "magnet"@[0] == 'm',
        "magnet"@[1] == 'a',
        "magnet"@[2] == 'g',
        "magnet"@[3] == 'n',
        "magnet"@[4] == 'e',
        "magnet"@[5] == 't',
        "blurhash"@.len() == 8,
        "blurhash"@[0] == 'b',
        "blurhash"@[1] == 'l',
        "blurhash"@[2] == 'u',
        "blurhash"@[3] == 'r',
        "blurhash"@[4] == 'h',
        "blurhash"@[5] == 'a',
        "blurhash"@[6] == 's',
        "blurhash"@[7] == 'h',
        "method"@.len() == 6,
        "method"@[0] == 'm',
        "method"@[1] == 'e',
        "method"@[2] == 't',
        "method"@[3] == 'h',
        "method"@[4] == 'o',
        "method"@[5] == 'd',
        "payload"@.len() == 7,
        "payload"@[0] == 'p',
        "payload"@[1] == 'a',
        "payload"@[2] == 'y',
        "payload"@[3] == 'l',
        "payload"@[4] == 'o',
        "payload"@[5] == 'a',
        "payload"@[6] == 'd',
        "word"@.len() == 4,
        "word"@[0] == 'w',
        "word"@[1] == 'o',
        "word"@[2] == 'r',
        "word"@[3] == 'd',
        "dim"@.len() == 3,
        "dim"@[0] == 'd',
        "dim"@[1] == 'i',
        "dim"@[2] == 'm',
        "size"@.len() == 4,
        "size"@[0] == 's',
        "size"@[1] == 'i',
        "size"@[2] == 'z',
        "size"@[3] == 'e',
        "aes-256-gcm"@.len() == 11,
        "aes-256-gcm"@[0] == 'a',
        "aes-256-gcm"@[1] == 'e',
        "aes-256-gcm"@[2] == 's',
        "aes-256-gcm"@[3] == '-',
        "aes-256-gcm"@[4] == '2',
        "aes-256-gcm"@[5] == '5',
        "aes-256-gcm"@[6] == '6',
        "aes-256-gcm"@[7] == '-',
        "aes-256-gcm"@[8] == 'g',
        "aes-256-gcm"@[9] == 'c',
        "aes-256-gcm"@[10] == 'm',
        "nonce"@.len() == 5,
        "nonce"@[0] == 'n',
        "nonce"@[1] == 'o',
        "nonce"@[2] == 'n',
        "nonce"@[3] == 'c',
        "nonce"@[4] == 'e',
        "emoji"@.len() == 5,
        "emoji"@[0] == 'e',
        "emoji"@[1] == 'm',
        "emoji"@[2] == 'o',
        "emoji"@[3] == 'j',
        "emoji"@[4] == 'i',
{
    reveal_strlit("a");
    reveal_strlit("e");
    reveal_strlit("l");
    reveal_strlit("p");
    reveal_strlit("P");
    reveal_strlit("r");
    reveal_strlit("t");
    reveal_strlit("g");
    reveal_strlit("d");
    reveal_strlit("k");
    reveal_strlit("m");
    reveal_strlit("x");
    reveal_strlit("u");
    reveal_strlit("L");
    reveal_strlit("anon");
    reveal_strlit("content-warning");
    reveal_strlit("delegation");
    reveal_strlit("encrypted");
    reveal_strlit("relays");
    reveal_strlit("relay");
    reveal_strlit("expiration");
    reveal_strlit("subject");
    reveal_strlit("challenge");
    reveal_strlit("title");
    reveal_strlit("image");
    reveal_strlit("thumb");
    reveal_strlit("summary");
    reveal_strlit("published_at");
    reveal_strlit("description");
    reveal_strlit("bolt11");
    reveal_strlit("preimage");
    reveal_strlit("name");
    reveal_strlit("url");
    reveal_strlit("magnet");
    reveal_strlit("blurhash");
    reveal_strlit("method");
    reveal_strlit("payload");
    reveal_strlit("word");
    reveal_strlit("dim");
    reveal_strlit("size");
    reveal_strlit("aes-256-gcm");
    reveal_strlit("nonce");
    reveal_strlit("emoji");
}

/// The tokens after the kind, as an owned list.
fn tail_strings(params: &[String]) -> (r: Vec<String>)
    requires
        params@.len() >= 1,
    ensures
        r.deep_view() =~= params.deep_view().skip(1),
{
    let n = params.len();
    let mut out: Vec<String> = Vec::new();
    let mut i: usize = 1;
    while i < n
        invariant
            n == params@.len(),
            1 <= i <= n,
            out@ =~= params@.subrange(1, i as int),
        decreases n - i,
    {
        out.push(params[i].clone());
        proof {
            assert(out@ =~= params@.subrange(1, i + 1));
        }
        i += 1;
    }
    proof {
        assert(out@ =~= params@.skip(1));
        assert forall|k: int| 0 <= k < out@.len() implies #[trigger] out.deep_view()[k]
            == params.deep_view().skip(1)[k] by {
            assert(out.deep_view()[k] == out@[k]@);
            assert(params.deep_view()[1 + k] == params@[1 + k]@);
        }
        assert(out.deep_view() =~= params.deep_view().skip(1));
    }
    out
}

/// Standardize an `e` tag: an event report or an event reference.
fn parse_e_tag(params: &[String]) -> (r: Result<TagStandard, TagError>)
    requires
        params.deep_view().len() >= 1,
        params.deep_view()[0] == "e"@,
    ensures
        match r {
            Ok(t) => tag_std_matches(params.deep_view(), t),
            Err(e) => {
                &&& !(exists|t: TagStandard| tag_std_matches(params.deep_view(), t))
                &&& e != TagError::KindNotFound
                &&& (e == TagError::UnknownStandardizedTag <==> params.deep_view().len() < 2)
            },
        },
{
    let ghost toks = params.deep_view();
    proof {
        lemma_tag_keywords();
        assert forall|k: int| 0 <= k < toks.len() implies #[trigger] toks[k] == params@[k]@ by {}
    }
    let n = params.len();
    if n < 2 {
        proof {
            assert forall|t: TagStandard| !tag_std_matches(toks, t) by {}
        }
        return Err(TagError::UnknownStandardizedTag);
    }
    let event_id = match EventId::from_hex(params[1].as_str()) {
        Ok(id) => id,
        Err(e) => {
            proof {
                assert forall|t: TagStandard| !tag_std_matches(toks, t) by {}
            }
            return Err(TagError::InvalidEventId(e));
        },
    };
    if n >= 3 {
        match Report::parse_str(params[2].as_str()) {
            Ok(report) => Ok(TagStandard::EventReport(event_id, report)),
            Err(_) => {
                let relay_url = opt_string(params, 2);
                let marker = if n >= 4 && params[3].as_str().unicode_len() > 0 {
                    Some(Marker::parse_str(params[3].as_str()))
                } else {
                    None
                };
                let public_key = if n >= 5 {
                    match NostrPubKey::parse_str(params[4].as_str()) {
                        Ok(pk) => Some(pk),
                        Err(e) => {
                            proof {
                                assert forall|t: TagStandard| !tag_std_matches(toks, t) by {}
                            }
                            return Err(TagError::Keys(e));
                        },
                    }
                } else {
                    None
                };
                Ok(TagStandard::Event { event_id, relay_url, marker, public_key })
            },
        }
    } else {
        Ok(TagStandard::event(event_id))
    }
}

/// Standardize a `p`/`P` tag: a key report or a key reference.
fn parse_p_tag(params: &[String], uppercase: bool) -> (r: Result<TagStandard, TagError>)
    requires
        params.deep_view().len() >= 1,
        params.deep_view()[0] == (if uppercase {
            "P"@
        } else {
            "p"@
        }),
    ensures
        match r {
            Ok(t) => tag_std_matches(params.deep_view(), t),
            Err(e) => {
                &&& !(exists|t: TagStandard| tag_std_matches(params.deep_view(), t))
                &&& e != TagError::KindNotFound
                &&& (e == TagError::UnknownStandardizedTag <==> params.deep_view().len() < 2)
            },
        },
{
    let ghost toks = params.deep_view();
    proof {
        lemma_tag_keywords();
        assert forall|k: int| 0 <= k < toks.len() implies #[trigger] toks[k] == params@[k]@ by {}
    }
    let n = params.len();
    if n < 2 {
        proof {
            assert forall|t: TagStandard| !tag_std_matches(toks, t) by {}
        }
        return Err(TagError::UnknownStandardizedTag);
    }
    let public_key = match NostrPubKey::parse_str(params[1].as_str()) {
        Ok(pk) => pk,
        Err(e) => {
            proof {
                assert forall|t: TagStandard| !tag_std_matches(toks, t) by {}
            }
            return Err(TagError::Keys(e));
        },
    };
    if n >= 3 {
        match Report::parse_str(params[2].as_str()) {
            Ok(report) => Ok(TagStandard::PublicKeyReport(public_key, report)),
            Err(_) => {
                let relay_url = opt_string(params, 2);
                let alias = opt_string(params, 3);
                Ok(TagStandard::PublicKey { public_key, relay_url, alias, uppercase })
            },
        }
    } else {
        Ok(TagStandard::PublicKey { public_key, relay_url: None, alias: None, uppercase })
    }
}

/// Standardize an `a` tag: a coordinate reference.
fn parse_a_tag(params: &[String]) -> (r: Result<TagStandard, TagError>)
    requires
        params.deep_view().len() >= 1,
        params.deep_view()[0] == "a"@,
    ensures
        match r {
            Ok(t) => tag_std_matches(params.deep_view(), t),
            Err(e) => {
                &&& !(exists|t: TagStandard| tag_std_matches(params.deep_view(), t))
                &&& e != TagError::KindNotFound
                &&& (e == TagError::UnknownStandardizedTag <==> params.deep_view().len() < 2)
            },
        },
{
    let ghost toks = params.deep_view();
    proof {
        lemma_tag_keywords();
        assert forall|k: int| 0 <= k < toks.len() implies #[trigger] toks[k] == params@[k]@ by {}
    }
    let n = params.len();
    if n < 2 {
        proof {
            assert forall|t: TagStandard| !tag_std_matches(toks, t) by {}
        }
        return Err(TagError::UnknownStandardizedTag);
    }
    let coordinate = match Coordinate::from_kpi_format(params[1].as_str()) {
        Ok(c) => c,
        Err(e) => {
            proof {
                assert forall|t: TagStandard| !tag_std_matches(toks, t) by {}
            }
            return Err(TagError::InvalidEvent(e));
        },
    };
    let relay_url = opt_string(params, 2);
    Ok(TagStandard::Coordinate { coordinate, relay_url })
}

/// Standardize a `delegation` tag.
fn parse_delegation_tag(params: &[String]) -> (r: Result<TagStandard, TagError>)
    requires
        params.deep_view().len() >= 1,
        params.deep_view()[0] == "delegation"@,
    ensures
        match r {
            Ok(t) => tag_std_matches(params.deep_view(), t),
            Err(e) => {
                &&& !(exists|t: TagStandard| tag_std_matches(params.deep_view(), t))
                &&& e != TagError::KindNotFound
                &&& (e == TagError::UnknownStandardizedTag <==> params.deep_view().len() < 4)
            },
        },
{
    let ghost toks = params.deep_view();
    proof {
        lemma_tag_keywords();
        assert forall|k: int| 0 <= k < toks.len() implies #[trigger] toks[k] == params@[k]@ by {}
    }
    let n = params.len();
    if n < 4 {
        proof {
            assert forall|t: TagStandard| !tag_std_matches(toks, t) by {}
        }
        return Err(TagError::UnknownStandardizedTag);
    }
    let delegator = match NostrPubKey::parse_str(params[1].as_str()) {
        Ok(pk) => pk,
        Err(e) => {
            proof {
                assert forall|t: TagStandard| !tag_std_matches(toks, t) by {}
            }
            return Err(TagError::Keys(e));
        },
    };
    let conditions = match Conditions::parse_str(params[2].as_str()) {
        Ok(c) => c,
        Err(_) => {
            proof {
                assert forall|t: TagStandard| !tag_std_matches(toks, t) by {}
            }
            return Err(TagError::InvalidTagField(params[2].clone()));
        },
    };
    let sig = match NostrSignature::parse_str(params[3].as_str()) {
        Ok(s) => s,
        Err(e) => {
            proof {
                assert forall|t: TagStandard| !tag_std_matches(toks, t) by {}
            }
            return Err(TagError::Keys(e));
        },
    };
    Ok(TagStandard::Delegation { delegator, conditions, sig })
}

impl TagStandard {
    /// Standardize a raw token list: dispatch on the first token, then on
    /// arity and content. A token list of an unrecognized shape is a soft
    /// failure: the caller keeps the raw tag.
    #[verifier::rlimit(100)]
    pub fn parse(params: &[String]) -> (r: Result<TagStandard, TagError>)
        ensures
            match r {
                Ok(t) => tag_std_matches(params.deep_view(), t),
                Err(e) => {
                    &&& (e == TagError::KindNotFound <==> params.deep_view().len() == 0)
                    &&& (e == TagError::UnknownStandardizedTag <==> params.deep_view().len() > 0
                        && !tag_kind_recognized(params.deep_view()))
                    &&& !(exists|t: TagStandard| tag_std_matches(params.deep_view(), t))
                },
            },
    {
        let ghost toks = params.deep_view();
        if params.len() == 0 {
            proof {
                assert forall|t: TagStandard| !tag_std_matches(toks, t) by {}
            }
            return Err(TagError::KindNotFound);
        }
        proof {
            lemma_tag_keywords();
            assert forall|k: int| 0 <= k < toks.len() implies #[trigger] toks[k] == params@[k]@
                by {}
        }
        let t0 = params[0].as_str();
        if str_eq_chars(t0, "a") {
            return parse_a_tag(params);
        }
        if str_eq_chars(t0, "e") {
            return parse_e_tag(params);
        }
        if str_eq_chars(t0, "l") {
            return Ok(TagStandard::Label(tail_strings(params)));
        }
        if str_eq_chars(t0, "p") {
            return parse_p_tag(params, false);
        }
        if str_eq_chars(t0, "P") {
            return parse_p_tag(params, true);
        }
        if str_eq_chars(t0, "anon") {
            return Ok(TagStandard::Anon { msg: opt_string(params, 1) });
        }
        if str_eq_chars(t0, "content-warning") {
            return Ok(TagStandard::ContentWarning { reason: opt_string(params, 1) });
        }
        if str_eq_chars(t0, "delegation") {
            return parse_delegation_tag(params);
        }
        if str_eq_chars(t0, "encrypted") {
            return Ok(TagStandard::Encrypted);
        }
        if str_eq_chars(t0, "relays") {
            return Ok(TagStandard::Relays(tail_strings(params)));
        }
        let n = params.len();
        if n == 2 {
            let t1 = params[1].as_str();
            if str_eq_chars(t0, "r") {
                if ws_prefix_check(t1) {
                    return match url_parse_normalize(t1) {
                        Some(u) => Ok(TagStandard::RelayMetadata { relay_url: u, metadata: None }),
                        None => {
                            proof {
                                assert forall|t: TagStandard| !tag_std_matches(toks, t) by {}
                            }
                            Err(TagError::Parse(ParseError::URL))
                        },
                    };
                } else {
                    return Ok(TagStandard::Reference(params[1].clone()));
                }
            }
            if str_eq_chars(t0, "t") {
                return Ok(TagStandard::Hashtag(params[1].clone()));
            }
            if str_eq_chars(t0, "g") {
                return Ok(TagStandard::Geohash(params[1].clone()));
            }
            if str_eq_chars(t0, "d") {
                return Ok(TagStandard::Identifier(params[1].clone()));
            }
            if str_eq_chars(t0, "k") {
                return match Kind::parse_str(t1) {
                    Ok(k) => Ok(TagStandard::Kind(k)),
                    Err(_) => {
                        proof {
                            assert forall|t: TagStandard| !tag_std_matches(toks, t) by {}
                        }
                        Err(TagError::Parse(ParseError::ParseInt))
                    },
                };
            }
            if str_eq_chars(t0, "m") {
                return Ok(TagStandard::MimeType(params[1].clone()));
            }
            if str_eq_chars(t0, "x") {
                return match hex_to_bytes(t1) {
                    Some(b) => if b.len() == 32 {
                        Ok(TagStandard::Sha256(b))
                    } else {
                        proof {
                            assert forall|t: TagStandard| !tag_std_matches(toks, t) by {}
                        }
                        Err(TagError::Parse(ParseError::Hex))
                    },
                    None => {
                        proof {
                            assert forall|t: TagStandard| !tag_std_matches(toks, t) by {}
                        }
                        Err(TagError::Parse(ParseError::Hex))
                    },
                };
            }
            if str_eq_chars(t0, "u") {
                return Ok(TagStandard::AbsoluteURL(params[1].clone()));
            }
            if str_eq_chars(t0, "L") {
                return Ok(TagStandard::LabelNamespace(params[1].clone()));
            }
            if str_eq_chars(t0, "relay") {
                return Ok(TagStandard::Relay(params[1].clone()));
            }
            if str_eq_chars(t0, "expiration") {
                return match Timestamp::parse_str(t1) {
                    Ok(ts) => Ok(TagStandard::Expiration(ts)),
                    Err(_) => {
                        proof {
                            assert forall|t: TagStandard| !tag_std_matches(toks, t) by {}
                        }
                        Err(TagError::Parse(ParseError::ParseInt))
                    },
                };
            }
            if str_eq_chars(t0, "subject") {
                return Ok(TagStandard::Subject(params[1].clone()));
            }
            if str_eq_chars(t0, "challenge") {
                return Ok(TagStandard::Challenge(params[1].clone()));
            }
            if str_eq_chars(t0, "title") {
                return Ok(TagStandard::Title(params[1].clone()));
            }
            if str_eq_chars(t0, "image") {
                return Ok(TagStandard::Image(params[1].clone(), None));
            }
            if str_eq_chars(t0, "thumb") {
                return Ok(TagStandard::Thumb(params[1].clone(), None));
            }
            if str_eq_chars(t0, "summary") {
                return Ok(TagStandard::Summary(params[1].clone()));
            }
            if str_eq_chars(t0, "published_at") {
                return match Timestamp::parse_str(t1) {
                    Ok(ts) => Ok(TagStandard::PublishedAt(ts)),
                    Err(_) => {
                        proof {
                            assert forall|t: TagStandard| !tag_std_matches(toks, t) by {}
                        }
                        Err(TagError::Parse(ParseError::ParseInt))
                    },
                };
            }
            if str_eq_chars(t0, "description") {
                return Ok(TagStandard::Description(params[1].clone()));
            }
            if str_eq_chars(t0, "bolt11") {
                return Ok(TagStandard::Bolt11(params[1].clone()));
            }
            if str_eq_chars(t0, "preimage") {
                return Ok(TagStandard::Preimage(params[1].clone()));
            }
            if str_eq_chars(t0, "name") {
                return Ok(TagStandard::Name(params[1].clone()));
            }
            if str_eq_chars(t0, "url") {
                return match url_parse_normalize(t1) {
                    Some(u) => Ok(TagStandard::Url(u)),
                    None => {
                        proof {
                            assert forall|t: TagStandard| !tag_std_matches(toks, t) by {}
                        }
                        Err(TagError::Parse(ParseError::URL))
                    },
                };
            }
            if str_eq_chars(t0, "magnet") {
                return Ok(TagStandard::Magnet(params[1].clone()));
            }
            if str_eq_chars(t0, "blurhash") {
                return Ok(TagStandard::Blurhash(params[1].clone()));
            }
            if str_eq_chars(t0, "method") {
                return match NostrHttpMethod::parse_str(t1) {
                    Ok(m) => Ok(TagStandard::Method(m)),
                    Err(e) => {
                        proof {
                            assert forall|t: TagStandard| !tag_std_matches(toks, t) by {}
                        }
                        Err(e)
                    },
                };
            }
            if str_eq_chars(t0, "payload") {
                return match hex_to_bytes(t1) {
                    Some(b) => if b.len() == 32 {
                        Ok(TagStandard::Payload(b))
                    } else {
                        proof {
                            assert forall|t: TagStandard| !tag_std_matches(toks, t) by {}
                        }
                        Err(TagError::Parse(ParseError::Hex))
                    },
                    None => {
                        proof {
                            assert forall|t: TagStandard| !tag_std_matches(toks, t) by {}
                        }
                        Err(TagError::Parse(ParseError::Hex))
                    },
                };
            }
            if str_eq_chars(t0, "word") {
                return Ok(TagStandard::Word(params[1].clone()));
            }
            if str_eq_chars(t0, "dim") {
                return match ImageDimensions::parse_str(t1) {
                    Ok(d) => Ok(TagStandard::Dim(d)),
                    Err(e) => {
                        proof {
                            assert forall|t: TagStandard| !tag_std_matches(toks, t) by {}
                        }
                        Err(TagError::Parse(e))
                    },
                };
            }
            if str_eq_chars(t0, "size") {
                return match parse_dec_usize(t1) {
                    Some(v) => Ok(TagStandard::Size(v)),
                    None => {
                        proof {
                            assert forall|t: TagStandard| !tag_std_matches(toks, t) by {}
                        }
                        Err(TagError::Parse(ParseError::ParseInt))
                    },
                };
            }
            proof {
                assert forall|t: TagStandard| !tag_std_matches(toks, t) by {}
            }
            return Err(TagError::UnknownStandardizedTag);
        }
        if n == 3 {
            let t1 = params[1].as_str();
            let t2 = params[2].as_str();
            if str_eq_chars(t0, "nonce") {
                let nonce = match parse_dec_u128(t1) {
                    Some(v) => v,
                    None => {
                        proof {
                            assert forall|t: TagStandard| !tag_std_matches(toks, t) by {}
                        }
                        return Err(TagError::Parse(ParseError::ParseInt));
                    },
                };
                let difficulty = match parse_dec_u8(t2) {
                    Some(v) => v,
                    None => {
                        proof {
                            assert forall|t: TagStandard| !tag_std_matches(toks, t) by {}
                        }
                        return Err(TagError::Parse(ParseError::ParseInt));
                    },
                };
                return Ok(TagStandard::POW { nonce, difficulty });
            }
            if str_eq_chars(t0, "image") {
                return match ImageDimensions::parse_str(t2) {
                    Ok(d) => Ok(TagStandard::Image(params[1].clone(), Some(d))),
                    Err(e) => {
                        proof {
                            assert forall|t: TagStandard| !tag_std_matches(toks, t) by {}
                        }
                        Err(TagError::Parse(e))
                    },
                };
            }
            if str_eq_chars(t0, "thumb") {
                return match ImageDimensions::parse_str(t2) {
                    Ok(d) => Ok(TagStandard::Thumb(params[1].clone(), Some(d))),
                    Err(e) => {
                        proof {
                            assert forall|t: TagStandard| !tag_std_matches(toks, t) by {}
                        }
                        Err(TagError::Parse(e))
                    },
                };
            }
            if str_eq_chars(t0, "aes-256-gcm") {
                return Ok(
                    TagStandard::Aes256Gcm { key: params[1].clone(), iv: params[2].clone() },
                );
            }
            if str_eq_chars(t0, "r") {
                if ws_prefix_check(t1) && t2.unicode_len() > 0 {
                    let u = match url_parse_normalize(t1) {
                        Some(u) => u,
                        None => {
                            proof {
                                assert forall|t: TagStandard| !tag_std_matches(toks, t) by {}
                            }
                            return Err(TagError::Parse(ParseError::URL));
                        },
                    };
                    return match RelayMetadata::parse_str(t2) {
                        Ok(m) => Ok(
                            TagStandard::RelayMetadata { relay_url: u, metadata: Some(m) },
                        ),
                        Err(_) => {
                            proof {
                                assert forall|t: TagStandard| !tag_std_matches(toks, t) by {}
                            }
                            Err(TagError::InvalidRelayMetadata(params[2].clone()))
                        },
                    };
                } else {
                    proof {
                        assert forall|t: TagStandard| !tag_std_matches(toks, t) by {}
                    }
                    return Err(TagError::UnknownStandardizedTag);
                }
            }
            if str_eq_chars(t0, "emoji") {
                return Ok(
                    TagStandard::Emoji { shortcode: params[1].clone(), url: params[2].clone() },
                );
            }
            proof {
                assert forall|t: TagStandard| !tag_std_matches(toks, t) by {}
            }
            return Err(TagError::UnknownStandardizedTag);
        }
        proof {
            assert forall|t: TagStandard| !tag_std_matches(toks, t) by {}
        }
        Err(TagError::UnknownStandardizedTag)
    }
}

/// True when the first token and the arity select some standardization rule:
/// these are exactly the token lists on which failure means a broken field,
/// not an unknown shape.
pub open spec fn tag_kind_recognized(toks: Seq<Seq<char>>) -> bool {
    toks.len() > 0 && {
        let t0 = toks[0];
        ||| t0 == "l"@
        ||| t0 == "anon"@
        ||| t0 == "content-warning"@
        ||| t0 == "encrypted"@
        ||| t0 == "relays"@
        ||| ((t0 == "a"@ || t0 == "e"@ || t0 == "p"@ || t0 == "P"@) && toks.len() >= 2)
        ||| (t0 == "delegation"@ && toks.len() >= 4)
        ||| (toks.len() == 2 && (t0 == "r"@ || t0 == "t"@ || t0 == "g"@ || t0 == "d"@ || t0
            == "k"@ || t0 == "m"@ || t0 == "x"@ || t0 == "u"@ || t0 == "L"@ || t0 == "relay"@
            || t0 == "expiration"@ || t0 == "subject"@ || t0 == "challenge"@ || t0 == "title"@
            || t0 == "image"@ || t0 == "thumb"@ || t0 == "summary"@ || t0 == "published_at"@
            || t0 == "description"@ || t0 == "bolt11"@ || t0 == "preimage"@ || t0 == "name"@
            || t0 == "url"@ || t0 == "magnet"@ || t0 == "blurhash"@ || t0 == "method"@ || t0
            == "payload"@ || t0 == "word"@ || t0 == "dim"@ || t0 == "size"@))
        ||| (toks.len() == 3 && (t0 == "nonce"@ || t0 == "image"@ || t0 == "thumb"@ || t0
            == "aes-256-gcm"@ || t0 == "emoji"@))
        ||| (toks.len() == 3 && t0 == "r"@ && ws_url_prefix(toks[1]) && toks[2].len() > 0)
    }
}

impl Default for TagStandard {
    /// A tag starts unprocessed.
    fn default() -> (r: TagStandard)
        ensures
            r == TagStandard::NotProcessed,
    {
        TagStandard::NotProcessed
    }
}

impl TagStandard {
    /// A plain event reference without relay, marker or author.
    pub fn event(event_id: EventId) -> (r: TagStandard)
        ensures
            r matches TagStandard::Event { event_id: id, relay_url, marker, public_key } && id@
                == event_id@ && relay_url is None && marker is None && public_key is None,
    {
        TagStandard::Event { event_id, relay_url: None, marker: None, public_key: None }
    }
}

} // verus!
