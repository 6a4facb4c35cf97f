//! The `nostr:` URI form, and the generic bech32 entity: any NIP-19 string
//! decoded to the matching entity without knowing its kind beforehand.
use vstd::prelude::*;
use crate::basecore::ParseError;
use crate::coordinate::{Coordinate, coordinate_from_tlv, find_char_from, CoordScan};
use crate::event_error::EventDataError;
use crate::event_id::EventId;
use crate::basecore::AsymmetricKeyError;
use crate::coordinate::{coordinate_tlv, coordinate_encodable};
use crate::event_error::EventIdError;
use crate::nostrbech32::{
    bech32_decoding, bech32_encoding, decode_bech32, no_colon, str_eq_chars, prefix_of_chars,
    NostrBech32Prefix,
};
use crate::nostrprofile::{profile_tlv, profile_encodable};
use crate::relayinfo::{relay_url_tlv, relay_url_encodable};
use crate::sharedevent::{shared_event_tlv, shared_event_encodable};
use crate::nostrprofile::{NostrProfile, profile_from_tlv};
use crate::relayinfo::{RelayUrl, relay_url_from_tlv};
use crate::sharedevent::{SharedEvent, shared_event_from_tlv, author_view, kind_view, SharedScan};
use crate::signing::{NostrSecretKey, NostrPubKey, secret_bytes_ok, pubkey_bytes_ok};
use vstd::string::{StrSliceExecFns, StringExecFns};

verus! {

/// The body of a `nostr:` URI: the text between the first and second colon,
/// provided the scheme before the first colon is `nostr`.
pub open spec fn split_uri_spec(s: Seq<char>) -> Option<Seq<char>> {
    let i1 = find_char_from(s, ':', 0);
    if s.take(i1) != "nostr"@ || i1 == s.len() {
        None
    } else {
        let i2 = find_char_from(s, ':', i1 + 1);
        Some(s.subrange(i1 + 1, i2))
    }
}

/// Split a `nostr:` URI into its body; reject any other scheme.
pub fn split_uri(uri: &str) -> (r: Result<&str, EventDataError>)
    ensures
        match r {
            Ok(body) => split_uri_spec(uri@) == Some(body@),
            Err(e) => split_uri_spec(uri@) is None && (e matches EventDataError::Parse(pe)
                && pe matches ParseError::BadURI(u) && u@ == uri@),
        },
{
    let n = uri.unicode_len();
    let i1 = crate::coordinate::find_char(uri, ':', 0);
    let scheme = uri.substring_char(0, i1);
    if !str_eq_chars(scheme, "nostr") {
        return Err(EventDataError::Parse(ParseError::BadURI(String::from_str(uri))));
    }
    if i1 == n {
        return Err(EventDataError::Parse(ParseError::BadURI(String::from_str(uri))));
    }
    let i2 = crate::coordinate::find_char(uri, ':', i1 + 1);
    Ok(uri.substring_char(i1 + 1, i2))
}

/// Any NIP-19 bech32 entity, for decoding without knowing the kind ahead of
/// time.
#[derive(Debug, Clone, PartialEq, Eq)]
pub enum NostrTagResource {
    /// `nsec`.
    Secret(NostrSecretKey),
    /// `npub`.
    Pubkey(NostrPubKey),
    /// `nprofile`.
    Profile(NostrProfile),
    /// `note`.
    EventId(EventId),
    /// `nevent`.
    Event(SharedEvent),
    /// `naddr`.
    Coordinate(Coordinate),
    /// `nrelay`.
    Relay(RelayUrl),
}

/// What decoding a bech32 string to a generic entity yields: dispatch on the
/// prefix, then that entity's own payload reading.
pub open spec fn resource_decoded(s: Seq<char>, r: NostrTagResource) -> bool {
    match bech32_decoding(s) {
        None => false,
        Some(p) => match prefix_of_chars(p.0) {
            Some(NostrBech32Prefix::NSec) => r matches NostrTagResource::Secret(k)
                && secret_bytes_ok(p.1) && k@ == p.1,
            Some(NostrBech32Prefix::NPub) => r matches NostrTagResource::Pubkey(k)
                && pubkey_bytes_ok(p.1) && k@ == p.1,
            Some(NostrBech32Prefix::Note) => r matches NostrTagResource::EventId(id) && p.1.len()
                == 32 && id@ == p.1,
            Some(NostrBech32Prefix::NProfile) => r matches NostrTagResource::Profile(pr)
                && profile_from_tlv(p.1) == Ok::<(Seq<u8>, Seq<Seq<char>>), ParseError>(
                (pr.public_key@, pr.relays.deep_view()),
            ),
            Some(NostrBech32Prefix::NEvent) => r matches NostrTagResource::Event(e)
                && shared_event_from_tlv(p.1) == Ok::<SharedScan, ParseError>(
                (Some(e.event_id@), author_view(e.author), kind_view(e.kind), e.relays.deep_view()),
            ),
            Some(NostrBech32Prefix::NAddr) => r matches NostrTagResource::Coordinate(c)
                && coordinate_from_tlv(p.1) == Ok::<CoordScan, EventDataError>(
                (Some(c.identifier@), Some(c.public_key@), Some(c.kind.0), c.relays.deep_view()),
            ),
            Some(NostrBech32Prefix::NRelay) => r matches NostrTagResource::Relay(u)
                && relay_url_from_tlv(p.1) == Ok::<Seq<char>, ParseError>(u@),
            None => false,
        },
    }
}

/// The bech32 rendering of an entity, under its own prefix.
pub open spec fn resource_encoding(r: NostrTagResource) -> Seq<char> {
    match r {
        NostrTagResource::Secret(k) => bech32_encoding("nsec"@, k@),
        NostrTagResource::Pubkey(k) => bech32_encoding("npub"@, k@),
        NostrTagResource::EventId(id) => bech32_encoding("note"@, id@),
        NostrTagResource::Profile(p) => bech32_encoding(
            "nprofile"@,
            profile_tlv(p.public_key@, p.relays.deep_view()),
        ),
        NostrTagResource::Event(e) => bech32_encoding(
            "nevent"@,
            shared_event_tlv(
                e.event_id@,
                author_view(e.author),
                kind_view(e.kind),
                e.relays.deep_view(),
            ),
        ),
        NostrTagResource::Coordinate(c) => bech32_encoding(
            "naddr"@,
            coordinate_tlv(c.kind.0, c.public_key@, c.identifier@, c.relays.deep_view()),
        ),
        NostrTagResource::Relay(u) => bech32_encoding("nrelay"@, relay_url_tlv(u@)),
    }
}

/// True when an entity fits its encoding: keys and ids always do; the TLV
/// entities by their own bounds.
pub open spec fn resource_encodable(r: NostrTagResource) -> bool {
    match r {
        NostrTagResource::Secret(_) => true,
        NostrTagResource::Pubkey(_) => true,
        NostrTagResource::EventId(_) => true,
        NostrTagResource::Profile(p) => profile_encodable(p.public_key@, p.relays.deep_view()),
        NostrTagResource::Event(e) => shared_event_encodable(
            e.event_id@,
            author_view(e.author),
            kind_view(e.kind),
            e.relays.deep_view(),
        ),
        NostrTagResource::Coordinate(c) => coordinate_encodable(
            c.kind.0,
            c.public_key@,
            c.identifier@,
            c.relays.deep_view(),
        ),
        NostrTagResource::Relay(u) => relay_url_encodable(u@),
    }
}

/// The error decoding a bech32 string to a generic entity reports: text that
/// is not bech32, an unknown prefix, or the selected entity's own failure.
pub open spec fn resource_decode_err(s: Seq<char>, e: EventDataError) -> bool {
    match bech32_decoding(s) {
        None => e == EventDataError::Parse(ParseError::Bech32),
        Some(p) => match prefix_of_chars(p.0) {
            None => e == EventDataError::InvalidResource,
            Some(NostrBech32Prefix::NSec) => !crate::signing::secret_bytes_ok(p.1) && e
                == EventDataError::Keys(AsymmetricKeyError::InvalidSecretKey),
            Some(NostrBech32Prefix::NPub) => !pubkey_bytes_ok(p.1) && e == EventDataError::Keys(
                AsymmetricKeyError::InvalidPublicKey,
            ),
            Some(NostrBech32Prefix::Note) => p.1.len() != 32 && e == EventDataError::InvalidEventId(
                EventIdError::Parse(ParseError::TryFromSlice),
            ),
            Some(NostrBech32Prefix::NProfile) => crate::nostrprofile::profile_from_tlv(p.1) is Err
                && e == EventDataError::Parse(crate::nostrprofile::profile_from_tlv(p.1)->Err_0),
            Some(NostrBech32Prefix::NEvent) => shared_event_from_tlv(p.1) is Err && e
                == EventDataError::Parse(shared_event_from_tlv(p.1)->Err_0),
            Some(NostrBech32Prefix::NAddr) => coordinate_from_tlv(p.1) is Err && e
                == coordinate_from_tlv(p.1)->Err_0,
            Some(NostrBech32Prefix::NRelay) => relay_url_from_tlv(p.1) is Err && e
                == EventDataError::Parse(relay_url_from_tlv(p.1)->Err_0),
        },
    }
}

impl NostrTagResource {
    /// Decode any NIP-19 bech32 string to the entity its prefix names; reject
    /// text that is not bech32, an unknown prefix, and a payload the entity's
    /// own reading rejects, each with its own error.
    pub fn from_bech32(s: &str) -> (r: Result<NostrTagResource, EventDataError>)
        ensures
            match r {
                Ok(v) => resource_decoded(s@, v),
                Err(e) => resource_decode_err(s@, e),
            },
    {
        let (hrp, data) = match decode_bech32(s) {
            Ok(p) => p,
            Err(_) => {
                return Err(EventDataError::Parse(ParseError::Bech32));
            },
        };
        let prefix = match NostrBech32Prefix::from_hrp(hrp.as_str()) {
            Ok(p) => p,
            Err(_) => {
                return Err(EventDataError::InvalidResource);
            },
        };
        match prefix {
            NostrBech32Prefix::NSec => match NostrSecretKey::from_bech32_data(data.as_slice()) {
                Ok(k) => Ok(NostrTagResource::Secret(k)),
                Err(e) => Err(EventDataError::Keys(e)),
            },
            NostrBech32Prefix::NPub => match NostrPubKey::from_bech32_data(data.as_slice()) {
                Ok(k) => Ok(NostrTagResource::Pubkey(k)),
                Err(e) => Err(EventDataError::Keys(e)),
            },
            NostrBech32Prefix::Note => match EventId::from_bech32_data(data.as_slice()) {
                Ok(id) => Ok(NostrTagResource::EventId(id)),
                Err(e) => Err(EventDataError::InvalidEventId(e)),
            },
            NostrBech32Prefix::NProfile => match NostrProfile::from_bech32_data(data.as_slice()) {
                Ok(p) => Ok(NostrTagResource::Profile(p)),
                Err(e) => Err(EventDataError::Parse(e)),
            },
            NostrBech32Prefix::NEvent => match SharedEvent::from_bech32_data(data.as_slice()) {
                Ok(e) => Ok(NostrTagResource::Event(e)),
                Err(e) => Err(EventDataError::Parse(e)),
            },
            NostrBech32Prefix::NAddr => match Coordinate::from_bech32_data(data.as_slice()) {
                Ok(c) => Ok(NostrTagResource::Coordinate(c)),
                Err(e) => Err(e),
            },
            NostrBech32Prefix::NRelay => match RelayUrl::from_bech32_data(data.as_slice()) {
                Ok(u) => Ok(NostrTagResource::Relay(u)),
                Err(e) => Err(EventDataError::Parse(e)),
            },
        }
    }

    /// Encode the entity under its own prefix; fails exactly where the
    /// entity's own encoder does.
    pub fn to_bech32(&self) -> (r: Result<String, EventDataError>)
        ensures
            match r {
                Ok(s) => resource_encodable(*self) && s@ == resource_encoding(*self) && no_colon(
                    s@,
                ),
                Err(e) => !resource_encodable(*self) && e == EventDataError::Parse(
                    ParseError::ToBech32,
                ),
            },
    {
        match self {
            NostrTagResource::Secret(k) => Ok(k.to_bech32()),
            NostrTagResource::Pubkey(k) => Ok(k.to_bech32()),
            NostrTagResource::EventId(id) => match id.to_bech32() {
                Ok(s) => Ok(s),
                Err(e) => Err(EventDataError::InvalidEventId(e)),
            },
            NostrTagResource::Profile(p) => match p.to_bech32() {
                Ok(s) => Ok(s),
                Err(e) => Err(EventDataError::Parse(e)),
            },
            NostrTagResource::Event(e) => match e.to_bech32() {
                Ok(s) => Ok(s),
                Err(e) => Err(EventDataError::Parse(e)),
            },
            NostrTagResource::Coordinate(c) => c.to_bech32(),
            NostrTagResource::Relay(u) => match u.to_bech32() {
                Ok(s) => Ok(s),
                Err(e) => Err(EventDataError::Parse(e)),
            },
        }
    }

    /// The entity as a `nostr:` URI: the scheme, one colon, then the whole
    /// bech32 rendering — which splitting the URI hands back unchanged.
    pub fn to_nostr_uri(&self) -> (r: Result<String, EventDataError>)
        ensures
            match r {
                Ok(s) => resource_encodable(*self) && s@ == "nostr:"@ + resource_encoding(*self)
                    && split_uri_spec(s@) == Some(resource_encoding(*self)),
                Err(e) => !resource_encodable(*self) && e == EventDataError::Parse(
                    ParseError::ToBech32,
                ),
            },
    {
        let body = self.to_bech32()?;
        let out = String::from_str("nostr:").concat(body.as_str());
        proof {
            reveal_strlit("nostr:");
            reveal_strlit("nostr");
            let s = out@;
            let b = body@;
            assert(s =~= "nostr:"@ + b);
            assert(s[5] == ':');
            assert forall|k: int| 0 <= k < 5 implies s[k] != ':' by {}
            lemma_find_char_prefix(s, ':', 0, 5);
            assert(find_char_from(s, ':', 0) == 5);
            assert(s.take(5) =~= "nostr"@);
            let i2 = find_char_from(s, ':', 6);
            assert(split_uri_spec(s) == Some(s.subrange(6, i2)));
            assert forall|k: int| 0 <= k < b.len() implies s[6 + k] == b[k] by {}
            lemma_find_char_shift(b, ':', 0, s, 6);
            lemma_find_char_absent(b, ':', 0);
            let f = find_char_from(b, ':', 0);
            assert(f == b.len());
            assert(i2 == 6 + f);
            assert forall|k: int| 0 <= k < f implies s.subrange(6, i2)[k] == b[k] by {
                assert(s.subrange(6, i2)[k] == s[6 + k]);
            }
            assert(s.subrange(6, i2) =~= b);
        }
        Ok(out)
    }

    /// Decode the entity out of a `nostr:` URI: split off the scheme, then
    /// decode the body as bech32.
    pub fn from_nostr_uri(uri: &str) -> (r: Result<NostrTagResource, EventDataError>)
        ensures
            match r {
                Ok(v) => split_uri_spec(uri@) matches Some(b) && resource_decoded(b, v),
                Err(e) => match split_uri_spec(uri@) {
                    None => e matches EventDataError::Parse(pe) && pe matches ParseError::BadURI(u)
                        && u@ == uri@,
                    Some(b) => resource_decode_err(b, e),
                },
            },
    {
        let body = split_uri(uri)?;
        Self::from_bech32(body)
    }
}

/// Where the character never appears at or after `from`, the search reaches
/// the end.
proof fn lemma_find_char_absent(s: Seq<char>, c: char, from: int)
    requires
        0 <= from <= s.len(),
        forall|k: int| from <= k < s.len() ==> s[k] != c,
    ensures
        find_char_from(s, c, from) == s.len(),
    decreases s.len() - from,
{
    if from < s.len() {
        lemma_find_char_absent(s, c, from + 1);
    }
}

/// The search never leaves the text.
pub proof fn lemma_find_char_bounds(s: Seq<char>, c: char, from: int)
    requires
        0 <= from <= s.len(),
    ensures
        from <= find_char_from(s, c, from) <= s.len(),
    decreases s.len() - from,
{
    if from < s.len() && s[from] != c {
        lemma_find_char_bounds(s, c, from + 1);
    }
}

/// Where a character does not appear before `at` and stands at `at`, the
/// search from `from` finds `at`.
proof fn lemma_find_char_prefix(s: Seq<char>, c: char, from: int, at: int)
    requires
        0 <= from <= at < s.len(),
        s[at] == c,
        forall|k: int| from <= k < at ==> s[k] != c,
    ensures
        find_char_from(s, c, from) == at,
    decreases at - from,
{
    if from < at {
        lemma_find_char_prefix(s, c, from + 1, at);
    }
}

/// Searching a suffix copy finds the same place, shifted.
proof fn lemma_find_char_shift(b: Seq<char>, c: char, from: int, s: Seq<char>, offset: int)
    requires
        0 <= from <= b.len(),
        0 <= offset,
        s.len() == offset + b.len(),
        forall|k: int| 0 <= k < b.len() ==> s[offset + k] == b[k],
    ensures
        find_char_from(s, c, offset + from) == offset + find_char_from(b, c, from),
    decreases b.len() - from,
{
    if from < b.len() {
        if b[from] != c {
            lemma_find_char_shift(b, c, from + 1, s, offset);
        }
    }
}

} // verus!
