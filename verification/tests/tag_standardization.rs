//! Tag standardization: per-kind dispatch, arity selection, report
//! precedence, and the soft failure on unknown shapes. Also the supporting
//! vocabulary: single letters, reports, markers, dimensions, timestamps.
use freederation_nostr_backend::event_kind::Kind;
use freederation_nostr_backend::nostrimage::ImageDimensions;
use freederation_nostr_backend::relaymetadata::RelayMetadata;
use freederation_nostr_backend::report::Report;
use freederation_nostr_backend::single_letter_tag::{Alphabet, SingleLetterTag};
use freederation_nostr_backend::tagdata::TagData;
use freederation_nostr_backend::tagerror::TagError;
use freederation_nostr_backend::tagstandard::TagStandard;
use freederation_nostr_backend::time::Timestamp;

const PK_HEX: &str = "79be667ef9dcbbac55a06295ce870b07029bfcdb2dce28d959f2815b16f81798";
const ID_HEX: &str = "2f7f24fe5a80d9758a1cbc0a2ae1e16ffa7b0b0ee68e4e4a57d86c8efa22179b";

fn toks(parts: &[&str]) -> Vec<String> {
    parts.iter().map(|s| String::from(*s)).collect()
}

#[test]
fn unknown_tag_kind_is_a_soft_failure() {
    let raw = toks(&["totally-unknown", "value"]);
    // The tag itself stays usable uninterpreted.
    let tag = TagData::parse(raw.as_slice()).expect("raw tag parses");
    assert_eq!(tag.kind_str(), Some("totally-unknown"));
    assert_eq!(tag.content(), Some("value"));
    assert_eq!(tag.as_vec(), &raw);
    // Standardization reports the unknown shape without touching the tag.
    assert_eq!(
        TagStandard::parse(raw.as_slice()),
        Err(TagError::UnknownStandardizedTag)
    );
    assert_eq!(tag.to_vec(), raw);
}

#[test]
fn empty_tag_is_rejected() {
    assert!(TagData::parse(&[]).is_err());
    assert_eq!(TagStandard::parse(&[]), Err(TagError::KindNotFound));
}

#[test]
fn e_tag_arity_dispatch() {
    match TagStandard::parse(toks(&["e", ID_HEX]).as_slice()).expect("plain e tag") {
        TagStandard::Event { event_id, relay_url, marker, public_key } => {
            assert_eq!(event_id.to_hex(), ID_HEX);
            assert!(relay_url.is_none() && marker.is_none() && public_key.is_none());
        },
        other => panic!("wrong shape: {:?}", other),
    }
    // A report keyword as the second value selects the more specific shape.
    match TagStandard::parse(toks(&["e", ID_HEX, "spam"]).as_slice()).expect("report") {
        TagStandard::EventReport(_, report) => assert_eq!(report, Report::Spam),
        other => panic!("wrong shape: {:?}", other),
    }
    // Anything else falls back to the generic reference with a relay url.
    match TagStandard::parse(toks(&["e", ID_HEX, "wss://relay.example"]).as_slice())
        .expect("relay url")
    {
        TagStandard::Event { relay_url, .. } => {
            assert_eq!(relay_url.as_deref(), Some("wss://relay.example"));
        },
        other => panic!("wrong shape: {:?}", other),
    }
    assert!(TagStandard::parse(toks(&["e", "zz"]).as_slice()).is_err());
    assert_eq!(
        TagStandard::parse(toks(&["e"]).as_slice()),
        Err(TagError::UnknownStandardizedTag)
    );
}

#[test]
fn p_tag_dispatch() {
    match TagStandard::parse(toks(&["p", PK_HEX]).as_slice()).expect("p tag") {
        TagStandard::PublicKey { uppercase, relay_url, .. } => {
            assert!(!uppercase);
            assert!(relay_url.is_none());
        },
        other => panic!("wrong shape: {:?}", other),
    }
    match TagStandard::parse(toks(&["P", PK_HEX]).as_slice()).expect("P tag") {
        TagStandard::PublicKey { uppercase, .. } => assert!(uppercase),
        other => panic!("wrong shape: {:?}", other),
    }
    match TagStandard::parse(toks(&["p", PK_HEX, "impersonation"]).as_slice()).expect("report") {
        TagStandard::PublicKeyReport(_, report) => assert_eq!(report, Report::Impersonation),
        other => panic!("wrong shape: {:?}", other),
    }
    assert!(TagStandard::parse(toks(&["p", "zz"]).as_slice()).is_err());
}

#[test]
fn a_tag_builds_coordinate() {
    let text = format!("30023:{}:article", PK_HEX);
    match TagStandard::parse(toks(&["a", text.as_str(), "wss://r.example"]).as_slice())
        .expect("a tag")
    {
        TagStandard::Coordinate { coordinate, relay_url } => {
            assert_eq!(coordinate.kind, Kind::from_u16(30023));
            assert_eq!(coordinate.identifier, "article");
            assert_eq!(relay_url.as_deref(), Some("wss://r.example"));
        },
        other => panic!("wrong shape: {:?}", other),
    }
}

#[test]
fn r_tag_relay_metadata_vs_reference() {
    match TagStandard::parse(toks(&["r", "wss://relay.damus.io"]).as_slice()).expect("relay") {
        TagStandard::RelayMetadata { relay_url, metadata } => {
            assert_eq!(relay_url, "wss://relay.damus.io/");
            assert!(metadata.is_none());
        },
        other => panic!("wrong shape: {:?}", other),
    }
    match TagStandard::parse(toks(&["r", "https://example.com"]).as_slice()).expect("reference") {
        TagStandard::Reference(s) => assert_eq!(s, "https://example.com"),
        other => panic!("wrong shape: {:?}", other),
    }
    match TagStandard::parse(toks(&["r", "wss://relay.damus.io", "read"]).as_slice())
        .expect("marked relay")
    {
        TagStandard::RelayMetadata { metadata, .. } => {
            assert_eq!(metadata, Some(RelayMetadata::Read));
        },
        other => panic!("wrong shape: {:?}", other),
    }
    assert!(TagStandard::parse(toks(&["r", "wss://relay.damus.io", "peruse"]).as_slice()).is_err());
}

#[test]
fn pow_tag_parses_both_numbers() {
    match TagStandard::parse(toks(&["nonce", "776412", "20"]).as_slice()).expect("nonce") {
        TagStandard::POW { nonce, difficulty } => {
            assert_eq!(nonce, 776412);
            assert_eq!(difficulty, 20);
        },
        other => panic!("wrong shape: {:?}", other),
    }
    assert!(TagStandard::parse(toks(&["nonce", "x", "20"]).as_slice()).is_err());
    assert!(TagStandard::parse(toks(&["nonce", "1", "999"]).as_slice()).is_err());
    // Two tokens only: not the nonce shape.
    assert_eq!(
        TagStandard::parse(toks(&["nonce", "776412"]).as_slice()),
        Err(TagError::UnknownStandardizedTag)
    );
}

#[test]
fn simple_keyword_tags() {
    match TagStandard::parse(toks(&["t", "verification"]).as_slice()).expect("hashtag") {
        TagStandard::Hashtag(s) => assert_eq!(s, "verification"),
        other => panic!("wrong shape: {:?}", other),
    }
    match TagStandard::parse(toks(&["d", "slot"]).as_slice()).expect("identifier") {
        TagStandard::Identifier(s) => assert_eq!(s, "slot"),
        other => panic!("wrong shape: {:?}", other),
    }
    match TagStandard::parse(toks(&["k", "30023"]).as_slice()).expect("kind ref") {
        TagStandard::Kind(k) => assert_eq!(k, Kind::from_u16(30023)),
        other => panic!("wrong shape: {:?}", other),
    }
    match TagStandard::parse(toks(&["expiration", "1700000000"]).as_slice()).expect("expiration") {
        TagStandard::Expiration(ts) => assert_eq!(ts.as_u64(), 1700000000),
        other => panic!("wrong shape: {:?}", other),
    }
    match TagStandard::parse(toks(&["relays", "wss://a.example", "wss://b.example"]).as_slice())
        .expect("relays")
    {
        TagStandard::Relays(urls) => assert_eq!(urls.len(), 2),
        other => panic!("wrong shape: {:?}", other),
    }
    match TagStandard::parse(toks(&["encrypted"]).as_slice()).expect("encrypted") {
        TagStandard::Encrypted => {},
        other => panic!("wrong shape: {:?}", other),
    }
    match TagStandard::parse(toks(&["image", "https://x.example/a.png", "640x480"]).as_slice())
        .expect("image")
    {
        TagStandard::Image(u, dim) => {
            assert_eq!(u, "https://x.example/a.png");
            assert_eq!(dim, Some(ImageDimensions::new(640, 480)));
        },
        other => panic!("wrong shape: {:?}", other),
    }
    match TagStandard::parse(toks(&["x", ID_HEX]).as_slice()).expect("digest") {
        TagStandard::Sha256(b) => assert_eq!(b.len(), 32),
        other => panic!("wrong shape: {:?}", other),
    }
}

#[test]
fn single_letter_tags_cover_both_cases() {
    let lower = SingleLetterTag::from_char('e').expect("letter parses");
    assert_eq!(lower.character, Alphabet::E);
    assert!(lower.is_lowercase());
    assert_eq!(lower.as_char(), 'e');
    let upper = SingleLetterTag::from_char('Z').expect("letter parses");
    assert!(upper.is_uppercase());
    assert_eq!(upper.as_char(), 'Z');
    assert!(SingleLetterTag::from_char('3').is_err());
    assert!(SingleLetterTag::parse_str("ab").is_err());
    assert_eq!(SingleLetterTag::parse_str("q").expect("parses").as_char(), 'q');
    assert_eq!(SingleLetterTag::lowercase(Alphabet::A).as_char(), 'a');
    assert_eq!(SingleLetterTag::uppercase(Alphabet::A).as_char(), 'A');
}

#[test]
fn dimensions_round_trip() {
    let d = ImageDimensions::new(1920, 1080);
    assert_eq!(d.to_dim_string(), "1920x1080");
    assert_eq!(ImageDimensions::parse_str("1920x1080"), Ok(d));
    assert!(ImageDimensions::parse_str("1920").is_err());
    assert!(ImageDimensions::parse_str("ax2").is_err());
}

#[test]
fn timestamp_rendering_vectors() {
    assert_eq!(
        Timestamp::from_u64(1682060685).to_human_datetime(),
        "2023-04-21T07:04:45Z"
    );
    assert_eq!(Timestamp::from_u64(0).to_human_datetime(), "1970-01-01T00:00:00Z");
    assert_eq!(
        Timestamp::from_u64(253402300799).to_human_datetime(),
        "9999-12-31T23:59:59Z"
    );
    assert_eq!(Timestamp::from_u64(253402300800).to_human_datetime(), "Unavailable");
    assert_eq!(Timestamp::from_u64(1682060685).to_dec_string(), "1682060685");
    assert_eq!(
        Timestamp::parse_str("1682060685").expect("timestamp parses").as_u64(),
        1682060685
    );
    assert!(Timestamp::parse_str("later").is_err());
}

#[test]
fn timestamp_saturating_arithmetic() {
    let t = Timestamp::from_u64(10);
    assert_eq!(t.saturating_sub(3).as_u64(), 7);
    assert_eq!(t.saturating_sub(30).as_u64(), 0);
    assert_eq!(Timestamp::from_u64(u64::MAX).saturating_add(5).as_u64(), u64::MAX);
}
