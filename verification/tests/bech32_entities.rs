//! Bech32/TLV entity codecs: round trips for every entity kind, optional
//! fields in both states, framing errors on truncated payloads, and the
//! `nostr:` URI form.
use freederation_nostr_backend::assymetric_secp256k1::AssymetricSecp256k1;
use freederation_nostr_backend::basecore::ParseError;
use freederation_nostr_backend::coordinate::Coordinate;
use freederation_nostr_backend::event_id::EventId;
use freederation_nostr_backend::event_kind::Kind;
use freederation_nostr_backend::nostrprofile::NostrProfile;
use freederation_nostr_backend::nostruri::NostrTagResource;
use freederation_nostr_backend::relayinfo::RelayUrl;
use freederation_nostr_backend::sharedevent::SharedEvent;
use freederation_nostr_backend::basecore::AsymmetricKeyError;
use freederation_nostr_backend::event_error::{EventDataError, EventIdError};
use freederation_nostr_backend::signing::{NostrPubKey, NostrSecretKey};

const PK_HEX: &str = "79be667ef9dcbbac55a06295ce870b07029bfcdb2dce28d959f2815b16f81798";
const SK_HEX: &str = "0000000000000000000000000000000000000000000000000000000000000001";
const ID_HEX: &str = "2f7f24fe5a80d9758a1cbc0a2ae1e16ffa7b0b0ee68e4e4a57d86c8efa22179b";

fn pubkey() -> NostrPubKey {
    AssymetricSecp256k1().parse_public_key_from_hex(PK_HEX).expect("key parses")
}

#[test]
fn secret_key_bech32_round_trip() {
    let ecda = AssymetricSecp256k1();
    let sk = ecda.parse_secret_key_from_hex(SK_HEX).expect("secret key parses");
    let encoded = ecda.secret_key_to_bech32(&sk);
    assert!(encoded.starts_with("nsec1"));
    let back = NostrSecretKey::from_bech32(encoded.as_str()).expect("nsec decodes");
    assert_eq!(back, sk);
    let reparsed = ecda.parse_secret_key(encoded.as_str()).expect("combined parse");
    assert_eq!(reparsed, sk);
}

#[test]
fn public_key_bech32_round_trip() {
    let ecda = AssymetricSecp256k1();
    let pk = pubkey();
    let encoded = ecda.public_key_to_bech32(&pk);
    assert!(encoded.starts_with("npub1"));
    let back = NostrPubKey::from_bech32(encoded.as_str()).expect("npub decodes");
    assert_eq!(back, pk);
    assert_eq!(ecda.public_key_to_hex(&pk), PK_HEX);
    // The combined parser takes hex first, bech32 second.
    assert_eq!(ecda.parse_public_key(PK_HEX).expect("hex"), pk);
    assert_eq!(ecda.parse_public_key(encoded.as_str()).expect("bech32"), pk);
}

#[test]
fn wrong_prefix_is_rejected_with_its_own_error() {
    let ecda = AssymetricSecp256k1();
    let pk = pubkey();
    let encoded = ecda.public_key_to_bech32(&pk);
    assert!(matches!(
        NostrSecretKey::from_bech32(encoded.as_str()),
        Err(AsymmetricKeyError::WrongPrefixOrVariant)
    ));
    assert!(matches!(
        ecda.parse_secret_key_bech32(encoded.as_str()),
        Err(AsymmetricKeyError::WrongPrefixOrVariant)
    ));
    assert!(matches!(
        EventId::from_bech32(encoded.as_str()),
        Err(EventIdError::Parse(ParseError::WrongBech32PrefixOrVariant))
    ));
    let sk = ecda.parse_secret_key_from_hex(SK_HEX).expect("secret key parses");
    let nsec = ecda.secret_key_to_bech32(&sk);
    assert!(matches!(
        ecda.parse_public_key_bech32(nsec.as_str()),
        Err(AsymmetricKeyError::WrongPrefixOrVariant)
    ));
}

#[test]
fn event_id_bech32_round_trip() {
    let id = EventId::from_hex(ID_HEX).expect("id parses");
    let encoded = id.to_bech32().expect("id encodes");
    let back = EventId::from_bech32(encoded.as_str()).expect("note decodes");
    assert_eq!(back, id);
}

#[test]
fn profile_round_trip_multi_relay() {
    let relays = vec![
        String::from("wss://relay.damus.io"),
        String::from("wss://nostr.example.com/path"),
    ];
    let profile = NostrProfile::new(pubkey(), relays.as_slice()).expect("profile builds");
    let encoded = profile.to_bech32().expect("profile encodes");
    assert!(encoded.starts_with("nprofile1"));
    let back = NostrProfile::from_bech32(encoded.as_str()).expect("nprofile decodes");
    assert_eq!(back, profile);
    assert_eq!(back.relays.len(), 2);
}

#[test]
fn profile_rejects_bad_relay_url() {
    let relays = vec![String::from("not a url")];
    assert!(NostrProfile::new(pubkey(), relays.as_slice()).is_err());
}

#[test]
fn shared_event_round_trip_optional_fields() {
    let id = EventId::from_hex(ID_HEX).expect("id parses");

    let bare = SharedEvent::new(id.clone(), Vec::new());
    let encoded = bare.to_bech32().expect("nevent encodes");
    assert!(encoded.starts_with("nevent1"));
    let back = SharedEvent::from_bech32(encoded.as_str()).expect("nevent decodes");
    assert_eq!(back, bare);
    assert!(back.author.is_none());
    assert!(back.kind.is_none());

    let full = SharedEvent::new(
        id,
        vec![String::from("wss://relay.damus.io"), String::from("wss://other.example")],
    )
        .author(pubkey())
        .kind(Kind::from_u16(1));
    let encoded = full.to_bech32().expect("nevent encodes");
    let back = SharedEvent::from_bech32(encoded.as_str()).expect("nevent decodes");
    assert_eq!(back, full);
    assert_eq!(back.kind, Some(Kind::from_u16(1)));
    assert_eq!(back.relays.len(), 2);
}

#[test]
fn coordinate_round_trip_and_text_form() {
    let coord = Coordinate::new(Kind::from_u16(30023), pubkey())
        .identifier(String::from("my-long-article"));
    let encoded = coord.to_bech32().expect("naddr encodes");
    assert!(encoded.starts_with("naddr1"));
    let back = Coordinate::from_bech32(encoded.as_str()).expect("naddr decodes");
    assert_eq!(back, coord);

    let text = format!("30023:{}:my-long-article", PK_HEX);
    let parsed = Coordinate::parse(text.as_str()).expect("kpi text parses");
    assert_eq!(parsed, coord);
    assert!(Coordinate::parse("no colons here").is_err());
    assert!(Coordinate::parse("99999999:abc:d").is_err());
}

#[test]
fn coordinate_empty_identifier_round_trip() {
    let coord = Coordinate::new(Kind::from_u16(0), pubkey());
    let encoded = coord.to_bech32().expect("naddr encodes");
    let back = Coordinate::from_bech32(encoded.as_str()).expect("naddr decodes");
    assert_eq!(back, coord);
    assert_eq!(back.identifier, "");
}

#[test]
fn relay_url_round_trip_normalizes() {
    let relay = RelayUrl::new("wss://relay.damus.io").expect("url parses");
    // The canonical form carries the trailing slash the url parser adds.
    assert_eq!(relay.as_str(), "wss://relay.damus.io/");
    let encoded = relay.to_bech32().expect("nrelay encodes");
    assert!(encoded.starts_with("nrelay1"));
    let back = RelayUrl::from_bech32(encoded.as_str()).expect("nrelay decodes");
    assert_eq!(back, relay);
    assert!(RelayUrl::new("not a url").is_err());
}

#[test]
fn truncated_tlv_is_a_framing_error() {
    // A record that declares 32 payload bytes but carries none.
    let bogus = vec![0u8, 32u8];
    assert!(matches!(
        SharedEvent::from_bech32_data(bogus.as_slice()),
        Err(ParseError::TLV)
    ));
    // One lone header byte.
    assert!(matches!(
        NostrProfile::from_bech32_data(&[1u8]),
        Err(ParseError::TLV)
    ));
    // A truncated record after a whole one.
    let mut data = vec![1u8, 1u8, b'x'];
    data.extend_from_slice(&[0u8, 5u8, b'a']);
    assert!(matches!(
        SharedEvent::from_bech32_data(data.as_slice()),
        Err(ParseError::TLV)
    ));
}

#[test]
fn missing_required_field_is_reported() {
    // A single unknown record: scans fine, but the id field never appears.
    let data = vec![200u8, 1u8, 0xaa];
    assert!(matches!(
        SharedEvent::from_bech32_data(data.as_slice()),
        Err(ParseError::FieldMissing(_))
    ));
}

#[test]
fn unknown_tlv_types_are_skipped() {
    let id = EventId::from_hex(ID_HEX).expect("id parses");
    // SPECIAL record carrying the id, then an unknown record type.
    let mut data = vec![0u8, 32u8];
    data.extend_from_slice(id.as_bytes().as_slice());
    data.extend_from_slice(&[200u8, 2u8, 0xde, 0xad]);
    let decoded = SharedEvent::from_bech32_data(data.as_slice()).expect("decodes");
    assert_eq!(decoded.event_id, id);
    assert!(decoded.relays.is_empty());
}

#[test]
fn shared_event_drops_invalid_author_silently() {
    let id = EventId::from_hex(ID_HEX).expect("id parses");
    let mut data = vec![0u8, 32u8];
    data.extend_from_slice(id.as_bytes().as_slice());
    // An AUTHOR record of 32 bytes that is not a curve point (all 0xff).
    data.extend_from_slice(&[2u8, 32u8]);
    data.extend_from_slice(&[0xffu8; 32]);
    let decoded = SharedEvent::from_bech32_data(data.as_slice()).expect("decodes");
    assert_eq!(decoded.event_id, id);
    assert!(decoded.author.is_none());
}

#[test]
fn unknown_prefix_is_an_invalid_resource() {
    // A valid bech32 string under a prefix outside the registry.
    assert!(matches!(
        NostrTagResource::from_bech32("abc14w46h2at4w46h2at4w46h2at4w46h2atsghld7"),
        Err(EventDataError::InvalidResource)
    ));
    assert!(matches!(
        NostrTagResource::from_bech32("plainly not bech32"),
        Err(EventDataError::Parse(ParseError::Bech32))
    ));
}

#[test]
fn generic_resource_dispatch_round_trip() {
    let pk = pubkey();
    let encoded = AssymetricSecp256k1().public_key_to_bech32(&pk);
    match NostrTagResource::from_bech32(encoded.as_str()).expect("npub dispatches") {
        NostrTagResource::Pubkey(k) => assert_eq!(k, pk),
        other => panic!("wrong entity kind: {:?}", other),
    }
    let id = EventId::from_hex(ID_HEX).expect("id parses");
    let note = id.to_bech32().expect("encodes");
    match NostrTagResource::from_bech32(note.as_str()).expect("note dispatches") {
        NostrTagResource::EventId(v) => assert_eq!(v, id),
        other => panic!("wrong entity kind: {:?}", other),
    }
    assert!(NostrTagResource::from_bech32("abc14w46h2at4w46h2at4w46h2at4w46h2atsghld7").is_err());
}

#[test]
fn nostr_uri_round_trip() {
    let pk = pubkey();
    let resource = NostrTagResource::Pubkey(pk);
    let uri = resource.to_nostr_uri().expect("uri builds");
    assert!(uri.starts_with("nostr:npub1"));
    let back = NostrTagResource::from_nostr_uri(uri.as_str()).expect("uri decodes");
    assert_eq!(back, resource);
    assert!(NostrTagResource::from_nostr_uri("http:npub1whatever").is_err());
    assert!(NostrTagResource::from_nostr_uri("nostr").is_err());
}

#[test]
fn oversized_fields_are_rejected_at_encode() {
    let id = EventId::from_hex(ID_HEX).expect("id parses");
    // A relay url longer than the one TLV length byte can carry.
    let long_relay = format!("wss://example.com/{}", "a".repeat(300));
    let event = SharedEvent::new(id, vec![long_relay.clone()]);
    assert!(matches!(event.to_bech32(), Err(ParseError::ToBech32)));
    // An identifier longer than the one TLV length byte can carry.
    let coord = Coordinate::new(Kind::from_u16(1), pubkey()).identifier("b".repeat(300));
    assert!(coord.to_bech32().is_err());
}
