//! Event identity: deterministic hashing, verification order, proof of work,
//! and sign/verify over fresh keys.
use freederation_nostr_backend::assymetric_secp256k1::AssymetricSecp256k1;
use freederation_nostr_backend::basecore::AsymmetricKeyError;
use freederation_nostr_backend::event_data::EventData;
use freederation_nostr_backend::event_error::EventDataError;
use freederation_nostr_backend::event_id::EventId;
use freederation_nostr_backend::event_kind::Kind;
use freederation_nostr_backend::rng::rng_from_seed;
use freederation_nostr_backend::signing::NostrPubKey;
use freederation_nostr_backend::tagdata::TagData;
use freederation_nostr_backend::time::Timestamp;

const FIXED_PUBKEY_HEX: &str = "79be667ef9dcbbac55a06295ce870b07029bfcdb2dce28d959f2815b16f81798";

fn fixture_pubkey() -> NostrPubKey {
    AssymetricSecp256k1()
        .parse_public_key_from_hex(FIXED_PUBKEY_HEX)
        .expect("fixture key parses")
}

#[test]
fn compute_id_is_deterministic() {
    let pubkey = fixture_pubkey();
    let created_at = Timestamp::from_u64(1700000000);
    let kind = Kind::from_u16(1);
    let tags: Vec<TagData> = Vec::new();
    let a = EventId::new(&pubkey, &created_at, &kind, tags.as_slice(), "hello");
    let b = EventId::new(&pubkey, &created_at, &kind, tags.as_slice(), "hello");
    assert_eq!(a, b);
    assert_eq!(a.to_hex(), b.to_hex());
}

#[test]
fn compute_id_covers_tags_and_content() {
    let pubkey = fixture_pubkey();
    let created_at = Timestamp::from_u64(1700000000);
    let kind = Kind::from_u16(1);
    let no_tags: Vec<TagData> = Vec::new();
    let tagged = vec![
        TagData::parse(&[String::from("t"), String::from("news")]).expect("tag parses"),
    ];
    let plain = EventId::new(&pubkey, &created_at, &kind, no_tags.as_slice(), "hello");
    let with_tag = EventId::new(&pubkey, &created_at, &kind, tagged.as_slice(), "hello");
    let other_content = EventId::new(&pubkey, &created_at, &kind, no_tags.as_slice(), "hellx");
    let escaped = EventId::new(
        &pubkey,
        &created_at,
        &kind,
        no_tags.as_slice(),
        "say \"hi\"\n\\done",
    );
    assert_ne!(plain, with_tag);
    assert_ne!(plain, other_content);
    assert_ne!(plain, escaped);
}

fn fixture_event(content: &str) -> EventData {
    let ecda = AssymetricSecp256k1();
    let mut rng = rng_from_seed(&[7u8; 32]);
    let sk = ecda
        .parse_secret_key_from_hex("0000000000000000000000000000000000000000000000000000000000000001")
        .expect("secret key parses");
    let pair = ecda.new_keypair(sk).expect("keypair derives");
    let pubkey = ecda.pubkey_from_pair(&pair);
    let created_at = Timestamp::from_u64(1700000000);
    let kind = Kind::from_u16(1);
    let tags: Vec<TagData> = Vec::new();
    let id = EventId::new(&pubkey, &created_at, &kind, tags.as_slice(), content);
    let sig = ecda
        .generate_signature_from_bytes(id.as_bytes().as_slice(), &pair, &mut rng)
        .expect("signing succeeds");
    EventData::new(id, pubkey, created_at, kind, tags, String::from(content), sig)
}

#[test]
fn fixture_event_verifies() {
    let event = fixture_event("hello");
    assert!(event.verify_id().is_ok());
    assert!(event.verify_signature().is_ok());
    assert!(event.verify().is_ok());
}

#[test]
fn mutated_content_fails_hash_check_first() {
    let good = fixture_event("hello");
    let mutated = EventData::new(
        good.id.clone(),
        good.pubkey.clone(),
        good.created_at,
        good.kind,
        Vec::new(),
        String::from("hellx"),
        good.sig.clone(),
    );
    assert!(matches!(mutated.verify_id(), Err(EventDataError::InvalidEventHash)));
    // The composite check reports the hash failure, not a signature failure.
    assert!(matches!(mutated.verify(), Err(EventDataError::InvalidEventHash)));
}

#[test]
fn foreign_signature_fails_signature_check() {
    let good = fixture_event("hello");
    let ecda = AssymetricSecp256k1();
    let mut rng = rng_from_seed(&[9u8; 32]);
    let other_sk = ecda
        .parse_secret_key_from_hex("0000000000000000000000000000000000000000000000000000000000000002")
        .expect("other key parses");
    let other_pair = ecda.new_keypair(other_sk).expect("keypair derives");
    let foreign_sig = ecda
        .generate_signature_from_bytes(good.id.as_bytes().as_slice(), &other_pair, &mut rng)
        .expect("signing succeeds");
    let forged = EventData::new(
        good.id.clone(),
        good.pubkey.clone(),
        good.created_at,
        good.kind,
        Vec::new(),
        String::from("hello"),
        foreign_sig,
    );
    assert!(forged.verify_id().is_ok());
    assert!(matches!(
        forged.verify(),
        Err(EventDataError::InvalidEventSignature(AsymmetricKeyError::ProtocolError))
    ));
}

#[test]
fn sign_verify_and_bit_flips() {
    let ecda = AssymetricSecp256k1();
    let mut rng = rng_from_seed(&[42u8; 32]);
    let pair = ecda.generate_keypair(&mut rng).expect("fresh keypair");
    let pubkey = ecda.pubkey_from_pair(&pair);
    let msg = b"nostr message".to_vec();
    let sig = ecda
        .generate_signature_from_bytes(msg.as_slice(), &pair, &mut rng)
        .expect("signing succeeds");
    assert!(ecda.verifying_signature_from_bytes(msg.as_slice(), &pubkey, &sig).is_ok());

    // Any single flipped bit in the signature must break verification.
    let sig_bytes = ecda.signature_to_bytes(&sig);
    for byte in [0usize, 17, 63] {
        let mut bad = sig_bytes.clone();
        bad[byte] ^= 0x01;
        if let Ok(bad_sig) = ecda.new_signature_from_bytes(bad.as_slice()) {
            assert!(ecda.verifying_signature_from_bytes(msg.as_slice(), &pubkey, &bad_sig).is_err());
        }
    }

    // A flipped message bit must break verification too.
    let mut bad_msg = msg.clone();
    bad_msg[0] ^= 0x80;
    assert!(ecda.verifying_signature_from_bytes(bad_msg.as_slice(), &pubkey, &sig).is_err());

    // The text variant signs the SHA-256 of the text.
    let text_sig = ecda.generate_signature("hello", &pair, &mut rng).expect("signing succeeds");
    assert!(ecda.verifying_signature("hello", &pubkey, &text_sig).is_ok());
    assert!(ecda.verifying_signature("hellx", &pubkey, &text_sig).is_err());
}

#[test]
fn pow_boundary_is_exact() {
    // Exactly nine leading zero bits: one zero byte, then 0b0100_0000.
    let mut bytes = vec![0u8; 32];
    bytes[0] = 0x00;
    bytes[1] = 0x40;
    let id = EventId::owned(bytes);
    assert!(id.check_pow(9));
    assert!(id.check_pow(8));
    assert!(!id.check_pow(10));
    assert!(id.check_pow(0));
}

#[test]
fn pow_all_zero_id_clears_every_difficulty() {
    let id = EventId::all_zeros();
    assert!(id.check_pow(255));
    assert!(id.check_pow(0));
}

#[test]
fn event_id_parse_accepts_hex_and_bech32() {
    let id = EventId::from_hex("2f7f24fe5a80d9758a1cbc0a2ae1e16ffa7b0b0ee68e4e4a57d86c8efa22179b")
        .expect("hex id parses");
    let encoded = id.to_bech32().expect("id encodes");
    assert!(encoded.starts_with("note1"));
    let from_hex = EventId::parse("2f7f24fe5a80d9758a1cbc0a2ae1e16ffa7b0b0ee68e4e4a57d86c8efa22179b")
        .expect("parse from hex");
    let from_bech = EventId::parse(encoded.as_str()).expect("parse from bech32");
    assert_eq!(from_hex, id);
    assert_eq!(from_bech, id);
    assert!(EventId::parse("not an id").is_err());
    assert!(EventId::from_hex("2f7f").is_err());
}

#[test]
fn derived_public_key_matches_known_constant() {
    let ecda = AssymetricSecp256k1();
    let sk = ecda
        .parse_secret_key_from_hex("0000000000000000000000000000000000000000000000000000000000000001")
        .expect("secret key parses");
    let pair = ecda.new_keypair(sk).expect("keypair derives");
    assert_eq!(
        ecda.public_key_to_hex(&ecda.pubkey_from_pair(&pair)),
        FIXED_PUBKEY_HEX
    );
}

#[test]
fn out_of_range_key_material_is_rejected() {
    let ecda = AssymetricSecp256k1();
    // The zero scalar is not a secret key.
    assert!(ecda
        .parse_secret_key_from_hex("0000000000000000000000000000000000000000000000000000000000000000")
        .is_err());
    // All-ones bytes are not an x-coordinate on the curve.
    assert!(ecda.new_public_key_from_bytes(&[0xffu8; 32]).is_err());
    // A signature must be exactly 64 bytes.
    assert!(ecda.new_signature_from_bytes(&[0u8; 63]).is_err());
    // Malformed signature hex is a hex error, not a curve error.
    assert!(matches!(
        ecda.parse_signature_from_hex("zz"),
        Err(AsymmetricKeyError::HexParsing)
    ));
}

#[test]
fn events_order_by_time_then_id() {
    let early = fixture_event("hello");
    let late = EventData::new(
        early.id.clone(),
        early.pubkey.clone(),
        Timestamp::from_u64(1700000001),
        early.kind,
        Vec::new(),
        String::from("hello"),
        early.sig.clone(),
    );
    assert_eq!(early.cmp_order(&late), core::cmp::Ordering::Less);
    assert_eq!(late.cmp_order(&early), core::cmp::Ordering::Greater);
    assert_eq!(early.cmp_order(&early), core::cmp::Ordering::Equal);
    let sibling = EventData::new(
        EventId::all_zeros(),
        early.pubkey.clone(),
        early.created_at,
        early.kind,
        Vec::new(),
        String::from("hello"),
        early.sig.clone(),
    );
    assert_eq!(sibling.cmp_order(&early), core::cmp::Ordering::Less);
}
