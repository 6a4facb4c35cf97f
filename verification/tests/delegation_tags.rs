//! Delegation: condition grammar, evaluation, token text, tag issue and
//! validation, and the JSON tag form.
use freederation_nostr_backend::assymetric_secp256k1::AssymetricSecp256k1;
use freederation_nostr_backend::delegation::{
    Condition, ConditionError, Conditions, DelegationTag, DelegationToken, EventProperties,
    ValidationError,
};
use freederation_nostr_backend::rng::rng_from_seed;
use freederation_nostr_backend::signing::NostrPubKey;

const PK_HEX: &str = "79be667ef9dcbbac55a06295ce870b07029bfcdb2dce28d959f2815b16f81798";

fn sample_conditions() -> Conditions {
    let mut conds = Conditions::new();
    conds.add(Condition::Kind(1));
    conds.add(Condition::CreatedAfter(1676000000));
    conds.add(Condition::CreatedBefore(1679000000));
    conds
}

#[test]
fn condition_text_round_trip() {
    assert_eq!(Condition::Kind(1).to_cond_string(), "kind=1");
    assert_eq!(Condition::CreatedBefore(1679000000).to_cond_string(), "created_at<1679000000");
    assert_eq!(Condition::CreatedAfter(1676000000).to_cond_string(), "created_at>1676000000");
    assert_eq!(Condition::parse_str("kind=1"), Ok(Condition::Kind(1)));
    assert_eq!(
        Condition::parse_str("created_at<1679000000"),
        Ok(Condition::CreatedBefore(1679000000))
    );
    assert!(Condition::parse_str("kind=abc").is_err());
    assert!(Condition::parse_str("weight=2").is_err());
}

#[test]
fn conditions_text_round_trip() {
    let conds = sample_conditions();
    let text = conds.to_cond_string();
    assert_eq!(text, "kind=1&created_at>1676000000&created_at<1679000000");
    let back = Conditions::parse_str(text.as_str()).expect("conditions parse");
    assert_eq!(back, conds);
    // The empty text is the empty list; a dangling separator is not.
    assert_eq!(Conditions::parse_str("").expect("empty"), Conditions::new());
    assert!(Conditions::parse_str("kind=1&").is_err());
    assert!(Conditions::parse_str("&kind=1").is_err());
}

#[test]
fn condition_evaluation_is_strict() {
    let conds = sample_conditions();
    assert!(conds.evaluate(&EventProperties::new(1, 1677000000)).is_ok());
    assert_eq!(
        conds.evaluate(&EventProperties::new(5, 1677000000)),
        Err(ValidationError::InvalidKind)
    );
    // The bounds are strict: the boundary instants themselves fail.
    assert_eq!(
        conds.evaluate(&EventProperties::new(1, 1676000000)),
        Err(ValidationError::CreatedTooEarly)
    );
    assert_eq!(
        conds.evaluate(&EventProperties::new(1, 1679000000)),
        Err(ValidationError::CreatedTooLate)
    );
    assert!(Conditions::new().evaluate(&EventProperties::new(9, 0)).is_ok());
}

#[test]
fn delegation_token_text() {
    let pk = AssymetricSecp256k1().parse_public_key_from_hex(PK_HEX).expect("key parses");
    let token = DelegationToken::new(&pk, &sample_conditions()).expect("token builds");
    assert_eq!(
        token.as_str(),
        format!(
            "nostr:delegation:{}:kind=1&created_at>1676000000&created_at<1679000000",
            PK_HEX
        )
    );
}

#[test]
fn delegation_issue_then_validate() {
    let ecda = AssymetricSecp256k1();
    let mut rng = rng_from_seed(&[21u8; 32]);
    let delegator = ecda.generate_keypair(&mut rng).expect("delegator keypair");
    let delegatee_pair = ecda.generate_keypair(&mut rng).expect("delegatee keypair");
    let delegatee: NostrPubKey = ecda.pubkey_from_pair(&delegatee_pair);
    let conds = sample_conditions();

    let tag = DelegationTag::new(&delegator, delegatee.clone(), conds.clone(), &mut rng)
        .expect("delegation issues");
    assert_eq!(tag.delegator_pubkey(), ecda.pubkey_from_pair(&delegator));
    assert_eq!(tag.conditions(), conds);
    assert!(tag.validate(&delegatee, &conds).is_ok());

    // A different delegatee is a different claim: validation fails.
    let stranger_pair = ecda.generate_keypair(&mut rng).expect("stranger keypair");
    let stranger = ecda.pubkey_from_pair(&stranger_pair);
    assert!(tag.validate(&stranger, &conds).is_err());

    // Altered conditions are a different claim too.
    let mut other_conds = Conditions::new();
    other_conds.add(Condition::Kind(2));
    assert!(tag.validate(&delegatee, &other_conds).is_err());
}

#[test]
fn delegation_tag_json_round_trip() {
    let ecda = AssymetricSecp256k1();
    let mut rng = rng_from_seed(&[22u8; 32]);
    let delegator = ecda.generate_keypair(&mut rng).expect("delegator keypair");
    let delegatee = ecda.pubkey_from_pair(&ecda.generate_keypair(&mut rng).expect("delegatee"));
    let conds = sample_conditions();
    let tag = DelegationTag::new(&delegator, delegatee, conds, &mut rng).expect("issues");

    let json = tag.as_json();
    assert!(json.starts_with("[\"delegation\",\""));
    let back = DelegationTag::from_json(json.as_str()).expect("json parses");
    assert_eq!(back, tag);

    // Wrong length, non-JSON text and a wrong keyword are tag-shape failures.
    assert_eq!(
        DelegationTag::from_json("[\"delegation\",\"zz\"]"),
        Err(ConditionError::DelegationTagParse)
    );
    assert_eq!(DelegationTag::from_json("not json"), Err(ConditionError::DelegationTagParse));
    assert_eq!(
        DelegationTag::from_json("[\"other\",\"a\",\"b\",\"c\"]"),
        Err(ConditionError::DelegationTagParse)
    );
}
