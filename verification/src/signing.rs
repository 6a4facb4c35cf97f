//! The byte-backed key and signature values of the signing layer: secret key,
//! public key, keypair and signature, each held as its canonical byte
//! encoding.
use vstd::prelude::*;
use crate::basecore::AsymmetricKeyError;
use crate::hexutil::{hex_of, hex_bytes_of, is_hex_str, bytes_to_hex};
use crate::nostrbech32::{
    bech32_decoding, bech32_encoding, decode_bech32, encode_bech32, valid_hrp, no_colon,
    str_eq_chars,
};
use crate::assymetric_secp256k1::{
    is_valid_secret_key, is_valid_public_key, is_valid_signature_bytes, pubkey_of_secret,
    secp_derive_public_key, secp_check_public_key, secp_check_signature, bech32_payload,
    AssymetricSecp256k1,
};
use crate::strutil::{bytes_eq, bytes_of_slice};

verus! {

/// True of byte strings that stand for a secret key: 32 bytes, valid on the
/// curve.
pub open spec fn secret_bytes_ok(b: Seq<u8>) -> bool {
    b.len() == 32 && is_valid_secret_key(b)
}

/// True of byte strings that stand for a public key: 32 bytes, a point's
/// x-coordinate.
pub open spec fn pubkey_bytes_ok(b: Seq<u8>) -> bool {
    b.len() == 32 && is_valid_public_key(b)
}

/// The `nsec` and `npub` prefixes are valid bech32 prefixes.
pub proof fn lemma_nostr_hrps_valid()
    ensures
        valid_hrp("nsec"@),
        valid_hrp("npub"@),
        valid_hrp("note"@),
        valid_hrp("nprofile"@),
        valid_hrp("nevent"@),
        valid_hrp("naddr"@),
        valid_hrp("nrelay"@),
        no_colon("nsec"@),
        no_colon("npub"@),
        no_colon("note"@),
        no_colon("nprofile"@),
        no_colon("nevent"@),
        no_colon("naddr"@),
        no_colon("nrelay"@),
{
    reveal_strlit("nsec");
    reveal_strlit("npub");
    reveal_strlit("note");
    reveal_strlit("nprofile");
    reveal_strlit("nevent");
    reveal_strlit("naddr");
    reveal_strlit("nrelay");
}

/// A secp256k1 secret key, as its 32-byte encoding.
#[derive(Debug)]
pub struct NostrSecretKey {
    bytes: Vec<u8>,
}

/// A secp256k1 x-only public key, as its 32-byte encoding.
#[derive(Debug)]
pub struct NostrPubKey {
    bytes: Vec<u8>,
}

/// A Schnorr signature, as its 64-byte encoding.
#[derive(Debug)]
pub struct NostrSignature {
    bytes: Vec<u8>,
}

/// A secret key paired with the public key derived from it.
#[derive(Debug)]
pub struct SchnorrSigningKey {
    secret: Vec<u8>,
    public: Vec<u8>,
}

impl View for NostrSecretKey {
    type V = Seq<u8>;

    closed spec fn view(&self) -> Seq<u8> {
        self.bytes@
    }
}

impl View for NostrPubKey {
    type V = Seq<u8>;

    closed spec fn view(&self) -> Seq<u8> {
        self.bytes@
    }
}

impl View for NostrSignature {
    type V = Seq<u8>;

    closed spec fn view(&self) -> Seq<u8> {
        self.bytes@
    }
}

impl NostrSecretKey {
    /// The bytes always form a valid secret key.
    #[verifier::type_invariant]
    closed spec fn type_inv(self) -> bool {
        secret_bytes_ok(self.bytes@)
    }

    /// Accept secret-key bytes; reject what the curve rejects.
    pub fn try_from_slice(b: &[u8]) -> (r: Result<NostrSecretKey, AsymmetricKeyError>)
        ensures
            match r {
                Ok(k) => secret_bytes_ok(b@) && k@ == b@,
                Err(e) => !secret_bytes_ok(b@) && e == AsymmetricKeyError::InvalidSecretKey,
            },
    {
        match secp_derive_public_key(b) {
            Some(_) => Ok(NostrSecretKey { bytes: bytes_of_slice(b) }),
            None => Err(AsymmetricKeyError::InvalidSecretKey),
        }
    }

    /// Borrow the key bytes.
    pub fn as_bytes(&self) -> (r: &Vec<u8>)
        ensures
            r@ == self@,
            secret_bytes_ok(self@),
    {
        proof {
            use_type_invariant(self);
        }
        &self.bytes
    }

    /// The key's `nsec` bech32 rendering.
    pub fn to_bech32(&self) -> (r: String)
        ensures
            r@ == bech32_encoding("nsec"@, self@),
            no_colon(r@),
    {
        proof {
            use_type_invariant(self);
            lemma_nostr_hrps_valid();
            reveal_strlit("nsec");
        }
        match encode_bech32("nsec", &self.bytes) {
            Ok(s) => s,
            Err(_) => {
                proof {
                    assert(false);
                }
                String::new()
            },
        }
    }

    /// Parse the key from its `nsec` bech32 form; reject other text, other
    /// prefixes and invalid key bytes, each with its own error.
    pub fn from_bech32(s: &str) -> (r: Result<NostrSecretKey, AsymmetricKeyError>)
        ensures
            match r {
                Ok(k) => bech32_payload(s@, "nsec"@) == Some(k@) && secret_bytes_ok(k@),
                Err(e) => match bech32_decoding(s@) {
                    None => e == AsymmetricKeyError::Bech32Parsing,
                    Some(p) => if p.0 != "nsec"@ {
                        e == AsymmetricKeyError::WrongPrefixOrVariant
                    } else {
                        !secret_bytes_ok(p.1) && e == AsymmetricKeyError::InvalidSecretKey
                    },
                },
            },
    {
        match decode_bech32(s) {
            Ok((hrp, data)) => {
                if str_eq_chars(hrp.as_str(), "nsec") {
                    Self::try_from_slice(data.as_slice())
                } else {
                    Err(AsymmetricKeyError::WrongPrefixOrVariant)
                }
            },
            Err(_) => Err(AsymmetricKeyError::Bech32Parsing),
        }
    }

    /// Read the key out of a decoded bech32 payload.
    pub fn from_bech32_data(srcdata: &[u8]) -> (r: Result<NostrSecretKey, AsymmetricKeyError>)
        ensures
            match r {
                Ok(k) => secret_bytes_ok(srcdata@) && k@ == srcdata@,
                Err(e) => !secret_bytes_ok(srcdata@) && e == AsymmetricKeyError::InvalidSecretKey,
            },
    {
        Self::try_from_slice(srcdata)
    }

    /// Try the key as hex first, then as bech32.
    pub fn parse_str(s: &str) -> (r: Result<NostrSecretKey, AsymmetricKeyError>)
        ensures
            r is Ok ==> secret_bytes_ok(r->Ok_0@),
    {
        AssymetricSecp256k1().parse_secret_key(s)
    }

    /// The key's hex rendering.
    pub fn to_hex_string(&self) -> (r: String)
        ensures
            r@ =~= hex_of(self@),
    {
        proof {
            use_type_invariant(self);
        }
        bytes_to_hex(self.bytes.as_slice())
    }
}

impl Clone for NostrSecretKey {
    fn clone(&self) -> (r: NostrSecretKey)
        ensures
            r@ == self@,
    {
        proof {
            use_type_invariant(self);
        }
        NostrSecretKey { bytes: bytes_of_slice(self.bytes.as_slice()) }
    }
}

impl PartialEq for NostrSecretKey {
    fn eq(&self, other: &NostrSecretKey) -> (r: bool) {
        bytes_eq(self.bytes.as_slice(), other.bytes.as_slice())
    }
}

impl vstd::std_specs::cmp::PartialEqSpecImpl for NostrSecretKey {
    open spec fn obeys_eq_spec() -> bool {
        true
    }

    open spec fn eq_spec(&self, other: &NostrSecretKey) -> bool {
        self@ == other@
    }
}

impl Eq for NostrSecretKey {

}

impl NostrPubKey {
    /// The bytes always form a valid public key.
    #[verifier::type_invariant]
    closed spec fn type_inv(self) -> bool {
        pubkey_bytes_ok(self.bytes@)
    }

    /// Accept public-key bytes; reject what the curve rejects.
    pub fn try_from_slice(b: &[u8]) -> (r: Result<NostrPubKey, AsymmetricKeyError>)
        ensures
            match r {
                Ok(k) => pubkey_bytes_ok(b@) && k@ == b@,
                Err(e) => !pubkey_bytes_ok(b@) && e == AsymmetricKeyError::InvalidPublicKey,
            },
    {
        if b.len() != 32 {
            return Err(AsymmetricKeyError::InvalidPublicKey);
        }
        if secp_check_public_key(b) {
            Ok(NostrPubKey { bytes: bytes_of_slice(b) })
        } else {
            Err(AsymmetricKeyError::InvalidPublicKey)
        }
    }

    /// Wrap bytes already known to form a public key.
    pub(crate) fn owned(bytes: Vec<u8>) -> (r: NostrPubKey)
        requires
            pubkey_bytes_ok(bytes@),
        ensures
            r@ == bytes@,
    {
        NostrPubKey { bytes }
    }

    /// Borrow the key bytes.
    pub fn as_bytes(&self) -> (r: &Vec<u8>)
        ensures
            r@ == self@,
            pubkey_bytes_ok(self@),
    {
        proof {
            use_type_invariant(self);
        }
        &self.bytes
    }

    /// The key's `npub` bech32 rendering.
    pub fn to_bech32(&self) -> (r: String)
        ensures
            r@ == bech32_encoding("npub"@, self@),
            no_colon(r@),
    {
        proof {
            use_type_invariant(self);
            lemma_nostr_hrps_valid();
            reveal_strlit("npub");
        }
        match encode_bech32("npub", &self.bytes) {
            Ok(s) => s,
            Err(_) => {
                proof {
                    assert(false);
                }
                String::new()
            },
        }
    }

    /// Parse the key from its `npub` bech32 form; reject other text, other
    /// prefixes and invalid key bytes, each with its own error.
    pub fn from_bech32(s: &str) -> (r: Result<NostrPubKey, AsymmetricKeyError>)
        ensures
            match r {
                Ok(k) => bech32_payload(s@, "npub"@) == Some(k@) && pubkey_bytes_ok(k@),
                Err(e) => match bech32_decoding(s@) {
                    None => e == AsymmetricKeyError::Bech32Parsing,
                    Some(p) => if p.0 != "npub"@ {
                        e == AsymmetricKeyError::WrongPrefixOrVariant
                    } else {
                        !pubkey_bytes_ok(p.1) && e == AsymmetricKeyError::InvalidPublicKey
                    },
                },
            },
    {
        match decode_bech32(s) {
            Ok((hrp, data)) => {
                if str_eq_chars(hrp.as_str(), "npub") {
                    Self::try_from_slice(data.as_slice())
                } else {
                    Err(AsymmetricKeyError::WrongPrefixOrVariant)
                }
            },
            Err(_) => Err(AsymmetricKeyError::Bech32Parsing),
        }
    }

    /// Read the key out of a decoded bech32 payload.
    pub fn from_bech32_data(srcdata: &[u8]) -> (r: Result<NostrPubKey, AsymmetricKeyError>)
        ensures
            match r {
                Ok(k) => pubkey_bytes_ok(srcdata@) && k@ == srcdata@,
                Err(e) => !pubkey_bytes_ok(srcdata@) && e == AsymmetricKeyError::InvalidPublicKey,
            },
    {
        Self::try_from_slice(srcdata)
    }

    /// Try the key as hex first, then as bech32.
    pub fn parse_str(s: &str) -> (r: Result<NostrPubKey, AsymmetricKeyError>)
        ensures
            match r {
                Ok(k) => pubkey_bytes_ok(k@) && (if crate::assymetric_secp256k1::public_key_hex_ok(
                    s@,
                ) {
                    k@ == hex_bytes_of(s@)
                } else {
                    bech32_payload(s@, "npub"@) == Some(k@)
                }),
                Err(_) => !crate::assymetric_secp256k1::public_key_hex_ok(s@) && match
                    bech32_payload(s@, "npub"@) {
                    Some(d) => !pubkey_bytes_ok(d),
                    None => true,
                },
            },
    {
        AssymetricSecp256k1().parse_public_key(s)
    }

    /// The key's hex rendering.
    pub fn to_hex_string(&self) -> (r: String)
        ensures
            r@ =~= hex_of(self@),
    {
        proof {
            use_type_invariant(self);
        }
        bytes_to_hex(self.bytes.as_slice())
    }
}

impl Clone for NostrPubKey {
    fn clone(&self) -> (r: NostrPubKey)
        ensures
            r@ == self@,
    {
        proof {
            use_type_invariant(self);
        }
        NostrPubKey { bytes: bytes_of_slice(self.bytes.as_slice()) }
    }
}

impl PartialEq for NostrPubKey {
    fn eq(&self, other: &NostrPubKey) -> (r: bool) {
        bytes_eq(self.bytes.as_slice(), other.bytes.as_slice())
    }
}

impl vstd::std_specs::cmp::PartialEqSpecImpl for NostrPubKey {
    open spec fn obeys_eq_spec() -> bool {
        true
    }

    open spec fn eq_spec(&self, other: &NostrPubKey) -> bool {
        self@ == other@
    }
}

impl Eq for NostrPubKey {

}

impl NostrSignature {
    /// A signature is always 64 bytes.
    #[verifier::type_invariant]
    closed spec fn type_inv(self) -> bool {
        self.bytes@.len() == 64
    }

    /// Accept signature bytes; reject what the curve rejects.
    pub fn try_from_slice(b: &[u8]) -> (r: Result<NostrSignature, AsymmetricKeyError>)
        ensures
            match r {
                Ok(sig) => sig@ == b@ && b@.len() == 64 && is_valid_signature_bytes(b@),
                Err(e) => !(b@.len() == 64 && is_valid_signature_bytes(b@)) && e
                    == AsymmetricKeyError::ProtocolError,
            },
    {
        if b.len() != 64 {
            return Err(AsymmetricKeyError::ProtocolError);
        }
        if secp_check_signature(b) {
            Ok(NostrSignature { bytes: bytes_of_slice(b) })
        } else {
            Err(AsymmetricKeyError::ProtocolError)
        }
    }

    /// Wrap a 64-byte buffer as a signature.
    pub(crate) fn owned(bytes: Vec<u8>) -> (r: NostrSignature)
        requires
            bytes@.len() == 64,
        ensures
            r@ == bytes@,
    {
        NostrSignature { bytes }
    }

    /// Borrow the signature bytes.
    pub fn as_bytes(&self) -> (r: &Vec<u8>)
        ensures
            r@ == self@,
            self@.len() == 64,
    {
        proof {
            use_type_invariant(self);
        }
        &self.bytes
    }

    /// Parse the signature from hex; reject malformed hex and invalid bytes,
    /// each with its own error.
    pub fn parse_str(s: &str) -> (r: Result<NostrSignature, AsymmetricKeyError>)
        ensures
            match r {
                Ok(sig) => is_hex_str(s@) && sig@ == hex_bytes_of(s@) && hex_bytes_of(
                    s@,
                ).len() == 64 && is_valid_signature_bytes(hex_bytes_of(s@)),
                Err(e) => if !is_hex_str(s@) {
                    e == AsymmetricKeyError::HexParsing
                } else {
                    !(hex_bytes_of(s@).len() == 64 && is_valid_signature_bytes(hex_bytes_of(s@)))
                        && e == AsymmetricKeyError::ProtocolError
                },
            },
    {
        AssymetricSecp256k1().parse_signature(s)
    }

    /// The signature's hex rendering.
    pub fn to_hex_string(&self) -> (r: String)
        ensures
            r@ =~= hex_of(self@),
    {
        proof {
            use_type_invariant(self);
        }
        bytes_to_hex(self.bytes.as_slice())
    }
}

impl Clone for NostrSignature {
    fn clone(&self) -> (r: NostrSignature)
        ensures
            r@ == self@,
    {
        proof {
            use_type_invariant(self);
        }
        NostrSignature { bytes: bytes_of_slice(self.bytes.as_slice()) }
    }
}

impl PartialEq for NostrSignature {
    fn eq(&self, other: &NostrSignature) -> (r: bool) {
        bytes_eq(self.bytes.as_slice(), other.bytes.as_slice())
    }
}

impl vstd::std_specs::cmp::PartialEqSpecImpl for NostrSignature {
    open spec fn obeys_eq_spec() -> bool {
        true
    }

    open spec fn eq_spec(&self, other: &NostrSignature) -> bool {
        self@ == other@
    }
}

impl Eq for NostrSignature {

}

impl SchnorrSigningKey {
    /// The secret bytes are a valid key and the public bytes are derived from
    /// them.
    #[verifier::type_invariant]
    closed spec fn type_inv(self) -> bool {
        &&& secret_bytes_ok(self.secret@)
        &&& self.public@ == pubkey_of_secret(self.secret@)
        &&& pubkey_bytes_ok(self.public@)
    }

    /// The secret half.
    pub closed spec fn secret_bytes(&self) -> Seq<u8> {
        self.secret@
    }

    /// The public half.
    pub closed spec fn public_bytes(&self) -> Seq<u8> {
        self.public@
    }

    /// Pair a secret key with the public key derived from it.
    pub fn from_secret_key(secretkey: NostrSecretKey) -> (r: Result<
        SchnorrSigningKey,
        AsymmetricKeyError,
    >)
        ensures
            match r {
                Ok(pair) => pair.secret_bytes() == secretkey@ && pair.public_bytes()
                    == pubkey_of_secret(secretkey@),
                Err(_) => false,
            },
    {
        let secret = secretkey.as_bytes().clone();
        match secp_derive_public_key(secret.as_slice()) {
            Some(public) => Ok(SchnorrSigningKey { secret, public }),
            None => {
                proof {
                    assert(false);
                }
                Err(AsymmetricKeyError::InvalidSecretKey)
            },
        }
    }

    /// The public half as a key value.
    pub fn verifying_key(&self) -> (r: NostrPubKey)
        ensures
            r@ == self.public_bytes(),
            r@ == pubkey_of_secret(self.secret_bytes()),
            pubkey_bytes_ok(r@),
    {
        proof {
            use_type_invariant(self);
        }
        NostrPubKey::owned(bytes_of_slice(self.public.as_slice()))
    }

    /// Borrow the secret half's bytes.
    pub(crate) fn secret_key_bytes(&self) -> (r: &Vec<u8>)
        ensures
            r@ == self.secret_bytes(),
            secret_bytes_ok(r@),
            pubkey_of_secret(r@) == self.public_bytes(),
    {
        proof {
            use_type_invariant(self);
        }
        &self.secret
    }
}

impl Clone for SchnorrSigningKey {
    fn clone(&self) -> (r: SchnorrSigningKey)
        ensures
            r.secret_bytes() == self.secret_bytes(),
            r.public_bytes() == self.public_bytes(),
    {
        proof {
            use_type_invariant(self);
        }
        SchnorrSigningKey {
            secret: bytes_of_slice(self.secret.as_slice()),
            public: bytes_of_slice(self.public.as_slice()),
        }
    }
}

} // verus!
