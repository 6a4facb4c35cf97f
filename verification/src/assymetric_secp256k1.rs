//! The secp256k1 Schnorr (BIP-340) algorithm behind trusted wrappers, and the
//! concrete signing-capability value built on them. The signing capability is
//! instantiated once, for this algorithm; a second algorithm would stand
//! beside this type with the same operation set over its own byte widths.
use vstd::prelude::*;
use vstd::utf8::encode_utf8;
use k256::schnorr::signature::hazmat::{PrehashVerifier, RandomizedPrehashSigner};
use crate::basecore::AsymmetricKeyError;
use crate::encryption::{sha256, sha256_of};
use crate::hexutil::{hex_of, hex_bytes_of, is_hex_str, bytes_to_hex, hex_to_bytes};
use crate::nostrbech32::{bech32_decoding, bech32_encoding, decode_bech32, encode_bech32, valid_hrp};
use crate::rng::CryptoHashRng;
use crate::rng::rng_fill_32;
use crate::signing::{
    NostrPubKey, NostrSecretKey, NostrSignature, SchnorrSigningKey, secret_bytes_ok,
    pubkey_bytes_ok,
};

verus! {

/// The number a big-endian byte string encodes.
pub open spec fn be_bytes_value(b: Seq<u8>) -> int
    decreases b.len(),
{
    if b.len() == 0 {
        0
    } else {
        be_bytes_value(b.drop_last()) * 256 + b.last()
    }
}

/// The order of the secp256k1 group: scalars live below it.
pub open spec fn secp256k1_order() -> int {
    0xFFFFFFFFFFFFFFFFFFFFFFFFFFFFFFFEBAAEDCE6AF48A03BBFD25E8CD0364141int
}

/// The prime of the secp256k1 base field: coordinates live below it.
pub open spec fn secp256k1_field_prime() -> int {
    0xFFFFFFFFFFFFFFFFFFFFFFFFFFFFFFFFFFFFFFFFFFFFFFFFFFFFFFFEFFFFFC2Fint
}

/// True of byte strings that k256 accepts as a secret key: the 32-byte
/// big-endian encodings of the nonzero scalars below the group order.
pub open spec fn is_valid_secret_key(b: Seq<u8>) -> bool {
    b.len() == 32 && 1 <= be_bytes_value(b) < secp256k1_order()
}

/// True of byte strings that k256 accepts as an x-only public key: the
/// 32-byte x-coordinates of curve points.
pub uninterp spec fn is_valid_public_key(b: Seq<u8>) -> bool;

/// True of 64-byte strings that k256 accepts as a Schnorr signature: a
/// nonzero field element, then a nonzero scalar, both big-endian.
pub open spec fn is_valid_signature_bytes(b: Seq<u8>) -> bool {
    &&& b.len() == 64
    &&& 1 <= be_bytes_value(b.take(32)) < secp256k1_field_prime()
    &&& 1 <= be_bytes_value(b.skip(32)) < secp256k1_order()
}

/// The x-only public key derived from a secret key; a function of the secret
/// bytes alone.
pub uninterp spec fn pubkey_of_secret(sk: Seq<u8>) -> Seq<u8>;

/// Whether BIP-340 verification of the message bytes (as given, not hashed
/// here) succeeds against the key and signature bytes; a function of the three
/// alone, false wherever the key or signature bytes do not parse.
pub uninterp spec fn schnorr_verifies(msg: Seq<u8>, pk: Seq<u8>, sig: Seq<u8>) -> bool;

/// Relies on k256::schnorr::SigningKey::from_bytes and
/// VerifyingKey::to_bytes: deriving the x-only public key succeeds exactly on
/// 32-byte nonzero scalars below the group order, is a function of the secret
/// bytes alone, and yields 32 bytes that VerifyingKey::from_bytes accepts
/// back.
#[verifier::external_body]
pub(crate) fn secp_derive_public_key(sk: &[u8]) -> (r: Option<Vec<u8>>)
    ensures
        match r {
            Some(pk) => is_valid_secret_key(sk@) && sk@.len() == 32 && pk@ == pubkey_of_secret(sk@)
                && pk@.len() == 32 && is_valid_public_key(pk@),
            None => !is_valid_secret_key(sk@),
        },
{
    match k256::schnorr::SigningKey::from_bytes(sk) {
        Ok(key) => Some(key.verifying_key().to_bytes().to_vec()),
        Err(_) => None,
    }
}

/// Relies on k256::schnorr::VerifyingKey::from_bytes: accepts exactly the
/// 32-byte x-only encodings of curve points.
#[verifier::external_body]
pub(crate) fn secp_check_public_key(b: &[u8]) -> (r: bool)
    requires
        b@.len() == 32,
    ensures
        r == is_valid_public_key(b@),
{
    k256::schnorr::VerifyingKey::from_bytes(b).is_ok()
}

/// Relies on k256::schnorr::Signature::try_from: accepts exactly the 64-byte
/// strings whose halves are a nonzero field element below the field prime and
/// a nonzero scalar below the group order, both big-endian.
#[verifier::external_body]
pub(crate) fn secp_check_signature(b: &[u8]) -> (r: bool)
    requires
        b@.len() == 64,
    ensures
        r == is_valid_signature_bytes(b@),
{
    k256::schnorr::Signature::try_from(b).is_ok()
}

/// Relies on k256::schnorr::SigningKey::from_bytes and
/// RandomizedPrehashSigner::sign_prehash_with_rng: BIP-340 signing of the
/// message bytes as given, with auxiliary randomness drawn from the
/// generator. The signature bytes depend on that randomness, so their value is
/// not named; what holds of every outcome is that a returned signature is 64
/// well-formed bytes and verifies over the same message under the key derived
/// from the secret: sign_raw builds exactly the pair that verify_raw accepts
/// (and checks so itself in debug builds).
#[verifier::external_body]
pub(crate) fn secp_sign_prehash(sk: &[u8], msg: &[u8], rng: &mut CryptoHashRng) -> (r: Option<
    Vec<u8>,
>)
    ensures
        match r {
            Some(sig) => is_valid_secret_key(sk@) && sig@.len() == 64 && is_valid_signature_bytes(
                sig@,
            ) && schnorr_verifies(msg@, pubkey_of_secret(sk@), sig@),
            None => true,
        },
{
    let key = match k256::schnorr::SigningKey::from_bytes(sk) {
        Ok(key) => key,
        Err(_) => {
            return None;
        },
    };
    match key.sign_prehash_with_rng(rng, msg) {
        Ok(sig) => Some(sig.to_bytes().to_vec()),
        Err(_) => None,
    }
}

/// Relies on k256::schnorr::VerifyingKey::from_bytes, Signature::try_from and
/// PrehashVerifier::verify_prehash: BIP-340 verification of the message bytes
/// as given, a function of message, key bytes and signature bytes alone;
/// false wherever the key or signature bytes do not parse.
#[verifier::external_body]
pub(crate) fn secp_verify_prehash(msg: &[u8], pk: &[u8], sig: &[u8]) -> (r: bool)
    requires
        pk@.len() == 32,
        sig@.len() == 64,
    ensures
        r == schnorr_verifies(msg@, pk@, sig@),
{
    let key = match k256::schnorr::VerifyingKey::from_bytes(pk) {
        Ok(key) => key,
        Err(_) => {
            return false;
        },
    };
    let signature = match k256::schnorr::Signature::try_from(sig) {
        Ok(signature) => signature,
        Err(_) => {
            return false;
        },
    };
    key.verify_prehash(msg, &signature).is_ok()
}

/// True when the string is the hex rendering of a valid secret key.
pub open spec fn secret_key_hex_ok(s: Seq<char>) -> bool {
    is_hex_str(s) && secret_bytes_ok(hex_bytes_of(s))
}

/// True when the string is the hex rendering of a valid public key.
pub open spec fn public_key_hex_ok(s: Seq<char>) -> bool {
    is_hex_str(s) && pubkey_bytes_ok(hex_bytes_of(s))
}

/// The payload of a bech32 string under the given prefix, if the string
/// decodes and carries that prefix.
pub open spec fn bech32_payload(s: Seq<char>, hrp: Seq<char>) -> Option<Seq<u8>> {
    match bech32_decoding(s) {
        Some(p) => if p.0 == hrp {
            Some(p.1)
        } else {
            None
        },
        None => None,
    }
}

/// The secp256k1 Schnorr instantiation of the signing capability.
pub struct AssymetricSecp256k1();

impl AssymetricSecp256k1 {
    /// Accept secret-key bytes; reject what the curve rejects.
    pub fn new_secret_key_from_bytes(&self, secret_key_bytes: &[u8]) -> (r: Result<
        NostrSecretKey,
        AsymmetricKeyError,
    >)
        ensures
            match r {
                Ok(k) => secret_bytes_ok(secret_key_bytes@) && k@ == secret_key_bytes@,
                Err(e) => !secret_bytes_ok(secret_key_bytes@) && e
                    == AsymmetricKeyError::InvalidSecretKey,
            },
    {
        NostrSecretKey::try_from_slice(secret_key_bytes)
    }

    /// Parse a secret key from hex; reject malformed hex and invalid keys.
    pub fn parse_secret_key_from_hex(&self, secret_key_str: &str) -> (r: Result<
        NostrSecretKey,
        AsymmetricKeyError,
    >)
        ensures
            match r {
                Ok(k) => secret_key_hex_ok(secret_key_str@) && k@ == hex_bytes_of(
                    secret_key_str@,
                ),
                Err(e) => !secret_key_hex_ok(secret_key_str@) && e
                    == AsymmetricKeyError::InvalidSecretKey,
            },
    {
        match hex_to_bytes(secret_key_str) {
            Some(bytes) => self.new_secret_key_from_bytes(bytes.as_slice()),
            None => Err(AsymmetricKeyError::InvalidSecretKey),
        }
    }

    /// Parse a secret key from its `nsec` bech32 form; reject other text,
    /// other prefixes and invalid key bytes, each with its own error.
    pub fn parse_secret_key_bech32(&self, secret_key_str: &str) -> (r: Result<
        NostrSecretKey,
        AsymmetricKeyError,
    >)
        ensures
            match r {
                Ok(k) => bech32_payload(secret_key_str@, "nsec"@) == Some(k@) && secret_bytes_ok(
                    k@,
                ),
                Err(e) => match bech32_decoding(secret_key_str@) {
                    None => e == AsymmetricKeyError::Bech32Parsing,
                    Some(p) => if p.0 != "nsec"@ {
                        e == AsymmetricKeyError::WrongPrefixOrVariant
                    } else {
                        !secret_bytes_ok(p.1) && e == AsymmetricKeyError::InvalidSecretKey
                    },
                },
            },
    {
        NostrSecretKey::from_bech32(secret_key_str)
    }

    /// Try a secret key as hex first, then as bech32.
    pub fn parse_secret_key(&self, secret_key_str: &str) -> (r: Result<
        NostrSecretKey,
        AsymmetricKeyError,
    >)
        ensures
            match r {
                Ok(k) => secret_bytes_ok(k@) && if secret_key_hex_ok(secret_key_str@) {
                    k@ == hex_bytes_of(secret_key_str@)
                } else {
                    bech32_payload(secret_key_str@, "nsec"@) == Some(k@)
                },
                Err(_) => !secret_key_hex_ok(secret_key_str@) && match bech32_payload(
                    secret_key_str@,
                    "nsec"@,
                ) {
                    Some(d) => !secret_bytes_ok(d),
                    None => true,
                },
            },
    {
        match self.parse_secret_key_from_hex(secret_key_str) {
            Ok(k) => Ok(k),
            Err(_) => self.parse_secret_key_bech32(secret_key_str),
        }
    }

    /// Draw 32 bytes from the generator and accept them as a secret key;
    /// reject the draw the curve rejects.
    pub fn generate_secret_key(&self, rngobj: &mut CryptoHashRng) -> (r: Result<
        NostrSecretKey,
        AsymmetricKeyError,
    >)
        ensures
            match r {
                Ok(k) => secret_bytes_ok(k@),
                Err(e) => e == AsymmetricKeyError::InvalidSecretKey,
            },
    {
        let buffer = rng_fill_32(rngobj);
        self.new_secret_key_from_bytes(buffer.as_slice())
    }

    /// The secret key's 32 bytes.
    pub fn secret_key_to_bytes(&self, skey: &NostrSecretKey) -> (r: Vec<u8>)
        ensures
            r@ == skey@,
            r@.len() == 32,
    {
        skey.as_bytes().clone()
    }

    /// The secret key's hex rendering.
    pub fn secret_key_to_hex(&self, skey: &NostrSecretKey) -> (r: String)
        ensures
            r@ =~= hex_of(skey@),
    {
        bytes_to_hex(skey.as_bytes().as_slice())
    }

    /// The secret key's `nsec` bech32 rendering.
    pub fn secret_key_to_bech32(&self, skey: &NostrSecretKey) -> (r: String)
        ensures
            r@ == bech32_encoding("nsec"@, skey@),
    {
        skey.to_bech32()
    }

    /// Accept public-key bytes; reject what the curve rejects.
    pub fn new_public_key_from_bytes(&self, key_bytes: &[u8]) -> (r: Result<
        NostrPubKey,
        AsymmetricKeyError,
    >)
        ensures
            match r {
                Ok(k) => pubkey_bytes_ok(key_bytes@) && k@ == key_bytes@,
                Err(e) => !pubkey_bytes_ok(key_bytes@) && e
                    == AsymmetricKeyError::InvalidPublicKey,
            },
    {
        NostrPubKey::try_from_slice(key_bytes)
    }

    /// Parse a public key from hex; reject malformed hex and invalid keys.
    pub fn parse_public_key_from_hex(&self, key_str: &str) -> (r: Result<
        NostrPubKey,
        AsymmetricKeyError,
    >)
        ensures
            match r {
                Ok(k) => public_key_hex_ok(key_str@) && k@ == hex_bytes_of(key_str@),
                Err(e) => !public_key_hex_ok(key_str@) && e
                    == AsymmetricKeyError::InvalidPublicKey,
            },
    {
        match hex_to_bytes(key_str) {
            Some(bytes) => self.new_public_key_from_bytes(bytes.as_slice()),
            None => Err(AsymmetricKeyError::InvalidPublicKey),
        }
    }

    /// Parse a public key from its `npub` bech32 form; reject other text,
    /// other prefixes and invalid key bytes, each with its own error.
    pub fn parse_public_key_bech32(&self, key_str: &str) -> (r: Result<
        NostrPubKey,
        AsymmetricKeyError,
    >)
        ensures
            match r {
                Ok(k) => bech32_payload(key_str@, "npub"@) == Some(k@) && pubkey_bytes_ok(k@),
                Err(e) => match bech32_decoding(key_str@) {
                    None => e == AsymmetricKeyError::Bech32Parsing,
                    Some(p) => if p.0 != "npub"@ {
                        e == AsymmetricKeyError::WrongPrefixOrVariant
                    } else {
                        !pubkey_bytes_ok(p.1) && e == AsymmetricKeyError::InvalidPublicKey
                    },
                },
            },
    {
        NostrPubKey::from_bech32(key_str)
    }

    /// Try a public key as hex first, then as bech32.
    pub fn parse_public_key(&self, key_str: &str) -> (r: Result<NostrPubKey, AsymmetricKeyError>)
        ensures
            match r {
                Ok(k) => pubkey_bytes_ok(k@) && if public_key_hex_ok(key_str@) {
                    k@ == hex_bytes_of(key_str@)
                } else {
                    bech32_payload(key_str@, "npub"@) == Some(k@)
                },
                Err(_) => !public_key_hex_ok(key_str@) && match bech32_payload(
                    key_str@,
                    "npub"@,
                ) {
                    Some(d) => !pubkey_bytes_ok(d),
                    None => true,
                },
            },
    {
        match self.parse_public_key_from_hex(key_str) {
            Ok(k) => Ok(k),
            Err(_) => self.parse_public_key_bech32(key_str),
        }
    }

    /// The public key's 32 bytes.
    pub fn public_key_to_bytes(&self, pkey: &NostrPubKey) -> (r: Vec<u8>)
        ensures
            r@ == pkey@,
            r@.len() == 32,
    {
        pkey.as_bytes().clone()
    }

    /// The public key's hex rendering.
    pub fn public_key_to_hex(&self, pkey: &NostrPubKey) -> (r: String)
        ensures
            r@ =~= hex_of(pkey@),
    {
        bytes_to_hex(pkey.as_bytes().as_slice())
    }

    /// The public key's `npub` bech32 rendering.
    pub fn public_key_to_bech32(&self, pkey: &NostrPubKey) -> (r: String)
        ensures
            r@ == bech32_encoding("npub"@, pkey@),
    {
        pkey.to_bech32()
    }

    /// Pair a secret key with its derived public key.
    pub fn new_keypair(&self, secretkey: NostrSecretKey) -> (r: Result<
        SchnorrSigningKey,
        AsymmetricKeyError,
    >)
        ensures
            match r {
                Ok(pair) => pair.secret_bytes() == secretkey@ && pair.public_bytes()
                    == pubkey_of_secret(secretkey@),
                Err(_) => false,
            },
    {
        SchnorrSigningKey::from_secret_key(secretkey)
    }

    /// Draw a fresh secret key and pair it with its public key.
    pub fn generate_keypair(&self, rngobj: &mut CryptoHashRng) -> (r: Result<
        SchnorrSigningKey,
        AsymmetricKeyError,
    >)
        ensures
            match r {
                Ok(pair) => pair.public_bytes() == pubkey_of_secret(pair.secret_bytes()),
                Err(e) => e == AsymmetricKeyError::InvalidSecretKey,
            },
    {
        let sk = self.generate_secret_key(rngobj)?;
        self.new_keypair(sk)
    }

    /// The public half of a keypair.
    pub fn pubkey_from_pair(&self, signing_key: &SchnorrSigningKey) -> (r: NostrPubKey)
        ensures
            r@ == signing_key.public_bytes(),
            r@ == pubkey_of_secret(signing_key.secret_bytes()),
    {
        signing_key.verifying_key()
    }

    /// Accept signature bytes; reject what the curve rejects.
    pub fn new_signature_from_bytes(&self, key_bytes: &[u8]) -> (r: Result<
        NostrSignature,
        AsymmetricKeyError,
    >)
        ensures
            match r {
                Ok(sig) => sig@ == key_bytes@ && key_bytes@.len() == 64 && is_valid_signature_bytes(
                    key_bytes@,
                ),
                Err(e) => !(key_bytes@.len() == 64 && is_valid_signature_bytes(key_bytes@)) && e
                    == AsymmetricKeyError::ProtocolError,
            },
    {
        NostrSignature::try_from_slice(key_bytes)
    }

    /// Parse a signature from hex; reject malformed hex and invalid bytes,
    /// each with its own error.
    pub fn parse_signature_from_hex(&self, key_str: &str) -> (r: Result<
        NostrSignature,
        AsymmetricKeyError,
    >)
        ensures
            match r {
                Ok(sig) => is_hex_str(key_str@) && sig@ == hex_bytes_of(key_str@)
                    && hex_bytes_of(key_str@).len() == 64 && is_valid_signature_bytes(
                    hex_bytes_of(key_str@),
                ),
                Err(e) => if !is_hex_str(key_str@) {
                    e == AsymmetricKeyError::HexParsing
                } else {
                    !(hex_bytes_of(key_str@).len() == 64 && is_valid_signature_bytes(
                        hex_bytes_of(key_str@),
                    )) && e == AsymmetricKeyError::ProtocolError
                },
            },
    {
        match hex_to_bytes(key_str) {
            Some(bytes) => self.new_signature_from_bytes(bytes.as_slice()),
            None => Err(AsymmetricKeyError::HexParsing),
        }
    }

    /// Parse a signature; only the hex form exists.
    pub fn parse_signature(&self, key_str: &str) -> (r: Result<
        NostrSignature,
        AsymmetricKeyError,
    >)
        ensures
            match r {
                Ok(sig) => is_hex_str(key_str@) && sig@ == hex_bytes_of(key_str@)
                    && hex_bytes_of(key_str@).len() == 64 && is_valid_signature_bytes(
                    hex_bytes_of(key_str@),
                ),
                Err(e) => if !is_hex_str(key_str@) {
                    e == AsymmetricKeyError::HexParsing
                } else {
                    !(hex_bytes_of(key_str@).len() == 64 && is_valid_signature_bytes(
                        hex_bytes_of(key_str@),
                    )) && e == AsymmetricKeyError::ProtocolError
                },
            },
    {
        self.parse_signature_from_hex(key_str)
    }

    /// The signature's 64 bytes.
    pub fn signature_to_bytes(&self, sig: &NostrSignature) -> (r: Vec<u8>)
        ensures
            r@ == sig@,
            r@.len() == 64,
    {
        sig.as_bytes().clone()
    }

    /// The signature's hex rendering.
    pub fn signature_to_hex(&self, sig: &NostrSignature) -> (r: String)
        ensures
            r@ =~= hex_of(sig@),
    {
        bytes_to_hex(sig.as_bytes().as_slice())
    }

    /// Sign the bytes as given (they are the BIP-340 message, not hashed
    /// again), with auxiliary randomness from the generator. The signature
    /// depends on that randomness, so its value is not pinned; whatever comes
    /// back verifies over the same bytes under the signer's public key.
    pub fn generate_signature_from_bytes(
        &self,
        msg: &[u8],
        signer: &SchnorrSigningKey,
        rngcore: &mut CryptoHashRng,
    ) -> (r: Result<NostrSignature, AsymmetricKeyError>)
        ensures
            match r {
                Ok(sig) => sig@.len() == 64 && is_valid_signature_bytes(sig@) && schnorr_verifies(
                    msg@,
                    signer.public_bytes(),
                    sig@,
                ),
                Err(e) => e == AsymmetricKeyError::ProtocolError,
            },
    {
        let sk = signer.secret_key_bytes();
        match secp_sign_prehash(sk.as_slice(), msg, rngcore) {
            Some(sig) => Ok(NostrSignature::owned(sig)),
            None => Err(AsymmetricKeyError::ProtocolError),
        }
    }

    /// Sign a text message: hash its UTF-8 bytes with SHA-256 first, then
    /// sign the digest. Whatever comes back verifies over that digest under
    /// the signer's public key.
    pub fn generate_signature(
        &self,
        msg: &str,
        signer: &SchnorrSigningKey,
        rngcore: &mut CryptoHashRng,
    ) -> (r: Result<NostrSignature, AsymmetricKeyError>)
        ensures
            match r {
                Ok(sig) => sig@.len() == 64 && is_valid_signature_bytes(sig@) && schnorr_verifies(
                    sha256_of(encode_utf8(msg@)),
                    signer.public_bytes(),
                    sig@,
                ),
                Err(e) => e == AsymmetricKeyError::ProtocolError,
            },
    {
        let digest = sha256(msg.as_bytes());
        self.generate_signature_from_bytes(digest.as_slice(), signer, rngcore)
    }

    /// Verify a signature over the bytes as given (they are the BIP-340
    /// message, not hashed again).
    pub fn verifying_signature_from_bytes(
        &self,
        msg: &[u8],
        pkey: &NostrPubKey,
        signature: &NostrSignature,
    ) -> (r: Result<(), AsymmetricKeyError>)
        ensures
            r is Ok <==> schnorr_verifies(msg@, pkey@, signature@),
            r is Err ==> r->Err_0 == AsymmetricKeyError::ProtocolError,
    {
        let ok = secp_verify_prehash(msg, pkey.as_bytes().as_slice(), signature.as_bytes().as_slice());
        if ok {
            Ok(())
        } else {
            Err(AsymmetricKeyError::ProtocolError)
        }
    }

    /// Verify a signature over a text message: hash its UTF-8 bytes with
    /// SHA-256 first, then verify over the digest.
    pub fn verifying_signature(
        &self,
        msg: &str,
        pkey: &NostrPubKey,
        signature: &NostrSignature,
    ) -> (r: Result<(), AsymmetricKeyError>)
        ensures
            r is Ok <==> schnorr_verifies(sha256_of(encode_utf8(msg@)), pkey@, signature@),
            r is Err ==> r->Err_0 == AsymmetricKeyError::ProtocolError,
    {
        let digest = sha256(msg.as_bytes());
        self.verifying_signature_from_bytes(digest.as_slice(), pkey, signature)
    }
}

} // verus!
