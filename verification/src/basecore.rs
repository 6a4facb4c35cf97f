//! Shared byte-size constants and the error taxonomy of the parsing layer.
use vstd::prelude::*;

verus! {

/// Byte width of keys and event ids.
pub const FIELD_BYTE_SIZE: usize = 32;

/// Byte width of a Schnorr signature.
pub const SIGNATURE_BYTE_SIZE: usize = 64;

/// The required TLV fields that a decoder can find missing.
#[derive(Debug, Clone, Copy, PartialEq, Eq, Structural)]
pub enum MissingField {
    /// The relay url of an `nrelay` payload.
    Url,
    /// The public key of an `nprofile` or `naddr` payload.
    Pubkey,
    /// The kind of an `naddr` payload.
    Kind,
    /// The identifier of an `naddr` payload.
    Identifier,
    /// The event id of an `nevent` payload.
    EventId,
}

/// Errors of the parsing and encoding layer.
#[derive(Debug, Clone, PartialEq, Eq)]
pub enum ParseError {
    /// Malformed hex in a fixed-width field.
    Hex,
    /// Malformed hex in a variable-width buffer.
    HexData,
    /// Malformed decimal integer.
    ParseInt,
    /// Malformed URL.
    URL,
    /// A `nostr:` URI whose scheme or body is unusable.
    BadURI(String),
    /// Owned bytes that do not decode as UTF-8.
    FromUTF8,
    /// Borrowed bytes that do not decode as UTF-8.
    UTF8,
    /// Malformed bech32 text.
    Bech32,
    /// A payload that the bech32 encoder cannot carry.
    ToBech32,
    /// A bech32 prefix other than the expected one.
    WrongBech32PrefixOrVariant,
    /// A TLV record that is truncated or runs past the buffer.
    TLV,
    /// A required TLV field that never appeared, by name.
    FieldMissing(MissingField),
    /// A slice whose length does not fit the target.
    TryFromSlice,
    /// Malformed JSON where a tag was expected.
    FromJSON,
}

/// Errors of the key and signature layer.
#[derive(Debug, Clone, PartialEq, Eq)]
pub enum AsymmetricKeyError {
    /// Bytes that are not a valid secret key.
    InvalidSecretKey,
    /// Bytes that are not a valid public key.
    InvalidPublicKey,
    /// A secret key that was required and absent.
    SkMissing,
    /// Malformed hex where key material was expected.
    HexParsing,
    /// Malformed bech32 where key material was expected.
    Bech32Parsing,
    /// A payload that the bech32 encoder cannot carry.
    ToBech32,
    /// A bech32 prefix other than the expected one.
    WrongPrefixOrVariant,
    /// A failure reported by the signature algorithm itself.
    ProtocolError,
}

} // verus!
