//! Core data model, identity computation, signature scheme and wire-level text
//! encodings of the Nostr protocol: event ids and their verification, a
//! secp256k1 Schnorr signing layer, bech32/TLV entity codecs, tag
//! standardization and delegation conditions.
use vstd::prelude::*;

pub mod strutil;
pub mod hexutil;
pub mod decutil;
pub mod basecore;
pub mod event_error;
pub mod event_kind;
pub mod nostrpow;
pub mod event_id;
pub mod rng;
pub mod encryption;
pub mod nostrbech32;
pub mod signing;
pub mod assymetric_secp256k1;
pub mod time;
pub mod tagerror;
pub mod tagdata;
pub mod jsonfmt;
pub mod event_data;
pub mod tlv;
pub mod relayinfo;
pub mod nostrprofile;
pub mod sharedevent;
pub mod coordinate;
pub mod nostruri;
pub mod delegation;
pub mod report;
pub mod relaymetadata;
pub mod nostrhttpmethod;
pub mod marker;
pub mod nostrimage;
pub mod single_letter_tag;
pub mod tagstandard;

