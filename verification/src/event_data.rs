//! An event as the wire carries it, and its verification: the id against the
//! recomputed hash, then the signature against the id.
use vstd::prelude::*;
use vstd::utf8::encode_utf8;
use crate::assymetric_secp256k1::{AssymetricSecp256k1, schnorr_verifies};
use crate::basecore::AsymmetricKeyError;
use crate::encryption::sha256_of;
use crate::event_error::EventDataError;
use crate::event_id::{EventId, event_preimage, tags_bytes_view};
use crate::event_kind::Kind;
use crate::nostrpow::leading_zero_bits;
use crate::signing::{NostrPubKey, NostrSignature};
use crate::tagdata::TagData;
use crate::time::Timestamp;

verus! {

/// The id an event's fields hash to.
pub open spec fn event_computed_id(
    pubkey: Seq<u8>,
    created_at: u64,
    kind: u16,
    tags: Seq<TagData>,
    content: Seq<char>,
) -> Seq<u8> {
    sha256_of(event_preimage(pubkey, created_at, kind, tags_bytes_view(tags), encode_utf8(content)))
}

/// Lexicographic order on byte strings: the first differing byte decides, a
/// proper prefix comes first.
pub open spec fn bytes_lex_less(a: Seq<u8>, b: Seq<u8>) -> bool
    decreases a.len(),
{
    if b.len() == 0 {
        false
    } else if a.len() == 0 {
        true
    } else if a[0] < b[0] {
        true
    } else if a[0] > b[0] {
        false
    } else {
        bytes_lex_less(a.drop_first(), b.drop_first())
    }
}

/// The event id is a function of the preimage fields alone: two events whose
/// author, creation time, kind, tag tokens and content agree hash to the same
/// id.
pub proof fn lemma_event_id_deterministic(a: EventData, b: EventData)
    requires
        a.pubkey@ == b.pubkey@,
        a.created_at == b.created_at,
        a.kind == b.kind,
        tags_bytes_view(a.tags@) == tags_bytes_view(b.tags@),
        a.content@ == b.content@,
    ensures
        event_computed_id(a.pubkey@, a.created_at.0, a.kind.0, a.tags@, a.content@)
            == event_computed_id(b.pubkey@, b.created_at.0, b.kind.0, b.tags@, b.content@),
{
}

/// An event: id, author, creation time, kind, tags, content and signature.
/// Parsing does not verify; verification is its own explicit step.
#[derive(Debug)]
pub struct EventData {
    /// Id: must equal the hash of the other fields to verify.
    pub id: EventId,
    /// Author key.
    pub pubkey: NostrPubKey,
    /// Creation time, in Unix seconds.
    pub created_at: Timestamp,
    /// Kind.
    pub kind: Kind,
    /// Ordered tag list.
    pub tags: Vec<TagData>,
    /// Content text.
    pub content: String,
    /// Signature over the id bytes.
    pub sig: NostrSignature,
}

impl EventData {
    /// Assemble an event from its parts, unverified.
    pub fn new(
        id: EventId,
        public_key: NostrPubKey,
        created_at: Timestamp,
        kind: Kind,
        tags: Vec<TagData>,
        content: String,
        sig: NostrSignature,
    ) -> (r: EventData)
        ensures
            r.id@ == id@,
            r.pubkey@ == public_key@,
            r.created_at == created_at,
            r.kind == kind,
            r.tags@ == tags@,
            r.content@ == content@,
            r.sig@ == sig@,
    {
        EventData { id, pubkey: public_key, created_at, kind, tags, content, sig }
    }

    /// Recompute the id from the fields and hold the stored id to it.
    pub fn verify_id(&self) -> (r: Result<(), EventDataError>)
        ensures
            r is Ok <==> self.id@ == event_computed_id(
                self.pubkey@,
                self.created_at.0,
                self.kind.0,
                self.tags@,
                self.content@,
            ),
            r is Err ==> r->Err_0 == EventDataError::InvalidEventHash,
    {
        let evid = EventId::new(
            &self.pubkey,
            &self.created_at,
            &self.kind,
            self.tags.as_slice(),
            self.content.as_str(),
        );
        if evid.eq_id(&self.id) {
            Ok(())
        } else {
            Err(EventDataError::InvalidEventHash)
        }
    }

    /// Verify the signature over the raw 32 id bytes (they are already a
    /// hash, and are not hashed again) against the author key.
    pub fn verify_signature(&self) -> (r: Result<(), EventDataError>)
        ensures
            r is Ok <==> schnorr_verifies(self.id@, self.pubkey@, self.sig@),
            r is Err ==> r->Err_0 == EventDataError::InvalidEventSignature(
                AsymmetricKeyError::ProtocolError,
            ),
    {
        let ecda = AssymetricSecp256k1();
        let res = ecda.verifying_signature_from_bytes(
            self.id.as_bytes().as_slice(),
            &self.pubkey,
            &self.sig,
        );
        match res {
            Ok(()) => Ok(()),
            Err(e) => Err(EventDataError::InvalidEventSignature(e)),
        }
    }

    /// Verify the event: the id against the recomputed hash first, and only
    /// on success the signature. A wrong id is reported as a hash failure,
    /// never as a signature failure.
    pub fn verify(&self) -> (r: Result<(), EventDataError>)
        ensures
            r is Ok <==> (self.id@ == event_computed_id(
                self.pubkey@,
                self.created_at.0,
                self.kind.0,
                self.tags@,
                self.content@,
            ) && schnorr_verifies(self.id@, self.pubkey@, self.sig@)),
            r is Err ==> r->Err_0 == (if self.id@ != event_computed_id(
                self.pubkey@,
                self.created_at.0,
                self.kind.0,
                self.tags@,
                self.content@,
            ) {
                EventDataError::InvalidEventHash
            } else {
                EventDataError::InvalidEventSignature(AsymmetricKeyError::ProtocolError)
            }),
    {
        match self.verify_id() {
            Ok(()) => self.verify_signature(),
            Err(e) => Err(e),
        }
    }

    /// Order two events: ascending creation time first, the id bytes as the
    /// tiebreak.
    pub fn cmp_order(&self, other: &EventData) -> (r: core::cmp::Ordering)
        ensures
            r == (if self.created_at.0 < other.created_at.0 {
                core::cmp::Ordering::Less
            } else if self.created_at.0 > other.created_at.0 {
                core::cmp::Ordering::Greater
            } else if bytes_lex_less(self.id@, other.id@) {
                core::cmp::Ordering::Less
            } else if bytes_lex_less(other.id@, self.id@) {
                core::cmp::Ordering::Greater
            } else {
                core::cmp::Ordering::Equal
            }),
    {
        if self.created_at.0 < other.created_at.0 {
            return core::cmp::Ordering::Less;
        }
        if self.created_at.0 > other.created_at.0 {
            return core::cmp::Ordering::Greater;
        }
        let a = self.id.as_bytes();
        let b = other.id.as_bytes();
        let n = a.len();
        let mut i: usize = 0;
        proof {
            assert(a@.skip(0) =~= a@);
            assert(b@.skip(0) =~= b@);
        }
        while i < n
            invariant
                n == a@.len() == b@.len(),
                i <= n,
                self.created_at.0 == other.created_at.0,
                a@ == self.id@,
                b@ == other.id@,
                forall|j: int| 0 <= j < i ==> a@[j] == b@[j],
                bytes_lex_less(self.id@, other.id@) == bytes_lex_less(
                    a@.skip(i as int),
                    b@.skip(i as int),
                ),
                bytes_lex_less(other.id@, self.id@) == bytes_lex_less(
                    b@.skip(i as int),
                    a@.skip(i as int),
                ),
            decreases n - i,
        {
            proof {
                assert(a@.skip(i as int)[0] == a@[i as int]);
                assert(b@.skip(i as int)[0] == b@[i as int]);
                assert(a@.skip(i as int).drop_first() =~= a@.skip(i + 1));
                assert(b@.skip(i as int).drop_first() =~= b@.skip(i + 1));
            }
            if a[i] < b[i] {
                return core::cmp::Ordering::Less;
            }
            if a[i] > b[i] {
                return core::cmp::Ordering::Greater;
            }
            i += 1;
        }
        proof {
            assert(a@.skip(n as int) =~= Seq::<u8>::empty());
            assert(b@.skip(n as int) =~= Seq::<u8>::empty());
        }
        core::cmp::Ordering::Equal
    }

    /// Whether the id clears the given proof-of-work difficulty (NIP-13).
    pub fn check_pow(&self, difficulty: u8) -> (r: bool)
        ensures
            r == (leading_zero_bits(self.id@) >= difficulty),
    {
        self.id.check_pow(difficulty)
    }
}

impl Clone for EventData {
    fn clone(&self) -> (r: EventData)
        ensures
            r.id@ == self.id@,
            r.pubkey@ == self.pubkey@,
            r.created_at == self.created_at,
            r.kind == self.kind,
            r.tags.deep_view() == self.tags.deep_view(),
            r.content@ == self.content@,
            r.sig@ == self.sig@,
    {
        let mut tags: Vec<TagData> = Vec::new();
        let n = self.tags.len();
        let mut i: usize = 0;
        while i < n
            invariant
                n == self.tags@.len(),
                i <= n,
                tags@.len() == i,
                forall|j: int| 0 <= j < i ==> #[trigger] tags@[j]@ == self.tags@[j]@,
            decreases n - i,
        {
            tags.push(self.tags[i].clone());
            i += 1;
        }
        proof {
            assert forall|j: int| 0 <= j < n implies tags.deep_view()[j]
                == self.tags.deep_view()[j] by {
                assert(tags.deep_view()[j] == tags@[j]@);
                assert(self.tags.deep_view()[j] == self.tags@[j]@);
            }
            assert(tags.deep_view() =~= self.tags.deep_view());
        }
        EventData {
            id: self.id.clone(),
            pubkey: self.pubkey.clone(),
            created_at: self.created_at,
            kind: self.kind,
            tags,
            content: self.content.clone(),
            sig: self.sig.clone(),
        }
    }
}

} // verus!
