//! The deterministic random generator that signing consumes, and the seed
//! buffer the host hands in. The generator itself is outside code; the seed
//! handling is verified.
use vstd::prelude::*;
use rand_core::{RngCore, SeedableRng};

verus! {

/// The ChaCha20 generator of rand_chacha, held opaque.
#[verifier::external_type_specification]
#[verifier::external_body]
pub struct ExChaCha20Rng(rand_chacha::ChaCha20Rng);

/// The random generator used by signing operations.
pub type CryptoHashRng = rand_chacha::ChaCha20Rng;

/// Relies on ChaCha20Rng::from_seed: builds the generator deterministically
/// from the 32 seed bytes.
#[verifier::external_body]
pub fn rng_from_seed(seed: &[u8]) -> (r: rand_chacha::ChaCha20Rng)
    requires
        seed@.len() == 32,
{
    let mut s = [0u8; 32];
    s.copy_from_slice(seed);
    rand_chacha::ChaCha20Rng::from_seed(s)
}

/// Relies on RngCore::fill_bytes for ChaCha20Rng: fills the buffer with the
/// generator's next bytes; nothing is known of their values.
#[verifier::external_body]
pub fn rng_fill_32(rng: &mut rand_chacha::ChaCha20Rng) -> (r: Vec<u8>)
    ensures
        r@.len() == 32,
{
    let mut buf = vec![0u8; 32];
    rng.fill_bytes(&mut buf);
    buf
}

/// Relies on RngCore::next_u64 for ChaCha20Rng: the generator's next word;
/// nothing is known of its value.
#[verifier::external_body]
pub fn rng_next_u64(rng: &mut rand_chacha::ChaCha20Rng) -> u64 {
    rng.next_u64()
}

/// The 32-byte seed the host owns; reads and reseeds go through it.
pub struct RngSeed {
    bytes: Vec<u8>,
}

impl RngSeed {
    /// The seed is always exactly 32 bytes.
    #[verifier::type_invariant]
    closed spec fn type_inv(self) -> bool {
        self.bytes@.len() == 32
    }

    /// The seed bytes.
    pub closed spec fn view(&self) -> Seq<u8> {
        self.bytes@
    }

    /// A fresh all-zero seed.
    pub fn new_seed() -> (r: RngSeed)
        ensures
            r@.len() == 32,
            forall|i: int| 0 <= i < 32 ==> r@[i] == 0,
    {
        let mut bytes: Vec<u8> = Vec::new();
        let mut i: usize = 0;
        while i < 32
            invariant
                i <= 32,
                bytes@.len() == i,
                forall|j: int| 0 <= j < i ==> bytes@[j] == 0,
            decreases 32 - i,
        {
            bytes.push(0);
            i += 1;
        }
        RngSeed { bytes }
    }

    /// Overwrite the seed from a buffer: as many bytes as the buffer gives, up
    /// to 32, and zeros after that.
    pub fn assign_bytes(&mut self, buffer: &[u8])
        ensures
            final(self)@.len() == 32,
            forall|i: int|
                0 <= i < 32 ==> final(self)@[i] == if i < buffer@.len() {
                    buffer@[i]
                } else {
                    0
                },
    {
        proof {
            use_type_invariant(&*self);
        }
        let mut bytes: Vec<u8> = Vec::new();
        let mut i: usize = 0;
        while i < 32
            invariant
                i <= 32,
                bytes@.len() == i,
                forall|j: int|
                    0 <= j < i ==> bytes@[j] == if j < buffer@.len() {
                        buffer@[j]
                    } else {
                        0
                    },
            decreases 32 - i,
        {
            if i < buffer.len() {
                bytes.push(buffer[i]);
            } else {
                bytes.push(0);
            }
            i += 1;
        }
        self.bytes = bytes;
    }

    /// Borrow the seed bytes.
    pub fn as_bytes(&self) -> (r: &Vec<u8>)
        ensures
            r@ == self@,
            r@.len() == 32,
    {
        proof {
            use_type_invariant(self);
        }
        &self.bytes
    }
}

} // verus!
