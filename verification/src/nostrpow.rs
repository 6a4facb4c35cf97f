//! Proof-of-work metric of NIP-13: leading zero bits of an event id.
use vstd::prelude::*;

verus! {

/// Leading zero bits of one byte, most significant bit first.
pub open spec fn byte_leading_zeros(b: u8) -> nat {
    if b >= 128 {
        0
    } else if b >= 64 {
        1
    } else if b >= 32 {
        2
    } else if b >= 16 {
        3
    } else if b >= 8 {
        4
    } else if b >= 4 {
        5
    } else if b >= 2 {
        6
    } else if b >= 1 {
        7
    } else {
        8
    }
}

/// Leading zero bits of a byte string, most significant bit of the first byte
/// first.
pub open spec fn leading_zero_bits(bytes: Seq<u8>) -> nat
    decreases bytes.len(),
{
    if bytes.len() == 0 {
        0
    } else if bytes[0] == 0 {
        (8 + leading_zero_bits(bytes.drop_first())) as nat
    } else {
        byte_leading_zeros(bytes[0])
    }
}

/// Count the leading zero bits of a byte string.
pub fn get_leading_zero_bits(bytes: &[u8]) -> (r: u32)
    requires
        bytes@.len() <= 0x1000_0000,
    ensures
        r == leading_zero_bits(bytes@),
{
    let n = bytes.len();
    let mut i: usize = 0;
    let mut count: u32 = 0;
    proof {
        assert(bytes@.skip(0) =~= bytes@);
    }
    while i < n
        invariant
            n == bytes@.len() <= 0x1000_0000,
            i <= n,
            count == 8 * i,
            leading_zero_bits(bytes@) == count + leading_zero_bits(bytes@.skip(i as int)),
            forall|j: int| 0 <= j < i ==> bytes@[j] == 0,
        decreases n - i,
    {
        let b = bytes[i];
        proof {
            assert(bytes@.skip(i as int)[0] == bytes@[i as int]);
            assert(bytes@.skip(i as int).drop_first() =~= bytes@.skip(i + 1));
        }
        if b != 0 {
            let z: u32 = if b >= 128 {
                0
            } else if b >= 64 {
                1
            } else if b >= 32 {
                2
            } else if b >= 16 {
                3
            } else if b >= 8 {
                4
            } else if b >= 4 {
                5
            } else if b >= 2 {
                6
            } else {
                7
            };
            return count + z;
        }
        count += 8;
        i += 1;
    }
    proof {
        assert(bytes@.skip(n as int) =~= Seq::<u8>::empty());
    }
    count
}

} // verus!
