//! Lowercase hex encoding and decoding of byte strings, with a proof that
//! decoding inverts encoding.
use vstd::prelude::*;
use vstd::utf8::{encode_utf8, is_ascii_chars, is_ascii_chars_encode_utf8};
use vstd::string::StrSliceExecFns;
use crate::strutil::{ascii_chars_of, all_ascii_bytes, ascii_to_string, lemma_encoded_ascii_chars};

verus! {

/// The lowercase hex digit for a value below 16.
pub open spec fn hex_digit_char(v: u8) -> char
    recommends
        v < 16,
{
    if v < 10 {
        ((v + 48) as u8) as char
    } else {
        ((v + 87) as u8) as char
    }
}

/// The lowercase hex rendering of a byte string, two digits per byte.
pub open spec fn hex_of(bytes: Seq<u8>) -> Seq<char>
    decreases bytes.len(),
{
    if bytes.len() == 0 {
        Seq::empty()
    } else {
        seq![
            hex_digit_char(bytes[0] / 16),
            hex_digit_char(bytes[0] % 16),
        ] + hex_of(bytes.drop_first())
    }
}

/// True for the characters that may stand in a hex string, either case.
pub open spec fn is_hex_digit(c: char) -> bool {
    ('0' <= c <= '9') || ('a' <= c <= 'f') || ('A' <= c <= 'F')
}

/// The value of one hex digit.
pub open spec fn hex_digit_value(c: char) -> u8
    recommends
        is_hex_digit(c),
{
    if '0' <= c <= '9' {
        (c as u32 - 48) as u8
    } else if 'a' <= c <= 'f' {
        (c as u32 - 87) as u8
    } else {
        (c as u32 - 55) as u8
    }
}

/// True when the characters form a well-formed hex string: even length, hex
/// digits throughout.
pub open spec fn is_hex_str(s: Seq<char>) -> bool {
    &&& s.len() % 2 == 0
    &&& forall|i: int| 0 <= i < s.len() ==> is_hex_digit(#[trigger] s[i])
}

/// The byte string read out of a hex string, one byte per digit pair.
pub open spec fn hex_bytes_of(s: Seq<char>) -> Seq<u8>
    decreases s.len(),
{
    if s.len() < 2 {
        Seq::empty()
    } else {
        seq![(hex_digit_value(s[0]) * 16 + hex_digit_value(s[1])) as u8] + hex_bytes_of(s.skip(2))
    }
}

/// The hex rendering of a byte string has two digits per byte, all of them
/// lowercase hex digits.
pub proof fn lemma_hex_of_shape(bytes: Seq<u8>)
    ensures
        hex_of(bytes).len() == 2 * bytes.len(),
        is_hex_str(hex_of(bytes)),
        is_ascii_chars(hex_of(bytes)),
    decreases bytes.len(),
{
    if bytes.len() == 0 {
    } else {
        lemma_hex_of_shape(bytes.drop_first());
        let s = hex_of(bytes);
        let rest = hex_of(bytes.drop_first());
        assert forall|i: int| 0 <= i < s.len() implies is_hex_digit(#[trigger] s[i]) && s[i]
            <= '\u{7f}' by {
            if i >= 2 {
                assert(s[i] == rest[i - 2]);
                assert(is_hex_digit(rest[i - 2]));
                assert(rest[i - 2] <= '\u{7f}');
            }
        }
    }
}

/// Decoding a hex rendering gives back the bytes it was made from.
pub proof fn lemma_hex_round_trip(bytes: Seq<u8>)
    ensures
        hex_bytes_of(hex_of(bytes)) =~= bytes,
    decreases bytes.len(),
{
    if bytes.len() == 0 {
    } else {
        let s = hex_of(bytes);
        let hi = bytes[0] / 16;
        let lo = bytes[0] % 16;
        assert(hex_digit_value(hex_digit_char(hi)) == hi);
        assert(hex_digit_value(hex_digit_char(lo)) == lo);
        assert(hi * 16 + lo == bytes[0]) by {
            vstd::arithmetic::div_mod::lemma_fundamental_div_mod(bytes[0] as int, 16);
        }
        lemma_hex_round_trip(bytes.drop_first());
        assert(s.skip(2) =~= hex_of(bytes.drop_first()));
        assert(hex_bytes_of(s) =~= seq![bytes[0]] + hex_bytes_of(s.skip(2)));
    }
}

/// Render a byte string as its lowercase hex string.
pub fn bytes_to_hex(bytes: &[u8]) -> (r: String)
    ensures
        r@ =~= hex_of(bytes@),
{
    let n = bytes.len();
    let mut out: Vec<u8> = Vec::new();
    let mut i: usize = 0;
    proof {
        assert(bytes@.skip(0) =~= bytes@);
    }
    while i < n
        invariant
            n == bytes@.len(),
            i <= n,
            all_ascii_bytes(out@),
            ascii_chars_of(out@) =~= hex_of(bytes@.take(i as int)),
            out@.len() == 2 * i,
        decreases n - i,
    {
        let b = bytes[i];
        let hi = b / 16;
        let lo = b % 16;
        let hi_b: u8 = if hi < 10 {
            hi + 48
        } else {
            hi + 87
        };
        let lo_b: u8 = if lo < 10 {
            lo + 48
        } else {
            lo + 87
        };
        out.push(hi_b);
        out.push(lo_b);
        proof {
            let pre = bytes@.take(i as int);
            let cur = bytes@.take(i + 1);
            assert(cur.drop_last() =~= pre);
            lemma_hex_suffix(cur);
            assert(ascii_chars_of(out@) =~= hex_of(cur));
        }
        i += 1;
    }
    proof {
        assert(bytes@.take(n as int) =~= bytes@);
    }
    ascii_to_string(out)
}

/// The hex rendering of a nonempty byte string ends with the two digits of its
/// last byte.
proof fn lemma_hex_suffix(bytes: Seq<u8>)
    requires
        bytes.len() > 0,
    ensures
        hex_of(bytes) =~= hex_of(bytes.drop_last()) + seq![
            hex_digit_char(bytes.last() / 16),
            hex_digit_char(bytes.last() % 16),
        ],
    decreases bytes.len(),
{
    if bytes.len() == 1 {
        assert(bytes.drop_last() =~= Seq::<u8>::empty());
        assert(bytes.drop_first() =~= Seq::<u8>::empty());
        assert(bytes.last() == bytes[0]);
        assert(hex_of(bytes) =~= seq![
            hex_digit_char(bytes[0] / 16),
            hex_digit_char(bytes[0] % 16),
        ] + hex_of(bytes.drop_first()));
        assert(hex_of(Seq::<u8>::empty()) =~= Seq::<char>::empty());
    } else {
        let d0 = seq![hex_digit_char(bytes[0] / 16), hex_digit_char(bytes[0] % 16)];
        let pair = seq![hex_digit_char(bytes.last() / 16), hex_digit_char(bytes.last() % 16)];
        lemma_hex_suffix(bytes.drop_first());
        assert(bytes.drop_first().drop_last() =~= bytes.drop_last().drop_first());
        assert(bytes.drop_first().last() == bytes.last());
        assert(bytes.drop_last().len() > 0);
        assert(bytes.drop_last()[0] == bytes[0]);
        assert(hex_of(bytes) =~= d0 + hex_of(bytes.drop_first()));
        assert(hex_of(bytes.drop_first()) =~= hex_of(bytes.drop_last().drop_first()) + pair);
        assert(hex_of(bytes.drop_last()) =~= d0 + hex_of(bytes.drop_last().drop_first()));
        assert(hex_of(bytes) =~= hex_of(bytes.drop_last()) + pair);
    }
}

/// Parse a hex string into its bytes; fail exactly on strings that are not
/// well-formed hex.
pub fn hex_to_bytes(s: &str) -> (r: Option<Vec<u8>>)
    ensures
        match r {
            Some(v) => is_hex_str(s@) && v@ =~= hex_bytes_of(s@),
            None => !is_hex_str(s@),
        },
{
    let bytes = s.as_bytes_vec();
    let n = bytes.len();
    // A byte outside the ASCII range means some character is not a hex digit.
    let mut i: usize = 0;
    while i < n
        invariant
            n == bytes@.len(),
            bytes@ == encode_utf8(s@),
            i <= n,
            forall|j: int| 0 <= j < i ==> bytes@[j] < 128,
        decreases n - i,
    {
        if bytes[i] >= 128 {
            proof {
                if is_hex_str(s@) {
                    assert forall|k: int| 0 <= k < s@.len() implies '\0' <= #[trigger] s@[k]
                        <= '\u{7f}' by {
                        assert(is_hex_digit(s@[k]));
                    }
                    is_ascii_chars_encode_utf8(s@);
                    assert(false);
                }
            }
            return None;
        }
        i += 1;
    }
    proof {
        lemma_encoded_ascii_chars(s@, bytes@);
    }
    if n % 2 != 0 {
        return None;
    }
    let mut out: Vec<u8> = Vec::new();
    let mut i: usize = 0;
    proof {
        assert(s@.skip(0) =~= s@);
    }
    while i < n
        invariant
            n == bytes@.len() == s@.len(),
            n % 2 == 0,
            i <= n,
            i % 2 == 0,
            all_ascii_bytes(bytes@),
            s@ =~= ascii_chars_of(bytes@),
            forall|j: int| 0 <= j < i ==> is_hex_digit(#[trigger] s@[j]),
            out@ =~= hex_bytes_of(s@.take(i as int)),
            out@.len() == i / 2,
        decreases n - i,
    {
        let b_hi = bytes[i];
        let b_lo = bytes[i + 1];
        let hi_ok = (48 <= b_hi && b_hi <= 57) || (97 <= b_hi && b_hi <= 102) || (65 <= b_hi
            && b_hi <= 70);
        let lo_ok = (48 <= b_lo && b_lo <= 57) || (97 <= b_lo && b_lo <= 102) || (65 <= b_lo
            && b_lo <= 70);
        if !hi_ok {
            proof {
                assert(!is_hex_digit(s@[i as int]));
            }
            return None;
        }
        if !lo_ok {
            proof {
                assert(!is_hex_digit(s@[i + 1]));
            }
            return None;
        }
        let hi: u8 = if b_hi <= 57 {
            b_hi - 48
        } else if b_hi >= 97 {
            b_hi - 87
        } else {
            b_hi - 55
        };
        let lo: u8 = if b_lo <= 57 {
            b_lo - 48
        } else if b_lo >= 97 {
            b_lo - 87
        } else {
            b_lo - 55
        };
        out.push(hi * 16 + lo);
        proof {
            assert(hi == hex_digit_value(s@[i as int]));
            assert(lo == hex_digit_value(s@[i + 1]));
            lemma_hex_bytes_snoc(s@.take(i + 2));
            assert(s@.take(i + 2).take(i as int) =~= s@.take(i as int));
            assert(s@.take(i + 2)[i as int] == s@[i as int]);
            assert(s@.take(i + 2)[i + 1] == s@[i + 1]);
            assert(out@ =~= hex_bytes_of(s@.take(i + 2)));
        }
        i += 2;
    }
    proof {
        assert(s@.take(n as int) =~= s@);
    }
    Some(out)
}

/// A hex string of even length decodes to the decoding of its front part
/// followed by the byte of its last digit pair.
proof fn lemma_hex_bytes_snoc(s: Seq<char>)
    requires
        s.len() >= 2,
        s.len() % 2 == 0,
    ensures
        hex_bytes_of(s) =~= hex_bytes_of(s.take(s.len() - 2)) + seq![
            (hex_digit_value(s[s.len() - 2]) * 16 + hex_digit_value(s[s.len() - 1])) as u8,
        ],
    decreases s.len(),
{
    if s.len() == 2 {
        assert(s.take(0) =~= Seq::<char>::empty());
        assert(s.skip(2) =~= Seq::<char>::empty());
    } else {
        lemma_hex_bytes_snoc(s.skip(2));
        assert(s.skip(2).take(s.skip(2).len() - 2) =~= s.take(s.len() - 2).skip(2));
        assert(s.skip(2)[s.skip(2).len() - 2] == s[s.len() - 2]);
        assert(s.skip(2)[s.skip(2).len() - 1] == s[s.len() - 1]);
        assert(s.take(s.len() - 2)[0] == s[0]);
        assert(s.take(s.len() - 2)[1] == s[1]);
    }
}

} // verus!
