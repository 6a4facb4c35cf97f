//! Decimal rendering and parsing of unsigned integers, as the wire formats use
//! them: plain digits without leading zeros, and parsing that accepts an
//! optional leading `+`.
use vstd::prelude::*;
use vstd::utf8::{encode_utf8, is_ascii_chars, is_ascii_chars_encode_utf8};
use vstd::string::StrSliceExecFns;
use crate::strutil::{ascii_chars_of, all_ascii_bytes, lemma_encoded_ascii_chars};

verus! {

/// The digit character for a value below 10.
pub open spec fn dec_digit_char(v: u8) -> char
    recommends
        v < 10,
{
    ((v + 48) as u8) as char
}

/// The decimal rendering of a number: no sign, no leading zeros.
pub open spec fn dec_chars_of(n: nat) -> Seq<char>
    decreases n,
{
    if n < 10 {
        seq![dec_digit_char(n as u8)]
    } else {
        dec_chars_of(n / 10) + seq![dec_digit_char((n % 10) as u8)]
    }
}

/// True for a decimal digit character.
pub open spec fn is_dec_digit(c: char) -> bool {
    '0' <= c <= '9'
}

/// True when every character is a decimal digit.
pub open spec fn all_dec_digits(s: Seq<char>) -> bool {
    forall|i: int| 0 <= i < s.len() ==> is_dec_digit(#[trigger] s[i])
}

/// The number read from a digit string.
pub open spec fn dec_value(s: Seq<char>) -> int
    decreases s.len(),
{
    if s.len() == 0 {
        0
    } else {
        dec_value(s.drop_last()) * 10 + (s.last() as u32 - 48)
    }
}

/// The digit part of an integer literal: everything after an optional leading
/// plus sign.
pub open spec fn dec_digits_part(s: Seq<char>) -> Seq<char> {
    if s.len() > 0 && s[0] == '+' {
        s.drop_first()
    } else {
        s
    }
}

/// True when the string parses as an unsigned integer no greater than `max`:
/// an optional `+`, then one or more digits, with the value in range.
pub open spec fn dec_parseable(s: Seq<char>, max: int) -> bool {
    let digits = dec_digits_part(s);
    &&& digits.len() > 0
    &&& all_dec_digits(digits)
    &&& dec_value(digits) <= max
}

/// The value of the string's digit part.
pub open spec fn dec_parsed(s: Seq<char>) -> int {
    dec_value(dec_digits_part(s))
}

/// The value of a digit string is never negative.
pub proof fn lemma_dec_value_nonneg(s: Seq<char>)
    requires
        all_dec_digits(s),
    ensures
        dec_value(s) >= 0,
    decreases s.len(),
{
    if s.len() > 0 {
        assert(all_dec_digits(s.drop_last())) by {
            assert(forall|i: int|
                0 <= i < s.len() - 1 ==> #[trigger] s.drop_last()[i] == s[i]);
        }
        lemma_dec_value_nonneg(s.drop_last());
        assert(is_dec_digit(s.last()));
    }
}

/// A digit string is worth at least as much as any of its prefixes.
pub proof fn lemma_dec_value_prefix(s: Seq<char>, i: int)
    requires
        all_dec_digits(s),
        0 <= i <= s.len(),
    ensures
        dec_value(s) >= dec_value(s.take(i)),
    decreases s.len() - i,
{
    if i == s.len() {
        assert(s.take(i) =~= s);
    } else {
        lemma_dec_value_prefix(s, i + 1);
        let p = s.take(i + 1);
        assert(all_dec_digits(p)) by {
            assert(forall|j: int| 0 <= j < p.len() ==> #[trigger] p[j] == s[j]);
        }
        assert(p.drop_last() =~= s.take(i));
        assert(all_dec_digits(s.take(i))) by {
            assert(forall|j: int| 0 <= j < i ==> #[trigger] s.take(i)[j] == s[j]);
        }
        lemma_dec_value_nonneg(s.take(i));
        assert(is_dec_digit(p.last()));
        assert(dec_value(p) == dec_value(s.take(i)) * 10 + (p.last() as u32 - 48));
    }
}

/// A decimal rendering is nonempty, all digits, and starts with no sign.
pub proof fn lemma_dec_chars_are_digits(n: nat)
    ensures
        dec_chars_of(n).len() >= 1,
        all_dec_digits(dec_chars_of(n)),
        dec_chars_of(n)[0] != '+',
    decreases n,
{
    if n < 10 {
        assert(is_dec_digit(dec_digit_char(n as u8)));
    } else {
        lemma_dec_chars_are_digits(n / 10);
        let s = dec_chars_of(n);
        let front = dec_chars_of(n / 10);
        assert(s =~= front + seq![dec_digit_char((n % 10) as u8)]);
        assert forall|i: int| 0 <= i < s.len() implies is_dec_digit(#[trigger] s[i]) by {
            if i < front.len() {
                assert(s[i] == front[i]);
            } else {
                assert(s[i] == dec_digit_char((n % 10) as u8));
            }
        }
        assert(s[0] == front[0]);
    }
}

/// Reading a decimal rendering back gives the number.
pub proof fn lemma_dec_render_value(n: nat)
    ensures
        dec_value(dec_chars_of(n)) == n,
    decreases n,
{
    if n < 10 {
        let s = dec_chars_of(n);
        assert(s.drop_last() =~= Seq::<char>::empty());
        assert(dec_value(s.drop_last()) == 0);
        assert(s.last() == dec_digit_char(n as u8));
        assert(dec_digit_char(n as u8) as u32 == 48 + n);
        assert(dec_value(s) == dec_value(s.drop_last()) * 10 + (s.last() as u32 - 48));
    } else {
        lemma_dec_render_value(n / 10);
        lemma_dec_chars_are_digits(n / 10);
        let s = dec_chars_of(n);
        let front = dec_chars_of(n / 10);
        assert(s =~= front + seq![dec_digit_char((n % 10) as u8)]);
        assert(s.drop_last() =~= front);
        assert(s.last() == dec_digit_char((n % 10) as u8));
        assert(dec_digit_char((n % 10) as u8) as u32 == 48 + n % 10);
        assert(dec_value(s) == dec_value(s.drop_last()) * 10 + (s.last() as u32 - 48));
        assert(n / 10 * 10 + n % 10 == n) by {
            vstd::arithmetic::div_mod::lemma_fundamental_div_mod(n as int, 10);
        }
    }
}

/// A decimal rendering parses back to the number, under any bound the number
/// meets.
pub proof fn lemma_dec_round_trip(n: nat, max: int)
    requires
        n <= max,
    ensures
        dec_parseable(dec_chars_of(n), max),
        dec_parsed(dec_chars_of(n)) == n,
{
    lemma_dec_chars_are_digits(n);
    lemma_dec_render_value(n);
    assert(dec_digits_part(dec_chars_of(n)) =~= dec_chars_of(n));
}

/// Render a number as its decimal digits, in ASCII bytes.
pub fn u64_to_dec_bytes(n: u64) -> (r: Vec<u8>)
    ensures
        ascii_chars_of(r@) =~= dec_chars_of(n as nat),
        all_ascii_bytes(r@),
        is_ascii_chars(ascii_chars_of(r@)),
{
    let mut rev: Vec<u8> = Vec::new();
    let mut m = n;
    while m >= 10
        invariant
            all_ascii_bytes(rev@),
            dec_chars_of(n as nat) =~= dec_chars_of(m as nat) + ascii_chars_of(rev@).reverse(),
        decreases m,
    {
        let d = (m % 10) as u8;
        rev.push(d + 48);
        proof {
            let prev = ascii_chars_of(rev@.drop_last()).reverse();
            assert(ascii_chars_of(rev@.drop_last()) =~= ascii_chars_of(rev@).drop_last());
            assert(ascii_chars_of(rev@).reverse() =~= seq![dec_digit_char(d)] + prev);
            assert(dec_chars_of(m as nat) =~= dec_chars_of((m as nat) / 10) + seq![
                dec_digit_char(((m as nat) % 10) as u8),
            ]);
            assert(dec_chars_of(m as nat) + prev =~= dec_chars_of((m as nat) / 10) + (seq![
                dec_digit_char(d),
            ] + prev));
        }
        m = m / 10;
    }
    let d = m as u8;
    rev.push(d + 48);
    proof {
        let prev = ascii_chars_of(rev@.drop_last()).reverse();
        assert(ascii_chars_of(rev@.drop_last()) =~= ascii_chars_of(rev@).drop_last());
        assert(ascii_chars_of(rev@).reverse() =~= seq![dec_digit_char(d)] + prev);
        assert(dec_chars_of(m as nat) =~= seq![dec_digit_char(d)]);
        assert(dec_chars_of(n as nat) =~= ascii_chars_of(rev@).reverse());
    }
    let mut out: Vec<u8> = Vec::new();
    let k = rev.len();
    let mut i: usize = 0;
    while i < k
        invariant
            k == rev@.len(),
            i <= k,
            all_ascii_bytes(rev@),
            all_ascii_bytes(out@),
            out@.len() == i,
            forall|j: int| 0 <= j < i ==> #[trigger] out@[j] == rev@[k - 1 - j],
        decreases k - i,
    {
        out.push(rev[k - 1 - i]);
        i += 1;
    }
    proof {
        assert(ascii_chars_of(out@) =~= ascii_chars_of(rev@).reverse());
    }
    out
}

/// Largest value that can take one more digit without leaving `u128`.
const DEC_U128_CUT: u128 = 0xffffffffffffffffffffffffffffffff / 10;

/// Parse the decimal literal as a `u128`; fail exactly on strings that are not
/// an optional `+` followed by digits, or whose value does not fit.
pub fn parse_dec_u128(s: &str) -> (r: Option<u128>)
    ensures
        match r {
            Some(v) => dec_parseable(s@, u128::MAX as int) && v == dec_parsed(s@),
            None => !dec_parseable(s@, u128::MAX as int),
        },
{
    let bytes = s.as_bytes_vec();
    let n = bytes.len();
    let mut i: usize = 0;
    while i < n
        invariant
            n == bytes@.len(),
            bytes@ == encode_utf8(s@),
            i <= n,
            forall|j: int| 0 <= j < i ==> bytes@[j] < 128,
        decreases n - i,
    {
        if bytes[i] >= 128 {
            proof {
                lemma_non_ascii_not_parseable(s@);
            }
            return None;
        }
        i += 1;
    }
    proof {
        lemma_encoded_ascii_chars(s@, bytes@);
    }
    let start: usize = if n > 0 && bytes[0] == 43 {
        1
    } else {
        0
    };
    proof {
        if start == 1 {
            assert(s@[0] == '+');
            assert(dec_digits_part(s@) =~= s@.drop_first());
        } else {
            if s@.len() > 0 {
                assert(s@[0] != '+');
            }
            assert(dec_digits_part(s@) =~= s@);
        }
    }
    let ghost digits = dec_digits_part(s@);
    if start >= n {
        return None;
    }
    let mut acc: u128 = 0;
    let mut i: usize = start;
    proof {
        assert(digits.take(0) =~= Seq::<char>::empty());
    }
    while i < n
        invariant
            n == bytes@.len() == s@.len(),
            start <= i <= n,
            start == 0 || start == 1,
            start < n,
            all_ascii_bytes(bytes@),
            s@ =~= ascii_chars_of(bytes@),
            digits == dec_digits_part(s@),
            digits.len() == n - start,
            forall|j: int| 0 <= j < digits.len() ==> #[trigger] digits[j] == s@[j + start],
            all_dec_digits(digits.take(i - start)),
            acc == dec_value(digits.take(i - start)),
        decreases n - i,
    {
        let b = bytes[i];
        if b < 48 || b > 57 {
            proof {
                assert(!is_dec_digit(digits[i - start]));
            }
            return None;
        }
        let d = b - 48;
        if acc > DEC_U128_CUT || (acc == DEC_U128_CUT && d > 5) {
            proof {
                let p = digits.take(i - start + 1);
                assert(p.drop_last() =~= digits.take(i - start));
                assert(is_dec_digit(digits[i - start]));
                assert(all_dec_digits(p)) by {
                    assert(forall|j: int|
                        0 <= j < p.len() ==> #[trigger] p[j] == digits[j]);
                }
                assert(DEC_U128_CUT * 10 + 5 == u128::MAX);
                assert(dec_value(p) == acc * 10 + d);
                if all_dec_digits(digits) {
                    lemma_dec_value_prefix(digits, i - start + 1);
                }
            }
            return None;
        }
        proof {
            assert(DEC_U128_CUT * 10 + 5 == u128::MAX);
        }
        acc = acc * 10 + (d as u128);
        proof {
            let p = digits.take(i - start + 1);
            assert(p.drop_last() =~= digits.take(i - start));
            assert(p.last() == digits[i - start]);
            assert(is_dec_digit(digits[i - start]));
            assert(all_dec_digits(p)) by {
                assert(forall|j: int| 0 <= j < p.len() ==> #[trigger] p[j] == digits[j]);
            }
            assert(acc == dec_value(p));
        }
        i += 1;
    }
    proof {
        assert(digits.take(n - start) =~= digits);
    }
    Some(acc)
}

/// A string whose UTF-8 encoding leaves the ASCII range holds a character that
/// is not a digit, wherever the plus sign is taken to end.
proof fn lemma_non_ascii_not_parseable(s: Seq<char>)
    requires
        !all_ascii_bytes(encode_utf8(s)),
    ensures
        !dec_parseable(s, u128::MAX as int),
        !dec_parseable(s, u64::MAX as int),
        !dec_parseable(s, u16::MAX as int),
        !dec_parseable(s, u8::MAX as int),
        !dec_parseable(s, usize::MAX as int),
{
    if exists|m: int|
        {
            &&& m == u128::MAX as int || m == u64::MAX as int || m == u16::MAX as int || m
                == u8::MAX as int || m == usize::MAX as int
            &&& dec_parseable(s, m)
        } {
        let digits = dec_digits_part(s);
        assert(is_ascii_chars(s)) by {
            assert forall|i: int| 0 <= i < s.len() implies '\0' <= #[trigger] s[i] <= '\u{7f}' by {
                if s.len() > 0 && s[0] == '+' && i == 0 {
                } else {
                    let k = if s.len() > 0 && s[0] == '+' {
                        i - 1
                    } else {
                        i
                    };
                    assert(is_dec_digit(digits[k]));
                }
            }
        }
        is_ascii_chars_encode_utf8(s);
        assert(false);
    }
}

/// Parse the decimal literal as a `u64`.
pub fn parse_dec_u64(s: &str) -> (r: Option<u64>)
    ensures
        match r {
            Some(v) => dec_parseable(s@, u64::MAX as int) && v == dec_parsed(s@),
            None => !dec_parseable(s@, u64::MAX as int),
        },
{
    match parse_dec_u128(s) {
        Some(v) => if v <= u64::MAX as u128 {
            Some(v as u64)
        } else {
            None
        },
        None => {
            proof {
                if dec_parseable(s@, u64::MAX as int) {
                    assert(dec_parseable(s@, u128::MAX as int));
                }
            }
            None
        },
    }
}

/// Parse the decimal literal as a `u16`.
pub fn parse_dec_u16(s: &str) -> (r: Option<u16>)
    ensures
        match r {
            Some(v) => dec_parseable(s@, u16::MAX as int) && v == dec_parsed(s@),
            None => !dec_parseable(s@, u16::MAX as int),
        },
{
    match parse_dec_u128(s) {
        Some(v) => if v <= u16::MAX as u128 {
            Some(v as u16)
        } else {
            None
        },
        None => {
            proof {
                if dec_parseable(s@, u16::MAX as int) {
                    assert(dec_parseable(s@, u128::MAX as int));
                }
            }
            None
        },
    }
}

/// Parse the decimal literal as a `u8`.
pub fn parse_dec_u8(s: &str) -> (r: Option<u8>)
    ensures
        match r {
            Some(v) => dec_parseable(s@, u8::MAX as int) && v == dec_parsed(s@),
            None => !dec_parseable(s@, u8::MAX as int),
        },
{
    match parse_dec_u128(s) {
        Some(v) => if v <= u8::MAX as u128 {
            Some(v as u8)
        } else {
            None
        },
        None => {
            proof {
                if dec_parseable(s@, u8::MAX as int) {
                    assert(dec_parseable(s@, u128::MAX as int));
                }
            }
            None
        },
    }
}

/// Parse the decimal literal as a `usize`.
pub fn parse_dec_usize(s: &str) -> (r: Option<usize>)
    ensures
        match r {
            Some(v) => dec_parseable(s@, usize::MAX as int) && v == dec_parsed(s@),
            None => !dec_parseable(s@, usize::MAX as int),
        },
{
    match parse_dec_u128(s) {
        Some(v) => if v <= usize::MAX as u128 {
            Some(v as usize)
        } else {
            None
        },
        None => {
            proof {
                if dec_parseable(s@, usize::MAX as int) {
                    assert(dec_parseable(s@, u128::MAX as int));
                }
            }
            None
        },
    }
}

} // verus!
