//! Conversions between byte buffers and strings, with the UTF-8 model of vstd.
use vstd::prelude::*;
use vstd::utf8::{
    encode_utf8, valid_utf8, is_leading_byte_width_1, partial_valid_utf8,
    partial_valid_utf8_extend_ascii_block, encode_scalar, has_width_1_encoding,
    leading_byte_width_1, char_is_scalar, char_u32_cast, is_ascii_chars,
    is_ascii_chars_encode_utf8,
};

verus! {

/// The character sequence read off a buffer of ASCII bytes, one character per byte.
pub open spec fn ascii_chars_of(b: Seq<u8>) -> Seq<char> {
    Seq::new(b.len(), |i: int| b[i] as char)
}

/// True when every byte of the buffer is in the ASCII range.
pub open spec fn all_ascii_bytes(b: Seq<u8>) -> bool {
    forall|i: int| 0 <= i < b.len() ==> b[i] < 128
}

/// Relies on `String::from_utf8`: it returns the string whose UTF-8 encoding is
/// the input, and fails exactly on buffers that are not valid UTF-8.
#[verifier::external_body]
fn string_from_utf8(v: Vec<u8>) -> (r: Option<String>)
    ensures
        match r {
            Some(s) => valid_utf8(v@) && encode_utf8(s@) == v@,
            None => !valid_utf8(v@),
        },
{
    String::from_utf8(v).ok()
}

/// A buffer of ASCII bytes is valid UTF-8.
pub proof fn lemma_ascii_bytes_valid_utf8(b: Seq<u8>)
    requires
        all_ascii_bytes(b),
    ensures
        valid_utf8(b),
{
    assert forall|i: int| 0 <= 0 <= i < b.len() as int <= b.len() implies #[trigger]
        is_leading_byte_width_1(b[i]) by {}
    assert(partial_valid_utf8(b, 0)) by {
        assert(b.subrange(0, 0) =~= Seq::<u8>::empty());
    }
    partial_valid_utf8_extend_ascii_block(b, 0, b.len() as int);
    assert(b.subrange(0, b.len() as int) =~= b);
}

/// A character sequence whose UTF-8 encoding is all-ASCII reads off that
/// encoding one character per byte.
pub proof fn lemma_encoded_ascii_chars(s: Seq<char>, b: Seq<u8>)
    requires
        encode_utf8(s) == b,
        all_ascii_bytes(b),
    ensures
        s =~= ascii_chars_of(b),
        is_ascii_chars(s),
    decreases s.len(),
{
    if s.len() == 0 {
        assert(b.len() == 0);
    } else {
        let c0 = s[0] as u32;
        char_is_scalar(s[0]);
        let first = encode_scalar(c0);
        assert(b =~= first + encode_utf8(s.drop_first()));
        assert(b[0] == first[0]);
        if !has_width_1_encoding(c0) {
            let lead: u8 = first[0];
            assert(lead >= 128) by (bit_vector)
                requires
                    lead == (0xC0 | ((c0 >> 6) & 0x1F) as u8) || lead == (0xE0 | ((c0 >> 12)
                        & 0x0F) as u8) || lead == (0xF0 | ((c0 >> 18) & 0x7) as u8),
            ;
            assert(false);
        }
        assert(first =~= seq![leading_byte_width_1(c0)]);
        assert(leading_byte_width_1(c0) == c0) by (bit_vector)
            requires
                has_width_1_encoding(c0),
        ;
        char_u32_cast(s[0], c0);
        assert(b[0] as u32 == c0);
        assert(b[0] as char == s[0]) by {
            char_u32_cast(s[0], b[0] as u32);
        }
        let rest = b.drop_first();
        assert(encode_utf8(s.drop_first()) =~= rest);
        assert(all_ascii_bytes(rest));
        lemma_encoded_ascii_chars(s.drop_first(), rest);
        assert forall|i: int| 0 <= i < s.len() implies s[i] == #[trigger] ascii_chars_of(b)[i] by {
            if i > 0 {
                assert(s.drop_first()[i - 1] == ascii_chars_of(rest)[i - 1]);
            }
        }
    }
}

/// Turn a buffer of ASCII bytes into the string that reads the same.
pub fn ascii_to_string(v: Vec<u8>) -> (r: String)
    requires
        all_ascii_bytes(v@),
    ensures
        r@ =~= ascii_chars_of(v@),
        is_ascii_chars(r@),
{
    let ghost gv = v@;
    proof {
        lemma_ascii_bytes_valid_utf8(v@);
    }
    let opt = string_from_utf8(v);
    match opt {
        Some(s) => {
            proof {
                lemma_encoded_ascii_chars(s@, gv);
            }
            s
        },
        None => {
            proof {
                assert(false);
            }
            String::new()
        },
    }
}

/// The byte string read off an all-ASCII character sequence, one byte per
/// character.
pub open spec fn ascii_bytes_of(s: Seq<char>) -> Seq<u8> {
    Seq::new(s.len(), |i: int| s[i] as u8)
}

/// On all-ASCII character sequences, the UTF-8 encoding is the one-byte-per-
/// character reading.
pub proof fn lemma_ascii_chars_to_bytes(s: Seq<char>)
    requires
        is_ascii_chars(s),
    ensures
        encode_utf8(s) =~= ascii_bytes_of(s),
        all_ascii_bytes(ascii_bytes_of(s)),
{
    is_ascii_chars_encode_utf8(s);
    assert forall|i: int| 0 <= i < s.len() implies ascii_bytes_of(s)[i] < 128 by {
        assert(s[i] <= '\u{7f}');
    }
}

/// Reading ASCII bytes as characters and back gives the same bytes.
pub proof fn lemma_ascii_bytes_chars_inverse(b: Seq<u8>)
    requires
        all_ascii_bytes(b),
    ensures
        ascii_bytes_of(ascii_chars_of(b)) =~= b,
        is_ascii_chars(ascii_chars_of(b)),
{
    assert forall|i: int| 0 <= i < b.len() implies ascii_bytes_of(ascii_chars_of(b))[i] == b[i]
        && '\0' <= #[trigger] ascii_chars_of(b)[i] <= '\u{7f}' by {
        let c = b[i] as char;
        assert(c as u8 == b[i]);
    }
}

/// Compare two byte strings for equal contents.
pub fn bytes_eq(a: &[u8], b: &[u8]) -> (r: bool)
    ensures
        r == (a@ =~= b@),
{
    if a.len() != b.len() {
        return false;
    }
    let n = a.len();
    let mut i: usize = 0;
    while i < n
        invariant
            n == a@.len() == b@.len(),
            i <= n,
            forall|j: int| 0 <= j < i ==> a@[j] == b@[j],
        decreases n - i,
    {
        if a[i] != b[i] {
            return false;
        }
        i += 1;
    }
    true
}

/// Copy a byte slice into an owned buffer.
pub fn bytes_of_slice(a: &[u8]) -> (r: Vec<u8>)
    ensures
        r@ == a@,
{
    let n = a.len();
    let mut out: Vec<u8> = Vec::new();
    let mut i: usize = 0;
    while i < n
        invariant
            n == a@.len(),
            i <= n,
            out@ =~= a@.take(i as int),
        decreases n - i,
    {
        out.push(a[i]);
        i += 1;
    }
    proof {
        assert(a@.take(n as int) =~= a@);
    }
    out
}

/// Turn a byte buffer into a string when it is valid UTF-8; report when it is not.
pub fn utf8_to_string(v: Vec<u8>) -> (r: Option<String>)
    ensures
        match r {
            Some(s) => valid_utf8(v@) && encode_utf8(s@) == v@,
            None => !valid_utf8(v@),
        },
{
    string_from_utf8(v)
}

} // verus!
