//! The canonical JSON fragments of the event preimage, at the byte level:
//! string escaping as the wire format fixes it, and comma-joined arrays.
use vstd::prelude::*;
use vstd::utf8::encode_utf8;

verus! {

/// The escape of one byte inside a JSON string: quote and backslash get a
/// backslash; control bytes get their short escape or the `\u00..` form with
/// lowercase hex; everything else stands as it is.
pub open spec fn json_escape_byte(b: u8) -> Seq<u8> {
    if b == 34 {
        seq![92u8, 34u8]
    } else if b == 92 {
        seq![92u8, 92u8]
    } else if b == 8 {
        seq![92u8, 98u8]
    } else if b == 9 {
        seq![92u8, 116u8]
    } else if b == 10 {
        seq![92u8, 110u8]
    } else if b == 12 {
        seq![92u8, 102u8]
    } else if b == 13 {
        seq![92u8, 114u8]
    } else if b < 32 {
        seq![
            92u8,
            117u8,
            48u8,
            48u8,
            if b / 16 < 10 {
                (48 + b / 16) as u8
            } else {
                (87 + b / 16) as u8
            },
            if b % 16 < 10 {
                (48 + b % 16) as u8
            } else {
                (87 + b % 16) as u8
            },
        ]
    } else {
        seq![b]
    }
}

/// The escape of a whole byte string.
pub open spec fn json_escape_bytes(s: Seq<u8>) -> Seq<u8>
    decreases s.len(),
{
    if s.len() == 0 {
        Seq::empty()
    } else {
        json_escape_byte(s[0]) + json_escape_bytes(s.drop_first())
    }
}

/// A JSON string: a quote, the escaped bytes, a quote.
pub open spec fn json_string_bytes(s: Seq<u8>) -> Seq<u8> {
    seq![34u8] + json_escape_bytes(s) + seq![34u8]
}

/// Rendered parts joined by commas.
pub open spec fn join_comma(parts: Seq<Seq<u8>>) -> Seq<u8>
    decreases parts.len(),
{
    if parts.len() == 0 {
        Seq::empty()
    } else if parts.len() == 1 {
        parts[0]
    } else {
        parts[0] + seq![44u8] + join_comma(parts.drop_first())
    }
}

/// A JSON array of strings: bracket, the strings joined by commas, bracket.
pub open spec fn string_list_json(items: Seq<Seq<u8>>) -> Seq<u8> {
    seq![91u8] + join_comma(Seq::new(items.len(), |i: int| json_string_bytes(items[i]))) + seq![
        93u8,
    ]
}

/// The escape of a byte string ends with the escape of its last byte.
pub proof fn lemma_escape_snoc(s: Seq<u8>)
    requires
        s.len() > 0,
    ensures
        json_escape_bytes(s) =~= json_escape_bytes(s.drop_last()) + json_escape_byte(s.last()),
    decreases s.len(),
{
    if s.len() == 1 {
        assert(s.drop_last() =~= Seq::<u8>::empty());
        assert(s.drop_first() =~= Seq::<u8>::empty());
    } else {
        lemma_escape_snoc(s.drop_first());
        assert(s.drop_first().drop_last() =~= s.drop_last().drop_first());
        assert(s.drop_first().last() == s.last());
        assert(s.drop_last().len() > 0);
        assert(s.drop_last()[0] == s[0]);
        assert(json_escape_bytes(s) =~= json_escape_byte(s[0]) + json_escape_bytes(
            s.drop_first(),
        ));
        assert(json_escape_bytes(s.drop_last()) =~= json_escape_byte(s[0]) + json_escape_bytes(
            s.drop_last().drop_first(),
        ));
    }
}

/// Joining one more part appends a comma (after a nonempty front) and the
/// part.
pub proof fn lemma_join_comma_snoc(parts: Seq<Seq<u8>>)
    requires
        parts.len() > 0,
    ensures
        join_comma(parts) =~= join_comma(parts.drop_last()) + (if parts.len() > 1 {
            seq![44u8]
        } else {
            Seq::<u8>::empty()
        }) + parts.last(),
    decreases parts.len(),
{
    if parts.len() == 1 {
        assert(parts.drop_last() =~= Seq::<Seq<u8>>::empty());
    } else {
        lemma_join_comma_snoc(parts.drop_first());
        assert(parts.drop_first().drop_last() =~= parts.drop_last().drop_first());
        assert(parts.drop_first().last() == parts.last());
        assert(parts.drop_last().len() > 0);
        assert(parts.drop_last()[0] == parts[0]);
        if parts.len() == 2 {
            assert(parts.drop_last().len() == 1);
            assert(join_comma(parts.drop_last()) =~= parts[0]);
            assert(join_comma(parts) =~= parts[0] + seq![44u8] + join_comma(parts.drop_first()));
            assert(join_comma(parts.drop_first()) =~= parts.last());
        } else {
            assert(join_comma(parts) =~= parts[0] + seq![44u8] + join_comma(parts.drop_first()));
            assert(join_comma(parts.drop_last()) =~= parts[0] + seq![44u8] + join_comma(
                parts.drop_last().drop_first(),
            ));
        }
    }
}

/// Append one escaped byte to the output.
fn push_escaped_byte(out: &mut Vec<u8>, b: u8)
    ensures
        final(out)@ =~= old(out)@ + json_escape_byte(b),
{
    if b == 34 {
        out.push(92);
        out.push(34);
    } else if b == 92 {
        out.push(92);
        out.push(92);
    } else if b == 8 {
        out.push(92);
        out.push(98);
    } else if b == 9 {
        out.push(92);
        out.push(116);
    } else if b == 10 {
        out.push(92);
        out.push(110);
    } else if b == 12 {
        out.push(92);
        out.push(102);
    } else if b == 13 {
        out.push(92);
        out.push(114);
    } else if b < 32 {
        out.push(92);
        out.push(117);
        out.push(48);
        out.push(48);
        let hi = b / 16;
        let lo = b % 16;
        out.push(
            if hi < 10 {
                48 + hi
            } else {
                87 + hi
            },
        );
        out.push(
            if lo < 10 {
                48 + lo
            } else {
                87 + lo
            },
        );
    } else {
        out.push(b);
    }
}

/// Append a JSON string made of the given bytes to the output.
pub fn append_json_string_bytes(out: &mut Vec<u8>, s: &[u8])
    ensures
        final(out)@ =~= old(out)@ + json_string_bytes(s@),
{
    out.push(34);
    let n = s.len();
    let mut i: usize = 0;
    proof {
        assert(s@.take(0) =~= Seq::<u8>::empty());
    }
    while i < n
        invariant
            n == s@.len(),
            i <= n,
            out@ =~= old(out)@ + seq![34u8] + json_escape_bytes(s@.take(i as int)),
        decreases n - i,
    {
        push_escaped_byte(out, s[i]);
        proof {
            let cur = s@.take(i + 1);
            assert(cur.drop_last() =~= s@.take(i as int));
            assert(cur.last() == s@[i as int]);
            lemma_escape_snoc(cur);
        }
        i += 1;
    }
    proof {
        assert(s@.take(n as int) =~= s@);
    }
    out.push(34);
}

/// Append a JSON string holding the text's UTF-8 bytes to the output.
pub fn append_json_string_str(out: &mut Vec<u8>, s: &str)
    ensures
        final(out)@ =~= old(out)@ + json_string_bytes(encode_utf8(s@)),
{
    append_json_string_bytes(out, s.as_bytes());
}

/// Append a JSON array of the strings to the output.
pub fn append_string_list_json(out: &mut Vec<u8>, items: &Vec<String>)
    ensures
        final(out)@ =~= old(out)@ + string_list_json(
            Seq::new(items.deep_view().len(), |i: int| encode_utf8(items.deep_view()[i])),
        ),
{
    let ghost bitems = Seq::new(
        items.deep_view().len(),
        |i: int| encode_utf8(items.deep_view()[i]),
    );
    let ghost parts = Seq::new(bitems.len(), |i: int| json_string_bytes(bitems[i]));
    out.push(91);
    let n = items.len();
    let mut i: usize = 0;
    proof {
        assert(items.deep_view().len() == n);
        assert(join_comma(parts.take(0)) =~= Seq::<u8>::empty());
    }
    while i < n
        invariant
            n == items@.len(),
            i <= n,
            bitems == Seq::new(
                items.deep_view().len(),
                |j: int| encode_utf8(items.deep_view()[j]),
            ),
            parts == Seq::new(bitems.len(), |j: int| json_string_bytes(bitems[j])),
            bitems.len() == n,
            out@ =~= old(out)@ + seq![91u8] + join_comma(parts.take(i as int)),
        decreases n - i,
    {
        if i > 0 {
            out.push(44);
        }
        proof {
            assert(items.deep_view()[i as int] == items@[i as int]@);
        }
        append_json_string_str(out, items[i].as_str());
        proof {
            let cur = parts.take(i + 1);
            assert(cur.drop_last() =~= parts.take(i as int));
            assert(cur.last() == parts[i as int]);
            lemma_join_comma_snoc(cur);
            assert(parts[i as int] == json_string_bytes(encode_utf8(items@[i as int]@)));
        }
        i += 1;
    }
    proof {
        assert(parts.take(n as int) =~= parts);
    }
    out.push(93);
    proof {
        assert(string_list_json(bitems) =~= seq![91u8] + join_comma(parts) + seq![93u8]);
    }
}

} // verus!
