//! Type-length-value framing (NIP-19): records of one type byte, one length
//! byte and that many payload bytes, concatenated without padding. Parsing
//! treats any record that runs past the buffer as a framing error.
use vstd::prelude::*;

verus! {

/// True when every record's payload fits the one length byte.
pub open spec fn tlv_records_wf(recs: Seq<(u8, Seq<u8>)>) -> bool {
    forall|i: int| 0 <= i < recs.len() ==> (#[trigger] recs[i]).1.len() <= 255
}

/// The byte encoding of a record list: type, length, payload, repeated.
pub open spec fn tlv_records_bytes(recs: Seq<(u8, Seq<u8>)>) -> Seq<u8>
    decreases recs.len(),
{
    if recs.len() == 0 {
        Seq::empty()
    } else {
        seq![recs[0].0, recs[0].1.len() as u8] + recs[0].1 + tlv_records_bytes(recs.drop_first())
    }
}

/// The record list read out of a byte string, scanning left to right; nothing
/// on a record that is truncated or runs past the buffer.
pub open spec fn tlv_parse(data: Seq<u8>) -> Option<Seq<(u8, Seq<u8>)>>
    decreases data.len(),
{
    if data.len() == 0 {
        Some(Seq::empty())
    } else if data.len() < 2 {
        None
    } else {
        let l = data[1] as int;
        if data.len() < 2 + l {
            None
        } else {
            match tlv_parse(data.skip(2 + l)) {
                None => None,
                Some(rest) => Some(seq![(data[0], data.subrange(2, 2 + l))] + rest),
            }
        }
    }
}

/// Parsing the encoding of a well-formed record list gives the list back.
pub proof fn lemma_tlv_round_trip(recs: Seq<(u8, Seq<u8>)>)
    requires
        tlv_records_wf(recs),
    ensures
        tlv_parse(tlv_records_bytes(recs)) == Some(recs),
    decreases recs.len(),
{
    if recs.len() == 0 {
        assert(tlv_parse(tlv_records_bytes(recs)) =~= Some(recs));
    } else {
        let data = tlv_records_bytes(recs);
        let p = recs[0].1;
        let l = p.len() as int;
        assert(recs[0].1.len() <= 255);
        let rest_bytes = tlv_records_bytes(recs.drop_first());
        assert(data =~= seq![recs[0].0, p.len() as u8] + p + rest_bytes);
        assert(data.len() == 2 + l + rest_bytes.len());
        assert(data[1] as int == l);
        assert(data.skip(2 + l) =~= rest_bytes);
        assert(data.subrange(2, 2 + l) =~= p);
        assert(tlv_records_wf(recs.drop_first())) by {
            assert(forall|i: int|
                0 <= i < recs.len() - 1 ==> (#[trigger] recs.drop_first()[i]) == recs[i + 1]);
        }
        lemma_tlv_round_trip(recs.drop_first());
        assert(tlv_parse(data) =~= Some(seq![(recs[0].0, p)] + recs.drop_first()));
        assert(seq![(recs[0].0, p)] + recs.drop_first() =~= recs);
    }
}

/// Appending one more record extends the encoding by that record's bytes.
pub proof fn lemma_tlv_records_snoc(recs: Seq<(u8, Seq<u8>)>)
    requires
        recs.len() > 0,
    ensures
        tlv_records_bytes(recs) =~= tlv_records_bytes(recs.drop_last()) + seq![
            recs.last().0,
            recs.last().1.len() as u8,
        ] + recs.last().1,
    decreases recs.len(),
{
    if recs.len() == 1 {
        assert(recs.drop_last() =~= Seq::<(u8, Seq<u8>)>::empty());
        assert(recs.drop_first() =~= Seq::<(u8, Seq<u8>)>::empty());
    } else {
        lemma_tlv_records_snoc(recs.drop_first());
        assert(recs.drop_first().drop_last() =~= recs.drop_last().drop_first());
        assert(recs.drop_first().last() == recs.last());
        assert(recs.drop_last().len() > 0);
        assert(recs.drop_last()[0] == recs[0]);
        assert(tlv_records_bytes(recs) =~= seq![recs[0].0, recs[0].1.len() as u8] + recs[0].1
            + tlv_records_bytes(recs.drop_first()));
        assert(tlv_records_bytes(recs.drop_last()) =~= seq![recs[0].0, recs[0].1.len() as u8]
            + recs[0].1 + tlv_records_bytes(recs.drop_last().drop_first()));
    }
}

/// A buffer whose leading record is truncated — shorter than its two header
/// bytes, or with a declared length running past the end — parses to nothing:
/// a framing error, never a partial read.
pub proof fn lemma_tlv_truncated_record(data: Seq<u8>)
    requires
        data.len() > 0,
        data.len() < 2 || data.len() < 2 + data[1],
    ensures
        tlv_parse(data) is None,
{
}

/// The pair view of parsed records held in buffers.
pub open spec fn recs_view(v: Seq<(u8, Vec<u8>)>) -> Seq<(u8, Seq<u8>)> {
    Seq::new(v.len(), |i: int| (v[i].0, v[i].1@))
}

/// Append one record to a byte buffer under construction.
pub fn append_tlv_record(out: &mut Vec<u8>, t: u8, payload: &[u8])
    requires
        payload@.len() <= 255,
    ensures
        final(out)@ =~= old(out)@ + seq![t, payload@.len() as u8] + payload@,
{
    out.push(t);
    out.push(payload.len() as u8);
    let n = payload.len();
    let mut i: usize = 0;
    while i < n
        invariant
            n == payload@.len(),
            i <= n,
            out@ =~= old(out)@ + seq![t, payload@.len() as u8] + payload@.take(i as int),
        decreases n - i,
    {
        out.push(payload[i]);
        proof {
            assert(payload@.take(i + 1) =~= payload@.take(i as int).push(payload@[i as int]));
        }
        i += 1;
    }
    proof {
        assert(payload@.take(n as int) =~= payload@);
    }
}

/// Split a byte string into its records; report a truncated record.
pub fn parse_tlv_records(data: &[u8]) -> (r: Option<Vec<(u8, Vec<u8>)>>)
    ensures
        match r {
            Some(v) => tlv_parse(data@) == Some(recs_view(v@)),
            None => tlv_parse(data@) is None,
        },
{
    let n = data.len();
    let mut recs: Vec<(u8, Vec<u8>)> = Vec::new();
    let mut pos: usize = 0;
    proof {
        assert(data@.skip(0) =~= data@);
    }
    while pos < n
        invariant
            n == data@.len(),
            pos <= n,
            tlv_parse(data@) == match tlv_parse(data@.skip(pos as int)) {
                Some(rest) => Some(recs_view(recs@) + rest),
                None => None::<Seq<(u8, Seq<u8>)>>,
            },
        decreases n - pos,
    {
        let ghost tail = data@.skip(pos as int);
        if n - pos < 2 {
            return None;
        }
        let t = data[pos];
        let l = data[pos + 1] as usize;
        if n - pos - 2 < l {
            proof {
                assert(tail.len() < 2 + tail[1]);
            }
            return None;
        }
        let mut payload: Vec<u8> = Vec::new();
        let mut j: usize = 0;
        while j < l
            invariant
                pos + 2 + l <= n,
                n == data@.len(),
                j <= l,
                payload@ =~= data@.subrange(pos + 2, pos + 2 + j),
            decreases l - j,
        {
            payload.push(data[pos + 2 + j]);
            proof {
                assert(data@.subrange(pos + 2, pos + 2 + j + 1) =~= data@.subrange(
                    pos + 2,
                    pos + 2 + j,
                ).push(data@[pos + 2 + j]));
            }
            j += 1;
        }
        let ghost prev_recs = recs_view(recs@);
        recs.push((t, payload));
        proof {
            assert(tail[0] == t);
            assert(tail[1] == l as u8);
            assert(tail.subrange(2, 2 + l as int) =~= data@.subrange(pos + 2, pos + 2 + l));
            assert(tail.skip(2 + l as int) =~= data@.skip(pos + 2 + l));
            assert(recs_view(recs@) =~= prev_recs + seq![(t, data@.subrange(pos + 2, pos + 2 + l))])
                by {
                assert(forall|k: int|
                    0 <= k < prev_recs.len() ==> #[trigger] recs_view(recs@)[k] == prev_recs[k]);
            }
            assert(tlv_parse(tail) == match tlv_parse(data@.skip(pos + 2 + l)) {
                Some(rest) => Some(
                    seq![(t, data@.subrange(pos + 2, pos + 2 + l))] + rest,
                ),
                None => None::<Seq<(u8, Seq<u8>)>>,
            });
            if tlv_parse(data@.skip(pos + 2 + l)) is Some {
                assert(recs_view(recs@) + tlv_parse(data@.skip(pos + 2 + l))->0 =~= prev_recs + (
                seq![(t, data@.subrange(pos + 2, pos + 2 + l))] + tlv_parse(
                    data@.skip(pos + 2 + l),
                )->0));
            }
        }
        pos = pos + 2 + l;
    }
    proof {
        assert(data@.skip(n as int) =~= Seq::<u8>::empty());
        assert(recs_view(recs@) + Seq::<(u8, Seq<u8>)>::empty() =~= recs_view(recs@));
    }
    Some(recs)
}

/// The four big-endian bytes of a 32-bit number.
pub open spec fn be32_bytes(v: u32) -> Seq<u8> {
    seq![(v >> 24) as u8, (v >> 16) as u8, (v >> 8) as u8, v as u8]
}

/// The 32-bit number read from four big-endian bytes.
pub open spec fn be32_value(b: Seq<u8>) -> u32
    recommends
        b.len() == 4,
{
    ((b[0] as u32) << 24) | ((b[1] as u32) << 16) | ((b[2] as u32) << 8) | (b[3] as u32)
}

/// Reading back the four bytes of a number gives the number.
pub proof fn lemma_be32_round_trip(v: u32)
    ensures
        be32_value(be32_bytes(v)) == v,
{
    let b0 = (v >> 24) as u8;
    let b1 = (v >> 16) as u8;
    let b2 = (v >> 8) as u8;
    let b3 = v as u8;
    assert((((b0 as u32) << 24) | ((b1 as u32) << 16) | ((b2 as u32) << 8) | (b3 as u32)) == v)
        by (bit_vector)
        requires
            b0 == (v >> 24) as u8,
            b1 == (v >> 16) as u8,
            b2 == (v >> 8) as u8,
            b3 == v as u8,
    ;
}

/// A 16-bit number survives widening, big-endian framing and narrowing.
pub proof fn lemma_be32_u16_round_trip(k: u16)
    ensures
        (be32_value(be32_bytes(k as u32)) & 0xFFFF) as u16 == k,
{
    lemma_be32_round_trip(k as u32);
    let v = k as u32;
    assert((v & 0xFFFF) as u16 == k) by (bit_vector)
        requires
            v == k as u32,
    ;
}

/// Write the four big-endian bytes of a number.
pub fn be32_to_bytes(v: u32) -> (r: Vec<u8>)
    ensures
        r@ =~= be32_bytes(v),
        r@.len() == 4,
{
    let mut out: Vec<u8> = Vec::new();
    out.push((v >> 24) as u8);
    out.push((v >> 16) as u8);
    out.push((v >> 8) as u8);
    out.push(v as u8);
    out
}

/// Read the number out of four big-endian bytes.
pub fn be32_from_bytes(b: &[u8]) -> (r: u32)
    requires
        b@.len() == 4,
    ensures
        r == be32_value(b@),
{
    ((b[0] as u32) << 24) | ((b[1] as u32) << 16) | ((b[2] as u32) << 8) | (b[3] as u32)
}

} // verus!
