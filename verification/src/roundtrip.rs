//! Dictionary encoding, and the proof that decoding an encoded
//! dictionary restores it exactly: entry order and string content are
//! preserved through the byte format.

#![allow(non_snake_case)]

use crate::error::DotVoxError;
use crate::primitives::{spec_parse_dict, spec_parse_pairs, spec_parse_string, spec_parse_u32};
use crate::types::{Dict, DictView};
use vstd::prelude::*;
use vstd::string::StrSliceExecFns;
use vstd::utf8::encode_utf8;

verus! {

/// The four little-endian bytes of `v`.
pub open spec fn spec_encode_u32(v: u32) -> Seq<u8> {
    seq![
        (v & 0xff) as u8,
        ((v >> 8) & 0xff) as u8,
        ((v >> 16) & 0xff) as u8,
        ((v >> 24) & 0xff) as u8,
    ]
}

/// A length-prefixed string: the UTF-8 byte length, then the UTF-8 bytes.
pub open spec fn spec_encode_string(cs: Seq<char>) -> Seq<u8> {
    spec_encode_u32(encode_utf8(cs).len() as u32) + encode_utf8(cs)
}

/// The concatenated encodings of the (key, value) pairs, in order.
pub open spec fn spec_encode_pairs(d: DictView) -> Seq<u8>
    decreases d.len(),
{
    if d.len() == 0 {
        Seq::empty()
    } else {
        spec_encode_string(d[0].0) + spec_encode_string(d[0].1) + spec_encode_pairs(
            d.drop_first(),
        )
    }
}

/// A dictionary: the entry count, then the encoded pairs.
pub open spec fn spec_encode_dict(d: DictView) -> Seq<u8> {
    spec_encode_u32(d.len() as u32) + spec_encode_pairs(d)
}

/// The byte format can represent `d`: the entry count and every string's
/// UTF-8 byte length fit their 32-bit length fields.
pub open spec fn dict_encodable(d: DictView) -> bool {
    &&& d.len() < 0x100000000
    &&& forall|i: int|
        0 <= i < d.len() ==> (#[trigger] encode_utf8(d[i].0)).len() < 0x100000000 && encode_utf8(
            d[i].1,
        ).len() < 0x100000000
}

/// Recomposing the four little-endian bytes of `v` gives back `v`.
proof fn lemma_u32_recompose(v: u32)
    by (bit_vector)
    ensures
        (v & 0xff) | (((v >> 8) & 0xff) << 8) | (((v >> 16) & 0xff) << 16) | (((v >> 24)
            & 0xff) << 24) == v,
        ((((v & 0xff) as u8) as u32) | ((((v >> 8) & 0xff) as u8) as u32) << 8 | ((((v >> 16)
            & 0xff) as u8) as u32) << 16 | ((((v >> 24) & 0xff) as u8) as u32) << 24) == v,
{
}

/// Reading a 32-bit integer from its own encoding restores it.
proof fn lemma_u32_round_trip(s: Seq<u8>, pos: int, end: int, v: u32)
    requires
        0 <= pos,
        pos + 4 <= end <= s.len(),
        s.subrange(pos, pos + 4) == spec_encode_u32(v),
    ensures
        spec_parse_u32(s, pos, end) == Ok::<(u32, int), DotVoxError>((v, pos + 4)),
{
    assert(s[pos] == spec_encode_u32(v)[0]);
    assert(s[pos + 1] == spec_encode_u32(v)[1]);
    assert(s[pos + 2] == spec_encode_u32(v)[2]);
    assert(s[pos + 3] == spec_encode_u32(v)[3]);
    lemma_u32_recompose(v);
}

/// Reading a string from its own encoding restores it.
proof fn lemma_string_round_trip(s: Seq<u8>, pos: int, end: int, cs: Seq<char>)
    requires
        0 <= pos,
        encode_utf8(cs).len() < 0x100000000,
        pos + spec_encode_string(cs).len() <= end <= s.len(),
        s.subrange(pos, pos + spec_encode_string(cs).len() as int) == spec_encode_string(cs),
    ensures
        spec_parse_string(s, pos, end) == Ok::<(Seq<char>, int), DotVoxError>(
            (cs, pos + spec_encode_string(cs).len()),
        ),
{
    broadcast use vstd::utf8::encode_utf8_valid_utf8, vstd::utf8::encode_utf8_decode_utf8;

    let bytes = encode_utf8(cs);
    let n = bytes.len() as u32;
    let enc = spec_encode_string(cs);
    assert(s.subrange(pos, pos + 4) =~= enc.subrange(0, 4));
    assert(enc.subrange(0, 4) =~= spec_encode_u32(n));
    lemma_u32_round_trip(s, pos, end, n);
    assert(s.subrange(pos + 4, pos + 4 + n as int) =~= enc.subrange(4, 4 + n as int));
    assert(enc.subrange(4, 4 + n as int) =~= bytes);
    assert(vstd::utf8::valid_utf8(bytes));
    assert(vstd::utf8::decode_utf8(bytes) == cs);
}

/// Reading `d.len()` pairs from their own encoding restores them all.
proof fn lemma_pairs_round_trip(s: Seq<u8>, pos: int, end: int, d: DictView)
    requires
        0 <= pos,
        dict_encodable(d),
        pos + spec_encode_pairs(d).len() <= end <= s.len(),
        s.subrange(pos, pos + spec_encode_pairs(d).len() as int) == spec_encode_pairs(d),
    ensures
        spec_parse_pairs(s, pos, end, d.len()) == Ok::<(DictView, int), DotVoxError>(
            (d, pos + spec_encode_pairs(d).len()),
        ),
    decreases d.len(),
{
    if d.len() == 0 {
        assert(d =~= Seq::<(Seq<char>, Seq<char>)>::empty());
    } else {
        let k = d[0].0;
        let v = d[0].1;
        let ek = spec_encode_string(k);
        let ev = spec_encode_string(v);
        let rest = spec_encode_pairs(d.drop_first());
        let enc = spec_encode_pairs(d);
        assert(enc =~= ek + ev + rest);
        assert(s.subrange(pos, pos + ek.len() as int) =~= enc.subrange(0, ek.len() as int));
        assert(enc.subrange(0, ek.len() as int) =~= ek);
        lemma_string_round_trip(s, pos, end, k);
        let p1 = pos + ek.len();
        assert(s.subrange(p1, p1 + ev.len() as int) =~= enc.subrange(
            ek.len() as int,
            ek.len() + ev.len() as int,
        ));
        assert(enc.subrange(ek.len() as int, ek.len() + ev.len() as int) =~= ev);
        lemma_string_round_trip(s, p1, end, v);
        let p2 = p1 + ev.len();
        assert(forall|i: int|
            0 <= i < d.drop_first().len() ==> #[trigger] d.drop_first()[i] == d[i + 1]);
        assert(dict_encodable(d.drop_first()));
        assert(s.subrange(p2, p2 + rest.len() as int) =~= enc.subrange(
            ek.len() + ev.len() as int,
            enc.len() as int,
        ));
        assert(enc.subrange(ek.len() + ev.len() as int, enc.len() as int) =~= rest);
        lemma_pairs_round_trip(s, p2, end, d.drop_first());
        assert(seq![(k, v)] + d.drop_first() =~= d);
        assert(spec_parse_string(s, pos, end) == Ok::<(Seq<char>, int), DotVoxError>((k, p1)));
        assert(spec_parse_string(s, p1, end) == Ok::<(Seq<char>, int), DotVoxError>((v, p2)));
        assert(spec_parse_pairs(s, p2, end, (d.len() - 1) as nat) == Ok::<
            (DictView, int),
            DotVoxError,
        >((d.drop_first(), p2 + rest.len())));
        assert(spec_parse_pairs(s, pos, end, d.len()) == Ok::<(DictView, int), DotVoxError>(
            (seq![(k, v)] + d.drop_first(), p2 + rest.len()),
        ));
    }
}

/// Round trip: decoding the encoding of any representable dictionary
/// yields exactly the original entries, in the original order, with the
/// exact key and value strings, consuming the whole encoding.
pub proof fn lemma_dict_round_trip(d: DictView)
    requires
        dict_encodable(d),
    ensures
        spec_parse_dict(spec_encode_dict(d), 0, spec_encode_dict(d).len() as int) == Ok::<
            (DictView, int),
            DotVoxError,
        >((d, spec_encode_dict(d).len() as int)),
{
    let enc = spec_encode_dict(d);
    let n = d.len() as u32;
    assert(enc.subrange(0, 4) =~= spec_encode_u32(n));
    lemma_u32_round_trip(enc, 0, enc.len() as int, n);
    assert(enc.subrange(4, 4 + spec_encode_pairs(d).len() as int) =~= spec_encode_pairs(d));
    lemma_pairs_round_trip(enc, 4, enc.len() as int, d);
}

/// Appends the four little-endian bytes of `v`.
fn push_u32(out: &mut Vec<u8>, v: u32)
    ensures
        final(out)@ == old(out)@ + spec_encode_u32(v),
{
    out.push((v & 0xff) as u8);
    out.push(((v >> 8) & 0xff) as u8);
    out.push(((v >> 16) & 0xff) as u8);
    out.push(((v >> 24) & 0xff) as u8);
    proof {
        assert(final(out)@ =~= old(out)@ + spec_encode_u32(v));
    }
}

/// Appending one more pair extends the encoded pair stream at its end.
proof fn lemma_encode_pairs_snoc(d: DictView, k: Seq<char>, v: Seq<char>)
    ensures
        spec_encode_pairs(d.push((k, v))) == spec_encode_pairs(d) + spec_encode_string(k)
            + spec_encode_string(v),
    decreases d.len(),
{
    if d.len() == 0 {
        assert(d.push((k, v)).drop_first() =~= d);
        assert(spec_encode_pairs(d.push((k, v))) =~= spec_encode_pairs(d) + spec_encode_string(k)
            + spec_encode_string(v));
    } else {
        assert(d.push((k, v)).drop_first() =~= d.drop_first().push((k, v)));
        lemma_encode_pairs_snoc(d.drop_first(), k, v);
        assert(spec_encode_pairs(d.push((k, v))) =~= spec_encode_pairs(d) + spec_encode_string(k)
            + spec_encode_string(v));
    }
}

/// Encodes a dictionary into the on-disk layout: entry count, then
/// length-prefixed key and value strings in order.  Returns `None` when a
/// count or byte length does not fit its 32-bit field.
pub fn encode_DICT(d: &Dict) -> (r: Option<Vec<u8>>)
    ensures
        (match r {
            Some(out) => dict_encodable(d.deep_view()) && out@ == spec_encode_dict(d.deep_view()),
            None => !dict_encodable(d.deep_view()),
        }),
{
    let ghost dv = d.deep_view();
    if d.len() as u64 >= 0x1_0000_0000u64 {
        proof {
            assert(!dict_encodable(dv));
        }
        return None;
    }
    let mut out: Vec<u8> = Vec::new();
    push_u32(&mut out, d.len() as u32);
    let mut i: usize = 0;
    while i < d.len()
        invariant
            i <= d.len(),
            d.len() < 0x100000000,
            dv == d.deep_view(),
            out@ == spec_encode_u32(d.len() as u32) + spec_encode_pairs(dv.take(i as int)),
            forall|j: int|
                0 <= j < i ==> (#[trigger] encode_utf8(dv[j].0)).len() < 0x100000000 && encode_utf8(
                    dv[j].1,
                ).len() < 0x100000000,
        decreases d.len() - i,
    {
        let ghost prev_out = out@;
        let key_bytes = d[i].0.as_str().as_bytes_vec();
        let val_bytes = d[i].1.as_str().as_bytes_vec();
        if key_bytes.len() as u64 >= 0x1_0000_0000u64 || val_bytes.len() as u64 >= 0x1_0000_0000u64 {
            proof {
                assert(!dict_encodable(dv));
            }
            return None;
        }
        let mut kb = key_bytes;
        let mut vb = val_bytes;
        push_u32(&mut out, kb.len() as u32);
        out.append(&mut kb);
        push_u32(&mut out, vb.len() as u32);
        out.append(&mut vb);
        proof {
            assert(out@ =~= prev_out + spec_encode_string(dv[i as int].0) + spec_encode_string(
                dv[i as int].1,
            ));
            lemma_encode_pairs_snoc(dv.take(i as int), dv[i as int].0, dv[i as int].1);
            assert(dv.take(i as int).push((dv[i as int].0, dv[i as int].1)) =~= dv.take(
                i as int + 1,
            ));
            assert(out@ =~= spec_encode_u32(d.len() as u32) + spec_encode_pairs(
                dv.take(i as int + 1),
            ));
        }
        i = i + 1;
    }
    proof {
        assert(dv.take(d.len() as int) =~= dv);
        assert(out@ =~= spec_encode_dict(dv));
    }
    Some(out)
}

} // verus!
