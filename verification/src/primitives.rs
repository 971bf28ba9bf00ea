//! Primitive readers: little-endian integers, length-prefixed UTF-8
//! strings, and count-prefixed string dictionaries.
//!
//! Every reader works on a cursor `pos` into a byte buffer, bounded by
//! `end` (the end of the enclosing chunk's content slice), and returns the
//! decoded value together with the position just past the consumed bytes.
//! The `spec_parse_*` functions are the mathematical definition of each
//! layout; each executable reader is proved to return exactly what its
//! spec says, including the exact error.

#![allow(non_snake_case)]

use crate::error::DotVoxError;
use crate::types::DictView;
use vstd::prelude::*;
use vstd::utf8::{decode_utf8, encode_utf8, valid_utf8};

verus! {

/// The little-endian 32-bit value stored at `pos`.
pub open spec fn spec_u32_at(s: Seq<u8>, pos: int) -> u32
    recommends
        0 <= pos && pos + 4 <= s.len(),
{
    (s[pos] as u32) | ((s[pos + 1] as u32) << 8) | ((s[pos + 2] as u32) << 16) | ((s[pos
        + 3] as u32) << 24)
}

/// Reading an unsigned 32-bit little-endian integer: four bytes must
/// remain before `end`.
pub open spec fn spec_parse_u32(s: Seq<u8>, pos: int, end: int) -> Result<
    (u32, int),
    DotVoxError,
> {
    if pos + 4 <= end {
        Ok((spec_u32_at(s, pos), pos + 4))
    } else {
        Err(DotVoxError::Truncated { offset: pos as usize })
    }
}

/// Reading a signed 32-bit little-endian integer: the unsigned read,
/// reinterpreted in two's complement.
pub open spec fn spec_parse_i32(s: Seq<u8>, pos: int, end: int) -> Result<
    (i32, int),
    DotVoxError,
> {
    match spec_parse_u32(s, pos, end) {
        Ok((v, p)) => Ok((v as i32, p)),
        Err(e) => Err(e),
    }
}

/// Reading a length-prefixed string: a 32-bit byte length, then exactly
/// that many bytes, which must be valid UTF-8.
pub open spec fn spec_parse_string(s: Seq<u8>, pos: int, end: int) -> Result<
    (Seq<char>, int),
    DotVoxError,
> {
    match spec_parse_u32(s, pos, end) {
        Err(e) => Err(e),
        Ok((n, p)) => {
            let m = n as int;
            if p + m > end {
                Err(DotVoxError::Truncated { offset: p as usize })
            } else if !valid_utf8(s.subrange(p, p + m)) {
                Err(DotVoxError::InvalidString { offset: pos as usize })
            } else {
                Ok((decode_utf8(s.subrange(p, p + m)), p + m))
            }
        },
    }
}

/// Reading `n` consecutive (key, value) string pairs.
pub open spec fn spec_parse_pairs(s: Seq<u8>, pos: int, end: int, n: nat) -> Result<
    (DictView, int),
    DotVoxError,
>
    decreases n,
{
    if n == 0 {
        Ok((Seq::empty(), pos))
    } else {
        match spec_parse_string(s, pos, end) {
            Err(e) => Err(e),
            Ok((k, p1)) => match spec_parse_string(s, p1, end) {
                Err(e) => Err(e),
                Ok((v, p2)) => match spec_parse_pairs(s, p2, end, (n - 1) as nat) {
                    Err(e) => Err(e),
                    Ok((rest, p3)) => Ok((seq![(k, v)] + rest, p3)),
                },
            },
        }
    }
}

/// Reading a dictionary: a 32-bit entry count, then that many string
/// pairs, in order.
pub open spec fn spec_parse_dict(s: Seq<u8>, pos: int, end: int) -> Result<
    (DictView, int),
    DotVoxError,
> {
    match spec_parse_u32(s, pos, end) {
        Err(e) => Err(e),
        Ok((n, p)) => spec_parse_pairs(s, p, end, n as nat),
    }
}

/// Reads an unsigned 32-bit little-endian integer.
pub fn parse_u32(data: &Vec<u8>, pos: usize, end: usize) -> (r: Result<(u32, usize), DotVoxError>)
    requires
        pos <= end <= data.len(),
    ensures
        (match r {
            Ok((v, p)) => spec_parse_u32(data@, pos as int, end as int) == Ok::<
                (u32, int),
                DotVoxError,
            >((v, p as int)) && pos < p <= end,
            Err(e) => spec_parse_u32(data@, pos as int, end as int) == Err::<
                (u32, int),
                DotVoxError,
            >(e),
        }),
{
    if end - pos >= 4 {
        let b0 = data[pos];
        let b1 = data[pos + 1];
        let b2 = data[pos + 2];
        let b3 = data[pos + 3];
        let v = (b0 as u32) | ((b1 as u32) << 8) | ((b2 as u32) << 16) | ((b3 as u32) << 24);
        Ok((v, pos + 4))
    } else {
        Err(DotVoxError::Truncated { offset: pos })
    }
}

/// Reads a signed 32-bit little-endian integer.
pub fn parse_i32(data: &Vec<u8>, pos: usize, end: usize) -> (r: Result<(i32, usize), DotVoxError>)
    requires
        pos <= end <= data.len(),
    ensures
        (match r {
            Ok((v, p)) => spec_parse_i32(data@, pos as int, end as int) == Ok::<
                (i32, int),
                DotVoxError,
            >((v, p as int)) && pos < p <= end,
            Err(e) => spec_parse_i32(data@, pos as int, end as int) == Err::<
                (i32, int),
                DotVoxError,
            >(e),
        }),
{
    match parse_u32(data, pos, end) {
        Ok((v, p)) => Ok((v as i32, p)),
        Err(e) => Err(e),
    }
}

/// Copies `data[start..end]` into a fresh vector.
pub fn copy_range(data: &Vec<u8>, start: usize, end: usize) -> (out: Vec<u8>)
    requires
        start <= end <= data.len(),
    ensures
        out@ == data@.subrange(start as int, end as int),
{
    let mut out: Vec<u8> = Vec::new();
    let mut i: usize = start;
    while i < end
        invariant
            start <= i <= end <= data.len(),
            out@ =~= data@.subrange(start as int, i as int),
        decreases end - i,
    {
        out.push(data[i]);
        i = i + 1;
    }
    proof {
        assert(out@ =~= data@.subrange(start as int, end as int));
    }
    out
}

/// Reads the little-endian 32-bit value at `pos`, bounds already known.
pub fn u32_at(data: &Vec<u8>, pos: usize) -> (v: u32)
    requires
        pos + 4 <= data.len(),
    ensures
        v == spec_u32_at(data@, pos as int),
{
    let b0 = data[pos];
    let b1 = data[pos + 1];
    let b2 = data[pos + 2];
    let b3 = data[pos + 3];
    (b0 as u32) | ((b1 as u32) << 8) | ((b2 as u32) << 16) | ((b3 as u32) << 24)
}

/// Relies on `std::str::from_utf8`: it accepts a byte slice exactly when
/// the bytes are valid UTF-8 (the encoding `vstd::utf8` describes), and
/// the accepted string is the one whose UTF-8 encoding is those bytes.
#[verifier::external_body]
pub(crate) fn utf8_to_string(bytes: &Vec<u8>) -> (r: Option<String>)
    ensures
        r is Some <==> valid_utf8(bytes@),
        (r matches Some(s) ==> encode_utf8(s@) == bytes@),
{
    match std::str::from_utf8(bytes.as_slice()) {
        Ok(s) => Some(s.to_owned()),
        Err(_) => None,
    }
}

/// Reads a length-prefixed UTF-8 string.
pub fn parse_STRING(data: &Vec<u8>, pos: usize, end: usize) -> (r: Result<
    (String, usize),
    DotVoxError,
>)
    requires
        pos <= end <= data.len(),
    ensures
        (match r {
            Ok((s, p)) => spec_parse_string(data@, pos as int, end as int) == Ok::<
                (Seq<char>, int),
                DotVoxError,
            >((s@, p as int)) && pos < p <= end,
            Err(e) => spec_parse_string(data@, pos as int, end as int) == Err::<
                (Seq<char>, int),
                DotVoxError,
            >(e),
        }),
{
    match parse_u32(data, pos, end) {
        Err(e) => Err(e),
        Ok((n, p)) => {
            let nn = n as usize;
            if nn > end - p {
                Err(DotVoxError::Truncated { offset: p })
            } else {
                let seg = copy_range(data, p, p + nn);
                match utf8_to_string(&seg) {
                    Some(s) => {
                        proof {
                            broadcast use vstd::utf8::encode_utf8_decode_utf8;

                            assert(decode_utf8(data@.subrange(p as int, p as int + nn as int))
                                == s@);
                        }
                        Ok((s, p + nn))
                    },
                    None => Err(DotVoxError::InvalidString { offset: pos }),
                }
            }
        },
    }
}

/// Reads a dictionary: an entry count, then that many (key, value)
/// string pairs, keeping insertion order.
pub fn parse_DICT(data: &Vec<u8>, pos: usize, end: usize) -> (r: Result<
    (crate::types::Dict, usize),
    DotVoxError,
>)
    requires
        pos <= end <= data.len(),
    ensures
        (match r {
            Ok((d, p)) => spec_parse_dict(data@, pos as int, end as int) == Ok::<
                (DictView, int),
                DotVoxError,
            >((d.deep_view(), p as int)) && pos <= p <= end,
            Err(e) => spec_parse_dict(data@, pos as int, end as int) == Err::<
                (DictView, int),
                DotVoxError,
            >(e),
        }),
{
    match parse_u32(data, pos, end) {
        Err(e) => Err(e),
        Ok((n, p0)) => {
            match parse_pairs(data, p0, end, n) {
                Err(e) => Err(e),
                Ok((d, p)) => Ok((d, p)),
            }
        },
    }
}

/// Reads `n` consecutive (key, value) string pairs.
fn parse_pairs(data: &Vec<u8>, pos: usize, end: usize, n: u32) -> (r: Result<
    (crate::types::Dict, usize),
    DotVoxError,
>)
    requires
        pos <= end <= data.len(),
    ensures
        (match r {
            Ok((d, p)) => spec_parse_pairs(data@, pos as int, end as int, n as nat) == Ok::<
                (DictView, int),
                DotVoxError,
            >((d.deep_view(), p as int)) && pos <= p <= end,
            Err(e) => spec_parse_pairs(data@, pos as int, end as int, n as nat) == Err::<
                (DictView, int),
                DotVoxError,
            >(e),
        }),
{
    let mut d: crate::types::Dict = Vec::new();
    let mut cur: usize = pos;
    let mut i: u32 = 0;
    while i < n
        invariant
            pos <= cur <= end <= data.len(),
            i <= n,
            (forall|rest: DictView, q: int|
                spec_parse_pairs(data@, cur as int, end as int, (n - i) as nat) == Ok::<
                    (DictView, int),
                    DotVoxError,
                >((rest, q)) ==> spec_parse_pairs(data@, pos as int, end as int, n as nat) == Ok::<
                    (DictView, int),
                    DotVoxError,
                >((d.deep_view() + rest, q))),
            (forall|e: DotVoxError|
                spec_parse_pairs(data@, cur as int, end as int, (n - i) as nat) == Err::<
                    (DictView, int),
                    DotVoxError,
                >(e) ==> spec_parse_pairs(data@, pos as int, end as int, n as nat) == Err::<
                    (DictView, int),
                    DotVoxError,
                >(e)),
        decreases n - i,
    {
        let ghost prev_d = d.deep_view();
        let ghost prev_cur = cur as int;
        let k = match parse_STRING(data, cur, end) {
            Ok(kv) => kv,
            Err(e) => {
                proof {
                    assert(spec_parse_pairs(data@, prev_cur, end as int, (n - i) as nat) == Err::<
                        (DictView, int),
                        DotVoxError,
                    >(e));
                }
                return Err(e);
            },
        };
        let v = match parse_STRING(data, k.1, end) {
            Ok(vv) => vv,
            Err(e) => {
                proof {
                    assert(spec_parse_pairs(data@, prev_cur, end as int, (n - i) as nat) == Err::<
                        (DictView, int),
                        DotVoxError,
                    >(e));
                }
                return Err(e);
            },
        };
        cur = v.1;
        d.push((k.0, v.0));
        i = i + 1;
        proof {
            assert(d.deep_view() =~= prev_d.push((d[d.len() - 1].0@, d[d.len() - 1].1@)));
            assert forall|rest: DictView, q: int|
                spec_parse_pairs(data@, cur as int, end as int, (n - i) as nat) == Ok::<
                    (DictView, int),
                    DotVoxError,
                >((rest, q)) implies spec_parse_pairs(data@, pos as int, end as int, n as nat)
                == Ok::<(DictView, int), DotVoxError>((d.deep_view() + rest, q)) by {
                assert(spec_parse_pairs(data@, prev_cur, end as int, (n - (i - 1)) as nat) == Ok::<
                    (DictView, int),
                    DotVoxError,
                >((seq![(d[d.len() - 1].0@, d[d.len() - 1].1@)] + rest, q)));
                assert(prev_d + (seq![(d[d.len() - 1].0@, d[d.len() - 1].1@)] + rest)
                    =~= d.deep_view() + rest);
            }
            assert forall|e: DotVoxError|
                spec_parse_pairs(data@, cur as int, end as int, (n - i) as nat) == Err::<
                    (DictView, int),
                    DotVoxError,
                >(e) implies spec_parse_pairs(data@, pos as int, end as int, n as nat) == Err::<
                (DictView, int),
                DotVoxError,
            >(e) by {
                assert(spec_parse_pairs(data@, prev_cur, end as int, (n - (i - 1)) as nat) == Err::<
                    (DictView, int),
                    DotVoxError,
                >(e));
            }
        }
    }
    proof {
        assert(spec_parse_pairs(data@, cur as int, end as int, 0) == Ok::<
            (DictView, int),
            DotVoxError,
        >((Seq::empty(), cur as int)));
        assert(d.deep_view() + Seq::<(Seq<char>, Seq<char>)>::empty() =~= d.deep_view());
    }
    Ok((d, cur))
}

} // verus!
