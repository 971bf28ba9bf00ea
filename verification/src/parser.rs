//! The chunk-frame reader and the file assembler.
//!
//! A chunk frame is a 12-byte header (4-byte ASCII tag, 32-bit content
//! length, 32-bit children length), followed by exactly `content` payload
//! bytes and exactly `children` bytes holding a sequence of sibling child
//! frames that must exhaust their range.  [`parse_file`] checks the `VOX `
//! magic and version header, parses the single root chunk, requires it to
//! be the `MAIN` container, and folds its children into a [`VoxFile`].
//!
//! The grammar is defined by `spec_parse_chunk` / `spec_parse_chunks` /
//! `spec_parse_file`; each executable function is proved to return exactly
//! what the grammar says, including the exact error, and to consume
//! exactly `content + children + 12` bytes per chunk (the framing
//! invariant).

#![allow(non_snake_case)]

use crate::chunks::{
    parse_IMAP, parse_LAYR, parse_MATL, parse_MATT, parse_NOTE, parse_PACK, parse_RGBA, parse_SIZE,
    parse_XYZI, parse_nGRP, parse_nSHP, parse_nTRN, parse_rCAM, parse_rOBJ, spec_parse_IMAP,
    spec_parse_LAYR, spec_parse_MATL, spec_parse_MATT, spec_parse_NOTE, spec_parse_PACK,
    spec_parse_RGBA, spec_parse_SIZE, spec_parse_XYZI, spec_parse_nGRP, spec_parse_nSHP,
    spec_parse_nTRN, spec_parse_rCAM, spec_parse_rOBJ,
};
use crate::error::DotVoxError;
use crate::primitives::{copy_range, spec_u32_at, u32_at, utf8_to_string};
pub use crate::types::Chunk;
use crate::types::{
    ChunkView, Material, MaterialView, Model, ModelView, SceneNode, SceneNodeView, Size, VoxFile,
    VoxFileView, spec_default_voxfile,
};
use vstd::prelude::*;
use vstd::utf8::{decode_utf8, valid_utf8};

verus! {

/// The maximum chunk nesting depth the decoder accepts.  The reader
/// recurses once per nesting level, so the limit bounds stack usage
/// against adversarial `children` lengths; deeper input fails with
/// [`DotVoxError::DepthLimitExceeded`].
pub const MAX_NESTING_DEPTH: u32 = 64;

/// One chunk frame starting at `pos`, bounded by `end`: the 12-byte
/// header, the declared content and children spans, the children parsed
/// as a chunk sequence (with one less level of `depth` left), and the
/// payload dispatched on the tag.  Consumes exactly
/// `12 + content + children` bytes.
pub open spec fn spec_parse_chunk(s: Seq<u8>, pos: int, end: int, depth: nat) -> Result<
    (ChunkView, int),
    DotVoxError,
>
    decreases depth, end - pos, 0int,
{
    if pos + 12 > end {
        Err(DotVoxError::Truncated { offset: pos as usize })
    } else {
        let content = spec_u32_at(s, pos + 4) as int;
        let children_len = spec_u32_at(s, pos + 8) as int;
        if pos + 12 + content + children_len > end {
            Err(DotVoxError::Truncated { offset: pos as usize })
        } else if depth == 0 {
            Err(DotVoxError::DepthLimitExceeded)
        } else if !valid_utf8(s.subrange(pos, pos + 4)) {
            Err(DotVoxError::InvalidString { offset: pos as usize })
        } else {
            let cstart = pos + 12;
            let cend = cstart + content;
            let kend = cend + children_len;
            let kids_r: Result<Seq<ChunkView>, DotVoxError> = if children_len > 0 {
                spec_parse_chunks(s, cend, kend, (depth - 1) as nat)
            } else {
                Ok(Seq::empty())
            };
            match kids_r {
                Err(e) => Err(e),
                Ok(kids) => spec_dispatch(s, pos, cstart, cend, kids, kend),
            }
        }
    }
}

/// The payload of the chunk at `pos` interpreted by its tag: recognized
/// tags run their semantic decoder over `[cstart, cend)`; an unrecognized
/// tag keeps the raw payload and the parsed children.
pub open spec fn spec_dispatch(
    s: Seq<u8>,
    pos: int,
    cstart: int,
    cend: int,
    kids: Seq<ChunkView>,
    kend: int,
) -> Result<(ChunkView, int), DotVoxError> {
    let t0 = s[pos];
    let t1 = s[pos + 1];
    let t2 = s[pos + 2];
    let t3 = s[pos + 3];
    if t0 == 77 && t1 == 65 && t2 == 73 && t3 == 78 {  // MAIN
        Ok((ChunkView::MAIN(kids), kend))
    } else if t0 == 80 && t1 == 65 && t2 == 67 && t3 == 75 {  // PACK
        match spec_parse_PACK(s, cstart, cend) {
            Err(e) => Err(e),
            Ok((v, _)) => Ok((ChunkView::PACK(v), kend)),
        }
    } else if t0 == 83 && t1 == 73 && t2 == 90 && t3 == 69 {  // SIZE
        match spec_parse_SIZE(s, cstart, cend) {
            Err(e) => Err(e),
            Ok((v, _)) => Ok((ChunkView::SIZE(v), kend)),
        }
    } else if t0 == 88 && t1 == 89 && t2 == 90 && t3 == 73 {  // XYZI
        match spec_parse_XYZI(s, cstart, cend) {
            Err(e) => Err(e),
            Ok((v, _)) => Ok((ChunkView::XYZI(v), kend)),
        }
    } else if t0 == 82 && t1 == 71 && t2 == 66 && t3 == 65 {  // RGBA
        match spec_parse_RGBA(s, cstart, cend) {
            Err(e) => Err(e),
            Ok((v, _)) => Ok((ChunkView::RGBA(v), kend)),
        }
    } else if t0 == 77 && t1 == 65 && t2 == 84 && t3 == 84 {  // MATT
        match spec_parse_MATT(s, cstart, cend) {
            Err(e) => Err(e),
            Ok((v, _)) => Ok((ChunkView::MATT(v), kend)),
        }
    } else if t0 == 77 && t1 == 65 && t2 == 84 && t3 == 76 {  // MATL
        match spec_parse_MATL(s, cstart, cend) {
            Err(e) => Err(e),
            Ok((v, _)) => Ok((ChunkView::MATL(v), kend)),
        }
    } else if t0 == 114 && t1 == 79 && t2 == 66 && t3 == 74 {  // rOBJ
        match spec_parse_rOBJ(s, cstart, cend) {
            Err(e) => Err(e),
            Ok((v, _)) => Ok((ChunkView::rOBJ(v), kend)),
        }
    } else if t0 == 114 && t1 == 67 && t2 == 65 && t3 == 77 {  // rCAM
        match spec_parse_rCAM(s, cstart, cend) {
            Err(e) => Err(e),
            Ok((v, _)) => Ok((ChunkView::rCAM(v), kend)),
        }
    } else if t0 == 73 && t1 == 77 && t2 == 65 && t3 == 80 {  // IMAP
        match spec_parse_IMAP(s, cstart, cend) {
            Err(e) => Err(e),
            Ok((v, _)) => Ok((ChunkView::IMAP(v), kend)),
        }
    } else if t0 == 78 && t1 == 79 && t2 == 84 && t3 == 69 {  // NOTE
        match spec_parse_NOTE(s, cstart, cend) {
            Err(e) => Err(e),
            Ok((v, _)) => Ok((ChunkView::NOTE(v), kend)),
        }
    } else if t0 == 110 && t1 == 84 && t2 == 82 && t3 == 78 {  // nTRN
        match spec_parse_nTRN(s, cstart, cend) {
            Err(e) => Err(e),
            Ok((v, _)) => Ok((ChunkView::nTRN(v), kend)),
        }
    } else if t0 == 110 && t1 == 71 && t2 == 82 && t3 == 80 {  // nGRP
        match spec_parse_nGRP(s, cstart, cend) {
            Err(e) => Err(e),
            Ok((v, _)) => Ok((ChunkView::nGRP(v), kend)),
        }
    } else if t0 == 110 && t1 == 83 && t2 == 72 && t3 == 80 {  // nSHP
        match spec_parse_nSHP(s, cstart, cend) {
            Err(e) => Err(e),
            Ok((v, _)) => Ok((ChunkView::nSHP(v), kend)),
        }
    } else if t0 == 76 && t1 == 65 && t2 == 89 && t3 == 82 {  // LAYR
        match spec_parse_LAYR(s, cstart, cend) {
            Err(e) => Err(e),
            Ok((v, _)) => Ok((ChunkView::LAYR(v), kend)),
        }
    } else {
        Ok(
            (
                ChunkView::Unknown {
                    kind: decode_utf8(s.subrange(pos, pos + 4)),
                    contents: s.subrange(cstart, cend),
                    children: kids,
                },
                kend,
            ),
        )
    }
}

/// A sequence of sibling chunk frames that must exhaust `[pos, end)`
/// exactly: leftover bytes too short for a chunk, or a chunk overrunning
/// the range, are structural failures.
pub open spec fn spec_parse_chunks(s: Seq<u8>, pos: int, end: int, depth: nat) -> Result<
    Seq<ChunkView>,
    DotVoxError,
>
    decreases depth, end - pos, 1int,
{
    if pos >= end {
        Ok(Seq::empty())
    } else if pos + 12 > end {
        Err(DotVoxError::Truncated { offset: pos as usize })
    } else {
        let content = spec_u32_at(s, pos + 4) as int;
        let children_len = spec_u32_at(s, pos + 8) as int;
        if pos + 12 + content + children_len > end {
            Err(DotVoxError::Truncated { offset: pos as usize })
        } else {
            match spec_parse_chunk(s, pos, end, depth) {
                Err(e) => Err(e),
                Ok((c, _)) => match spec_parse_chunks(
                    s,
                    pos + 12 + content + children_len,
                    end,
                    depth,
                ) {
                    Err(e) => Err(e),
                    Ok(rest) => Ok(seq![c] + rest),
                },
            }
        }
    }
}

/// Interprets the payload of the chunk at `pos` by its tag, after the
/// children have been parsed: the executable side of [`spec_dispatch`].
#[verifier::rlimit(100)]
fn dispatch_payload(
    data: &Vec<u8>,
    pos: usize,
    cstart: usize,
    cend: usize,
    kend: usize,
    kind: String,
    children: Vec<Chunk>,
) -> (r: Result<(Chunk, usize), DotVoxError>)
    requires
        cstart == pos + 12,
        cstart <= cend <= kend <= data.len(),
        vstd::utf8::encode_utf8(kind@) == data@.subrange(pos as int, pos as int + 4),
    ensures
        (match r {
            Ok((c, p)) => spec_dispatch(
                data@,
                pos as int,
                cstart as int,
                cend as int,
                children.deep_view(),
                kend as int,
            ) == Ok::<(ChunkView, int), DotVoxError>((c.deep_view(), p as int)) && p == kend,
            Err(e) => spec_dispatch(
                data@,
                pos as int,
                cstart as int,
                cend as int,
                children.deep_view(),
                kend as int,
            ) == Err::<(ChunkView, int), DotVoxError>(e),
        }),
{
    let ghost kidsv = children.deep_view();
    let t0 = data[pos];
    let t1 = data[pos + 1];
    let t2 = data[pos + 2];
    let t3 = data[pos + 3];
    if t0 == 77 && t1 == 65 && t2 == 73 && t3 == 78 {  // MAIN
        proof {
            crate::types::lemma_main_view(children);
        }
        let c = Chunk::MAIN(children);
        Ok((c, kend))
    } else if t0 == 80 && t1 == 65 && t2 == 67 && t3 == 75 {  // PACK
        match parse_PACK(data, cstart, cend) {
            Err(e) => Err(e),
            Ok((v, _)) => Ok((Chunk::PACK(v), kend)),
        }
    } else if t0 == 83 && t1 == 73 && t2 == 90 && t3 == 69 {  // SIZE
        match parse_SIZE(data, cstart, cend) {
            Err(e) => Err(e),
            Ok((v, _)) => Ok((Chunk::SIZE(v), kend)),
        }
    } else if t0 == 88 && t1 == 89 && t2 == 90 && t3 == 73 {  // XYZI
        match parse_XYZI(data, cstart, cend) {
            Err(e) => Err(e),
            Ok((v, _)) => Ok((Chunk::XYZI(v), kend)),
        }
    } else if t0 == 82 && t1 == 71 && t2 == 66 && t3 == 65 {  // RGBA
        match parse_RGBA(data, cstart, cend) {
            Err(e) => Err(e),
            Ok((v, _)) => Ok((Chunk::RGBA(v), kend)),
        }
    } else if t0 == 77 && t1 == 65 && t2 == 84 && t3 == 84 {  // MATT
        match parse_MATT(data, cstart, cend) {
            Err(e) => Err(e),
            Ok((v, _)) => Ok((Chunk::MATT(v), kend)),
        }
    } else if t0 == 77 && t1 == 65 && t2 == 84 && t3 == 76 {  // MATL
        match parse_MATL(data, cstart, cend) {
            Err(e) => Err(e),
            Ok((v, _)) => Ok((Chunk::MATL(v), kend)),
        }
    } else if t0 == 114 && t1 == 79 && t2 == 66 && t3 == 74 {  // rOBJ
        match parse_rOBJ(data, cstart, cend) {
            Err(e) => Err(e),
            Ok((v, _)) => Ok((Chunk::rOBJ(v), kend)),
        }
    } else if t0 == 114 && t1 == 67 && t2 == 65 && t3 == 77 {  // rCAM
        match parse_rCAM(data, cstart, cend) {
            Err(e) => Err(e),
            Ok((v, _)) => Ok((Chunk::rCAM(v), kend)),
        }
    } else if t0 == 73 && t1 == 77 && t2 == 65 && t3 == 80 {  // IMAP
        match parse_IMAP(data, cstart, cend) {
            Err(e) => Err(e),
            Ok((v, _)) => {
                proof {
                    assert(v.deep_view() =~= v@);
                }
                Ok((Chunk::IMAP(v), kend))
            },
        }
    } else if t0 == 78 && t1 == 79 && t2 == 84 && t3 == 69 {  // NOTE
        match parse_NOTE(data, cstart, cend) {
            Err(e) => Err(e),
            Ok((v, _)) => Ok((Chunk::NOTE(v), kend)),
        }
    } else if t0 == 110 && t1 == 84 && t2 == 82 && t3 == 78 {  // nTRN
        match parse_nTRN(data, cstart, cend) {
            Err(e) => Err(e),
            Ok((v, _)) => Ok((Chunk::nTRN(v), kend)),
        }
    } else if t0 == 110 && t1 == 71 && t2 == 82 && t3 == 80 {  // nGRP
        match parse_nGRP(data, cstart, cend) {
            Err(e) => Err(e),
            Ok((v, _)) => Ok((Chunk::nGRP(v), kend)),
        }
    } else if t0 == 110 && t1 == 83 && t2 == 72 && t3 == 80 {  // nSHP
        match parse_nSHP(data, cstart, cend) {
            Err(e) => Err(e),
            Ok((v, _)) => Ok((Chunk::nSHP(v), kend)),
        }
    } else if t0 == 76 && t1 == 65 && t2 == 89 && t3 == 82 {  // LAYR
        match parse_LAYR(data, cstart, cend) {
            Err(e) => Err(e),
            Ok((v, _)) => Ok((Chunk::LAYR(v), kend)),
        }
    } else {
        let contents = copy_range(data, cstart, cend);
        proof {
            broadcast use vstd::utf8::encode_utf8_decode_utf8;

            assert(kind@ == decode_utf8(data@.subrange(pos as int, pos as int + 4)));
            crate::types::lemma_unknown_view(kind, contents, children);
        }
        let c = Chunk::Unknown { kind, contents, children };
        Ok((c, kend))
    }
}

/// Parses the chunk frame starting at `pos`.
///
/// On success the returned position is exactly
/// `pos + 12 + content + children` as declared in the header: the framing
/// invariant, for recognized and unknown tags alike.
#[verifier::rlimit(100)]
pub fn parse_chunk(data: &Vec<u8>, pos: usize, end: usize, depth: u32) -> (r: Result<
    (Chunk, usize),
    DotVoxError,
>)
    requires
        pos <= end <= data.len(),
    ensures
        (match r {
            Ok((c, p)) => spec_parse_chunk(data@, pos as int, end as int, depth as nat) == Ok::<
                (ChunkView, int),
                DotVoxError,
            >((c.deep_view(), p as int)) && pos + 12 <= p <= end && p == pos + 12 + spec_u32_at(
                data@,
                pos as int + 4,
            ) + spec_u32_at(data@, pos as int + 8),
            Err(e) => spec_parse_chunk(data@, pos as int, end as int, depth as nat) == Err::<
                (ChunkView, int),
                DotVoxError,
            >(e),
        }),
    decreases depth, end - pos, 0int,
{
    if end - pos < 12 {
        return Err(DotVoxError::Truncated { offset: pos });
    }
    let content = u32_at(data, pos + 4);
    let children_len = u32_at(data, pos + 8);
    let remaining = end - (pos + 12);
    if content as usize > remaining || children_len as usize > remaining - content as usize {
        proof {
            assert(pos as int + 12 + content as int + children_len as int > end as int);
        }
        return Err(DotVoxError::Truncated { offset: pos });
    }
    if depth == 0 {
        return Err(DotVoxError::DepthLimitExceeded);
    }
    let tag = copy_range(data, pos, pos + 4);
    let kind = match utf8_to_string(&tag) {
        Some(k) => k,
        None => {
            return Err(DotVoxError::InvalidString { offset: pos });
        },
    };
    let cstart = pos + 12;
    let cend = cstart + content as usize;
    let kend = cend + children_len as usize;
    let children: Vec<Chunk> = if children_len > 0 {
        match parse_chunk_list(data, cend, kend, depth - 1) {
            Ok(v) => v,
            Err(e) => {
                return Err(e);
            },
        }
    } else {
        Vec::new()
    };
    proof {
        if children_len == 0 {
            assert(children.deep_view() =~= Seq::<ChunkView>::empty());
        }
    }
    dispatch_payload(data, pos, cstart, cend, kend, kind, children)
}

/// Parses sibling chunk frames until `[pos, end)` is exactly exhausted.

pub fn parse_chunk_list(data: &Vec<u8>, pos: usize, end: usize, depth: u32) -> (r: Result<
    Vec<Chunk>,
    DotVoxError,
>)
    requires
        pos <= end <= data.len(),
    ensures
        (match r {
            Ok(cs) => spec_parse_chunks(data@, pos as int, end as int, depth as nat) == Ok::<
                Seq<ChunkView>,
                DotVoxError,
            >(cs.deep_view()),
            Err(e) => spec_parse_chunks(data@, pos as int, end as int, depth as nat) == Err::<
                Seq<ChunkView>,
                DotVoxError,
            >(e),
        }),
    decreases depth, end - pos, 1int,
{
    let mut out: Vec<Chunk> = Vec::new();
    let mut cur: usize = pos;
    while cur < end
        invariant
            pos <= cur <= end <= data.len(),
            (forall|rest: Seq<ChunkView>|
                spec_parse_chunks(data@, cur as int, end as int, depth as nat) == Ok::<
                    Seq<ChunkView>,
                    DotVoxError,
                >(rest) ==> spec_parse_chunks(data@, pos as int, end as int, depth as nat) == Ok::<
                    Seq<ChunkView>,
                    DotVoxError,
                >(out.deep_view() + rest)),
            (forall|e: DotVoxError|
                spec_parse_chunks(data@, cur as int, end as int, depth as nat) == Err::<
                    Seq<ChunkView>,
                    DotVoxError,
                >(e) ==> spec_parse_chunks(data@, pos as int, end as int, depth as nat) == Err::<
                    Seq<ChunkView>,
                    DotVoxError,
                >(e)),
        decreases end - cur,
    {
        let ghost prev = out.deep_view();
        let ghost prev_cur = cur as int;
        match parse_chunk(data, cur, end, depth) {
            Err(e) => {
                proof {
                    assert(spec_parse_chunks(data@, prev_cur, end as int, depth as nat) == Err::<
                        Seq<ChunkView>,
                        DotVoxError,
                    >(e));
                }
                return Err(e);
            },
            Ok((c, p2)) => {
                out.push(c);
                cur = p2;
                proof {
                    let cv = out[out.len() - 1].deep_view();
                    assert(out.deep_view() =~= prev.push(cv));
                    assert(spec_parse_chunks(data@, prev_cur, end as int, depth as nat) == (
                    match spec_parse_chunks(data@, cur as int, end as int, depth as nat) {
                        Err(e) => Err::<Seq<ChunkView>, DotVoxError>(e),
                        Ok(rest) => Ok::<Seq<ChunkView>, DotVoxError>(seq![cv] + rest),
                    }));
                    assert forall|rest: Seq<ChunkView>|
                        spec_parse_chunks(data@, cur as int, end as int, depth as nat) == Ok::<
                            Seq<ChunkView>,
                            DotVoxError,
                        >(rest) implies spec_parse_chunks(
                        data@,
                        pos as int,
                        end as int,
                        depth as nat,
                    ) == Ok::<Seq<ChunkView>, DotVoxError>(out.deep_view() + rest) by {
                        assert(spec_parse_chunks(data@, prev_cur, end as int, depth as nat) == Ok::<
                            Seq<ChunkView>,
                            DotVoxError,
                        >(seq![cv] + rest));
                        assert(prev + (seq![cv] + rest) =~= out.deep_view() + rest);
                    }
                }
            },
        }
    }
    proof {
        assert(spec_parse_chunks(data@, cur as int, end as int, depth as nat) == Ok::<
            Seq<ChunkView>,
            DotVoxError,
        >(Seq::empty()));
        assert(out.deep_view() + Seq::<ChunkView>::empty() =~= out.deep_view());
    }
    Ok(out)
}

/// One assembly step: how a single top-level chunk changes the document
/// under construction and the pending-size slot.
///
/// A `SIZE` overwrites the pending size; an `XYZI` with a pending size
/// completes a model (taking the next sequential id) and clears the slot,
/// while an unpaired `XYZI` is dropped; an `RGBA` replaces the palette
/// outright (last one wins); materials and scene-graph records append in
/// arrival order; `PACK`, `rOBJ`, `rCAM`, `IMAP`, `NOTE`, unknown chunks
/// and a nested `MAIN` change nothing.
pub open spec fn spec_assemble_step(f: VoxFileView, pending: Option<Size>, c: ChunkView) -> (
    VoxFileView,
    Option<Size>,
) {
    match c {
        ChunkView::SIZE(sz) => (f, Some(sz)),
        ChunkView::XYZI(vs) => match pending {
            Some(sz) => (
                VoxFileView {
                    models: f.models.push(
                        ModelView {
                            id: f.models.len() as u32,
                            size: sz,
                            voxels: vs,
                        },
                    ),
                    ..f
                },
                None,
            ),
            None => (f, None),
        },
        ChunkView::RGBA(cs) => (VoxFileView { palette: cs, ..f }, pending),
        ChunkView::MATT(m) => (
            VoxFileView { materials: f.materials.push(MaterialView::V1(m)), ..f },
            pending,
        ),
        ChunkView::MATL(m) => (
            VoxFileView { materials: f.materials.push(MaterialView::V2(m)), ..f },
            pending,
        ),
        ChunkView::nTRN(n) => (
            VoxFileView { scenegraph: f.scenegraph.push(SceneNodeView::Transform(n)), ..f },
            pending,
        ),
        ChunkView::nGRP(n) => (
            VoxFileView { scenegraph: f.scenegraph.push(SceneNodeView::Group(n)), ..f },
            pending,
        ),
        ChunkView::nSHP(n) => (
            VoxFileView { scenegraph: f.scenegraph.push(SceneNodeView::Shape(n)), ..f },
            pending,
        ),
        ChunkView::LAYR(l) => (
            VoxFileView { scenegraph: f.scenegraph.push(SceneNodeView::Layer(l)), ..f },
            pending,
        ),
        _ => (f, pending),
    }
}

/// Folds the top-level chunks `kids[i..]` into the document, starting
/// from `f` with `pending` in the pending-size slot.
pub open spec fn spec_assemble_from(
    kids: Seq<ChunkView>,
    i: int,
    f: VoxFileView,
    pending: Option<Size>,
) -> VoxFileView
    decreases kids.len() - i,
{
    if i < 0 || i >= kids.len() {
        f
    } else {
        let step = spec_assemble_step(f, pending, kids[i]);
        spec_assemble_from(kids, i + 1, step.0, step.1)
    }
}

/// The document assembled from the root container's children: a single
/// left-to-right pass starting from the empty default document, with
/// `version` taken from the file header.
pub open spec fn spec_assemble(kids: Seq<ChunkView>, version: u32) -> VoxFileView {
    spec_assemble_from(
        kids,
        0,
        (VoxFileView { version, ..spec_default_voxfile() }),
        None,
    )
}

/// A whole `.vox` buffer: the `VOX ` magic, a little-endian 32-bit
/// format version (carried into the document), then one root chunk which
/// must be the `MAIN` container; its children are folded into the
/// document.  Bytes after the root chunk's span are ignored.
pub open spec fn spec_parse_file(s: Seq<u8>) -> Result<VoxFileView, DotVoxError> {
    if s.len() < 4 || s[0] != 86 || s[1] != 79 || s[2] != 88 || s[3] != 32 {
        Err(DotVoxError::InvalidMagic)
    } else if s.len() < 8 {
        Err(DotVoxError::Truncated { offset: 4 })
    } else {
        match spec_parse_chunk(s, 8, s.len() as int, MAX_NESTING_DEPTH as nat) {
            Err(e) => Err(e),
            Ok((c, _)) => match c {
                ChunkView::MAIN(kids) => Ok(spec_assemble(kids, spec_u32_at(s, 4))),
                _ => Err(DotVoxError::NoMainChunk),
            },
        }
    }
}


/// Decodes a whole `.vox` buffer into a document.  The document's
/// `version` is the 32-bit value at offset 4 of the buffer.
#[verifier::rlimit(100)]
pub fn parse_file(data: &Vec<u8>) -> (r: Result<VoxFile, DotVoxError>)
    ensures
        (match r {
            Ok(f) => spec_parse_file(data@) == Ok::<VoxFileView, DotVoxError>(f.deep_view())
                && f.well_formed(),
            Err(e) => spec_parse_file(data@) == Err::<VoxFileView, DotVoxError>(e),
        }),
{
    if data.len() < 4 {
        return Err(DotVoxError::InvalidMagic);
    }
    if !(data[0] == 86 && data[1] == 79 && data[2] == 88 && data[3] == 32) {
        return Err(DotVoxError::InvalidMagic);
    }
    if data.len() < 8 {
        return Err(DotVoxError::Truncated { offset: 4 });
    }
    let version = u32_at(data, 4);
    let root = match parse_chunk(data, 8, data.len(), MAX_NESTING_DEPTH) {
        Ok(v) => v,
        Err(e) => {
            return Err(e);
        },
    };
    let ghost rootv = root.0.deep_view();
    let children = match root.0 {
        Chunk::MAIN(children) => {
            proof {
                crate::types::lemma_main_view(children);
                assert(rootv == ChunkView::MAIN(children.deep_view()));
            }
            children
        },
        _ => {
            proof {
                assert(!(rootv is MAIN));
            }
            return Err(DotVoxError::NoMainChunk);
        },
    };
    let ghost kids = children.deep_view();
    proof {
        assert(rootv == ChunkView::MAIN(kids));
        assert(spec_parse_file(data@) == Ok::<VoxFileView, DotVoxError>(
            spec_assemble(kids, version),
        ));
    }
    let mut file = VoxFile::default();
    file.version = version;
    proof {
        assert(file.deep_view() =~= (VoxFileView { version, ..spec_default_voxfile() }));
    }
    let mut pending: Option<Size> = None;
    let mut rem = children;
    while rem.len() > 0
        invariant
            rem.len() <= kids.len(),
            rem.deep_view() == kids.subrange(kids.len() - rem.len(), kids.len() as int),
            spec_assemble_from(kids, kids.len() - rem.len(), file.deep_view(), pending)
                == spec_assemble(kids, version),
        decreases rem.len(),
    {
        let ghost done = kids.len() - rem.len();
        let ghost prev_file = file.deep_view();
        let ghost prev_pending = pending;
        let ghost prev_rem = rem;
        let ghost prev_remv = rem.deep_view();
        let child = rem.remove(0);
        let ghost childv = child.deep_view();
        proof {
            crate::types::lemma_deep_view_remove_front(prev_rem, rem);
            assert(childv == prev_remv[0]);
            assert(childv == kids[done]);
            assert(rem.deep_view() =~= kids.subrange(kids.len() - rem.len(), kids.len() as int));
            assert(spec_assemble_from(kids, done, prev_file, prev_pending) == (
            spec_assemble_from(
                kids,
                done + 1,
                spec_assemble_step(prev_file, prev_pending, childv).0,
                spec_assemble_step(prev_file, prev_pending, childv).1,
            )));
        }
        match child {
            Chunk::SIZE(sz) => {
                pending = Some(sz);
                proof {
                    assert(file.deep_view() =~= spec_assemble_step(
                        prev_file,
                        prev_pending,
                        childv,
                    ).0);
                    assert(pending == spec_assemble_step(prev_file, prev_pending, childv).1);
                }
            },
            Chunk::XYZI(vs) => {
                let ghost vsv = vs.deep_view();
                match pending {
                    Some(sz) => {
                        let id: u32 = #[verifier::truncate] (file.models.len() as u32);
                        let ghost prev_models = file.models;
                        let model = Model { id, size: sz, voxels: vs };
                        let ghost modelg = model;
                        file.models.push(model);
                        pending = None;
                        proof {
                            crate::types::lemma_deep_view_push(prev_models, file.models, modelg);
                            assert(file.models.deep_view() == prev_models.deep_view().push(
                                ModelView { id, size: sz, voxels: vsv },
                            ));
                            assert(prev_pending == Some(sz));
                            assert(childv == ChunkView::XYZI(vsv));
                            assert(prev_file.models == prev_models.deep_view());
                            assert(id == prev_file.models.len() as u32);
                            assert(childv == ChunkView::XYZI(vsv));
                            assert(file.deep_view() =~= spec_assemble_step(
                                prev_file,
                                prev_pending,
                                childv,
                            ).0);
                            assert(pending == spec_assemble_step(
                                prev_file,
                                prev_pending,
                                childv,
                            ).1);
                        }
                    },
                    None => {
                        proof {
                            assert(file.deep_view() =~= spec_assemble_step(
                                prev_file,
                                prev_pending,
                                childv,
                            ).0);
                            assert(pending == spec_assemble_step(
                                prev_file,
                                prev_pending,
                                childv,
                            ).1);
                        }
                    },
                }
            },
            Chunk::RGBA(cs) => {
                let ghost csv = cs.deep_view();
                file.palette = cs;
                proof {
                    assert(childv == ChunkView::RGBA(csv));
                    assert(file.deep_view() =~= spec_assemble_step(
                        prev_file,
                        prev_pending,
                        childv,
                    ).0);
                    assert(pending == spec_assemble_step(prev_file, prev_pending, childv).1);
                }
            },
            Chunk::MATT(m) => {
                let ghost prev_mats = file.materials;
                file.materials.push(Material::V1(m));
                proof {
                    crate::types::lemma_deep_view_push(prev_mats, file.materials, Material::V1(m));
                    assert(file.materials.deep_view() == prev_mats.deep_view().push(
                        MaterialView::V1(m),
                    ));
                    assert(file.deep_view() =~= spec_assemble_step(
                        prev_file,
                        prev_pending,
                        childv,
                    ).0);
                    assert(pending == spec_assemble_step(prev_file, prev_pending, childv).1);
                }
            },
            Chunk::MATL(m) => {
                let ghost mv = m.deep_view();
                let ghost prev_mats = file.materials;
                let ghost mg = Material::V2(m);
                file.materials.push(Material::V2(m));
                proof {
                    crate::types::lemma_deep_view_push(prev_mats, file.materials, mg);
                    assert(file.materials.deep_view() == prev_mats.deep_view().push(
                        MaterialView::V2(mv),
                    ));
                    assert(childv == ChunkView::MATL(mv));
                    assert(file.deep_view() =~= spec_assemble_step(
                        prev_file,
                        prev_pending,
                        childv,
                    ).0);
                    assert(pending == spec_assemble_step(prev_file, prev_pending, childv).1);
                }
            },
            Chunk::nTRN(n) => {
                let ghost nv = n.deep_view();
                let ghost prev_sg = file.scenegraph;
                let ghost ng = SceneNode::Transform(n);
                file.scenegraph.push(SceneNode::Transform(n));
                proof {
                    crate::types::lemma_deep_view_push(prev_sg, file.scenegraph, ng);
                    assert(file.scenegraph.deep_view() == prev_sg.deep_view().push(
                        SceneNodeView::Transform(nv),
                    ));
                    assert(childv == ChunkView::nTRN(nv));
                    assert(file.deep_view() =~= spec_assemble_step(
                        prev_file,
                        prev_pending,
                        childv,
                    ).0);
                    assert(pending == spec_assemble_step(prev_file, prev_pending, childv).1);
                }
            },
            Chunk::nGRP(n) => {
                let ghost nv = n.deep_view();
                let ghost prev_sg = file.scenegraph;
                let ghost ng = SceneNode::Group(n);
                file.scenegraph.push(SceneNode::Group(n));
                proof {
                    crate::types::lemma_deep_view_push(prev_sg, file.scenegraph, ng);
                    assert(file.scenegraph.deep_view() == prev_sg.deep_view().push(
                        SceneNodeView::Group(nv),
                    ));
                    assert(childv == ChunkView::nGRP(nv));
                    assert(file.deep_view() =~= spec_assemble_step(
                        prev_file,
                        prev_pending,
                        childv,
                    ).0);
                    assert(pending == spec_assemble_step(prev_file, prev_pending, childv).1);
                }
            },
            Chunk::nSHP(n) => {
                let ghost nv = n.deep_view();
                let ghost prev_sg = file.scenegraph;
                let ghost ng = SceneNode::Shape(n);
                file.scenegraph.push(SceneNode::Shape(n));
                proof {
                    crate::types::lemma_deep_view_push(prev_sg, file.scenegraph, ng);
                    assert(file.scenegraph.deep_view() == prev_sg.deep_view().push(
                        SceneNodeView::Shape(nv),
                    ));
                    assert(childv == ChunkView::nSHP(nv));
                    assert(file.deep_view() =~= spec_assemble_step(
                        prev_file,
                        prev_pending,
                        childv,
                    ).0);
                    assert(pending == spec_assemble_step(prev_file, prev_pending, childv).1);
                }
            },
            Chunk::LAYR(l) => {
                let ghost lv = l.deep_view();
                let ghost prev_sg = file.scenegraph;
                let ghost lg = SceneNode::Layer(l);
                file.scenegraph.push(SceneNode::Layer(l));
                proof {
                    crate::types::lemma_deep_view_push(prev_sg, file.scenegraph, lg);
                    assert(file.scenegraph.deep_view() == prev_sg.deep_view().push(
                        SceneNodeView::Layer(lv),
                    ));
                    assert(childv == ChunkView::LAYR(lv));
                    assert(file.deep_view() =~= spec_assemble_step(
                        prev_file,
                        prev_pending,
                        childv,
                    ).0);
                    assert(pending == spec_assemble_step(prev_file, prev_pending, childv).1);
                }
            },
            _ => {
                proof {
                    assert(file.deep_view() =~= spec_assemble_step(
                        prev_file,
                        prev_pending,
                        childv,
                    ).0);
                    assert(pending == spec_assemble_step(prev_file, prev_pending, childv).1);
                }
            },
        }
    }
    proof {
        assert(spec_assemble_from(kids, kids.len() as int, file.deep_view(), pending)
            == file.deep_view());
        lemma_palette_always_256(data@);
        assert(file.palette.deep_view().len() == file.palette.len());
    }
    Ok(file)
}

/// An `RGBA` chunk view carries exactly 256 colors.
pub open spec fn rgba_len_ok(c: ChunkView) -> bool {
    c matches ChunkView::RGBA(cs) ==> cs.len() == 256
}

/// Any chunk the frame grammar accepts satisfies [`rgba_len_ok`]: an
/// `RGBA` payload is exactly 256 records by construction.
pub proof fn lemma_chunk_rgba_len(s: Seq<u8>, pos: int, end: int, depth: nat)
    ensures
        (spec_parse_chunk(s, pos, end, depth) matches Ok(r) ==> rgba_len_ok(r.0)),
{
}

/// Every chunk in a parsed chunk sequence satisfies [`rgba_len_ok`].
pub proof fn lemma_chunks_rgba_len(s: Seq<u8>, pos: int, end: int, depth: nat)
    ensures
        (spec_parse_chunks(s, pos, end, depth) matches Ok(kids) ==> forall|i: int|
            0 <= i < kids.len() ==> rgba_len_ok(#[trigger] kids[i])),
    decreases depth, end - pos, 1int,
{
    if pos >= end {
    } else if pos + 12 > end {
    } else {
        let content = spec_u32_at(s, pos + 4) as int;
        let children_len = spec_u32_at(s, pos + 8) as int;
        if pos + 12 + content + children_len > end {
        } else {
            lemma_chunk_rgba_len(s, pos, end, depth);
            lemma_chunks_rgba_len(s, pos + 12 + content + children_len, end, depth);
        }
    }
}

/// Folding chunks whose `RGBA` views all have 256 entries into a document
/// whose palette has 256 entries keeps the palette at 256 entries.
pub proof fn lemma_assemble_palette_len(
    kids: Seq<ChunkView>,
    i: int,
    f: VoxFileView,
    pending: Option<Size>,
)
    requires
        f.palette.len() == 256,
        forall|j: int| 0 <= j < kids.len() ==> rgba_len_ok(#[trigger] kids[j]),
    ensures
        spec_assemble_from(kids, i, f, pending).palette.len() == 256,
    decreases kids.len() - i,
{
    if i < 0 || i >= kids.len() {
    } else {
        let step = spec_assemble_step(f, pending, kids[i]);
        assert(rgba_len_ok(kids[i]));
        assert(step.0.palette.len() == 256);
        lemma_assemble_palette_len(kids, i + 1, step.0, step.1);
    }
}

/// The palette invariant: every document the decoder accepts has exactly
/// 256 palette entries, whether the file carried an `RGBA` chunk (always
/// 256 records) or kept the default table.
pub proof fn lemma_palette_always_256(s: Seq<u8>)
    ensures
        (spec_parse_file(s) matches Ok(f) ==> f.palette.len() == 256),
{
    if spec_parse_file(s) is Ok {
        let r = spec_parse_chunk(s, 8, s.len() as int, MAX_NESTING_DEPTH as nat);
        let c = r->Ok_0.0;
        let kids = c->MAIN_0;
        let content = spec_u32_at(s, 12int) as int;
        let children_len = spec_u32_at(s, 16int) as int;
        if children_len > 0 {
            lemma_chunks_rgba_len(
                s,
                8 + 12 + content,
                8 + 12 + content + children_len,
                (MAX_NESTING_DEPTH - 1) as nat,
            );
        }
        assert(forall|j: int| 0 <= j < kids.len() ==> rgba_len_ok(#[trigger] kids[j]));
        lemma_assemble_palette_len(
            kids,
            0,
            (VoxFileView { version: spec_u32_at(s, 4), ..spec_default_voxfile() }),
            None,
        );
    }
}

/// Models keep sequential identifiers while chunks are folded in: if the
/// models so far are numbered by their position, they still are after any
/// chunk is processed.
pub proof fn lemma_assemble_model_ids(
    kids: Seq<ChunkView>,
    i: int,
    f: VoxFileView,
    pending: Option<Size>,
)
    requires
        forall|j: int| 0 <= j < f.models.len() ==> (#[trigger] f.models[j]).id == j as u32,
    ensures
        forall|j: int|
            0 <= j < spec_assemble_from(kids, i, f, pending).models.len() ==> (
            #[trigger] spec_assemble_from(kids, i, f, pending).models[j]).id == j as u32,
    decreases kids.len() - i,
{
    if i < 0 || i >= kids.len() {
    } else {
        let step = spec_assemble_step(f, pending, kids[i]);
        assert(forall|j: int|
            0 <= j < step.0.models.len() ==> (#[trigger] step.0.models[j]).id == j as u32);
        lemma_assemble_model_ids(kids, i + 1, step.0, step.1);
        assert(spec_assemble_from(kids, i, f, pending) == spec_assemble_from(
            kids,
            i + 1,
            step.0,
            step.1,
        ));
    }
}

/// Model identifiers are assigned sequentially from 0, in the order the
/// size/voxel pairs complete during assembly.
pub proof fn lemma_model_ids_sequential(s: Seq<u8>)
    ensures
        (spec_parse_file(s) matches Ok(f) ==> forall|j: int|
            0 <= j < f.models.len() ==> (#[trigger] f.models[j]).id == j as u32),
{
    if spec_parse_file(s) is Ok {
        let r = spec_parse_chunk(s, 8, s.len() as int, MAX_NESTING_DEPTH as nat);
        let kids = r->Ok_0.0->MAIN_0;
        lemma_assemble_model_ids(
            kids,
            0,
            (VoxFileView { version: spec_u32_at(s, 4), ..spec_default_voxfile() }),
            None,
        );
    }
}

} // verus!
