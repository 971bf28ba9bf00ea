//! The unified failure type of the decoder.

use vstd::prelude::*;

verus! {

/// Everything that can go wrong while decoding a `.vox` buffer.
///
/// Every failure aborts the whole decode; no partial document is ever
/// returned.  The byte offsets carried by the structural variants point at
/// the start of the item whose bytes were missing or malformed, so a caller
/// can diagnose where in the buffer the decode stopped.
#[derive(Clone, Debug, PartialEq, Eq)]
pub enum DotVoxError {
    /// The leading 4 bytes are not the expected `VOX ` marker.
    InvalidMagic,
    /// A declared length exceeds the remaining bytes, or a header is
    /// incomplete.  `offset` is the position of the item being read.
    Truncated { offset: usize },
    /// A length-prefixed string (or a chunk tag) is not valid UTF-8.
    /// `offset` is the position of the string's length prefix, or of the
    /// chunk header for a tag.
    InvalidString { offset: usize },
    /// The single top-level chunk is not the `MAIN` container.
    NoMainChunk,
    /// The chunk tree nests deeper than the decoder's fixed limit.
    DepthLimitExceeded,
    /// An upstream I/O failure, surfaced unchanged by the caller that read
    /// the bytes.  The decoder itself never produces this variant.
    Io { message: String },
}

/// The outcome of a decoding step.
pub type DotVoxResult<T> = Result<T, DotVoxError>;

} // verus!
