//! Decode failures.
//!
//! Every failure is fatal to the decode in progress: the decoder offers no
//! resynchronization, so a caller that sees an error discards the decoder.

use vstd::prelude::*;

verus! {

/// The format family a reader expected when it met a tag byte that does not
/// belong to it.
#[derive(Clone, Copy, Debug, PartialEq, Eq, Structural)]
pub enum TagKind {
    Nil,
    Boolean,
    UnsignedInteger,
    SignedInteger,
    Float32,
    Float64,
    Text,
    SequenceLength,
    MapLength,
}

/// Why a decode failed.
#[derive(Clone, Copy, Debug, PartialEq, Eq, Structural)]
pub enum DecodeError {
    /// The byte source ran out in the middle of a value.
    UnexpectedEndOfStream,
    /// The tag byte `found` matches no pattern of the family being read.
    InvalidTag { expected: TagKind, found: u8 },
    /// String bytes are not well-formed text, or a decoded string cannot
    /// yield the character asked for.
    InvalidEncoding,
    /// A struct's declared field count (`fields`) disagrees with the length
    /// the wire map declares (`entries`).
    ArityMismatch { fields: usize, entries: usize },
    /// A decoded integer does not fit the requested narrower width.
    NumericOverflow,
    /// The operation (enum/variant decoding) is not part of this core.
    UnsupportedOperation,
}

} // verus!
