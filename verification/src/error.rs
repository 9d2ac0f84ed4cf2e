//! Terminal decoding errors. Malformed input is never recovered from: each
//! grammar surfaces the first failure it meets, and the dispatcher either
//! propagates it (extension-directed parse) or collapses all failures into
//! `UnknownFormat` (fallback probing).

use vstd::prelude::*;

verus! {

#[derive(Clone, Copy, Debug, PartialEq, Eq, Structural)]
pub enum ParseError {
    /// A declared length exceeds the bytes that remain.
    TruncatedInput,
    /// The text grammar met a token it cannot accept.
    UnexpectedToken,
    /// A binary chunk tag (or the file magic) differs from the tag
    /// expected at that position.
    UnexpectedChunkTag,
    /// The binary header's version number is not the supported one.
    UnsupportedVersion,
    /// A chunk that must not carry children declares some, or carries
    /// residual content bytes where none are allowed.
    NonEmptyLeafChunk,
    /// The binary archive declares room for zero models.
    EmptyPack,
    /// No grammar accepted the input and no extension directed the choice.
    UnknownFormat,
}

} // verus!
