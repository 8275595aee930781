//! The errors that parsing, rendering and lookup can report.

use vstd::prelude::*;

verus! {

/// Everything that can go wrong while building, parsing or editing a
/// container.
#[derive(Clone, Copy, Debug, PartialEq, Eq, Structural)]
pub enum PngError {
    /// A type tag was built from text that is not exactly four characters.
    InvalidLength,
    /// A buffer holds fewer bytes than a length field or the chunk layout
    /// declares.
    Truncated,
    /// A chunk's type bytes were rejected; any four bytes are structurally
    /// accepted, so this is reserved for future tightening and never returned.
    InvalidChunkType,
    /// A container buffer does not begin with the fixed signature.
    BadSignature,
    /// No chunk with the requested type text exists in the container.
    ChunkNotFound,
    /// A chunk with an empty payload cannot be rendered as text.
    EmptyPayload,
}

impl PngError {
    /// The short human-readable account of the error.
    pub open spec fn spec_message(self) -> Seq<char> {
        match self {
            PngError::InvalidLength => "chunk type text must be exactly 4 characters"@,
            PngError::Truncated => "not enough bytes for the declared layout"@,
            PngError::InvalidChunkType => "malformed chunk type bytes"@,
            PngError::BadSignature => "buffer does not start with the container signature"@,
            PngError::ChunkNotFound => "no chunk with the requested type"@,
            PngError::EmptyPayload => "chunk has no payload to show"@,
        }
    }

    /// A short human-readable account of the error.
    pub fn message(&self) -> (r: &'static str)
        ensures
            r@ == self.spec_message(),
    {
        match self {
            PngError::InvalidLength => "chunk type text must be exactly 4 characters",
            PngError::Truncated => "not enough bytes for the declared layout",
            PngError::InvalidChunkType => "malformed chunk type bytes",
            PngError::BadSignature => "buffer does not start with the container signature",
            PngError::ChunkNotFound => "no chunk with the requested type",
            PngError::EmptyPayload => "chunk has no payload to show",
        }
    }
}

} // verus!
