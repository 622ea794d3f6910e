//! Error kinds used when parsing.

use vstd::prelude::*;

verus! {

/// Errors used when parsing.
///
/// `UnknownChunk` is the one non-fatal kind: a well-checksummed frame with an
/// unrecognized type tag is skipped. Every other kind aborts the whole parse.
#[derive(Debug, Clone, Copy, PartialEq, Eq, Structural)]
pub enum PngError {
    /// A frame's stored checksum disagrees with the CRC-32 of its type+payload.
    BadChecksum,
    /// The first eight bytes are not the fixed signature.
    BadHeader,
    /// A frame's type tag is not among the recognized set.
    UnknownChunk,
    /// A recognized chunk's payload violates a semantic constraint.
    BadChunk,
    /// Fewer bytes were available than a declared field requires.
    TruncatedInput,
}

impl PngError {
    /// Return a human-readable message for the error.
    pub fn msg(&self) -> (r: &'static str)
        ensures
            match self {
                PngError::BadChecksum => r@ == "Bad checksum"@,
                PngError::BadHeader => r@ == "Bad header"@,
                PngError::UnknownChunk => r@ == "Unknown chunk type"@,
                PngError::BadChunk => r@ == "Malformed chunk"@,
                PngError::TruncatedInput => r@ == "Truncated input"@,
            },
    {
        match *self {
            PngError::BadChecksum => "Bad checksum",
            PngError::BadHeader => "Bad header",
            PngError::UnknownChunk => "Unknown chunk type",
            PngError::BadChunk => "Malformed chunk",
            PngError::TruncatedInput => "Truncated input",
        }
    }
}

} // verus!
