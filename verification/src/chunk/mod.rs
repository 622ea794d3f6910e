//! Chunk dispatcher: reads a frame buffer's 4-byte type tag and routes the
//! payload to the matching decoder.

use vstd::prelude::*;
use crate::err::PngError;

pub mod ihdr;

pub use ihdr::IHDR;

verus! {

/// Chunk marking the end of the chunk sequence; carries no payload.
#[derive(Debug, Clone, Copy, PartialEq, Eq, Structural)]
pub struct IEND;

/// A decoded chunk: one case per recognized chunk type.
#[derive(Debug, Clone, Copy, PartialEq, Eq, Structural)]
pub enum Chunk {
    Header(IHDR),
    End(IEND),
}

impl Chunk {
    /// Return the 4-character type-tag name of the chunk.
    pub fn name(&self) -> (r: &'static str)
        ensures
            self is Header ==> r@ == "IHDR"@,
            self is End ==> r@ == "IEND"@,
    {
        match *self {
            Chunk::Header(_) => "IHDR",
            Chunk::End(_) => "IEND",
        }
    }
}

/// Whether the four tag bytes at the front of `body` are ASCII text.
pub open spec fn tag_is_text(body: Seq<u8>) -> bool {
    body[0] < 0x80 && body[1] < 0x80 && body[2] < 0x80 && body[3] < 0x80
}

/// Whether `body` opens with the header tag "IHDR".
pub open spec fn is_ihdr_tag(body: Seq<u8>) -> bool {
    body[0] == 0x49 && body[1] == 0x48 && body[2] == 0x44 && body[3] == 0x52
}

/// Whether `body` opens with the end-marker tag "IEND".
pub open spec fn is_iend_tag(body: Seq<u8>) -> bool {
    body[0] == 0x49 && body[1] == 0x45 && body[2] == 0x4E && body[3] == 0x44
}

/// What dispatching a frame buffer (type tag followed by payload) yields:
/// the header tag routes the payload to the header decoder, the end-marker
/// tag always succeeds ignoring any payload, a malformed tag is a bad chunk,
/// and any other tag is the non-fatal unknown-chunk condition.
pub open spec fn decode_chunk(body: Seq<u8>) -> Result<Chunk, PngError> {
    if body.len() < 4 {
        Err(PngError::TruncatedInput)
    } else if !tag_is_text(body) {
        Err(PngError::BadChunk)
    } else if is_ihdr_tag(body) {
        match ihdr::ihdr_spec(body.skip(4)) {
            Ok(h) => Ok(Chunk::Header(h)),
            Err(e) => Err(e),
        }
    } else if is_iend_tag(body) {
        Ok(Chunk::End(IEND))
    } else {
        Err(PngError::UnknownChunk)
    }
}

/// Parse a frame buffer (type tag followed by payload) into a chunk.
pub fn parse(buf: &[u8]) -> (r: Result<Chunk, PngError>)
    ensures
        r == decode_chunk(buf@),
{
    if buf.len() < 4 {
        return Err(PngError::TruncatedInput);
    }
    let b0: u8 = buf[0];
    let b1: u8 = buf[1];
    let b2: u8 = buf[2];
    let b3: u8 = buf[3];
    if !(b0 < 0x80 && b1 < 0x80 && b2 < 0x80 && b3 < 0x80) {
        return Err(PngError::BadChunk);
    }
    if b0 == 0x49 && b1 == 0x48 && b2 == 0x44 && b3 == 0x52 {
        let payload = vstd::slice::slice_subrange(buf, 4, buf.len());
        assert(payload@ =~= buf@.skip(4));
        match ihdr::parse(payload) {
            Ok(h) => Ok(Chunk::Header(h)),
            Err(e) => Err(e),
        }
    } else if b0 == 0x49 && b1 == 0x45 && b2 == 0x4E && b3 == 0x44 {
        Ok(Chunk::End(IEND))
    } else {
        Err(PngError::UnknownChunk)
    }
}

} // verus!
