//! Parser for a binary image-container format: a fixed 8-byte signature
//! followed by length-prefixed, CRC-32-checksummed chunks.

use vstd::prelude::*;

pub mod bytes;
pub mod chunk;
pub mod crc;
pub mod err;
pub mod roundtrip;

use crate::bytes::be32;
use crate::chunk::Chunk;
use crate::chunk::decode_chunk;
use crate::crc::crc32;
use crate::err::PngError;

verus! {

/// Whether `s` opens with the fixed 8-byte signature
/// `89 50 4E 47 0D 0A 1A 0A`.
pub open spec fn sig_matches(s: Seq<u8>) -> bool {
    &&& s[0] == 0x89
    &&& s[1] == 0x50
    &&& s[2] == 0x4E
    &&& s[3] == 0x47
    &&& s[4] == 0x0D
    &&& s[5] == 0x0A
    &&& s[6] == 0x1A
    &&& s[7] == 0x0A
}

/// What reading frames from `s` until end-of-stream yields: each frame is
/// `length | type+payload | checksum`; the checksum is verified over the
/// exact type+payload bytes before any semantic decoding of them; a frame
/// with an unrecognized tag is skipped; end-of-stream at a frame boundary
/// terminates normally, anything shorter than a declared field is a
/// truncation.
pub open spec fn parse_chunks(s: Seq<u8>) -> Result<Seq<Chunk>, PngError>
    decreases s.len(),
{
    if s.len() == 0 {
        Ok(Seq::empty())
    } else if s.len() < 4 {
        Err(PngError::TruncatedInput)
    } else {
        let len = be32(s) as int;
        if s.len() < 12 + len {
            Err(PngError::TruncatedInput)
        } else {
            let body = s.subrange(4, 8 + len);
            let stored = be32(s.skip(8 + len));
            if stored != crc32(body) {
                Err(PngError::BadChecksum)
            } else {
                match decode_chunk(body) {
                    Ok(c) => match parse_chunks(s.skip(12 + len)) {
                        Ok(rest) => Ok(seq![c] + rest),
                        Err(e) => Err(e),
                    },
                    Err(e) => if e == PngError::UnknownChunk {
                        parse_chunks(s.skip(12 + len))
                    } else {
                        Err(e)
                    },
                }
            }
        }
    }
}

/// What parsing a whole input yields: the signature is checked byte for
/// byte, then the chunk frames follow.
pub open spec fn parse_spec(s: Seq<u8>) -> Result<Seq<Chunk>, PngError> {
    if s.len() < 8 {
        Err(PngError::TruncatedInput)
    } else if !sig_matches(s) {
        Err(PngError::BadHeader)
    } else {
        parse_chunks(s.skip(8))
    }
}

/// An input whose first eight bytes differ from the fixed signature fails
/// with the bad-header error before any chunk is read.
pub proof fn lemma_bad_signature_rejected(s: Seq<u8>)
    requires
        s.len() >= 8,
        !sig_matches(s),
    ensures
        parse_spec(s) == Err::<Seq<Chunk>, PngError>(PngError::BadHeader),
{
}

/// A frame whose trailing four bytes differ from the CRC-32 of its
/// type+payload fails with the bad-checksum error, whatever the payload
/// holds: its semantic decoding is never consulted. Stated of the frame at
/// the front of a chunk stream; every frame is at the front of the suffix
/// that `parse_chunks` reaches it on.
pub proof fn lemma_checksum_mismatch_rejected(s: Seq<u8>)
    requires
        4 <= s.len(),
        12 + be32(s) <= s.len(),
        be32(s.skip(8 + be32(s) as int)) != crc32(s.subrange(4, 8 + be32(s) as int)),
    ensures
        parse_chunks(s) == Err::<Seq<Chunk>, PngError>(PngError::BadChecksum),
{
}

/// A well-checksummed frame with an unrecognized type tag does not abort the
/// parse and contributes no chunk: the result is that of the rest of the
/// stream.
pub proof fn lemma_unknown_chunk_skipped(s: Seq<u8>)
    requires
        4 <= s.len(),
        12 + be32(s) <= s.len(),
        be32(s.skip(8 + be32(s) as int)) == crc32(s.subrange(4, 8 + be32(s) as int)),
        decode_chunk(s.subrange(4, 8 + be32(s) as int)) == Err::<Chunk, PngError>(
            PngError::UnknownChunk,
        ),
    ensures
        parse_chunks(s) == parse_chunks(s.skip(12 + be32(s) as int)),
{
}

/// The parsed result: an ordered sequence of decoded chunks, in file order.
pub struct Png {
    pub chunks: Vec<Chunk>,
}

/// Parse an image container from a byte span.
///
/// On success the document holds the recognized chunks in file order; on any
/// fatal condition the error kind identifies the first violated check.
pub fn parse(data: &[u8]) -> (r: Result<Png, PngError>)
    ensures
        match r {
            Ok(p) => parse_spec(data@) == Ok::<Seq<Chunk>, PngError>(p.chunks@),
            Err(e) => parse_spec(data@) == Err::<Seq<Chunk>, PngError>(e),
        },
{
    if data.len() < 8 {
        return Err(PngError::TruncatedInput);
    }
    if !(data[0] == 0x89 && data[1] == 0x50 && data[2] == 0x4E && data[3] == 0x47 && data[4]
        == 0x0D && data[5] == 0x0A && data[6] == 0x1A && data[7] == 0x0A) {
        return Err(PngError::BadHeader);
    }
    let chunk_crc = crc::new();
    let mut chunks: Vec<Chunk> = Vec::new();
    let mut pos: usize = 8;
    while pos < data.len()
        invariant
            8 <= pos <= data@.len(),
            sig_matches(data@),
            chunk_crc.wf(),
            parse_chunks(data@.skip(8)) == match parse_chunks(data@.skip(pos as int)) {
                Ok(rest) => Ok::<Seq<Chunk>, PngError>(chunks@ + rest),
                Err(e) => Err::<Seq<Chunk>, PngError>(e),
            },
        decreases data@.len() - pos,
    {
        let ghost s = data@.skip(pos as int);
        let remaining: usize = data.len() - pos;
        if remaining < 4 {
            return Err(PngError::TruncatedInput);
        }
        let len32: u32 = bytes::read_be_u32(data, pos);
        if (remaining as u64) < 12u64 + (len32 as u64) {
            return Err(PngError::TruncatedInput);
        }
        let len: usize = len32 as usize;
        let body = vstd::slice::slice_subrange(data, pos + 4, pos + 8 + len);
        proof {
            assert(body@ =~= s.subrange(4, 8 + len32 as int));
            assert(data@.skip(pos as int + 8 + len32 as int) =~= s.skip(8 + len32 as int));
        }
        let stored: u32 = bytes::read_be_u32(data, pos + 8 + len);
        if chunk_crc.checksum(body) != stored {
            return Err(PngError::BadChecksum);
        }
        let ghost prev_chunks = chunks@;
        match chunk::parse(body) {
            Ok(c) => {
                chunks.push(c);
            },
            Err(PngError::UnknownChunk) => {},
            Err(e) => {
                return Err(e);
            },
        }
        pos = pos + 12 + len;
        proof {
            assert(data@.skip(pos as int) =~= s.skip(12 + len32 as int));
            let tail = parse_chunks(data@.skip(pos as int));
            if tail is Ok {
                if decode_chunk(body@) is Ok {
                    let c = decode_chunk(body@)->Ok_0;
                    assert(parse_chunks(s) == Ok::<Seq<Chunk>, PngError>(
                        seq![c] + tail->Ok_0,
                    ));
                    assert(prev_chunks + (seq![c] + tail->Ok_0) =~= chunks@ + tail->Ok_0);
                } else {
                    assert(parse_chunks(s) == tail);
                    assert(prev_chunks + tail->Ok_0 =~= chunks@ + tail->Ok_0);
                }
            }
        }
    }
    proof {
        assert(data@.skip(data@.len() as int) =~= Seq::<u8>::empty());
        assert(chunks@ + Seq::<Chunk>::empty() =~= chunks@);
    }
    Ok(Png { chunks })
}

} // verus!
