//! Framing round trip: serializing a document chunk by chunk — recomputing
//! each frame's length and checksum — yields a byte stream that parses back
//! to the same document.

use vstd::prelude::*;
use crate::bytes::be32;
use crate::bytes::be32_bytes;
use crate::bytes::lemma_be32_bytes_of;
use crate::bytes::lemma_be32_first4;
use crate::bytes::lemma_be32_roundtrip;
use crate::chunk::Chunk;
use crate::chunk::decode_chunk;
use crate::chunk::is_ihdr_tag;
use crate::chunk::is_iend_tag;
use crate::chunk::ihdr::ColorType;
use crate::chunk::ihdr::IHDR;
use crate::chunk::ihdr::InterlaceMethod;
use crate::chunk::ihdr::allowed_depth;
use crate::chunk::ihdr::color_of;
use crate::chunk::ihdr::ihdr_spec;
use crate::chunk::ihdr::interlace_of;
use crate::crc::crc32;
use crate::err::PngError;
use crate::parse_chunks;
use crate::parse_spec;

verus! {

/// The fixed 8-byte signature as a byte sequence.
pub open spec fn sig_bytes() -> Seq<u8> {
    seq![0x89u8, 0x50u8, 0x4Eu8, 0x47u8, 0x0Du8, 0x0Au8, 0x1Au8, 0x0Au8]
}

/// The header tag "IHDR" as bytes.
pub open spec fn ihdr_tag_bytes() -> Seq<u8> {
    seq![0x49u8, 0x48u8, 0x44u8, 0x52u8]
}

/// The end-marker tag "IEND" as bytes.
pub open spec fn iend_tag_bytes() -> Seq<u8> {
    seq![0x49u8, 0x45u8, 0x4Eu8, 0x44u8]
}

/// The byte that encodes a color type.
pub open spec fn color_code(ct: ColorType) -> u8 {
    match ct {
        ColorType::Greyscale => 0,
        ColorType::TrueColor => 2,
        ColorType::IndexedColor => 3,
        ColorType::GreyscaleAlpha => 4,
        ColorType::TrueColorAlpha => 6,
    }
}

/// The byte that encodes an interlace method.
pub open spec fn interlace_code(im: InterlaceMethod) -> u8 {
    match im {
        InterlaceMethod::Standard => 0,
        InterlaceMethod::Adam7 => 1,
    }
}

/// The 13-byte payload that encodes a header chunk.
pub open spec fn encode_ihdr_payload(h: IHDR) -> Seq<u8> {
    be32_bytes(h.width) + be32_bytes(h.height) + seq![
        h.bit_depth,
        color_code(h.color_type),
        0u8,
        0u8,
        interlace_code(h.interlace),
    ]
}

/// The type tag followed by the payload of a chunk.
pub open spec fn chunk_body(c: Chunk) -> Seq<u8> {
    match c {
        Chunk::Header(h) => ihdr_tag_bytes() + encode_ihdr_payload(h),
        Chunk::End(_) => iend_tag_bytes(),
    }
}

/// The on-wire frame of a chunk: recomputed length, type tag, payload,
/// recomputed CRC-32 over the type+payload bytes.
pub open spec fn frame_bytes(c: Chunk) -> Seq<u8> {
    be32_bytes((chunk_body(c).len() - 4) as u32) + chunk_body(c) + be32_bytes(
        crc32(chunk_body(c)),
    )
}

/// The concatenated frames of a chunk sequence.
pub open spec fn serialize_chunks(cs: Seq<Chunk>) -> Seq<u8>
    decreases cs.len(),
{
    if cs.len() == 0 {
        Seq::empty()
    } else {
        frame_bytes(cs[0]) + serialize_chunks(cs.drop_first())
    }
}

/// The whole serialized document: signature, then the frames in order.
pub open spec fn serialize_doc(cs: Seq<Chunk>) -> Seq<u8> {
    sig_bytes() + serialize_chunks(cs)
}

/// A chunk value the format can hold: a header's fields satisfy the
/// decoder's semantic constraints; the end marker always qualifies.
pub open spec fn chunk_wf(c: Chunk) -> bool {
    match c {
        Chunk::Header(h) => h.width > 0 && h.height > 0 && allowed_depth(
            h.color_type,
            h.bit_depth,
        ),
        Chunk::End(_) => true,
    }
}

/// The color-code byte decodes back to the color type it encodes.
pub proof fn lemma_color_code_roundtrip(ct: ColorType)
    ensures
        color_of(color_code(ct)) == Some(ct),
{
}

/// The interlace-code byte decodes back to the method it encodes.
pub proof fn lemma_interlace_code_roundtrip(im: InterlaceMethod)
    ensures
        interlace_of(interlace_code(im)) == Some(im),
{
}

/// Decoding an encoded header payload yields the same header.
pub proof fn lemma_ihdr_roundtrip(h: IHDR)
    requires
        h.width > 0,
        h.height > 0,
        allowed_depth(h.color_type, h.bit_depth),
    ensures
        encode_ihdr_payload(h).len() == 13,
        ihdr_spec(encode_ihdr_payload(h)) == Ok::<IHDR, PngError>(h),
{
    let p = encode_ihdr_payload(h);
    lemma_be32_roundtrip(h.width);
    lemma_be32_roundtrip(h.height);
    assert(p.len() == 13);
    assert(p[0] == be32_bytes(h.width)[0]);
    assert(p[1] == be32_bytes(h.width)[1]);
    assert(p[2] == be32_bytes(h.width)[2]);
    assert(p[3] == be32_bytes(h.width)[3]);
    lemma_be32_first4(p, be32_bytes(h.width));
    let q = p.skip(4);
    assert(q[0] == be32_bytes(h.height)[0]);
    assert(q[1] == be32_bytes(h.height)[1]);
    assert(q[2] == be32_bytes(h.height)[2]);
    assert(q[3] == be32_bytes(h.height)[3]);
    lemma_be32_first4(q, be32_bytes(h.height));
    assert(p[8] == h.bit_depth);
    assert(p[9] == color_code(h.color_type));
    assert(p[10] == 0);
    assert(p[11] == 0);
    assert(p[12] == interlace_code(h.interlace));
    lemma_color_code_roundtrip(h.color_type);
    lemma_interlace_code_roundtrip(h.interlace);
}

/// Dispatching an encoded chunk body yields the same chunk.
pub proof fn lemma_chunk_roundtrip(c: Chunk)
    requires
        chunk_wf(c),
    ensures
        chunk_body(c).len() >= 4,
        chunk_body(c).len() < 0x100000000,
        decode_chunk(chunk_body(c)) == Ok::<Chunk, PngError>(c),
{
    let body = chunk_body(c);
    match c {
        Chunk::Header(h) => {
            lemma_ihdr_roundtrip(h);
            assert(body.len() == 17);
            assert(body[0] == 0x49);
            assert(body[1] == 0x48);
            assert(body[2] == 0x44);
            assert(body[3] == 0x52);
            assert(body.skip(4) =~= encode_ihdr_payload(h));
        },
        Chunk::End(_) => {
            assert(body.len() == 4);
            assert(body[0] == 0x49);
            assert(body[1] == 0x45);
            assert(body[2] == 0x4E);
            assert(body[3] == 0x44);
        },
    }
}

/// Parsing the concatenated frames of a chunk sequence yields that sequence.
pub proof fn lemma_parse_serialized_chunks(cs: Seq<Chunk>)
    requires
        forall|i: int| 0 <= i < cs.len() ==> chunk_wf(#[trigger] cs[i]),
    ensures
        parse_chunks(serialize_chunks(cs)) == Ok::<Seq<Chunk>, PngError>(cs),
    decreases cs.len(),
{
    if cs.len() == 0 {
        assert(serialize_chunks(cs).len() == 0);
        assert(cs =~= Seq::<Chunk>::empty());
    } else {
        let c = cs[0];
        assert(chunk_wf(c));
        lemma_chunk_roundtrip(c);
        let body = chunk_body(c);
        let plen = body.len() - 4;
        let plen32 = plen as u32;
        let frame = frame_bytes(c);
        let s = serialize_chunks(cs);
        let rest = serialize_chunks(cs.drop_first());
        assert(s == frame + rest);
        assert(frame.len() == 12 + plen);
        lemma_be32_roundtrip(plen32);
        lemma_be32_roundtrip(crc32(body));
        assert(s[0] == be32_bytes(plen32)[0]);
        assert(s[1] == be32_bytes(plen32)[1]);
        assert(s[2] == be32_bytes(plen32)[2]);
        assert(s[3] == be32_bytes(plen32)[3]);
        lemma_be32_first4(s, be32_bytes(plen32));
        assert(be32(s) == plen32);
        assert(s.len() >= 12 + plen);
        assert(s.subrange(4, 8 + plen) =~= body);
        let t = s.skip(8 + plen);
        assert(t[0] == be32_bytes(crc32(body))[0]);
        assert(t[1] == be32_bytes(crc32(body))[1]);
        assert(t[2] == be32_bytes(crc32(body))[2]);
        assert(t[3] == be32_bytes(crc32(body))[3]);
        lemma_be32_first4(t, be32_bytes(crc32(body)));
        assert(be32(t) == crc32(body));
        assert(s.skip(12 + plen) =~= rest);
        assert(forall|i: int|
            0 <= i < cs.drop_first().len() ==> chunk_wf(#[trigger] cs.drop_first()[i]));
        lemma_parse_serialized_chunks(cs.drop_first());
        assert(parse_chunks(s) == Ok::<Seq<Chunk>, PngError>(seq![c] + cs.drop_first()));
        assert(seq![c] + cs.drop_first() =~= cs);
    }
}

/// A byte whose color type decodes re-encodes to itself.
pub proof fn lemma_color_byte_roundtrip(b: u8)
    requires
        color_of(b) is Some,
    ensures
        color_code(color_of(b)->Some_0) == b,
{
}

/// A byte whose interlace method decodes re-encodes to itself.
pub proof fn lemma_interlace_byte_roundtrip(b: u8)
    requires
        interlace_of(b) is Some,
    ensures
        interlace_code(interlace_of(b)->Some_0) == b,
{
}

/// Re-encoding the header decoded from an exactly-13-byte payload yields
/// that payload back.
pub proof fn lemma_ihdr_reencode(p: Seq<u8>)
    requires
        p.len() == 13,
        ihdr_spec(p) is Ok,
    ensures
        encode_ihdr_payload(ihdr_spec(p)->Ok_0) =~= p,
{
    lemma_be32_bytes_of(p);
    lemma_be32_bytes_of(p.skip(4));
    lemma_color_byte_roundtrip(p[9]);
    lemma_interlace_byte_roundtrip(p[12]);
}

/// Re-encoding the chunk decoded from a frame body yields that body back,
/// when the body carries no spare payload bytes.
pub proof fn lemma_chunk_reencode(body: Seq<u8>)
    requires
        decode_chunk(body) is Ok,
        is_ihdr_tag(body) ==> body.len() == 17,
        is_iend_tag(body) ==> body.len() == 4,
    ensures
        chunk_body(decode_chunk(body)->Ok_0) =~= body,
{
    if is_ihdr_tag(body) {
        lemma_ihdr_reencode(body.skip(4));
    }
}

/// A chunk stream with canonical framing: every frame decodes to a
/// recognized chunk, a header frame's payload is exactly 13 bytes, an
/// end-marker frame's payload is empty, and the rest of the stream is
/// canonical in turn.
pub open spec fn canonical_frames(s: Seq<u8>) -> bool
    decreases s.len(),
{
    if s.len() == 0 {
        true
    } else if s.len() < 4 {
        false
    } else {
        let len = be32(s) as int;
        &&& s.len() >= 12 + len
        &&& decode_chunk(s.subrange(4, 8 + len)) is Ok
        &&& (is_ihdr_tag(s.subrange(4, 8 + len)) ==> len == 13)
        &&& (is_iend_tag(s.subrange(4, 8 + len)) ==> len == 0)
        &&& canonical_frames(s.skip(12 + len))
    }
}

/// Serializing the chunks parsed from a canonically framed stream
/// reproduces the stream byte for byte.
pub proof fn lemma_reserialize_frames(s: Seq<u8>)
    requires
        canonical_frames(s),
        parse_chunks(s) is Ok,
    ensures
        serialize_chunks(parse_chunks(s)->Ok_0) =~= s,
    decreases s.len(),
{
    if s.len() == 0 {
        assert(parse_chunks(s)->Ok_0 =~= Seq::<Chunk>::empty());
    } else {
        let len = be32(s) as int;
        let body = s.subrange(4, 8 + len);
        let c = decode_chunk(body)->Ok_0;
        assert(parse_chunks(s.skip(12 + len)) is Ok);
        let rest = parse_chunks(s.skip(12 + len))->Ok_0;
        assert(parse_chunks(s) == Ok::<Seq<Chunk>, PngError>(seq![c] + rest));
        lemma_chunk_reencode(body);
        assert(chunk_body(c) == body);
        assert(body.len() == 4 + len);
        lemma_reserialize_frames(s.skip(12 + len));
        let cs = parse_chunks(s)->Ok_0;
        assert(cs[0] == c);
        assert(cs.drop_first() =~= rest);
        assert(serialize_chunks(cs) == frame_bytes(c) + serialize_chunks(cs.drop_first()));
        lemma_be32_bytes_of(s);
        assert(be32(s.skip(8 + len)) == crc32(body));
        lemma_be32_bytes_of(s.skip(8 + len));
        assert((chunk_body(c).len() - 4) as u32 == be32(s));
        assert(serialize_chunks(cs) =~= s);
    }
}

/// The other direction of the framing round trip: re-serializing a parsed
/// document — recomputing each frame's length and checksum — reproduces the
/// original input byte for byte, for any input with canonical framing. An
/// input with a skipped unrecognized frame, or with spare payload bytes in a
/// recognized frame, is not reproduced: the document does not retain what
/// the parser discarded.
pub proof fn lemma_reserialize_doc(s: Seq<u8>)
    requires
        parse_spec(s) is Ok,
        canonical_frames(s.skip(8)),
    ensures
        serialize_doc(parse_spec(s)->Ok_0) =~= s,
{
    lemma_reserialize_frames(s.skip(8));
}

/// Round trip of framing: any document of well-formed chunks, re-serialized
/// by recomputing each frame's length and checksum and concatenating the
/// frames after the signature, parses back to exactly that document.
pub proof fn lemma_serialize_parse_roundtrip(cs: Seq<Chunk>)
    requires
        forall|i: int| 0 <= i < cs.len() ==> chunk_wf(#[trigger] cs[i]),
    ensures
        parse_spec(serialize_doc(cs)) == Ok::<Seq<Chunk>, PngError>(cs),
{
    let d = serialize_doc(cs);
    assert(d.len() >= 8);
    assert(d[0] == 0x89);
    assert(d[1] == 0x50);
    assert(d[2] == 0x4E);
    assert(d[3] == 0x47);
    assert(d[4] == 0x0D);
    assert(d[5] == 0x0A);
    assert(d[6] == 0x1A);
    assert(d[7] == 0x0A);
    assert(d.skip(8) =~= serialize_chunks(cs));
    lemma_parse_serialized_chunks(cs);
}

} // verus!
