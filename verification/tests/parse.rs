use png::chunk;
use png::chunk::Chunk;
use png::chunk::ihdr;
use png::chunk::ihdr::ColorType;
use png::chunk::ihdr::InterlaceMethod;
use png::crc;
use png::err::PngError;

const SIG: [u8; 8] = [0x89, 0x50, 0x4E, 0x47, 0x0D, 0x0A, 0x1A, 0x0A];

fn be32(v: u32) -> [u8; 4] {
    [(v >> 24) as u8, (v >> 16) as u8, (v >> 8) as u8, v as u8]
}

fn frame(tag: &[u8], payload: &[u8]) -> Vec<u8> {
    let mut body: Vec<u8> = Vec::new();
    body.extend_from_slice(tag);
    body.extend_from_slice(payload);
    let sum = crc::new().checksum(&body);
    let mut out: Vec<u8> = Vec::new();
    out.extend_from_slice(&be32(payload.len() as u32));
    out.extend_from_slice(&body);
    out.extend_from_slice(&be32(sum));
    out
}

fn ihdr_payload(width: u32, height: u32, depth: u8, color: u8, comp: u8, filt: u8, inter: u8) -> Vec<u8> {
    let mut p: Vec<u8> = Vec::new();
    p.extend_from_slice(&be32(width));
    p.extend_from_slice(&be32(height));
    p.push(depth);
    p.push(color);
    p.push(comp);
    p.push(filt);
    p.push(inter);
    p
}

fn valid_stream() -> Vec<u8> {
    let mut data: Vec<u8> = Vec::new();
    data.extend_from_slice(&SIG);
    data.extend_from_slice(&frame(b"IHDR", &ihdr_payload(1, 1, 8, 2, 0, 0, 0)));
    data.extend_from_slice(&frame(b"IEND", &[]));
    data
}

#[test]
fn simple() {
    let crc = crc::new();
    let checksum = crc.checksum(b"123456789");
    assert_eq!(checksum, 0xCBF43926);
}

#[test]
fn checksum_reproducible_across_tables() {
    let a = crc::new();
    let b = crc::new();
    let data = b"the quick brown fox jumps over the lazy dog";
    assert_eq!(a.checksum(data), b.checksum(data));
    assert_eq!(a.checksum(data), a.checksum(data));
}

#[test]
fn checksum_empty_span() {
    assert_eq!(crc::new().checksum(&[]), 0x00000000);
}

#[test]
fn empty_input_truncated() {
    assert!(matches!(png::parse(&[]), Err(PngError::TruncatedInput)));
}

#[test]
fn short_signature_truncated() {
    assert!(matches!(png::parse(&SIG[..5]), Err(PngError::TruncatedInput)));
}

#[test]
fn bad_signature_rejected() {
    let mut data = valid_stream();
    data[0] = 0x88;
    assert!(matches!(png::parse(&data), Err(PngError::BadHeader)));
}

#[test]
fn signature_alone_is_empty_document() {
    let doc = png::parse(&SIG).expect("bare signature should parse");
    assert_eq!(doc.chunks.len(), 0);
}

#[test]
fn end_to_end_two_chunks() {
    let data = valid_stream();
    let doc = png::parse(&data).expect("valid stream should parse");
    assert_eq!(doc.chunks.len(), 2);
    assert_eq!(doc.chunks[0].name(), "IHDR");
    assert_eq!(doc.chunks[1].name(), "IEND");
    match doc.chunks[0] {
        Chunk::Header(h) => {
            assert_eq!(h.width, 1);
            assert_eq!(h.height, 1);
            assert_eq!(h.bit_depth, 8);
            assert_eq!(h.color_type, ColorType::TrueColor);
            assert_eq!(h.interlace, InterlaceMethod::Standard);
        }
        _ => panic!("first chunk should be the header"),
    }
    assert!(matches!(doc.chunks[1], Chunk::End(_)));
}

#[test]
fn corrupted_checksum_aborts_parse() {
    let mut data = valid_stream();
    // Flip one bit of the IHDR frame's stored checksum (its last byte).
    let ihdr_frame_len = 4 + 4 + 13 + 4;
    let crc_last = 8 + ihdr_frame_len - 1;
    data[crc_last] ^= 0x01;
    assert!(matches!(png::parse(&data), Err(PngError::BadChecksum)));
}

#[test]
fn checksum_verified_before_decoding() {
    // A frame that would fail semantic decoding (zero width) but whose
    // checksum is also wrong must report the checksum error.
    let mut data: Vec<u8> = Vec::new();
    data.extend_from_slice(&SIG);
    let mut f = frame(b"IHDR", &ihdr_payload(0, 1, 8, 2, 0, 0, 0));
    let last = f.len() - 1;
    f[last] ^= 0xFF;
    data.extend_from_slice(&f);
    assert!(matches!(png::parse(&data), Err(PngError::BadChecksum)));
}

#[test]
fn unknown_chunk_skipped() {
    let mut data: Vec<u8> = Vec::new();
    data.extend_from_slice(&SIG);
    data.extend_from_slice(&frame(b"tEXt", b"comment"));
    data.extend_from_slice(&frame(b"IHDR", &ihdr_payload(1, 1, 8, 2, 0, 0, 0)));
    data.extend_from_slice(&frame(b"IEND", &[]));
    let doc = png::parse(&data).expect("unknown chunk must not abort the parse");
    assert_eq!(doc.chunks.len(), 2);
    assert_eq!(doc.chunks[0].name(), "IHDR");
    assert_eq!(doc.chunks[1].name(), "IEND");
}

#[test]
fn invalid_known_chunk_is_fatal() {
    let mut data: Vec<u8> = Vec::new();
    data.extend_from_slice(&SIG);
    data.extend_from_slice(&frame(b"IHDR", &ihdr_payload(0, 1, 8, 2, 0, 0, 0)));
    data.extend_from_slice(&frame(b"IEND", &[]));
    assert!(matches!(png::parse(&data), Err(PngError::BadChunk)));
}

#[test]
fn declared_length_past_end_truncated() {
    let mut data: Vec<u8> = Vec::new();
    data.extend_from_slice(&SIG);
    data.extend_from_slice(&be32(100));
    data.extend_from_slice(b"IEND");
    assert!(matches!(png::parse(&data), Err(PngError::TruncatedInput)));
}

#[test]
fn trailing_bytes_truncated() {
    let mut data = valid_stream();
    data.extend_from_slice(&[0x00, 0x01]);
    assert!(matches!(png::parse(&data), Err(PngError::TruncatedInput)));
}

#[test]
fn reserialized_document_is_byte_identical() {
    // Re-serialize the parsed document by recomputing each frame's length
    // and checksum; the framing must reproduce the input exactly.
    let data = valid_stream();
    let doc = png::parse(&data).expect("valid stream should parse");
    let mut out: Vec<u8> = Vec::new();
    out.extend_from_slice(&SIG);
    for c in &doc.chunks {
        match c {
            Chunk::Header(h) => {
                let color = match h.color_type {
                    ColorType::Greyscale => 0,
                    ColorType::TrueColor => 2,
                    ColorType::IndexedColor => 3,
                    ColorType::GreyscaleAlpha => 4,
                    ColorType::TrueColorAlpha => 6,
                };
                let inter = match h.interlace {
                    InterlaceMethod::Standard => 0,
                    InterlaceMethod::Adam7 => 1,
                };
                let payload = ihdr_payload(h.width, h.height, h.bit_depth, color, 0, 0, inter);
                out.extend_from_slice(&frame(b"IHDR", &payload));
            }
            Chunk::End(_) => out.extend_from_slice(&frame(b"IEND", &[])),
        }
    }
    assert_eq!(out, data);
}

#[test]
fn dispatcher_unknown_tag() {
    assert!(matches!(chunk::parse(b"tEXtdata"), Err(PngError::UnknownChunk)));
}

#[test]
fn dispatcher_iend_ignores_payload() {
    let c = chunk::parse(b"IENDxyz").expect("end marker should decode");
    assert!(matches!(c, Chunk::End(_)));
    assert_eq!(c.name(), "IEND");
}

#[test]
fn dispatcher_non_ascii_tag_rejected() {
    assert!(matches!(chunk::parse(&[0x80, 0x41, 0x42, 0x43]), Err(PngError::BadChunk)));
}

#[test]
fn dispatcher_short_buffer_truncated() {
    assert!(matches!(chunk::parse(&[0x49, 0x48]), Err(PngError::TruncatedInput)));
}

#[test]
fn zero_width_rejected() {
    let p = ihdr_payload(0, 1, 8, 2, 0, 0, 0);
    assert!(matches!(ihdr::parse(&p), Err(PngError::BadChunk)));
}

#[test]
fn zero_height_rejected() {
    let p = ihdr_payload(1, 0, 8, 2, 0, 0, 0);
    assert!(matches!(ihdr::parse(&p), Err(PngError::BadChunk)));
}

#[test]
fn truecolor_depth_four_rejected() {
    let p = ihdr_payload(1, 1, 4, 2, 0, 0, 0);
    assert!(matches!(ihdr::parse(&p), Err(PngError::BadChunk)));
}

#[test]
fn greyscale_depth_one_accepted() {
    let p = ihdr_payload(1, 1, 1, 0, 0, 0, 0);
    let h = ihdr::parse(&p).expect("greyscale with depth 1 is valid");
    assert_eq!(h.bit_depth, 1);
    assert_eq!(h.color_type, ColorType::Greyscale);
}

#[test]
fn unknown_color_code_rejected() {
    let p = ihdr_payload(1, 1, 8, 5, 0, 0, 0);
    assert!(matches!(ihdr::parse(&p), Err(PngError::BadChunk)));
}

#[test]
fn nonzero_compression_rejected() {
    let p = ihdr_payload(1, 1, 8, 2, 1, 0, 0);
    assert!(matches!(ihdr::parse(&p), Err(PngError::BadChunk)));
}

#[test]
fn nonzero_filter_rejected() {
    let p = ihdr_payload(1, 1, 8, 2, 0, 1, 0);
    assert!(matches!(ihdr::parse(&p), Err(PngError::BadChunk)));
}

#[test]
fn interlace_two_rejected() {
    let p = ihdr_payload(1, 1, 8, 2, 0, 0, 2);
    assert!(matches!(ihdr::parse(&p), Err(PngError::BadChunk)));
}

#[test]
fn adam7_interlace_accepted() {
    let p = ihdr_payload(640, 480, 16, 6, 0, 0, 1);
    let h = ihdr::parse(&p).expect("true-color-alpha with depth 16 is valid");
    assert_eq!(h.width, 640);
    assert_eq!(h.height, 480);
    assert_eq!(h.color_type, ColorType::TrueColorAlpha);
    assert_eq!(h.interlace, InterlaceMethod::Adam7);
}

#[test]
fn truncated_ihdr_payload() {
    let p = ihdr_payload(1, 1, 8, 2, 0, 0, 0);
    assert!(matches!(ihdr::parse(&p[..12]), Err(PngError::TruncatedInput)));
    assert!(matches!(ihdr::parse(&p[..4]), Err(PngError::TruncatedInput)));
    assert!(matches!(ihdr::parse(&[]), Err(PngError::TruncatedInput)));
}

#[test]
fn ihdr_extra_payload_bytes_ignored() {
    let mut p = ihdr_payload(2, 3, 8, 0, 0, 0, 0);
    p.push(0xAB);
    let h = ihdr::parse(&p).expect("extra trailing payload bytes are ignored");
    assert_eq!(h.width, 2);
    assert_eq!(h.height, 3);
}

#[test]
fn color_allowed_table() {
    assert!(ColorType::Greyscale.allowed(16));
    assert!(!ColorType::Greyscale.allowed(3));
    assert!(ColorType::IndexedColor.allowed(4));
    assert!(!ColorType::IndexedColor.allowed(16));
    assert!(ColorType::GreyscaleAlpha.allowed(8));
    assert!(!ColorType::GreyscaleAlpha.allowed(4));
    assert!(!ColorType::TrueColorAlpha.allowed(1));
}

#[test]
fn error_messages() {
    assert_eq!(PngError::BadChecksum.msg(), "Bad checksum");
    assert_eq!(PngError::BadHeader.msg(), "Bad header");
    assert_eq!(PngError::UnknownChunk.msg(), "Unknown chunk type");
    assert_eq!(PngError::BadChunk.msg(), "Malformed chunk");
    assert_eq!(PngError::TruncatedInput.msg(), "Truncated input");
}
