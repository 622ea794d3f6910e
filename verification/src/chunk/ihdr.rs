//! The header chunk: image dimensions, bit depth, color mode and interlace
//! mode, decoded from a 13-byte payload under strict field validation.

use vstd::prelude::*;
use crate::bytes::be32;
use crate::err::PngError;

verus! {

/// Color-type options of the format.
#[derive(Debug, Clone, Copy, PartialEq, Eq, Structural)]
pub enum ColorType {
    Greyscale,
    TrueColor,
    IndexedColor,
    GreyscaleAlpha,
    TrueColorAlpha,
}

/// Interlace methods of the format.
#[derive(Debug, Clone, Copy, PartialEq, Eq, Structural)]
pub enum InterlaceMethod {
    Standard,
    Adam7,
}

/// Header chunk containing general info about the image.
#[derive(Debug, Clone, Copy, PartialEq, Eq, Structural)]
pub struct IHDR {
    pub width: u32,
    pub height: u32,
    pub bit_depth: u8,
    pub color_type: ColorType,
    pub interlace: InterlaceMethod,
}

/// The color type encoded by byte `b`, if any.
pub open spec fn color_of(b: u8) -> Option<ColorType> {
    if b == 0 {
        Some(ColorType::Greyscale)
    } else if b == 2 {
        Some(ColorType::TrueColor)
    } else if b == 3 {
        Some(ColorType::IndexedColor)
    } else if b == 4 {
        Some(ColorType::GreyscaleAlpha)
    } else if b == 6 {
        Some(ColorType::TrueColorAlpha)
    } else {
        None
    }
}

/// The interlace method encoded by byte `b`, if any.
pub open spec fn interlace_of(b: u8) -> Option<InterlaceMethod> {
    if b == 0 {
        Some(InterlaceMethod::Standard)
    } else if b == 1 {
        Some(InterlaceMethod::Adam7)
    } else {
        None
    }
}

/// Whether `depth` is in the allowed set of bit depths for `ct`.
pub open spec fn allowed_depth(ct: ColorType, depth: u8) -> bool {
    match ct {
        ColorType::Greyscale => depth == 1 || depth == 2 || depth == 4 || depth == 8 || depth
            == 16,
        ColorType::TrueColor => depth == 8 || depth == 16,
        ColorType::IndexedColor => depth == 1 || depth == 2 || depth == 4 || depth == 8,
        ColorType::GreyscaleAlpha => depth == 8 || depth == 16,
        ColorType::TrueColorAlpha => depth == 8 || depth == 16,
    }
}

impl ColorType {
    /// Return whether the given bit depth is valid for the color type.
    pub fn allowed(&self, depth: u8) -> (r: bool)
        ensures
            r == allowed_depth(*self, depth),
    {
        match *self {
            ColorType::Greyscale => depth == 1 || depth == 2 || depth == 4 || depth == 8 || depth
                == 16,
            ColorType::TrueColor => depth == 8 || depth == 16,
            ColorType::IndexedColor => depth == 1 || depth == 2 || depth == 4 || depth == 8,
            ColorType::GreyscaleAlpha => depth == 8 || depth == 16,
            ColorType::TrueColorAlpha => depth == 8 || depth == 16,
        }
    }
}

/// What decoding a header payload yields: fields are read in a fixed order
/// and the first violated check decides the error, without decoding further
/// fields. A field that runs past the end of the payload is a truncation,
/// distinct from semantic validation failure.
pub open spec fn ihdr_spec(p: Seq<u8>) -> Result<IHDR, PngError> {
    if p.len() < 4 {
        Err(PngError::TruncatedInput)
    } else if be32(p) == 0 {
        Err(PngError::BadChunk)
    } else if p.len() < 8 {
        Err(PngError::TruncatedInput)
    } else if be32(p.skip(4)) == 0 {
        Err(PngError::BadChunk)
    } else if p.len() < 10 {
        Err(PngError::TruncatedInput)
    } else if color_of(p[9]) is None {
        Err(PngError::BadChunk)
    } else if !allowed_depth(color_of(p[9])->Some_0, p[8]) {
        Err(PngError::BadChunk)
    } else if p.len() < 11 {
        Err(PngError::TruncatedInput)
    } else if p[10] != 0 {
        Err(PngError::BadChunk)
    } else if p.len() < 12 {
        Err(PngError::TruncatedInput)
    } else if p[11] != 0 {
        Err(PngError::BadChunk)
    } else if p.len() < 13 {
        Err(PngError::TruncatedInput)
    } else if interlace_of(p[12]) is None {
        Err(PngError::BadChunk)
    } else {
        Ok(
            IHDR {
                width: be32(p),
                height: be32(p.skip(4)),
                bit_depth: p[8],
                color_type: color_of(p[9])->Some_0,
                interlace: interlace_of(p[12])->Some_0,
            },
        )
    }
}

/// A payload with a zero width or height is rejected as a malformed chunk,
/// whatever the remaining fields hold.
pub proof fn lemma_zero_dimension_rejected(p: Seq<u8>)
    requires
        p.len() >= 8,
        be32(p) == 0 || be32(p.skip(4)) == 0,
    ensures
        ihdr_spec(p) == Err::<IHDR, PngError>(PngError::BadChunk),
{
}

/// Every header that decodes successfully has nonzero dimensions and a bit
/// depth in the allowed set for its color type.
pub proof fn lemma_decoded_header_valid(p: Seq<u8>, h: IHDR)
    requires
        ihdr_spec(p) == Ok::<IHDR, PngError>(h),
    ensures
        h.width > 0,
        h.height > 0,
        allowed_depth(h.color_type, h.bit_depth),
{
}

/// Parse a payload byte span into a header chunk.
pub fn parse(data: &[u8]) -> (r: Result<IHDR, PngError>)
    ensures
        r == ihdr_spec(data@),
{
    proof {
        assert(data@.skip(0) =~= data@);
    }
    if data.len() < 4 {
        return Err(PngError::TruncatedInput);
    }
    let width: u32 = crate::bytes::read_be_u32(data, 0);
    if width == 0 {
        return Err(PngError::BadChunk);
    }
    if data.len() < 8 {
        return Err(PngError::TruncatedInput);
    }
    let height: u32 = crate::bytes::read_be_u32(data, 4);
    if height == 0 {
        return Err(PngError::BadChunk);
    }
    if data.len() < 10 {
        return Err(PngError::TruncatedInput);
    }
    let bit_depth: u8 = data[8];
    let color_type: ColorType = match data[9] {
        0 => ColorType::Greyscale,
        2 => ColorType::TrueColor,
        3 => ColorType::IndexedColor,
        4 => ColorType::GreyscaleAlpha,
        6 => ColorType::TrueColorAlpha,
        _ => {
            return Err(PngError::BadChunk);
        },
    };
    if !color_type.allowed(bit_depth) {
        return Err(PngError::BadChunk);
    }
    if data.len() < 11 {
        return Err(PngError::TruncatedInput);
    }
    if data[10] != 0 {
        return Err(PngError::BadChunk);
    }
    if data.len() < 12 {
        return Err(PngError::TruncatedInput);
    }
    if data[11] != 0 {
        return Err(PngError::BadChunk);
    }
    if data.len() < 13 {
        return Err(PngError::TruncatedInput);
    }
    let interlace: InterlaceMethod = match data[12] {
        0 => InterlaceMethod::Standard,
        1 => InterlaceMethod::Adam7,
        _ => {
            return Err(PngError::BadChunk);
        },
    };
    Ok(IHDR { width, height, bit_depth, color_type, interlace })
}

} // verus!
