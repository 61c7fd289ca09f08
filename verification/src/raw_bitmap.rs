//! The `image/x-raw-bitmap` wire format: a 16-byte header followed by the
//! pixel data.
//!
//! Header: the magic `R` `B`, a colour-format byte (0x01 RGB/RGBA, 0x02
//! BGR/BGRA), a channel-count byte (3 or 4), then three little-endian u32:
//! the pixel-data size, the width and the height.
use crate::error::AppError;
use crate::plugin_ffi::UpsclrColorFormat;
use crate::text::{decimal_string, decimal_text, hex2_string, hex2_text};
use byteorder::{ByteOrder, LittleEndian};
use vstd::bytes::*;
use vstd::prelude::*;
use vstd::slice::*;

verus! {

/// Size of the header that precedes the pixel data.
pub const RAW_BITMAP_HEADER_LEN: usize = 16;

/// The colour-format byte written for a colour format.
pub open spec fn color_format_byte(f: UpsclrColorFormat) -> u8 {
    match f {
        UpsclrColorFormat::Rgb => 1,
        UpsclrColorFormat::Bgr => 2,
    }
}

/// The little-endian u32 stored at `off`.
pub open spec fn le_u32_at(d: Seq<u8>, off: int) -> u32 {
    spec_u32_from_le_bytes(d.subrange(off, off + 4))
}

/// `width * height * channels`, saturated at `usize::MAX`.
pub open spec fn saturated_size(w: u32, h: u32, c: u8) -> int {
    let p = (w as int) * (h as int) * (c as int);
    if p > usize::MAX {
        usize::MAX as int
    } else {
        p
    }
}

/// What a raw-bitmap body decodes to: pixel data, width, height, channel
/// count and colour format; or the message of the first check that fails.
pub open spec fn raw_bitmap_parse(d: Seq<u8>) -> Result<
    (Seq<u8>, u32, u32, u8, UpsclrColorFormat),
    Seq<char>,
> {
    if d.len() < 16 {
        Err("x-raw-bitmap data is too short for its 16-byte header."@)
    } else if d[0] != 0x52 || d[1] != 0x42 {
        Err("Invalid magic bytes for x-raw-bitmap. Expected 'RB'."@)
    } else {
        let cf = d[2];
        let ch = d[3];
        let ds = le_u32_at(d, 4);
        let w = le_u32_at(d, 8);
        let h = le_u32_at(d, 12);
        if w == 0 || h == 0 {
            Err("x-raw-bitmap header indicates zero width or height."@)
        } else if ch != 3 && ch != 4 {
            Err(
                "x-raw-bitmap header specifies an unsupported channel count: "@ + decimal_text(
                    ch as nat,
                ) + ". Expected 3 or 4."@,
            )
        } else if cf != 1 && cf != 2 {
            Err(
                "Invalid ColorFormat byte (0x"@ + hex2_text(cf)
                    + ") in x-raw-bitmap header. Expected 0x01 or 0x02."@,
            )
        } else if ds as int != saturated_size(w, h, ch) {
            Err(
                "x-raw-bitmap DataSize in header ("@ + decimal_text(ds as nat)
                    + ") does not match calculated size ("@ + decimal_text(
                    saturated_size(w, h, ch) as nat,
                ) + ") from WxHxC."@,
            )
        } else if d.len() != 16 + ds {
            Err(
                "x-raw-bitmap total file size ("@ + decimal_text(d.len()) + ") does not match expected size based on header ("@
                    + decimal_text((16 + ds) as nat) + ")."@,
            )
        } else {
            Ok(
                (
                    d.subrange(16, d.len() as int),
                    w,
                    h,
                    ch,
                    if cf == 1 {
                        UpsclrColorFormat::Rgb
                    } else {
                        UpsclrColorFormat::Bgr
                    },
                ),
            )
        }
    }
}

/// The raw-bitmap body that carries the given pixels.
pub open spec fn raw_bitmap_encoding(
    pixels: Seq<u8>,
    width: u32,
    height: u32,
    channels: u8,
    f: UpsclrColorFormat,
) -> Seq<u8> {
    seq![0x52u8, 0x42u8, color_format_byte(f), channels] + spec_u32_to_le_bytes(
        pixels.len() as u32,
    ) + spec_u32_to_le_bytes(width) + spec_u32_to_le_bytes(height) + pixels
}

/// `byteorder::LittleEndian::read_u32`.
///
/// Trusted: the crate reads the first four bytes of `buf` as a little-endian
/// u32 (`u32::from_le_bytes(buf[..4])`) and panics on shorter input, which
/// `requires` rules out.
#[verifier::external_body]
fn read_u32_le(buf: &[u8]) -> (r: u32)
    requires
        buf@.len() >= 4,
    ensures
        r == spec_u32_from_le_bytes(buf@.subrange(0, 4)),
{
    LittleEndian::read_u32(buf)
}

/// The little-endian u32 at `off` of `d`.
fn u32_at(d: &[u8], off: usize) -> (r: u32)
    requires
        off <= 12,
        off + 4 <= d@.len(),
    ensures
        r == le_u32_at(d@, off as int),
{
    let part = slice_subrange(d, off, off + 4);
    assert(part@.subrange(0, 4) =~= d@.subrange(off as int, off + 4));
    read_u32_le(part)
}

/// `width * height * channels`, saturated at `usize::MAX`.
pub fn saturated_pixel_bytes(w: u32, h: u32, c: u8) -> (r: usize)
    ensures
        r as int == saturated_size(w, h, c),
{
    assert((w as int) * (h as int) <= 0xffff_ffff * 0xffff_ffff) by (nonlinear_arith)
        requires
            w <= 0xffff_ffff,
            h <= 0xffff_ffff,
    ;
    let wh: u128 = (w as u128) * (h as u128);
    assert(wh * (c as int) <= 0xffff_ffff * 0xffff_ffff * 0xff) by (nonlinear_arith)
        requires
            wh <= 0xffff_ffff * 0xffff_ffff,
            c <= 0xff,
    ;
    let p: u128 = wh * (c as u128);
    if p > (usize::MAX as u128) {
        usize::MAX
    } else {
        p as usize
    }
}

/// Decodes an `image/x-raw-bitmap` body into its pixel data, width, height,
/// channel count and colour format.
pub fn parse_raw_bitmap(file_data: &[u8]) -> (r: Result<
    (Vec<u8>, u32, u32, u8, UpsclrColorFormat),
    AppError,
>)
    ensures
        match r {
            Ok((data, w, h, c, f)) => raw_bitmap_parse(file_data@) == Ok::<
                (Seq<u8>, u32, u32, u8, UpsclrColorFormat),
                Seq<char>,
            >((data@, w, h, c, f)),
            Err(AppError::ImageProcessingError(m)) => raw_bitmap_parse(file_data@) == Err::<
                (Seq<u8>, u32, u32, u8, UpsclrColorFormat),
                Seq<char>,
            >(m@),
            Err(_) => false,
        },
        r matches Ok((data, w, h, c, f)) ==> (c == 3 || c == 4) && data@.len() == (w as int) * (
        h as int) * (c as int),
{
    if file_data.len() < 16 {
        return Err(
            AppError::ImageProcessingError(
                String::from_str("x-raw-bitmap data is too short for its 16-byte header."),
            ),
        );
    }
    if file_data[0] != 0x52 || file_data[1] != 0x42 {
        return Err(
            AppError::ImageProcessingError(
                String::from_str("Invalid magic bytes for x-raw-bitmap. Expected 'RB'."),
            ),
        );
    }
    let color_byte = file_data[2];
    let channels = file_data[3];
    let data_size = u32_at(file_data, 4);
    let width = u32_at(file_data, 8);
    let height = u32_at(file_data, 12);
    if width == 0 || height == 0 {
        return Err(
            AppError::ImageProcessingError(
                String::from_str("x-raw-bitmap header indicates zero width or height."),
            ),
        );
    }
    if channels != 3 && channels != 4 {
        let m = String::from_str(
            "x-raw-bitmap header specifies an unsupported channel count: ",
        ).concat(decimal_string(channels as u64).as_str()).concat(". Expected 3 or 4.");
        return Err(AppError::ImageProcessingError(m));
    }
    let color_format = if color_byte == 1 {
        UpsclrColorFormat::Rgb
    } else if color_byte == 2 {
        UpsclrColorFormat::Bgr
    } else {
        let m = String::from_str("Invalid ColorFormat byte (0x").concat(
            hex2_string(color_byte).as_str(),
        ).concat(") in x-raw-bitmap header. Expected 0x01 or 0x02.");
        return Err(AppError::ImageProcessingError(m));
    };
    let calculated = saturated_pixel_bytes(width, height, channels);
    if data_size as usize != calculated {
        let m = String::from_str("x-raw-bitmap DataSize in header (").concat(
            decimal_string(data_size as u64).as_str(),
        ).concat(") does not match calculated size (").concat(
            decimal_string(calculated as u64).as_str(),
        ).concat(") from WxHxC.");
        return Err(AppError::ImageProcessingError(m));
    }
    let expected_total: u64 = 16 + data_size as u64;
    if file_data.len() as u64 != expected_total {
        let m = String::from_str("x-raw-bitmap total file size (").concat(
            decimal_string(file_data.len() as u64).as_str(),
        ).concat(") does not match expected size based on header (").concat(
            decimal_string(expected_total).as_str(),
        ).concat(").");
        return Err(AppError::ImageProcessingError(m));
    }
    let pixels = slice_to_vec(slice_subrange(file_data, 16, file_data.len()));
    proof {
        lemma_raw_bitmap_parse_shape(file_data@);
    }
    Ok((pixels, width, height, channels, color_format))
}

/// Encodes pixel data as an `image/x-raw-bitmap` body.
pub fn encode_raw_bitmap(
    pixels: &[u8],
    width: u32,
    height: u32,
    channels: u8,
    color_format: UpsclrColorFormat,
) -> (r: Vec<u8>)
    ensures
        r@ == raw_bitmap_encoding(pixels@, width, height, channels, color_format),
{
    let mut out: Vec<u8> = Vec::new();
    out.push(0x52u8);
    out.push(0x42u8);
    out.push(
        match color_format {
            UpsclrColorFormat::Rgb => 0x01u8,
            UpsclrColorFormat::Bgr => 0x02u8,
        },
    );
    out.push(channels);
    let size_bytes = u32_to_le_bytes(pixels.len() as u32);
    out.extend_from_slice(size_bytes.as_slice());
    let width_bytes = u32_to_le_bytes(width);
    out.extend_from_slice(width_bytes.as_slice());
    let height_bytes = u32_to_le_bytes(height);
    out.extend_from_slice(height_bytes.as_slice());
    out.extend_from_slice(pixels);
    proof {
        assert(out@ =~= raw_bitmap_encoding(pixels@, width, height, channels, color_format));
    }
    out
}

/// Encoding pixels as a raw bitmap and decoding the result gives back the
/// pixels, dimensions, channel count and colour format, whenever the pixel
/// data has the size that width, height and channel count call for.
pub proof fn raw_bitmap_roundtrip(
    pixels: Seq<u8>,
    width: u32,
    height: u32,
    channels: u8,
    f: UpsclrColorFormat,
)
    requires
        width > 0,
        height > 0,
        channels == 3 || channels == 4,
        pixels.len() == (width as int) * (height as int) * (channels as int),
        pixels.len() <= u32::MAX,
    ensures
        raw_bitmap_parse(raw_bitmap_encoding(pixels, width, height, channels, f)) == Ok::<
            (Seq<u8>, u32, u32, u8, UpsclrColorFormat),
            Seq<char>,
        >((pixels, width, height, channels, f)),
{
    lemma_auto_spec_u32_to_from_le_bytes();
    let d = raw_bitmap_encoding(pixels, width, height, channels, f);
    let sz = pixels.len() as u32;
    assert(d.subrange(4, 8) =~= spec_u32_to_le_bytes(sz));
    assert(d.subrange(8, 12) =~= spec_u32_to_le_bytes(width));
    assert(d.subrange(12, 16) =~= spec_u32_to_le_bytes(height));
    assert(d.subrange(16, d.len() as int) =~= pixels);
    assert(d[0] == 0x52 && d[1] == 0x42 && d[2] == color_format_byte(f) && d[3] == channels);
    assert(sz as int == pixels.len());
    assert(saturated_size(width, height, channels) == pixels.len());
}

/// A raw-bitmap body that decodes is exactly the encoding of what it decodes to.
pub proof fn raw_bitmap_parse_then_encode(d: Seq<u8>)
    requires
        raw_bitmap_parse(d) is Ok,
    ensures
        ({
            let (p, w, h, c, f) = raw_bitmap_parse(d)->Ok_0;
            raw_bitmap_encoding(p, w, h, c, f) == d
        }),
{
    lemma_auto_spec_u32_to_from_le_bytes();
    let (p, w, h, c, f) = raw_bitmap_parse(d)->Ok_0;
    let e = raw_bitmap_encoding(p, w, h, c, f);
    assert(p.len() == d.len() - 16);
    assert((p.len() as u32) as int == p.len());
    assert(spec_u32_to_le_bytes(p.len() as u32) == d.subrange(4, 8));
    assert(spec_u32_to_le_bytes(w) == d.subrange(8, 12));
    assert(spec_u32_to_le_bytes(h) == d.subrange(12, 16));
    assert(e =~= d);
}

/// A parsed raw bitmap holds 3 or 4 channels and exactly width × height
/// pixels of them.
pub proof fn lemma_raw_bitmap_parse_shape(d: Seq<u8>)
    requires
        d.len() <= usize::MAX,
    ensures
        raw_bitmap_parse(d) matches Ok((p, w, h, c, f)) ==> (c == 3 || c == 4) && p.len() == (
        w as int) * (h as int) * (c as int),
{
}

} // verus!
