//! Image formats of the multi-process server's HTTP API: choosing the
//! output format, decoding uploads and encoding answers.
use crate::handlers::{byte_param, byte_param_of, media_type_of, opt_str, DecodedUpload};
use crate::headers::{MediaType, MediaTypeView};
use crate::imaging::{
    buffer_encoding, decode_failure, decoded_alpha, decoded_rgb8, decoded_rgba8, encode_jpeg_rgb8,
    has_alpha, jpeg_encoding, load_guessing_format, load_with_format, to_rgb8_pixels,
    to_rgba8_pixels, write_buffer, ImageKind, PixelLayout,
};
use crate::main_process::web::error::ApiError;
use crate::models::ColorFormat;
use crate::text::{before_first_str, decimal_string, decimal_text, str_eq, trim_str};
use vstd::prelude::*;
use vstd::string::*;

verus! {

/// The image format of an upscale answer.
#[derive(Debug, Clone, Copy, PartialEq, Eq, Structural)]
pub enum OutputFormat {
    Png { compression: u8 },
    Jpeg { quality: u8 },
    Bmp,
    Tga,
    Qoi,
}

/// The output format a media type asks for: `image/png` (parameter
/// `compression`, default 6), `image/jpeg` (parameter `quality`, default
/// 85), `image/bmp` or `image/x-bmp`, `image/x-tga` or `image/x-targa`,
/// `image/x-qoi`.
pub open spec fn output_format_of(m: MediaTypeView) -> Option<OutputFormat> {
    if m.1 != "image"@ {
        None
    } else if m.2 == "png"@ {
        Some(OutputFormat::Png { compression: byte_param(m.3, "compression"@, 6) })
    } else if m.2 == "jpeg"@ {
        Some(OutputFormat::Jpeg { quality: byte_param(m.3, "quality"@, 85) })
    } else if m.2 == "bmp"@ || m.2 == "x-bmp"@ {
        Some(OutputFormat::Bmp)
    } else if m.2 == "x-tga"@ || m.2 == "x-targa"@ {
        Some(OutputFormat::Tga)
    } else if m.2 == "x-qoi"@ {
        Some(OutputFormat::Qoi)
    } else {
        None
    }
}

impl OutputFormat {
    /// The output format a media type asks for, if any.
    pub fn try_from_media_type(m: &MediaType) -> (r: Option<OutputFormat>)
        ensures
            r == output_format_of(m@),
    {
        if !str_eq(m.type_.as_str(), "image") {
            return None;
        }
        let sub = m.subtype.as_str();
        if str_eq(sub, "png") {
            Some(OutputFormat::Png { compression: byte_param_of(m, "compression", 6) })
        } else if str_eq(sub, "jpeg") {
            Some(OutputFormat::Jpeg { quality: byte_param_of(m, "quality", 85) })
        } else if str_eq(sub, "bmp") || str_eq(sub, "x-bmp") {
            Some(OutputFormat::Bmp)
        } else if str_eq(sub, "x-tga") || str_eq(sub, "x-targa") {
            Some(OutputFormat::Tga)
        } else if str_eq(sub, "x-qoi") {
            Some(OutputFormat::Qoi)
        } else {
            None
        }
    }
}

/// Plugins are always asked for RGB output.
impl From<OutputFormat> for ColorFormat {
    fn from(value: OutputFormat) -> (r: ColorFormat) {
        ColorFormat::Rgb
    }
}

impl vstd::std_specs::convert::FromSpecImpl<OutputFormat> for ColorFormat {
    open spec fn obeys_from_spec() -> bool {
        true
    }

    open spec fn from_spec(v: OutputFormat) -> ColorFormat {
        ColorFormat::Rgb
    }
}

/// The image crate's format named by an upload's media type, if any.
pub open spec fn format_hint(media: Seq<char>) -> Option<ImageKind> {
    if media == "image/jpeg"@ {
        Some(ImageKind::Jpeg)
    } else if media == "image/png"@ {
        Some(ImageKind::Png)
    } else if media == "image/webp"@ {
        Some(ImageKind::WebP)
    } else if media == "image/qoi"@ || media == "image/x-qoi"@ {
        Some(ImageKind::Qoi)
    } else if media == "image/bmp"@ || media == "image/x-bmp"@ {
        Some(ImageKind::Bmp)
    } else if media == "image/vnd.ms-dds"@ {
        Some(ImageKind::Dds)
    } else if media == "image/x-tga"@ || media == "image/x-targa"@ {
        Some(ImageKind::Tga)
    } else {
        None
    }
}

fn format_hint_of(media: &str) -> (r: Option<ImageKind>)
    ensures
        r == format_hint(media@),
{
    if str_eq(media, "image/jpeg") {
        Some(ImageKind::Jpeg)
    } else if str_eq(media, "image/png") {
        Some(ImageKind::Png)
    } else if str_eq(media, "image/webp") {
        Some(ImageKind::WebP)
    } else if str_eq(media, "image/qoi") || str_eq(media, "image/x-qoi") {
        Some(ImageKind::Qoi)
    } else if str_eq(media, "image/bmp") || str_eq(media, "image/x-bmp") {
        Some(ImageKind::Bmp)
    } else if str_eq(media, "image/vnd.ms-dds") {
        Some(ImageKind::Dds)
    } else if str_eq(media, "image/x-tga") || str_eq(media, "image/x-targa") {
        Some(ImageKind::Tga)
    } else {
        None
    }
}

/// The decoded form of an upload: pixels, width, height, channels, colour format.
pub type WebDecodedUpload = (Vec<u8>, u32, u32, u32, ColorFormat);

/// The message prefix of a failed decoding.
pub open spec fn web_decode_failure_prefix(hint: Option<ImageKind>) -> Seq<char> {
    match hint {
        Some(k) => "Failed to decode image (format: "@ + k.debug_name() + "): "@,
        None => "Failed to auto-detect and decode image: "@,
    }
}

/// What decoding an upload answers, given its bytes and content type: an
/// upload without content type, or with one that names an image format,
/// goes to the image crate; any other content type is refused.
pub open spec fn web_decode_answer(
    file: Seq<u8>,
    content_type: Option<Seq<char>>,
    r: Result<WebDecodedUpload, ApiError>,
) -> bool {
    let hint = match content_type {
        Some(s) => format_hint(media_type_of(s)),
        None => None,
    };
    if content_type is Some && hint is None {
        r matches Err(ApiError::UnsupportedMediaType(m)) && m@ == "Content type '"@ + media_type_of(
            content_type->Some_0,
        ) + "' is not supported."@
    } else {
        match decode_failure(file, hint) {
            Some(t) => r matches Err(ApiError::ImageProcessingError(m)) && m@
                == web_decode_failure_prefix(hint) + t,
            None => match r {
                Ok((data, w, h, c, f)) => f == ColorFormat::Rgb && if decoded_alpha(file, hint) {
                    c == 4 && (data@, w, h) == decoded_rgba8(file, hint)
                } else {
                    c == 3 && (data@, w, h) == decoded_rgb8(file, hint)
                },
                Err(_) => false,
            },
        }
    }
}

/// Decodes an uploaded image into pixel data, width, height, channel count
/// and colour format (RGB or RGBA).
pub fn decode_input_image(file_data: &[u8], content_type_str: Option<&str>) -> (r: Result<
    WebDecodedUpload,
    ApiError,
>)
    ensures
        web_decode_answer(file_data@, opt_str(content_type_str), r),
{
    let hint: Option<ImageKind> = match content_type_str {
        None => None,
        Some(s) => {
            let media = trim_str(before_first_str(s, ';').as_str());
            let h = format_hint_of(media.as_str());
            if h.is_none() {
                return Err(
                    ApiError::UnsupportedMediaType(
                        String::from_str("Content type '").concat(media.as_str()).concat(
                            "' is not supported.",
                        ),
                    ),
                );
            }
            h
        },
    };
    let loaded = match hint {
        Some(kind) => match load_with_format(file_data, kind) {
            Ok(img) => img,
            Err(t) => {
                return Err(
                    ApiError::ImageProcessingError(
                        String::from_str("Failed to decode image (format: ").concat(
                            kind.debug_text().as_str(),
                        ).concat("): ").concat(t.as_str()),
                    ),
                );
            },
        },
        None => match load_guessing_format(file_data) {
            Ok(img) => img,
            Err(t) => {
                return Err(
                    ApiError::ImageProcessingError(
                        String::from_str("Failed to auto-detect and decode image: ").concat(
                            t.as_str(),
                        ),
                    ),
                );
            },
        },
    };
    if has_alpha(&loaded) {
        let (data, w, h) = to_rgba8_pixels(&loaded);
        Ok((data, w, h, 4, ColorFormat::Rgb))
    } else {
        let (data, w, h) = to_rgb8_pixels(&loaded);
        Ok((data, w, h, 3, ColorFormat::Rgb))
    }
}

/// The name, content type and image-crate format of the plain formats.
pub open spec fn plain_format(f: OutputFormat) -> (Seq<char>, Seq<char>, ImageKind) {
    match f {
        OutputFormat::Bmp => ("BMP"@, "image/bmp"@, ImageKind::Bmp),
        OutputFormat::Tga => ("TGA"@, "image/x-tga"@, ImageKind::Tga),
        _ => ("QOI"@, "image/x-qoi"@, ImageKind::Qoi),
    }
}

/// The answer an output format's encoding gives for a pixel buffer whose
/// channel count is read as a byte: the content type and body, or the
/// processing error's message.
pub open spec fn web_encoded_output(
    pixels: Seq<u8>,
    width: u32,
    height: u32,
    channels: u32,
    format: OutputFormat,
) -> Result<(Seq<char>, Seq<u8>), Seq<char>> {
    let c8 = channels as u8;
    match format {
        OutputFormat::Jpeg { quality } => if c8 == 4 {
            Err(
                "JPEG output for 4-channel data (RGBA/BGRA) is not directly supported. Request 3-channel or PNG/RAW."@,
            )
        } else {
            match jpeg_encoding(pixels, width, height, quality) {
                Ok(b) => Ok(("image/jpeg"@, b)),
                Err(e) => Err("JPEG encoding failed: "@ + e),
            }
        },
        _ => {
            let (name, content_type, kind) = match format {
                OutputFormat::Png { .. } => ("PNG"@, "image/png"@, ImageKind::Png),
                _ => plain_format(format),
            };
            if c8 != 3 && c8 != 4 {
                Err("Unsupported channel count ("@ + decimal_text(channels as nat) + ")."@)
            } else {
                match buffer_encoding(pixels, width, height, c8 as int, kind.spec_code()) {
                    Ok(b) => Ok((content_type, b)),
                    Err(e) => Err(name + " encoding failed: "@ + e),
                }
            }
        },
    }
}

/// Encodes an upscaled pixel buffer in the requested output format, giving
/// the content type and body of the answer.
pub fn encode_output_image(
    raw_pixel_data: &[u8],
    width: u32,
    height: u32,
    channels: u32,
    output_format: OutputFormat,
) -> (r: Result<(String, Vec<u8>), ApiError>)
    requires
        !(output_format is Jpeg) && ((channels as u8) == 3 || (channels as u8) == 4)
            ==> raw_pixel_data@.len() == (width as int) * (height as int) * ((channels as u8) as int),
        output_format is Jpeg && (channels as u8) != 4 ==> raw_pixel_data@.len() == (width as int)
            * (height as int) * 3,
    ensures
        match (r, web_encoded_output(raw_pixel_data@, width, height, channels, output_format)) {
            (Ok((ct, body)), Ok((t, b))) => ct@ == t && body@ == b,
            (Err(ApiError::ImageProcessingError(m)), Err(t)) => m@ == t,
            _ => false,
        },
{
    let c8 = channels as u8;
    match output_format {
        OutputFormat::Jpeg { quality } => {
            if c8 == 4 {
                return Err(
                    ApiError::ImageProcessingError(
                        String::from_str(
                            "JPEG output for 4-channel data (RGBA/BGRA) is not directly supported. Request 3-channel or PNG/RAW.",
                        ),
                    ),
                );
            }
            match encode_jpeg_rgb8(raw_pixel_data, width, height, quality) {
                Ok(bytes) => Ok((String::from_str("image/jpeg"), bytes)),
                Err(e) => Err(
                    ApiError::ImageProcessingError(
                        String::from_str("JPEG encoding failed: ").concat(e.as_str()),
                    ),
                ),
            }
        },
        _ => {
            let (name, content_type, kind) = match output_format {
                OutputFormat::Png { .. } => ("PNG", "image/png", ImageKind::Png),
                OutputFormat::Bmp => ("BMP", "image/bmp", ImageKind::Bmp),
                OutputFormat::Tga => ("TGA", "image/x-tga", ImageKind::Tga),
                _ => ("QOI", "image/x-qoi", ImageKind::Qoi),
            };
            proof {
                reveal_strlit("PNG");
                reveal_strlit("BMP");
                reveal_strlit("TGA");
                reveal_strlit("QOI");
                reveal_strlit("image/png");
                reveal_strlit("image/bmp");
                reveal_strlit("image/x-tga");
                reveal_strlit("image/x-qoi");
            }
            let layout = if c8 == 3 {
                PixelLayout::Rgb8
            } else if c8 == 4 {
                PixelLayout::Rgba8
            } else {
                return Err(
                    ApiError::ImageProcessingError(
                        String::from_str("Unsupported channel count (").concat(
                            decimal_string(channels as u64).as_str(),
                        ).concat(")."),
                    ),
                );
            };
            match write_buffer(raw_pixel_data, width, height, layout, kind) {
                Ok(bytes) => Ok((String::from_str(content_type), bytes)),
                Err(e) => Err(
                    ApiError::ImageProcessingError(
                        String::from_str(name).concat(" encoding failed: ").concat(e.as_str()),
                    ),
                ),
            }
        },
    }
}

} // verus!
