//! The calls into the `image` crate: decoding an encoded image and encoding
//! pixel buffers.
use vstd::prelude::*;

verus! {

#[verifier::external_type_specification]
#[verifier::external_body]
pub struct ExDynamicImage(image::DynamicImage);

#[verifier::external_type_specification]
#[verifier::external_body]
pub struct ExImageFormat(image::ImageFormat);

/// The encoded-image formats the server names.
#[derive(Debug, Clone, Copy, PartialEq, Eq, Structural)]
pub enum ImageKind {
    Png,
    Jpeg,
    WebP,
    Qoi,
    Bmp,
    Dds,
    Tga,
}

impl ImageKind {
    /// How `{:?}` renders the crate's `ImageFormat` for this kind.
    pub open spec fn debug_name(self) -> Seq<char> {
        match self {
            ImageKind::Png => "Png"@,
            ImageKind::Jpeg => "Jpeg"@,
            ImageKind::WebP => "WebP"@,
            ImageKind::Qoi => "Qoi"@,
            ImageKind::Bmp => "Bmp"@,
            ImageKind::Dds => "Dds"@,
            ImageKind::Tga => "Tga"@,
        }
    }

    pub fn debug_text(&self) -> (r: String)
        ensures
            r@ == self.debug_name(),
    {
        let s = match self {
            ImageKind::Png => "Png",
            ImageKind::Jpeg => "Jpeg",
            ImageKind::WebP => "WebP",
            ImageKind::Qoi => "Qoi",
            ImageKind::Bmp => "Bmp",
            ImageKind::Dds => "Dds",
            ImageKind::Tga => "Tga",
        };
        String::from_str(s)
    }

    /// A small number identifying the kind.
    pub open spec fn spec_code(self) -> u8 {
        match self {
            ImageKind::Png => 0,
            ImageKind::Jpeg => 1,
            ImageKind::WebP => 2,
            ImageKind::Qoi => 3,
            ImageKind::Bmp => 4,
            ImageKind::Dds => 5,
            ImageKind::Tga => 6,
        }
    }
}

/// Pixel layout of a buffer handed to an encoder: 8-bit RGB or 8-bit RGBA.
#[derive(Debug, Clone, Copy, PartialEq, Eq, Structural)]
pub enum PixelLayout {
    Rgb8,
    Rgba8,
}

impl PixelLayout {
    pub open spec fn bytes_per_pixel(self) -> int {
        match self {
            PixelLayout::Rgb8 => 3,
            PixelLayout::Rgba8 => 4,
        }
    }
}

/// The bytes `image::write_buffer_with_format` writes for a pixel buffer
/// (`Ok`), or the rendered error it returns (`Err`).
pub uninterp spec fn buffer_encoding(
    pixels: Seq<u8>,
    width: u32,
    height: u32,
    bytes_per_pixel: int,
    format: u8,
) -> Result<Seq<u8>, Seq<char>>;

/// The bytes a `JpegEncoder` made with `new_with_quality` writes for an RGB8
/// buffer (`Ok`), or the rendered error it returns (`Err`).
pub uninterp spec fn jpeg_encoding(pixels: Seq<u8>, width: u32, height: u32, quality: u8) -> Result<
    Seq<u8>,
    Seq<char>,
>;

/// An image decoded by the `image` crate, with (for the proofs) the bytes
/// and format hint it was decoded from.
pub struct DecodedImage {
    image: image::DynamicImage,
    source: Ghost<(Seq<u8>, Option<ImageKind>)>,
}

impl View for DecodedImage {
    type V = (Seq<u8>, Option<ImageKind>);

    closed spec fn view(&self) -> (Seq<u8>, Option<ImageKind>) {
        self.source@
    }
}

/// Why `image::load_from_memory_with_format` refuses bytes as an image of
/// the given format (its error's rendering), `None` when it decodes them.
pub uninterp spec fn format_decode_failure(data: Seq<u8>, kind: ImageKind) -> Option<Seq<char>>;

/// Why `image::load_from_memory` refuses bytes (its error's rendering),
/// `None` when it recognises and decodes them.
pub uninterp spec fn guessed_decode_failure(data: Seq<u8>) -> Option<Seq<char>>;

/// Why decoding bytes fails, with a format hint or guessing the format.
pub open spec fn decode_failure(data: Seq<u8>, hint: Option<ImageKind>) -> Option<Seq<char>> {
    match hint {
        Some(k) => format_decode_failure(data, k),
        None => guessed_decode_failure(data),
    }
}

/// Whether the image decoded from the bytes (with the hint) has an alpha
/// channel (`DynamicImage::has_alpha`).
pub uninterp spec fn decoded_alpha(data: Seq<u8>, hint: Option<ImageKind>) -> bool;

/// The 8-bit RGB pixels, width and height of the image decoded from the
/// bytes (`DynamicImage::to_rgb8`).
pub uninterp spec fn decoded_rgb8(data: Seq<u8>, hint: Option<ImageKind>) -> (Seq<u8>, u32, u32);

/// The 8-bit RGBA pixels, width and height of the image decoded from the
/// bytes (`DynamicImage::to_rgba8`).
pub uninterp spec fn decoded_rgba8(data: Seq<u8>, hint: Option<ImageKind>) -> (Seq<u8>, u32, u32);

/// `image::load_from_memory_with_format`.
///
/// Trusted: it fails exactly when `format_decode_failure` names a reason,
/// and then renders that reason.
#[verifier::external_body]
pub(crate) fn load_with_format(data: &[u8], kind: ImageKind) -> (r: Result<DecodedImage, String>)
    ensures
        match r {
            Ok(img) => format_decode_failure(data@, kind) is None && img@ == (data@, Some(kind)),
            Err(e) => format_decode_failure(data@, kind) == Some(e@),
        },
{
    match image::load_from_memory_with_format(data, image_format(kind)) {
        Ok(image) => Ok(DecodedImage { image, source: Ghost((data@, Some(kind))) }),
        Err(e) => Err(e.to_string()),
    }
}

/// `image::load_from_memory`, which guesses the format from the data.
///
/// Trusted: it fails exactly when `guessed_decode_failure` names a reason,
/// and then renders that reason.
#[verifier::external_body]
pub(crate) fn load_guessing_format(data: &[u8]) -> (r: Result<DecodedImage, String>)
    ensures
        match r {
            Ok(img) => guessed_decode_failure(data@) is None && img@ == (data@, None::<ImageKind>),
            Err(e) => guessed_decode_failure(data@) == Some(e@),
        },
{
    match image::load_from_memory(data) {
        Ok(image) => Ok(DecodedImage { image, source: Ghost((data@, None)) }),
        Err(e) => Err(e.to_string()),
    }
}

/// `DynamicImage::has_alpha`.
///
/// Trusted: the answer is `decoded_alpha` of what the image was decoded from.
#[verifier::external_body]
pub(crate) fn has_alpha(img: &DecodedImage) -> (r: bool)
    ensures
        r == decoded_alpha(img@.0, img@.1),
{
    img.image.has_alpha()
}

/// `DynamicImage::to_rgb8`, taken apart into raw pixel bytes, width and height.
///
/// Trusted: the result is `decoded_rgb8` of what the image was decoded
/// from; the buffer holds 3 bytes for each of width × height pixels.
#[verifier::external_body]
pub(crate) fn to_rgb8_pixels(img: &DecodedImage) -> (r: (Vec<u8>, u32, u32))
    ensures
        (r.0@, r.1, r.2) == decoded_rgb8(img@.0, img@.1),
        r.0@.len() == (r.1 as int) * (r.2 as int) * 3,
{
    let b = img.image.to_rgb8();
    let (w, h) = b.dimensions();
    (b.into_raw(), w, h)
}

/// `DynamicImage::to_rgba8`, taken apart into raw pixel bytes, width and height.
///
/// Trusted: the result is `decoded_rgba8` of what the image was decoded
/// from; the buffer holds 4 bytes for each of width × height pixels.
#[verifier::external_body]
pub(crate) fn to_rgba8_pixels(img: &DecodedImage) -> (r: (Vec<u8>, u32, u32))
    ensures
        (r.0@, r.1, r.2) == decoded_rgba8(img@.0, img@.1),
        r.0@.len() == (r.1 as int) * (r.2 as int) * 4,
{
    let b = img.image.to_rgba8();
    let (w, h) = b.dimensions();
    (b.into_raw(), w, h)
}

/// `image::write_buffer_with_format` into an in-memory buffer.
///
/// Trusted: the result is `buffer_encoding` of the arguments; the crate
/// panics unless the buffer holds exactly width × height pixels, which
/// `requires` rules out.
#[verifier::external_body]
pub(crate) fn write_buffer(pixels: &[u8], width: u32, height: u32, layout: PixelLayout, kind: ImageKind) -> (r: Result<Vec<u8>, String>)
    requires
        pixels@.len() == (width as int) * (height as int) * layout.bytes_per_pixel(),
    ensures
        match r {
            Ok(b) => buffer_encoding(pixels@, width, height, layout.bytes_per_pixel(), kind.spec_code()) == Ok::<Seq<u8>, Seq<char>>(b@),
            Err(e) => buffer_encoding(pixels@, width, height, layout.bytes_per_pixel(), kind.spec_code()) == Err::<Seq<u8>, Seq<char>>(e@),
        },
{
    let color = match layout {
        PixelLayout::Rgb8 => image::ColorType::Rgb8,
        PixelLayout::Rgba8 => image::ColorType::Rgba8,
    };
    let mut buffer = std::io::Cursor::new(Vec::new());
    match image::write_buffer_with_format(&mut buffer, pixels, width, height, color, image_format(kind)) {
        Ok(()) => Ok(buffer.into_inner()),
        Err(e) => Err(e.to_string()),
    }
}

/// The crate's `ImageFormat` value for a kind, one variant for one variant.
#[verifier::external_body]
fn image_format(kind: ImageKind) -> image::ImageFormat {
    match kind {
        ImageKind::Png => image::ImageFormat::Png,
        ImageKind::Jpeg => image::ImageFormat::Jpeg,
        ImageKind::WebP => image::ImageFormat::WebP,
        ImageKind::Qoi => image::ImageFormat::Qoi,
        ImageKind::Bmp => image::ImageFormat::Bmp,
        ImageKind::Dds => image::ImageFormat::Dds,
        ImageKind::Tga => image::ImageFormat::Tga,
    }
}

/// `JpegEncoder::new_with_quality(..).encode(.., ExtendedColorType::Rgb8)`
/// into an in-memory buffer.
///
/// Trusted: the result is `jpeg_encoding` of the arguments; the encoder
/// panics unless the buffer holds exactly width × height RGB pixels, which
/// `requires` rules out.
#[verifier::external_body]
pub(crate) fn encode_jpeg_rgb8(pixels: &[u8], width: u32, height: u32, quality: u8) -> (r: Result<Vec<u8>, String>)
    requires
        pixels@.len() == (width as int) * (height as int) * 3,
    ensures
        match r {
            Ok(b) => jpeg_encoding(pixels@, width, height, quality) == Ok::<Seq<u8>, Seq<char>>(b@),
            Err(e) => jpeg_encoding(pixels@, width, height, quality) == Err::<Seq<u8>, Seq<char>>(e@),
        },
{
    let mut buffer = std::io::Cursor::new(Vec::new());
    let mut encoder = image::codecs::jpeg::JpegEncoder::new_with_quality(&mut buffer, quality);
    match encoder.encode(pixels, width, height, image::ExtendedColorType::Rgb8) {
        Ok(()) => Ok(buffer.into_inner()),
        Err(e) => Err(e.to_string()),
    }
}

} // verus!
