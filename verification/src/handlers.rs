//! The decisions behind the HTTP endpoints: request security checks, the
//! choice of output format, decoding uploaded images, encoding upscaled
//! ones, output-size limits and the instance-creation outcome.
use crate::error::AppError;
use crate::headers::{join, param_value, Accept, HeaderField, MediaType, MediaTypeView};
use crate::imaging::{
    buffer_encoding, decode_failure, decoded_alpha, decoded_rgb8, decoded_rgba8, encode_jpeg_rgb8,
    format_decode_failure,
    has_alpha, jpeg_encoding, load_guessing_format, load_with_format, to_rgb8_pixels,
    to_rgba8_pixels, write_buffer, ImageKind, PixelLayout,
};
use crate::instance_manager::{
    check_c_string, c_string_problem, exported, import_answer, import_resolves, instance_of,
    is_export, law_export_then_import, state_entry, state_key, uuid_hyphenated, uuid_text,
    ActiveInstance, InstanceManager, InstanceState, InstanceView,
};
use crate::models::{
    CreateInstanceQuery, CreateInstanceRequest, CreateInstanceResponse, PluginDescriptionResponse,
    ValidationResultDesc,
};
use crate::plugin_manager::{
    c_field, c_text, copy_engine_info, copy_plugin_info, engine_view, first_engine_named,
    is_paths_export, last_with_id, opt_bytes, plugin_info_view, EngineInfo, LoadedPlugin,
    PluginManager, PluginManagerState,
};
use crate::plugin_ffi::{UpsclrColorFormat, UpsclrErrorCode};
use crate::raw_bitmap::{
    encode_raw_bitmap, parse_raw_bitmap, raw_bitmap_encoding,
    raw_bitmap_parse,
};
use crate::text::{
    ascii_lower_seq, before_first, before_first_str, decimal_string, decimal_text, has_prefix,
    is_whitespace, parse_u8, parse_u8_spec, starts_with, str_eq, str_eq_ignore_ascii_case, trim,
    trim_end, trim_start, trim_str, ascii_lower,
};
use vstd::prelude::*;
use vstd::string::*;

verus! {

/// Largest accepted request body (100 MiB).
pub const MAX_IMAGE_SIZE_BYTES: usize = 104857600;

/// Which request headers the security check demands.
#[derive(Debug, Clone)]
pub struct SecurityConfig {
    pub require_user_agent_prefix: bool,
    pub require_upsclr_request_header: bool,
}

impl SecurityConfig {
    /// The checks the server makes unless its flags allow any `User-Agent`
    /// or a missing `Upsclr-Request` header.
    pub fn from_flags(allow_any_user_agent: bool, allow_missing_upsclr_request: bool) -> (r: SecurityConfig)
        ensures
            r.require_user_agent_prefix == !allow_any_user_agent,
            r.require_upsclr_request_header == !allow_missing_upsclr_request,
    {
        SecurityConfig {
            require_user_agent_prefix: !allow_any_user_agent,
            require_upsclr_request_header: !allow_missing_upsclr_request,
        }
    }

    /// Whether any check is made at all.
    pub fn is_enabled(&self) -> (r: bool)
        ensures
            r == (self.require_user_agent_prefix || self.require_upsclr_request_header),
    {
        self.require_user_agent_prefix || self.require_upsclr_request_header
    }
}

/// Query of `POST /reset`: whether to reload the plugins as well.
#[derive(Debug, Clone, Copy)]
pub struct ResetQuery {
    pub plugins: Option<bool>,
}

/// What is wrong with the `User-Agent` header, if anything: it must be text
/// starting with `Upsclr/` or `Upsclr-` (case-sensitive).
pub open spec fn user_agent_problem(ua: HeaderField) -> Option<Seq<char>> {
    match ua {
        HeaderField::Absent => Some("Missing required User-Agent header"@),
        HeaderField::NotText => Some("Invalid User-Agent header format"@),
        HeaderField::Text(s) => if has_prefix(s@, "Upsclr/"@) || has_prefix(s@, "Upsclr-"@) {
            None
        } else {
            Some(
                "Invalid User-Agent header: expected to start with 'Upsclr/' or 'Upsclr-', got '"@
                    + s@ + "'"@,
            )
        },
    }
}

/// What is wrong with the `Upsclr-Request` header, if anything: it must be
/// non-empty text.
pub open spec fn upsclr_request_problem(h: HeaderField) -> Option<Seq<char>> {
    match h {
        HeaderField::Absent => Some("Missing required Upsclr-Request header"@),
        HeaderField::NotText => Some("Invalid Upsclr-Request header format"@),
        HeaderField::Text(s) => if s@.len() == 0 {
            Some("Upsclr-Request header must not be empty"@)
        } else {
            None
        },
    }
}

/// The verdict of the security check: the message of the first demanded
/// header that is wrong, the `User-Agent` checked first.
pub open spec fn security_verdict(cfg: SecurityConfig, ua: HeaderField, req: HeaderField) -> Option<
    Seq<char>,
> {
    if cfg.require_user_agent_prefix && user_agent_problem(ua) is Some {
        user_agent_problem(ua)
    } else if cfg.require_upsclr_request_header && upsclr_request_problem(req) is Some {
        upsclr_request_problem(req)
    } else {
        None
    }
}

/// Checks the request headers the configuration demands; a refused request
/// is answered `Forbidden` with the reason.
pub fn validate_request_security(
    config: &SecurityConfig,
    user_agent: &HeaderField,
    upsclr_request: &HeaderField,
) -> (r: Result<(), AppError>)
    ensures
        match security_verdict(*config, *user_agent, *upsclr_request) {
            None => r is Ok,
            Some(m) => r matches Err(AppError::Forbidden(s)) && s@ == m,
        },
{
    if config.require_user_agent_prefix {
        match user_agent {
            HeaderField::Absent => {
                return Err(AppError::Forbidden(String::from_str("Missing required User-Agent header")));
            },
            HeaderField::NotText => {
                return Err(AppError::Forbidden(String::from_str("Invalid User-Agent header format")));
            },
            HeaderField::Text(s) => {
                if !starts_with(s.as_str(), "Upsclr/") && !starts_with(s.as_str(), "Upsclr-") {
                    return Err(
                        AppError::Forbidden(
                            String::from_str(
                                "Invalid User-Agent header: expected to start with 'Upsclr/' or 'Upsclr-', got '",
                            ).concat(s.as_str()).concat("'"),
                        ),
                    );
                }
            },
        }
    }
    if config.require_upsclr_request_header {
        match upsclr_request {
            HeaderField::Absent => {
                return Err(
                    AppError::Forbidden(String::from_str("Missing required Upsclr-Request header")),
                );
            },
            HeaderField::NotText => {
                return Err(
                    AppError::Forbidden(String::from_str("Invalid Upsclr-Request header format")),
                );
            },
            HeaderField::Text(s) => {
                if s.as_str().unicode_len() == 0 {
                    return Err(
                        AppError::Forbidden(
                            String::from_str("Upsclr-Request header must not be empty"),
                        ),
                    );
                }
            },
        }
    }
    Ok(())
}

/// The image format of an upscale answer, with its encoder settings.
#[derive(Debug, Clone, Copy, Eq, PartialEq, Structural)]
pub enum OutputFormat {
    Png { compression: u8 },
    Jpeg { quality: u8 },
    Raw { color_format: UpsclrColorFormat },
}

/// A byte parameter of a media type, or its default when the parameter is
/// absent or not a number in 0..=255.
pub open spec fn byte_param(params: Seq<(Seq<char>, Seq<char>)>, name: Seq<char>, default: u8) -> u8 {
    match param_value(params, name) {
        Some(v) => match parse_u8_spec(v) {
            Some(b) => b,
            None => default,
        },
        None => default,
    }
}

/// The output format a media type asks for: `image/png` (parameter
/// `compression`, default 6), `image/jpeg` (parameter `quality`, default
/// 85) or `image/x-raw-bitmap` (parameter `format`: `bgr`/`bgra` in any case
/// for BGR, anything else or nothing for RGB).
pub open spec fn output_format_for(m: MediaTypeView) -> Option<OutputFormat> {
    if m.1 == "image"@ {
        if m.2 == "png"@ {
            Some(OutputFormat::Png { compression: byte_param(m.3, "compression"@, 6) })
        } else if m.2 == "jpeg"@ {
            Some(OutputFormat::Jpeg { quality: byte_param(m.3, "quality"@, 85) })
        } else if m.2 == "x-raw-bitmap"@ {
            Some(
                OutputFormat::Raw {
                    color_format: match param_value(m.3, "format"@) {
                        Some(v) => if ascii_lower_seq(v) == "bgr"@ || ascii_lower_seq(v)
                            == "bgra"@ {
                            UpsclrColorFormat::Bgr
                        } else {
                            UpsclrColorFormat::Rgb
                        },
                        None => UpsclrColorFormat::Rgb,
                    },
                },
            )
        } else {
            None
        }
    } else {
        None
    }
}

/// Law: an upload whose media type (before any `;`, trimmed) is
/// `image/jpeg`, `image/png` or `image/webp` is decoded by the image crate
/// with that format: it is refused exactly when the crate cannot decode the
/// bytes as that format (with the crate's reason), and otherwise gives the
/// decoded pixels as RGBA when the image has alpha, else as RGB.
pub proof fn law_image_uploads_decode_with_their_format(
    file: Seq<u8>,
    content_type: Seq<char>,
    kind: ImageKind,
    r: Result<DecodedUpload, AppError>,
)
    requires
        (kind == ImageKind::Jpeg && media_type_of(content_type) == "image/jpeg"@) || (kind
            == ImageKind::Png && media_type_of(content_type) == "image/png"@) || (kind
            == ImageKind::WebP && media_type_of(content_type) == "image/webp"@),
        decode_answer(file, Some(content_type), r),
    ensures
        format_decode_failure(file, kind) is None ==> (r matches Ok((data, w, h, c, f)) && f
            == UpsclrColorFormat::Rgb && if decoded_alpha(file, Some(kind)) {
            c == 4 && (data@, w, h) == decoded_rgba8(file, Some(kind))
        } else {
            c == 3 && (data@, w, h) == decoded_rgb8(file, Some(kind))
        }),
        format_decode_failure(file, kind) is Some ==> (r matches Err(
            AppError::ImageProcessingError(m),
        ) && m@ == "Failed to decode image (format: "@ + kind.debug_name() + "): "@
            + format_decode_failure(file, kind)->Some_0),
{
    reveal_strlit("image/jpeg");
    reveal_strlit("image/png");
    reveal_strlit("image/webp");
    reveal_strlit("image/x-raw-bitmap");
    let j = "image/jpeg"@;
    let p = "image/png"@;
    let w = "image/webp"@;
    let x = "image/x-raw-bitmap"@;
    assert(j != p) by {
        assert(j.len() != p.len());
    }
    assert(w != j) by {
        assert(w[6] != j[6]);
    }
    assert(w != p) by {
        assert(w.len() != p.len());
    }
    assert(x != j && x != p && x != w) by {
        assert(x.len() != j.len() && x.len() != p.len() && x.len() != w.len());
    }
    assert(decoder_for(Some(media_type_of(content_type))) == Some(Some(Some(kind))));
}

/// `v` spells the lower-case letters `w` in any mix of upper and lower case.
pub open spec fn spells_any_case(v: Seq<char>, w: Seq<char>) -> bool {
    &&& v.len() == w.len()
    &&& forall|i: int| 0 <= i < v.len() ==> v[i] == w[i] || (v[i] as u32) + 32 == (#[trigger] w[i]) as u32
}

proof fn lemma_lower_is_any_case(v: Seq<char>, w: Seq<char>)
    requires
        forall|i: int| 0 <= i < w.len() ==> 'a' <= #[trigger] w[i] && w[i] <= 'z',
    ensures
        (ascii_lower_seq(v) == w) <==> spells_any_case(v, w),
{
    if ascii_lower_seq(v) == w {
        assert forall|i: int| 0 <= i < v.len() implies v[i] == w[i] || (v[i] as u32) + 32 == (
        #[trigger] w[i]) as u32 by {
            assert(ascii_lower_seq(v)[i] == ascii_lower(v[i]));
        }
    }
    if spells_any_case(v, w) {
        assert forall|i: int| 0 <= i < v.len() implies #[trigger] ascii_lower_seq(v)[i] == w[i] by {
            assert(ascii_lower_seq(v)[i] == ascii_lower(v[i]));
            assert('a' <= w[i] && w[i] <= 'z');
            if (v[i] as u32) + 32 == w[i] as u32 {
                assert('A' <= v[i] && v[i] <= 'Z');
            } else {
                assert(v[i] == w[i]);
            }
        }
        assert(ascii_lower_seq(v) =~= w);
    }
}

/// Law: a raw-bitmap output is BGR exactly when its `format` parameter
/// spells `bgr` or `bgra` in any letter case (`BGR`, `Bgr`, `bgrA`, ...);
/// any other value, or no `format` parameter, gives RGB.
pub proof fn law_raw_format_ignores_letter_case(m: MediaTypeView)
    requires
        m.1 == "image"@,
        m.2 == "x-raw-bitmap"@,
    ensures
        output_format_for(m) == Some(
            OutputFormat::Raw {
                color_format: if param_value(m.3, "format"@) matches Some(v) && (spells_any_case(
                    v,
                    "bgr"@,
                ) || spells_any_case(v, "bgra"@)) {
                    UpsclrColorFormat::Bgr
                } else {
                    UpsclrColorFormat::Rgb
                },
            },
        ),
{
    reveal_strlit("png");
    reveal_strlit("jpeg");
    reveal_strlit("x-raw-bitmap");
    reveal_strlit("bgr");
    reveal_strlit("bgra");
    assert("x-raw-bitmap"@ != "png"@) by {
        assert("x-raw-bitmap"@.len() != "png"@.len());
    }
    assert("x-raw-bitmap"@ != "jpeg"@) by {
        assert("x-raw-bitmap"@.len() != "jpeg"@.len());
    }
    if let Some(v) = param_value(m.3, "format"@) {
        lemma_lower_is_any_case(v, "bgr"@);
        lemma_lower_is_any_case(v, "bgra"@);
    }
}

/// The first listed media type that names an output format.
pub open spec fn first_output_format(items: Seq<MediaTypeView>) -> Option<OutputFormat>
    decreases items.len(),
{
    if items.len() == 0 {
        None
    } else if output_format_for(items[0]) is Some {
        output_format_for(items[0])
    } else {
        first_output_format(items.subrange(1, items.len() as int))
    }
}

pub(crate) fn byte_param_of(m: &MediaType, name: &str, default: u8) -> (r: u8)
    ensures
        r == byte_param(m@.3, name@, default),
{
    match crate::headers::get_param(m, name) {
        Some(v) => match parse_u8(v.as_str()) {
            Some(b) => b,
            None => default,
        },
        None => default,
    }
}

proof fn lemma_first_output_format_skip(items: Seq<MediaTypeView>, i: int)
    requires
        0 <= i <= items.len(),
        forall|k: int| 0 <= k < i ==> (#[trigger] output_format_for(items[k])) is None,
    ensures
        first_output_format(items) == first_output_format(items.subrange(i, items.len() as int)),
    decreases i,
{
    if i > 0 {
        let t = items.subrange(1, items.len() as int);
        assert forall|k: int| 0 <= k < i - 1 implies (#[trigger] output_format_for(t[k])) is None by {
            assert(t[k] == items[k + 1]);
        }
        lemma_first_output_format_skip(t, i - 1);
        assert(t.subrange(i - 1, t.len() as int) =~= items.subrange(i, items.len() as int));
        assert(output_format_for(items[0]) is None);
    } else {
        assert(items.subrange(0, items.len() as int) =~= items);
    }
}

impl OutputFormat {
    /// The output format a media type asks for, if any.
    pub fn try_from_media_type(m: &MediaType) -> (r: Option<OutputFormat>)
        ensures
            r == output_format_for(m@),
    {
        if !str_eq(m.type_.as_str(), "image") {
            return None;
        }
        let sub = m.subtype.as_str();
        if str_eq(sub, "png") {
            Some(OutputFormat::Png { compression: byte_param_of(m, "compression", 6) })
        } else if str_eq(sub, "jpeg") {
            Some(OutputFormat::Jpeg { quality: byte_param_of(m, "quality", 85) })
        } else if str_eq(sub, "x-raw-bitmap") {
            let color_format = match crate::headers::get_param(m, "format") {
                Some(v) => {
                    if str_eq_ignore_ascii_case(v.as_str(), "bgr") || str_eq_ignore_ascii_case(
                        v.as_str(),
                        "bgra",
                    ) {
                        proof {
                            lemma_lower_literal();
                        }
                        UpsclrColorFormat::Bgr
                    } else {
                        proof {
                            lemma_lower_literal();
                        }
                        UpsclrColorFormat::Rgb
                    }
                },
                None => UpsclrColorFormat::Rgb,
            };
            Some(OutputFormat::Raw { color_format })
        } else {
            None
        }
    }

    /// The colour format the plugin is asked to write: RGB for PNG and JPEG,
    /// the requested one for raw bitmaps.
    pub open spec fn color_format_spec(self) -> UpsclrColorFormat {
        match self {
            OutputFormat::Png { .. } => UpsclrColorFormat::Rgb,
            OutputFormat::Jpeg { .. } => UpsclrColorFormat::Rgb,
            OutputFormat::Raw { color_format } => color_format,
        }
    }

    pub fn color_format(&self) -> (r: UpsclrColorFormat)
        ensures
            r == self.color_format_spec(),
    {
        match self {
            OutputFormat::Png { .. } => UpsclrColorFormat::Rgb,
            OutputFormat::Jpeg { .. } => UpsclrColorFormat::Rgb,
            OutputFormat::Raw { color_format } => *color_format,
        }
    }
}

/// The colour format the plugin is asked to write for an output format.
impl From<OutputFormat> for UpsclrColorFormat {
    fn from(value: OutputFormat) -> (r: UpsclrColorFormat) {
        match value {
            OutputFormat::Png { .. } => UpsclrColorFormat::Rgb,
            OutputFormat::Jpeg { .. } => UpsclrColorFormat::Rgb,
            OutputFormat::Raw { color_format } => color_format,
        }
    }
}

impl vstd::std_specs::convert::FromSpecImpl<OutputFormat> for UpsclrColorFormat {
    open spec fn obeys_from_spec() -> bool {
        true
    }

    open spec fn from_spec(v: OutputFormat) -> UpsclrColorFormat {
        v.color_format_spec()
    }
}

proof fn lemma_lower_literal()
    ensures
        ascii_lower_seq("bgr"@) == "bgr"@,
        ascii_lower_seq("bgra"@) == "bgra"@,
{
    reveal_strlit("bgr");
    reveal_strlit("bgra");
    assert(ascii_lower_seq("bgr"@) =~= "bgr"@);
    assert(ascii_lower_seq("bgra"@) =~= "bgra"@);
}

/// The output format of the first media type in the `Accept` header that
/// names one.
pub fn preferred_output_format(accept: &Accept) -> (r: Option<OutputFormat>)
    ensures
        r == first_output_format(accept.0@.map_values(|m: MediaType| m@)),
{
    let ghost items = accept.0@.map_values(|m: MediaType| m@);
    let n = accept.0.len();
    let mut i: usize = 0;
    while i < n
        invariant
            n == accept.0@.len(),
            items == accept.0@.map_values(|m: MediaType| m@),
            0 <= i <= n,
            forall|k: int| 0 <= k < i ==> (#[trigger] output_format_for(items[k])) is None,
        decreases n - i,
    {
        let f = OutputFormat::try_from_media_type(&accept.0[i]);
        proof {
            assert(items[i as int] == accept.0@[i as int]@);
        }
        if f.is_some() {
            proof {
                lemma_first_output_format_skip(items, i as int);
                assert(items.subrange(i as int, n as int)[0] == items[i as int]);
            }
            return f;
        }
        i = i + 1;
    }
    proof {
        lemma_first_output_format_skip(items, n as int);
    }
    None
}

/// The media type of a `Content-Type` value: the text before any `;`, trimmed.
pub open spec fn media_type_of(content_type: Seq<char>) -> Seq<char> {
    trim(before_first(content_type, ';'))
}

/// Which decoder an upload goes to: the image crate (with a format hint
/// when the media type names one), the raw-bitmap parser, or none.
pub open spec fn decoder_for(media: Option<Seq<char>>) -> Option<Option<Option<ImageKind>>> {
    match media {
        None => Some(Some(None)),
        Some(t) => if t == "image/jpeg"@ {
            Some(Some(Some(ImageKind::Jpeg)))
        } else if t == "image/png"@ {
            Some(Some(Some(ImageKind::Png)))
        } else if t == "image/webp"@ {
            Some(Some(Some(ImageKind::WebP)))
        } else if t == "image/x-raw-bitmap"@ {
            Some(None)
        } else {
            None
        },
    }
}

/// The text of an optional string.
pub open spec fn opt_str(s: Option<&str>) -> Option<Seq<char>> {
    match s {
        Some(t) => Some(t@),
        None => None,
    }
}

/// The decoded form of an upload: pixels, width, height, channels, colour format.
pub type DecodedUpload = (Vec<u8>, u32, u32, u8, UpsclrColorFormat);

/// The message prefix of a failed decoding with the image crate.
pub open spec fn decode_failure_prefix(hint: Option<ImageKind>) -> Seq<char> {
    match hint {
        Some(k) => "Failed to decode image (format: "@ + k.debug_name() + "): "@,
        None => "Failed to auto-detect and decode image: "@,
    }
}

/// The message answered for an upload's unsupported media type.
pub open spec fn unsupported_upload_message(media: Seq<char>) -> Seq<char> {
    "Content type '"@ + media
        + "' is not supported. Expected 'image/jpeg', 'image/png', 'image/webp', or 'image/x-raw-bitmap'."@
}

/// What decoding an upload answers, given its bytes and content type.
pub open spec fn decode_answer(
    file: Seq<u8>,
    content_type: Option<Seq<char>>,
    r: Result<DecodedUpload, AppError>,
) -> bool {
    let media = match content_type {
        Some(s) => Some(media_type_of(s)),
        None => None,
    };
    match decoder_for(media) {
        None => r matches Err(AppError::UnsupportedMediaType(m)) && m@ == unsupported_upload_message(
            media->Some_0,
        ),
        Some(None) => match r {
            Ok((data, w, h, c, f)) => raw_bitmap_parse(file) == Ok::<
                (Seq<u8>, u32, u32, u8, UpsclrColorFormat),
                Seq<char>,
            >((data@, w, h, c, f)),
            Err(AppError::ImageProcessingError(m)) => raw_bitmap_parse(file) == Err::<
                (Seq<u8>, u32, u32, u8, UpsclrColorFormat),
                Seq<char>,
            >(m@),
            Err(_) => false,
        },
        Some(Some(hint)) => match decode_failure(file, hint) {
            Some(t) => r matches Err(AppError::ImageProcessingError(m)) && m@
                == decode_failure_prefix(hint) + t,
            None => match r {
                Ok((data, w, h, c, f)) => f == UpsclrColorFormat::Rgb && if decoded_alpha(
                    file,
                    hint,
                ) {
                    c == 4 && (data@, w, h) == decoded_rgba8(file, hint)
                } else {
                    c == 3 && (data@, w, h) == decoded_rgb8(file, hint)
                },
                Err(_) => false,
            },
        },
    }
}

/// Decodes an uploaded image into pixel data, width, height, channel count
/// and colour format. JPEG, PNG and WebP (or an upload without a content
/// type, whose format is guessed) go to the image crate and come out as RGB
/// or RGBA; `image/x-raw-bitmap` is parsed as such; any other media type is
/// refused.
pub fn decode_input_image(file_data: &[u8], content_type_str: Option<&str>) -> (r: Result<
    DecodedUpload,
    AppError,
>)
    ensures
        decode_answer(file_data@, opt_str(content_type_str), r),
        r matches Ok((data, w, h, c, f)) ==> (c == 3 || c == 4) && data@.len() == (w as int) * (
        h as int) * (c as int),
{
    let media: Option<String> = match content_type_str {
        Some(s) => Some(trim_str(before_first_str(s, ';').as_str())),
        None => None,
    };
    let hint: Option<ImageKind> = match &media {
        None => None,
        Some(t) => {
            if str_eq(t.as_str(), "image/jpeg") {
                Some(ImageKind::Jpeg)
            } else if str_eq(t.as_str(), "image/png") {
                Some(ImageKind::Png)
            } else if str_eq(t.as_str(), "image/webp") {
                Some(ImageKind::WebP)
            } else if str_eq(t.as_str(), "image/x-raw-bitmap") {
                return parse_raw_bitmap(file_data);
            } else {
                return Err(
                    AppError::UnsupportedMediaType(
                        String::from_str("Content type '").concat(t.as_str()).concat(
                            "' is not supported. Expected 'image/jpeg', 'image/png', 'image/webp', or 'image/x-raw-bitmap'.",
                        ),
                    ),
                );
            }
        },
    };
    let loaded = match hint {
        Some(kind) => match load_with_format(file_data, kind) {
            Ok(img) => img,
            Err(t) => {
                let m = String::from_str("Failed to decode image (format: ").concat(
                    kind.debug_text().as_str(),
                ).concat("): ").concat(t.as_str());
                return Err(AppError::ImageProcessingError(m));
            },
        },
        None => match load_guessing_format(file_data) {
            Ok(img) => img,
            Err(t) => {
                let m = String::from_str("Failed to auto-detect and decode image: ").concat(
                    t.as_str(),
                );
                return Err(AppError::ImageProcessingError(m));
            },
        },
    };
    if has_alpha(&loaded) {
        let (data, w, h) = to_rgba8_pixels(&loaded);
        Ok((data, w, h, 4, UpsclrColorFormat::Rgb))
    } else {
        let (data, w, h) = to_rgb8_pixels(&loaded);
        Ok((data, w, h, 3, UpsclrColorFormat::Rgb))
    }
}

proof fn lemma_before_first_past(t: Seq<char>, rest: Seq<char>)
    requires
        !t.contains(';'),
    ensures
        before_first(t + seq![';'] + rest, ';') == t,
        before_first(t, ';') == t,
    decreases t.len(),
{
    if t.len() > 0 {
        let u = t.subrange(1, t.len() as int);
        assert(!u.contains(';')) by {
            if u.contains(';') {
                let k = choose|k: int| 0 <= k < u.len() && u[k] == ';';
                assert(t[k + 1] == ';');
            }
        }
        lemma_before_first_past(u, rest);
        assert(t[0] != ';') by {
            assert(t[0] == t[0]);
        }
        assert((t + seq![';'] + rest).subrange(1, (t + seq![';'] + rest).len() as int) =~= u + seq![';']
            + rest);
        assert(seq![t[0]] + u =~= t);
    } else {
        assert(t + seq![';'] + rest =~= seq![';'] + rest);
    }
}

proof fn lemma_trim_space_after(t: Seq<char>)
    ensures
        trim_end(trim_start(t + seq![' '])) == trim_end(trim_start(t)),
    decreases t.len(),
{
    let ts = t + seq![' '];
    assert(is_whitespace(' '));
    if t.len() == 0 {
        assert(ts =~= seq![' ']);
        assert(ts.subrange(1, ts.len() as int) =~= Seq::<char>::empty());
        assert(trim_start(Seq::<char>::empty()) == Seq::<char>::empty());
        assert(trim_start(ts) == Seq::<char>::empty());
        assert(t =~= Seq::<char>::empty());
    } else if is_whitespace(t[0]) {
        let u = t.subrange(1, t.len() as int);
        assert(ts.subrange(1, ts.len() as int) =~= u + seq![' ']);
        lemma_trim_space_after(u);
        assert(trim_start(ts) == trim_start(u + seq![' ']));
        assert(trim_start(t) == trim_start(u));
    } else {
        assert(ts[0] == t[0]);
        assert(trim_start(ts) == ts);
        assert(trim_start(t) == t);
        assert(ts[ts.len() - 1] == ' ');
        assert(ts.subrange(0, ts.len() - 1) =~= t);
        assert(trim_end(ts) == trim_end(t));
    }
}

/// Law: `decode_input_image` reads only the media type of the content
/// type: parameters after a `;` and surrounding spaces give the same answer
/// as the bare media type.
pub proof fn law_decode_ignores_parameters_and_spaces(
    file: Seq<u8>,
    t: Seq<char>,
    params: Seq<char>,
    r: Result<DecodedUpload, AppError>,
)
    requires
        !t.contains(';'),
    ensures
        decode_answer(file, Some(t + ";"@ + params), r) == decode_answer(file, Some(t), r),
        decode_answer(file, Some(" "@ + t + " "@), r) == decode_answer(file, Some(t), r),
{
    reveal_strlit(";");
    reveal_strlit(" ");
    assert(";"@ =~= seq![';']);
    assert(" "@ =~= seq![' ']);
    lemma_before_first_past(t, params);
    assert(media_type_of(t + ";"@ + params) == media_type_of(t));
    let padded = " "@ + t + " "@;
    assert(!(t + seq![' ']).contains(';')) by {
        if (t + seq![' ']).contains(';') {
            let k = choose|k: int| 0 <= k < t.len() + 1 && (t + seq![' '])[k] == ';';
            assert(k < t.len());
            assert(t[k] == ';');
        }
    }
    assert(!padded.contains(';')) by {
        if padded.contains(';') {
            let k = choose|k: int| 0 <= k < padded.len() && padded[k] == ';';
            if k == 0 {
                assert(padded[0] == ' ');
            } else {
                assert(padded[k] == (t + seq![' '])[k - 1]);
            }
        }
    }
    lemma_before_first_past(padded, Seq::empty());
    assert(is_whitespace(' '));
    assert(padded.subrange(1, padded.len() as int) =~= t + seq![' ']);
    assert(trim_start(padded) == trim_start(t + seq![' ']));
    lemma_trim_space_after(t);
    assert(media_type_of(padded) == media_type_of(t));
}

/// The answer an output format's encoding gives for a pixel buffer: the
/// content type and body, or the processing error's message.
pub open spec fn encoded_output(
    pixels: Seq<u8>,
    width: u32,
    height: u32,
    channels: u8,
    format: OutputFormat,
) -> Result<(Seq<char>, Seq<u8>), Seq<char>> {
    match format {
        OutputFormat::Png { .. } => if channels != 3 && channels != 4 {
            Err("Unsupported channel count ("@ + decimal_text(channels as nat) + ")."@)
        } else {
            match buffer_encoding(
                pixels,
                width,
                height,
                channels as int,
                ImageKind::Png.spec_code(),
            ) {
                Ok(b) => Ok(("image/png"@, b)),
                Err(e) => Err("PNG encoding failed: "@ + e),
            }
        },
        OutputFormat::Jpeg { quality } => if channels == 4 {
            Err(
                "JPEG output for 4-channel data (RGBA/BGRA) is not directly supported. Request 3-channel or PNG/RAW."@,
            )
        } else {
            match jpeg_encoding(pixels, width, height, quality) {
                Ok(b) => Ok(("image/jpeg"@, b)),
                Err(e) => Err("JPEG encoding failed: "@ + e),
            }
        },
        OutputFormat::Raw { color_format } => Ok(
            (
                "image/x-raw-bitmap"@,
                raw_bitmap_encoding(pixels, width, height, channels, color_format),
            ),
        ),
    }
}

/// Law: JPEG output of 3-channel pixels is the image crate's JPEG encoding
/// at the quality the client asked for, whatever that quality is; a failed
/// encoding is answered with the encoder's message.
pub proof fn law_jpeg_uses_requested_quality(
    pixels: Seq<u8>,
    width: u32,
    height: u32,
    channels: u8,
    quality: u8,
)
    requires
        channels != 4,
    ensures
        match jpeg_encoding(pixels, width, height, quality) {
            Ok(b) => encoded_output(pixels, width, height, channels, OutputFormat::Jpeg { quality })
                == Ok::<(Seq<char>, Seq<u8>), Seq<char>>(("image/jpeg"@, b)),
            Err(e) => encoded_output(pixels, width, height, channels, OutputFormat::Jpeg { quality })
                == Err::<(Seq<char>, Seq<u8>), Seq<char>>("JPEG encoding failed: "@ + e),
        },
{
}

/// Encodes an upscaled pixel buffer in the requested output format, giving
/// the content type and body of the answer.
pub fn encode_output_image(
    raw_pixel_data: &[u8],
    width: u32,
    height: u32,
    channels: u8,
    output_format: OutputFormat,
) -> (r: Result<(String, Vec<u8>), AppError>)
    requires
        output_format is Png && (channels == 3 || channels == 4) ==> raw_pixel_data@.len() == (
        width as int) * (height as int) * (channels as int),
        output_format is Jpeg && channels != 4 ==> raw_pixel_data@.len() == (width as int) * (
        height as int) * 3,
    ensures
        match (r, encoded_output(raw_pixel_data@, width, height, channels, output_format)) {
            (Ok((ct, body)), Ok((t, b))) => ct@ == t && body@ == b,
            (Err(AppError::ImageProcessingError(m)), Err(t)) => m@ == t,
            _ => false,
        },
        output_format is Jpeg && channels != 4 ==> match jpeg_encoding(
            raw_pixel_data@,
            width,
            height,
            output_format->quality,
        ) {
            Ok(b) => r matches Ok((ct, body)) && body@ == b && ct@ == "image/jpeg"@,
            Err(e) => r matches Err(AppError::ImageProcessingError(m)) && m@ == "JPEG encoding failed: "@ + e,
        },
{
    match output_format {
        OutputFormat::Png { .. } => {
            let layout = if channels == 3 {
                PixelLayout::Rgb8
            } else if channels == 4 {
                PixelLayout::Rgba8
            } else {
                return Err(
                    AppError::ImageProcessingError(
                        String::from_str("Unsupported channel count (").concat(
                            decimal_string(channels as u64).as_str(),
                        ).concat(")."),
                    ),
                );
            };
            match write_buffer(raw_pixel_data, width, height, layout, ImageKind::Png) {
                Ok(bytes) => Ok((String::from_str("image/png"), bytes)),
                Err(e) => Err(
                    AppError::ImageProcessingError(
                        String::from_str("PNG encoding failed: ").concat(e.as_str()),
                    ),
                ),
            }
        },
        OutputFormat::Jpeg { quality } => {
            if channels == 4 {
                return Err(
                    AppError::ImageProcessingError(
                        String::from_str(
                            "JPEG output for 4-channel data (RGBA/BGRA) is not directly supported. Request 3-channel or PNG/RAW.",
                        ),
                    ),
                );
            }
            match encode_jpeg_rgb8(raw_pixel_data, width, height, quality) {
                Ok(bytes) => Ok((String::from_str("image/jpeg"), bytes)),
                Err(e) => Err(
                    AppError::ImageProcessingError(
                        String::from_str("JPEG encoding failed: ").concat(e.as_str()),
                    ),
                ),
            }
        },
        OutputFormat::Raw { color_format } => {
            let body = encode_raw_bitmap(raw_pixel_data, width, height, channels, color_format);
            Ok((String::from_str("image/x-raw-bitmap"), body))
        },
    }
}

/// A scale factor is accepted when it is greater than 1.
pub fn check_scale(scale: i32) -> (r: Result<(), AppError>)
    ensures
        scale > 1 ==> r is Ok,
        scale <= 1 ==> (r matches Err(AppError::BadRequest(m)) && m@
            == "Invalid 'scale' parameter. Must be greater than 1."@),
{
    if scale <= 1 {
        Err(
            AppError::BadRequest(
                String::from_str("Invalid 'scale' parameter. Must be greater than 1."),
            ),
        )
    } else {
        Ok(())
    }
}

/// Largest output buffer an upscale may ask for (20000 × 20000 pixels of 4 bytes).
pub const MAX_OUTPUT_BYTES: usize = 1600000000;

/// `a * b` saturated at the largest value of the type.
pub open spec fn sat_mul(a: int, b: int, max: int) -> int {
    if a * b > max {
        max
    } else {
        a * b
    }
}

/// The output dimensions of an upscale (each input dimension times the
/// scale, saturated at `u32::MAX`) and its buffer size in bytes (saturated
/// at `usize::MAX`).
pub open spec fn output_plan(in_w: u32, in_h: u32, channels: u8, scale: i32) -> (u32, u32, int) {
    let w = sat_mul(in_w as int, scale as int, u32::MAX as int);
    let h = sat_mul(in_h as int, scale as int, u32::MAX as int);
    let size = sat_mul(sat_mul(w, h, usize::MAX as int), channels as int, usize::MAX as int);
    (w as u32, h as u32, size)
}

fn sat_mul_u32(a: u32, b: u32) -> (r: u32)
    ensures
        r == sat_mul(a as int, b as int, u32::MAX as int),
{
    assert((a as int) * (b as int) <= 0xffff_ffffint * 0xffff_ffffint) by (nonlinear_arith)
        requires
            a <= 0xffff_ffffint,
            b <= 0xffff_ffffint,
    ;
    let p: u64 = (a as u64) * (b as u64);
    assert(p == (a as int) * (b as int)) by (nonlinear_arith)
        requires
            p == (a as u64) * (b as u64),
    ;
    if p > (u32::MAX as u64) {
        u32::MAX
    } else {
        p as u32
    }
}

fn sat_mul_usize(a: usize, b: usize) -> (r: usize)
    ensures
        r == sat_mul(a as int, b as int, usize::MAX as int),
{
    assert((a as int) * (b as int) <= (usize::MAX as int) * (usize::MAX as int)) by (nonlinear_arith)
        requires
            a <= usize::MAX,
            b <= usize::MAX,
    ;
    assert((usize::MAX as int) * (usize::MAX as int) < 0x1_0000_0000_0000_0000_0000_0000_0000_0000int) by (nonlinear_arith)
        requires
            usize::MAX <= 0xffff_ffff_ffff_ffffint,
    ;
    let p: u128 = (a as u128) * (b as u128);
    if p > (usize::MAX as u128) {
        usize::MAX
    } else {
        p as usize
    }
}

/// The message answered when an upscale's output would be empty or too large.
pub open spec fn oversize_message(w: u32, h: u32) -> Seq<char> {
    "Calculated output image dimensions ("@ + decimal_text(w as nat) + "x"@ + decimal_text(h as nat)
        + ") result in an excessively large buffer requirement."@
}

proof fn lemma_plan_exact(in_w: u32, in_h: u32, c: u8, scale: i32)
    requires
        scale > 1,
    ensures
        ({
            let (w, h, size) = output_plan(in_w, in_h, c, scale);
            0 < size <= MAX_OUTPUT_BYTES ==> size == (w as int) * (h as int) * (c as int)
        }),
{
    let (w, h, size) = output_plan(in_w, in_h, c, scale);
    let ww = sat_mul(in_w as int, scale as int, u32::MAX as int);
    let hh = sat_mul(in_h as int, scale as int, u32::MAX as int);
    let x = sat_mul(ww, hh, usize::MAX as int);
    if 0 < size <= MAX_OUTPUT_BYTES {
        assert(usize::MAX >= 0xffff_ffff);
        assert(size == x * (c as int));
        assert(c >= 1) by (nonlinear_arith)
            requires
                0 < x * (c as int),
                x >= 0,
        ;
        assert(x <= size) by (nonlinear_arith)
            requires
                size == x * (c as int),
                c >= 1,
                x >= 0,
        ;
        assert(x == ww * hh);
        assert(0 <= ww <= u32::MAX && 0 <= hh <= u32::MAX);
        assert(w as int == ww && h as int == hh);
    }
}

/// Plans the output buffer of an upscale: width, height, channel count and
/// byte size. The request is refused when the size is zero or above
/// `MAX_OUTPUT_BYTES`.
pub fn plan_output_buffer(in_w: u32, in_h: u32, in_channels: u8, scale: i32) -> (r: Result<
    (u32, u32, u8, usize),
    AppError,
>)
    requires
        scale > 1,
    ensures
        ({
            let (w, h, size) = output_plan(in_w, in_h, in_channels, scale);
            if size == 0 || size > MAX_OUTPUT_BYTES {
                r matches Err(AppError::UnprocessableContent(m)) && m@ == oversize_message(w, h)
            } else {
                r == Ok::<(u32, u32, u8, usize), AppError>((w, h, in_channels, size as usize))
            }
        }),
        r matches Ok((w, h, c, size)) ==> size == (w as int) * (h as int) * (c as int),
{
    proof {
        lemma_plan_exact(in_w, in_h, in_channels, scale);
    }
    let s = scale as u32;
    let out_w = sat_mul_u32(in_w, s);
    let out_h = sat_mul_u32(in_h, s);
    let size = sat_mul_usize(sat_mul_usize(out_w as usize, out_h as usize), in_channels as usize);
    if size == 0 || size > MAX_OUTPUT_BYTES {
        return Err(
            AppError::UnprocessableContent(
                String::from_str("Calculated output image dimensions (").concat(
                    decimal_string(out_w as u64).as_str(),
                ).concat("x").concat(decimal_string(out_h as u64).as_str()).concat(
                    ") result in an excessively large buffer requirement.",
                ),
            ),
        );
    }
    Ok((out_w, out_h, in_channels, size))
}

/// A plugin's answer to a configuration validation, as read through its C
/// interface: the flag, the counts, and the C strings of the messages
/// (`None` for a null array or a null string).
pub struct RawValidationResult {
    pub is_valid: bool,
    pub error_count: usize,
    pub error_messages: Option<Vec<Option<Vec<u8>>>>,
    pub warning_count: usize,
    pub warning_messages: Option<Vec<Option<Vec<u8>>>>,
}

/// The C strings of a message array, as plain values; a null array has none.
pub open spec fn raw_messages(v: Option<Vec<Option<Vec<u8>>>>) -> Seq<Option<Seq<u8>>> {
    match v {
        None => Seq::empty(),
        Some(items) => items@.map_values(|b: Option<Vec<u8>>| opt_bytes(b)),
    }
}

/// What one message reads as; one that cannot be read says why.
pub open spec fn message_text(raw: Option<Seq<u8>>, kind: Seq<char>) -> Seq<char> {
    match c_text(raw) {
        Ok(t) => t,
        Err(e) => "Failed to parse "@ + kind + " message from plugin: "@ + e,
    }
}

/// What the messages of an array read as.
pub open spec fn message_texts(raw: Seq<Option<Seq<u8>>>, kind: Seq<char>) -> Seq<Seq<char>> {
    Seq::new(raw.len(), |i: int| message_text(raw[i], kind))
}

/// The texts of a list of strings.
pub open spec fn texts(v: Seq<String>) -> Seq<Seq<char>> {
    v.map_values(|s: String| s@)
}

/// Whether `d` describes the plugin's answer `raw`; no answer (a null
/// result) stands for a valid configuration without messages.
pub open spec fn describes(d: ValidationResultDesc, raw: Option<RawValidationResult>) -> bool {
    match raw {
        None => {
            &&& d.is_valid
            &&& d.error_count == 0
            &&& d.error_messages@.len() == 0
            &&& d.warning_count == 0
            &&& d.warning_messages@.len() == 0
        },
        Some(r) => {
            &&& d.is_valid == r.is_valid
            &&& d.error_count == r.error_count
            &&& texts(d.error_messages@) == message_texts(raw_messages(r.error_messages), "error"@)
            &&& d.warning_count == r.warning_count
            &&& texts(d.warning_messages@) == message_texts(
                raw_messages(r.warning_messages),
                "warning"@,
            )
        },
    }
}

fn read_messages(v: &Option<Vec<Option<Vec<u8>>>>, kind: &str) -> (r: Vec<String>)
    ensures
        texts(r@) == message_texts(raw_messages(*v), kind@),
{
    let mut out: Vec<String> = Vec::new();
    match v {
        None => {
            assert(texts(out@) =~= message_texts(raw_messages(*v), kind@));
        },
        Some(items) => {
            let ghost raw = raw_messages(*v);
            let n = items.len();
            let mut i: usize = 0;
            while i < n
                invariant
                    raw == items@.map_values(|b: Option<Vec<u8>>| opt_bytes(b)),
                    n == items@.len(),
                    0 <= i <= n,
                    out@.len() == i,
                    forall|k: int| 0 <= k < i ==> (#[trigger] out@[k])@ == message_text(raw[k], kind@),
                decreases n - i,
            {
                let t = match c_field(&items[i]) {
                    Ok(t) => t,
                    Err(e) => String::from_str("Failed to parse ").concat(kind).concat(
                        " message from plugin: ",
                    ).concat(e.as_str()),
                };
                proof {
                    assert(raw[i as int] == opt_bytes(items@[i as int]));
                }
                out.push(t);
                i = i + 1;
            }
            assert(texts(out@) =~= message_texts(raw, kind@));
        },
    }
    out
}

/// Describes a plugin's answer to a configuration validation.
pub fn validation_desc_from_raw(raw: &Option<RawValidationResult>) -> (r: ValidationResultDesc)
    ensures
        describes(r, *raw),
{
    match raw {
        None => {
            let r = ValidationResultDesc {
                is_valid: true,
                error_count: 0,
                error_messages: Vec::new(),
                warning_count: 0,
                warning_messages: Vec::new(),
            };
            r
        },
        Some(v) => {
            proof {
                reveal_strlit("error");
                reveal_strlit("warning");
            }
            let errors = read_messages(&v.error_messages, "error");
            let warnings = read_messages(&v.warning_messages, "warning");
            ValidationResultDesc {
                is_valid: v.is_valid,
                error_count: v.error_count,
                error_messages: errors,
                warning_count: v.warning_count,
                warning_messages: warnings,
            }
        },
    }
}

/// What `{:?}` prints for a string: the text quoted, with its special
/// characters escaped.
pub uninterp spec fn str_debug(s: Seq<char>) -> Seq<char>;

/// `format!("{:?}", s)` for a string.
///
/// Trusted: the result is `str_debug` of the text.
#[verifier::external_body]
fn debug_quoted(s: &str) -> (r: String)
    ensures
        r@ == str_debug(s@),
{
    format!("{:?}", s)
}

/// What `{:?}` prints for a list of strings: each one quoted, between
/// brackets, separated by `, `.
pub open spec fn debug_list(items: Seq<Seq<char>>) -> Seq<char> {
    "["@ + join(items.map_values(|t: Seq<char>| str_debug(t)), ", "@) + "]"@
}

/// Renders a list of strings as `{:?}` does.
pub fn debug_list_string(items: &Vec<String>) -> (r: String)
    ensures
        r@ == debug_list(texts(items@)),
{
    let ghost q = texts(items@).map_values(|t: Seq<char>| str_debug(t));
    let n = items.len();
    let mut acc = String::from_str("");
    let mut i: usize = 0;
    proof {
        reveal_strlit("");
        assert(acc@ =~= join(q.subrange(0, 0), ", "@));
    }
    while i < n
        invariant
            n == items@.len(),
            q == texts(items@).map_values(|t: Seq<char>| str_debug(t)),
            q.len() == n,
            0 <= i <= n,
            acc@ == join(q.subrange(0, i as int), ", "@),
        decreases n - i,
    {
        let piece = debug_quoted(items[i].as_str());
        proof {
            assert(q[i as int] == str_debug(items@[i as int]@));
            let next = q.subrange(0, i + 1);
            assert(next.drop_last() =~= q.subrange(0, i as int));
            assert(next.last() == q[i as int]);
        }
        if i == 0 {
            acc = piece;
            proof {
                assert(q.subrange(0, 1).len() == 1);
            }
        } else {
            acc = acc.concat(", ").concat(piece.as_str());
        }
        i = i + 1;
    }
    proof {
        assert(q.subrange(0, n as int) =~= q);
    }
    String::from_str("[").concat(acc.as_str()).concat("]")
}

/// Whether `validate` may answer `raw` for the plugin's engine and a
/// configuration text.
pub open spec fn validated_as<V: Fn(&LoadedPlugin, usize, &str) -> Option<RawValidationResult>>(
    validate: V,
    plugin: LoadedPlugin,
    index: usize,
    config: Seq<char>,
    raw: Option<RawValidationResult>,
) -> bool {
    exists|c: &str| c@ == config && #[trigger] call_ensures(validate, (&plugin, index, c), raw)
}

/// Whether `create` may answer `handle` for the plugin's engine and a
/// configuration text.
pub open spec fn created_as<F: Fn(&LoadedPlugin, usize, &str) -> usize>(
    create: F,
    plugin: LoadedPlugin,
    index: usize,
    config: Seq<char>,
    handle: usize,
) -> bool {
    exists|c: &str| c@ == config && #[trigger] call_ensures(create, (&plugin, index, c), handle)
}

/// The message answered when an engine name is unknown to a plugin.
pub open spec fn engine_not_found_message(engine: Seq<char>, plugin: Seq<char>) -> Seq<char> {
    "Engine '"@ + engine + "' not found in plugin '"@ + plugin + "'"@
}

/// The message answered when the plugin finds a configuration invalid.
pub open spec fn invalid_config_message(errors: Seq<Seq<char>>) -> Seq<char> {
    "Engine configuration is invalid. Errors: "@ + debug_list(errors)
}

/// The answer of `POST /instances` once the plugin has answered `raw` to
/// the validation of a configuration it may be handed, with the registry
/// before and after.
pub open spec fn create_answer<F: Fn(&LoadedPlugin, usize, &str) -> usize>(
    r: Result<(CreateInstanceResponse, Option<ActiveInstance>), AppError>,
    raw: Option<RawValidationResult>,
    dry_run: Option<bool>,
    create: F,
    plugin: LoadedPlugin,
    index: usize,
    config: Seq<char>,
    before: Map<u128, InstanceView>,
    after: Map<u128, InstanceView>,
) -> bool {
    match r {
        Ok((resp, displaced)) => {
            &&& resp.validation matches Some(d) && describes(d, raw)
            &&& if dry_run == Some(true) {
                &&& resp.instance_id is None
                &&& displaced is None
                &&& after == before
            } else {
                &&& resp.validation->0.is_valid
                &&& resp.instance_id matches Some(id) && {
                    let h = after[id].handle;
                    &&& h != 0
                    &&& created_as(create, plugin, index, config, h)
                    &&& after == before.insert(id, instance_of(id, h, plugin, index, config))
                    &&& match displaced {
                        Some(d) => before.contains_key(id) && d@ == before[id],
                        None => !before.contains_key(id),
                    }
                }
            }
        },
        Err(AppError::BadRequest(m)) => {
            &&& dry_run != Some(true)
            &&& raw matches Some(rv) && !rv.is_valid && m@ == invalid_config_message(
                message_texts(raw_messages(rv.error_messages), "error"@),
            )
            &&& after == before
        },
        Err(AppError::InstanceCreationFailed(m)) => {
            &&& dry_run != Some(true)
            &&& (raw is None || raw->Some_0.is_valid)
            &&& created_as(create, plugin, index, config, 0)
            &&& m@ == "Plugin returned a null pointer, indicating instance creation failed."@
            &&& after == before
        },
        Err(_) => false,
    }
}

/// `POST /instances`: validates an engine configuration with the plugin
/// (through `validate`) and, unless it is a dry run, creates the instance
/// (through `create`) when the plugin found the configuration valid. Gives
/// the answer and, should the new UUID already be taken, the instance it
/// replaced.
pub fn create_instance_handler<
    V: Fn(&LoadedPlugin, usize, &str) -> Option<RawValidationResult>,
    F: Fn(&LoadedPlugin, usize, &str) -> usize,
>(
    plugin_manager: &PluginManager,
    instance_manager: &mut InstanceManager,
    query: CreateInstanceQuery,
    payload: &CreateInstanceRequest,
    validate: V,
    create: F,
) -> (r: Result<(CreateInstanceResponse, Option<ActiveInstance>), AppError>)
    requires
        forall|p: &LoadedPlugin, i: usize, c: &str| validate.requires((p, i, c)),
        forall|p: &LoadedPlugin, i: usize, c: &str| create.requires((p, i, c)),
    ensures
        match last_with_id(plugin_manager.plugins@, payload.plugin_id@) {
            None => r matches Err(AppError::PluginNotFound(m)) && m@ == payload.plugin_id@
                && final(instance_manager)@ == old(instance_manager)@,
            Some(k) => {
                let plugin = plugin_manager.plugins@[k];
                match first_engine_named(plugin.engines_info@, payload.engine_name@) {
                    None => r matches Err(AppError::EngineNotFound(m)) && m@
                        == engine_not_found_message(payload.engine_name@, payload.plugin_id@)
                        && final(instance_manager)@ == old(instance_manager)@,
                    Some(index) => match c_string_problem(payload.config@) {
                        Some(msg) => r matches Err(AppError::CStringError(m)) && m@ == msg
                            && final(instance_manager)@ == old(instance_manager)@,
                        None => exists|raw: Option<RawValidationResult>|
                            #[trigger] validated_as(validate, plugin, index as usize, payload.config@, raw)
                                && create_answer(
                                r,
                                raw,
                                query.dry_run,
                                create,
                                plugin,
                                index as usize,
                                payload.config@,
                                old(instance_manager)@,
                                final(instance_manager)@,
                            ),
                    },
                }
            },
        },
{
    let dry_run = match query.dry_run {
        Some(b) => b,
        None => false,
    };
    let plugin = match plugin_manager.find_plugin_by_id(payload.plugin_id.as_str()) {
        Some(p) => p,
        None => {
            return Err(AppError::PluginNotFound(payload.plugin_id.clone()));
        },
    };
    let engine_index = match plugin.find_engine_index(payload.engine_name.as_str()) {
        Some(i) => i,
        None => {
            return Err(
                AppError::EngineNotFound(
                    String::from_str("Engine '").concat(payload.engine_name.as_str()).concat(
                        "' not found in plugin '",
                    ).concat(payload.plugin_id.as_str()).concat("'"),
                ),
            );
        },
    };
    let config = payload.config.as_str();
    match check_c_string(config) {
        Ok(()) => {},
        Err(e) => {
            return Err(e);
        },
    }
    let raw = validate(plugin, engine_index, config);
    let desc = validation_desc_from_raw(&raw);
    let ghost gk = last_with_id(plugin_manager.plugins@, payload.plugin_id@)->0;
    let ghost gidx = first_engine_named(
        plugin_manager.plugins@[gk].engines_info@,
        payload.engine_name@,
    )->0;
    proof {
        assert(gidx as usize == engine_index);
        assert(plugin_manager.plugins@[gk] == *plugin);
        assert(validated_as(validate, *plugin, engine_index, payload.config@, raw));
        assert(validated_as(
            validate,
            plugin_manager.plugins@[gk],
            gidx as usize,
            payload.config@,
            raw,
        ));
    }
    let ghost before = instance_manager@;
    if dry_run {
        let res = Ok((CreateInstanceResponse { instance_id: None, validation: Some(desc) }, None));
        proof {
            assert(create_answer(
                res,
                raw,
                query.dry_run,
                create,
                plugin_manager.plugins@[gk],
                gidx as usize,
                payload.config@,
                before,
                instance_manager@,
            ));
        }
        return res;
    }
    if !desc.is_valid {
        let m = String::from_str("Engine configuration is invalid. Errors: ").concat(
            debug_list_string(&desc.error_messages).as_str(),
        );
        let res = Err(AppError::BadRequest(m));
        proof {
            reveal_strlit("error");
            assert(describes(desc, raw));
            assert(create_answer(
                res,
                raw,
                query.dry_run,
                create,
                plugin_manager.plugins@[gk],
                gidx as usize,
                payload.config@,
                before,
                instance_manager@,
            ));
        }
        return res;
    }
    match instance_manager.create_instance(plugin, engine_index, config, create) {
        Ok((id, displaced)) => {
            let res = Ok(
                (CreateInstanceResponse { instance_id: Some(id), validation: Some(desc) }, displaced),
            );
            proof {
                let h = instance_manager@[id].handle;
                assert(created_as(create, *plugin, engine_index, payload.config@, h));
                assert(create_answer(
                    res,
                    raw,
                    query.dry_run,
                    create,
                    plugin_manager.plugins@[gk],
                    gidx as usize,
                    payload.config@,
                    before,
                    instance_manager@,
                ));
            }
            res
        },
        Err(e) => {
            let res = Err(e);
            proof {
                if res matches Err(AppError::InstanceCreationFailed(_)) {
                    assert(created_as(create, *plugin, engine_index, payload.config@, 0));
                }
                assert(create_answer(
                    res,
                    raw,
                    query.dry_run,
                    create,
                    plugin_manager.plugins@[gk],
                    gidx as usize,
                    payload.config@,
                    before,
                    instance_manager@,
                ));
            }
            res
        },
    }
}

/// The texts of the media types of an `Accept` header.
pub open spec fn accept_texts(items: Seq<MediaType>) -> Seq<Seq<char>> {
    items.map_values(|m: MediaType| m.text@)
}

/// The media types of an `Accept` header as plain views.
pub open spec fn accept_views(items: Seq<MediaType>) -> Seq<MediaTypeView> {
    items.map_values(|m: MediaType| m@)
}

/// What `{:?}` prints for an `Accept` header.
pub open spec fn accept_debug(items: Seq<MediaType>) -> Seq<char> {
    "Accept("@ + debug_list(accept_texts(items)) + ")"@
}

/// The output format the `Accept` header asks for; `NotAcceptable` (with
/// the header as `{:?}` prints it) when none of its media types names one.
pub fn output_format_for_accept(accept: &Accept) -> (r: Result<OutputFormat, AppError>)
    ensures
        match first_output_format(accept_views(accept.0@)) {
            Some(f) => r == Ok::<OutputFormat, AppError>(f),
            None => r matches Err(AppError::NotAcceptable(m)) && m@ == accept_debug(accept.0@),
        },
{
    match preferred_output_format(accept) {
        Some(f) => {
            proof {
                assert(accept_views(accept.0@) =~= accept.0@.map_values(|m: MediaType| m@));
            }
            Ok(f)
        },
        None => {
            let n = accept.0.len();
            let mut items: Vec<String> = Vec::new();
            let mut i: usize = 0;
            while i < n
                invariant
                    n == accept.0@.len(),
                    0 <= i <= n,
                    items@.len() == i,
                    forall|k: int| 0 <= k < i ==> (#[trigger] items@[k])@ == accept.0@[k].text@,
                decreases n - i,
            {
                items.push(accept.0[i].text.clone());
                i = i + 1;
            }
            proof {
                assert(texts(items@) =~= accept_texts(accept.0@));
                assert(accept_views(accept.0@) =~= accept.0@.map_values(|m: MediaType| m@));
            }
            let m = String::from_str("Accept(").concat(debug_list_string(&items).as_str()).concat(
                ")",
            );
            Err(AppError::NotAcceptable(m))
        },
    }
}

/// Everything an upscale needs once the request has been read: the
/// instance, the decoded input, the output buffer's shape and the output
/// format.
pub struct UpscaleJob {
    pub instance_handle: usize,
    pub plugin_id: String,
    pub scale: i32,
    pub input: Vec<u8>,
    pub in_width: u32,
    pub in_height: u32,
    pub in_channels: u8,
    pub in_color_format: UpsclrColorFormat,
    pub out_width: u32,
    pub out_height: u32,
    pub out_channels: u8,
    pub out_size: usize,
    pub output_format: OutputFormat,
}

/// The shape of a job's output buffer is consistent.
pub open spec fn job_shape_ok(job: UpscaleJob) -> bool {
    &&& job.out_channels == 3 || job.out_channels == 4
    &&& job.out_size == (job.out_width as int) * (job.out_height as int) * (job.out_channels as int)
}

/// Prepares `POST /instances/{uuid}/upscale` once the upload has been read:
/// finds the instance (`InstanceNotFound`), decodes the upload, plans the
/// output buffer (`UnprocessableContent` when it would be empty or too
/// large) and picks the output format from the `Accept` header
/// (`NotAcceptable` when it names none), in that order.
pub fn prepare_upscale(
    instance_manager: &InstanceManager,
    uuid: u128,
    scale: i32,
    accept: &Accept,
    file_data: &[u8],
    content_type: Option<&str>,
) -> (r: Result<UpscaleJob, AppError>)
    requires
        scale > 1,
    ensures
        !instance_manager@.contains_key(uuid) ==> r matches Err(AppError::InstanceNotFound),
        instance_manager@.contains_key(uuid) ==> match r {
            Ok(job) => {
                let inst = instance_manager@[uuid];
                let (w, h, size) = output_plan(job.in_width, job.in_height, job.in_channels, scale);
                &&& job.instance_handle == inst.handle
                &&& job.plugin_id@ == inst.plugin_id
                &&& job.scale == scale
                &&& decode_answer(
                    file_data@,
                    opt_str(content_type),
                    Ok((job.input, job.in_width, job.in_height, job.in_channels, job.in_color_format)),
                )
                &&& 0 < size <= MAX_OUTPUT_BYTES
                &&& job.out_width == w && job.out_height == h && job.out_size == size
                &&& job.out_channels == job.in_channels
                &&& job_shape_ok(job)
                &&& first_output_format(accept_views(accept.0@)) == Some(job.output_format)
            },
            Err(e) => {
                ||| decode_answer(file_data@, opt_str(content_type), Err(e))
                ||| exists|d: DecodedUpload|
                    #[trigger] decode_answer(file_data@, opt_str(content_type), Ok(d)) && {
                        let (w, h, size) = output_plan(d.1, d.2, d.3, scale);
                        if size == 0 || size > MAX_OUTPUT_BYTES {
                            e matches AppError::UnprocessableContent(m) && m@ == oversize_message(w, h)
                        } else {
                            &&& first_output_format(accept_views(accept.0@)) is None
                            &&& e matches AppError::NotAcceptable(m) && m@ == accept_debug(accept.0@)
                        }
                    }
            },
        },
{
    let inst = match instance_manager.get_instance(uuid) {
        Some(i) => i,
        None => {
            return Err(AppError::InstanceNotFound);
        },
    };
    let decoded = decode_input_image(file_data, content_type);
    let (input, in_w, in_h, in_c, in_f) = match decoded {
        Ok(d) => d,
        Err(e) => {
            return Err(e);
        },
    };
    let ghost d: DecodedUpload = (input, in_w, in_h, in_c, in_f);
    proof {
        assert(decode_answer(file_data@, opt_str(content_type), Ok(d)));
    }
    let (out_w, out_h, out_c, out_size) = match plan_output_buffer(in_w, in_h, in_c, scale) {
        Ok(p) => p,
        Err(e) => {
            return Err(e);
        },
    };
    let output_format = match output_format_for_accept(accept) {
        Ok(f) => f,
        Err(e) => {
            return Err(e);
        },
    };
    Ok(
        UpscaleJob {
            instance_handle: inst.instance_handle,
            plugin_id: inst.plugin_id.clone(),
            scale,
            input,
            in_width: in_w,
            in_height: in_h,
            in_channels: in_c,
            in_color_format: in_f,
            out_width: out_w,
            out_height: out_h,
            out_channels: out_c,
            out_size,
            output_format,
        },
    )
}

/// The details of a failed plugin operation on an instance.
pub open spec fn plugin_failure_details(what: Seq<char>, code: UpsclrErrorCode, uuid: u128) -> Seq<
    char,
> {
    what + " failed with code: "@ + code.debug_name() + " for instance "@ + uuid_hyphenated(uuid)
}

fn plugin_failure(operation: &str, what: &str, code: UpsclrErrorCode, uuid: u128) -> (r: AppError)
    ensures
        r matches AppError::PluginOperationFailed { operation: o, details: d } && o@ == operation@
            && d@ == plugin_failure_details(what@, code, uuid),
{
    AppError::PluginOperationFailed {
        operation: String::from_str(operation),
        details: String::from_str(what).concat(" failed with code: ").concat(
            code.debug_text().as_str(),
        ).concat(" for instance ").concat(uuid_text(uuid).as_str()),
    }
}

/// Finishes an upscale once the plugin has answered `code` and filled
/// `output`: a failure code is answered `PluginOperationFailed`, else the
/// output is encoded in the job's output format (content type and body).
pub fn finish_upscale(job: &UpscaleJob, uuid: u128, code: UpsclrErrorCode, output: &[u8]) -> (r:
    Result<(String, Vec<u8>), AppError>)
    requires
        job_shape_ok(*job),
        output@.len() == job.out_size,
    ensures
        code != UpsclrErrorCode::Success ==> (r matches Err(
            AppError::PluginOperationFailed { operation: o, details: d },
        ) && o@ == "upscale_image"@ && d@ == plugin_failure_details("Plugin upscale operation"@, code, uuid)),
        code == UpsclrErrorCode::Success ==> match (
            r,
            encoded_output(
                output@,
                job.out_width,
                job.out_height,
                job.out_channels,
                job.output_format,
            ),
        ) {
            (Ok((ct, body)), Ok((t, b))) => ct@ == t && body@ == b,
            (Err(AppError::ImageProcessingError(m)), Err(t)) => m@ == t,
            _ => false,
        },
{
    if code != UpsclrErrorCode::Success {
        return Err(plugin_failure("upscale_image", "Plugin upscale operation", code, uuid));
    }
    encode_output_image(output, job.out_width, job.out_height, job.out_channels, job.output_format)
}

/// Checks `POST /instances/{uuid}/preload?scale=N` before the plugin is
/// asked: the scale (`BadRequest`) and the instance (`InstanceNotFound`).
/// Gives the instance's address and plugin id.
pub fn preload_target(instance_manager: &InstanceManager, uuid: u128, scale: i32) -> (r: Result<
    (usize, String),
    AppError,
>)
    ensures
        scale <= 1 ==> (r matches Err(AppError::BadRequest(m)) && m@
            == "Invalid 'scale' parameter. Must be greater than 1."@),
        scale > 1 && !instance_manager@.contains_key(uuid) ==> r matches Err(
            AppError::InstanceNotFound,
        ),
        scale > 1 && instance_manager@.contains_key(uuid) ==> (r matches Ok((h, p)) && h
            == instance_manager@[uuid].handle && p@ == instance_manager@[uuid].plugin_id),
{
    match check_scale(scale) {
        Ok(()) => {},
        Err(e) => {
            return Err(e);
        },
    }
    match instance_manager.get_instance(uuid) {
        Some(inst) => Ok((inst.instance_handle, inst.plugin_id.clone())),
        None => Err(AppError::InstanceNotFound),
    }
}

/// The answer of a preload once the plugin has answered `code`.
pub fn preload_outcome(uuid: u128, code: UpsclrErrorCode) -> (r: Result<(), AppError>)
    ensures
        code == UpsclrErrorCode::Success ==> r is Ok,
        code != UpsclrErrorCode::Success ==> (r matches Err(
            AppError::PluginOperationFailed { operation: o, details: d },
        ) && o@ == "preload_instance"@ && d@ == plugin_failure_details("Plugin preload"@, code, uuid)),
{
    if code == UpsclrErrorCode::Success {
        Ok(())
    } else {
        Err(plugin_failure("preload_instance", "Plugin preload", code, uuid))
    }
}

/// Whether a request's `Content-Type` announces a multipart form.
pub fn is_multipart(content_type: &str) -> (r: bool)
    ensures
        r == has_prefix(content_type@, "multipart/form-data"@),
{
    starts_with(content_type, "multipart/form-data")
}

/// The message answered for a direct upload of an unsupported type.
pub open spec fn unsupported_direct_message(content_type: Seq<char>) -> Seq<char> {
    "Content-Type '"@ + content_type
        + "' is not supported. Expected image/*, multipart/form-data, or application/octet-stream."@
}

/// Checks the `Content-Type` of a direct (non-multipart) upload before its
/// body is read: it must start with `image/` or `application/octet-stream`.
pub fn check_direct_content_type(content_type: &str) -> (r: Result<(), AppError>)
    ensures
        has_prefix(content_type@, "image/"@) || has_prefix(
            content_type@,
            "application/octet-stream"@,
        ) ==> r is Ok,
        !(has_prefix(content_type@, "image/"@) || has_prefix(
            content_type@,
            "application/octet-stream"@,
        )) ==> (r matches Err(AppError::UnsupportedMediaType(m)) && m@ == unsupported_direct_message(
            content_type@,
        )),
{
    if !starts_with(content_type, "image/") && !starts_with(content_type, "application/octet-stream") {
        return Err(
            AppError::UnsupportedMediaType(
                String::from_str("Content-Type '").concat(content_type).concat(
                    "' is not supported. Expected image/*, multipart/form-data, or application/octet-stream.",
                ),
            ),
        );
    }
    Ok(())
}

/// The upload of a direct request once its body has been read: the body
/// and the content type; an empty body is refused.
pub fn direct_upload(body: Vec<u8>, content_type: &str) -> (r: Result<(Vec<u8>, Option<String>), AppError>)
    ensures
        body@.len() == 0 ==> (r matches Err(AppError::BadRequest(m)) && m@
            == "Request body is empty."@),
        body@.len() > 0 ==> (r matches Ok((b, Some(t))) && b@ == body@ && t@ == content_type@),
{
    if body.len() == 0 {
        return Err(AppError::BadRequest(String::from_str("Request body is empty.")));
    }
    Ok((body, Some(String::from_str(content_type))))
}

/// The `file` field of a multipart upload, as its fields arrive.
pub struct MultipartScan {
    pub file: Option<(Vec<u8>, Option<String>)>,
}

/// Whether a multipart field is the uploaded file: its name is `file`.
pub fn is_file_field(name: Option<&str>) -> (r: bool)
    ensures
        r == (opt_str(name) == Some("file"@)),
{
    match name {
        Some(n) => str_eq(n, "file"),
        None => false,
    }
}

impl MultipartScan {
    /// No file field seen yet.
    pub fn new() -> (r: MultipartScan)
        ensures
            r.file is None,
    {
        MultipartScan { file: None }
    }

    /// Takes a `file` field's data and content type; an empty one is
    /// refused, a later one replaces an earlier one.
    pub fn accept_file(&mut self, data: Vec<u8>, content_type: Option<String>) -> (r: Result<(), AppError>)
        ensures
            data@.len() == 0 ==> (r matches Err(AppError::BadRequest(m)) && m@
                == "Uploaded 'file' field is empty."@) && final(self).file == old(self).file,
            data@.len() > 0 ==> r is Ok && final(self).file == Some((data, content_type)),
    {
        if data.len() == 0 {
            return Err(AppError::BadRequest(String::from_str("Uploaded 'file' field is empty.")));
        }
        self.file = Some((data, content_type));
        Ok(())
    }

    /// The uploaded file and its content type, once all fields have
    /// arrived; refused when there was no `file` field.
    pub fn finish(self) -> (r: Result<(Vec<u8>, Option<String>), AppError>)
        ensures
            match self.file {
                Some(f) => r == Ok::<(Vec<u8>, Option<String>), AppError>(f),
                None => r matches Err(AppError::BadRequest(m)) && m@
                    == "Missing 'file' field in multipart request."@,
            },
    {
        match self.file {
            Some(f) => Ok(f),
            None => Err(
                AppError::BadRequest(String::from_str("Missing 'file' field in multipart request.")),
            ),
        }
    }
}

/// Whether a reset reloads the plugins too (`plugins` defaults to no).
pub fn reset_reloads_plugins(query: &ResetQuery) -> (r: bool)
    ensures
        r == (query.plugins == Some(true)),
{
    match query.plugins {
        Some(b) => b,
        None => false,
    }
}

/// `GET /plugins`: each loaded plugin's information and engines, in load
/// order.
pub fn get_plugins(plugin_manager: &PluginManager) -> (r: Vec<PluginDescriptionResponse>)
    ensures
        r@.len() == plugin_manager.plugins@.len(),
        forall|k: int|
            0 <= k < r@.len() ==> {
                let p = plugin_manager.plugins@[k];
                &&& plugin_info_view((#[trigger] r@[k]).plugin_info) == plugin_info_view(p.plugin_info)
                &&& r@[k].engines@.len() == p.engines_info@.len()
                &&& forall|j: int|
                    0 <= j < p.engines_info@.len() ==> engine_view(#[trigger] r@[k].engines@[j])
                        == engine_view(p.engines_info@[j])
            },
{
    let plugins = plugin_manager.get_plugins();
    let n = plugins.len();
    let mut out: Vec<PluginDescriptionResponse> = Vec::new();
    let mut i: usize = 0;
    while i < n
        invariant
            plugins@ == plugin_manager.plugins@,
            n == plugins@.len(),
            0 <= i <= n,
            out@.len() == i,
            forall|k: int|
                0 <= k < i ==> {
                    let p = plugins@[k];
                    &&& plugin_info_view((#[trigger] out@[k]).plugin_info) == plugin_info_view(
                        p.plugin_info,
                    )
                    &&& out@[k].engines@.len() == p.engines_info@.len()
                    &&& forall|j: int|
                        0 <= j < p.engines_info@.len() ==> engine_view(
                            #[trigger] out@[k].engines@[j],
                        ) == engine_view(p.engines_info@[j])
                },
        decreases n - i,
    {
        let p = &plugins[i];
        let m = p.engines_info.len();
        let mut engines: Vec<EngineInfo> = Vec::new();
        let mut j: usize = 0;
        while j < m
            invariant
                m == p.engines_info@.len(),
                0 <= j <= m,
                engines@.len() == j,
                forall|t: int|
                    0 <= t < j ==> engine_view(#[trigger] engines@[t]) == engine_view(
                        p.engines_info@[t],
                    ),
            decreases m - j,
        {
            engines.push(copy_engine_info(&p.engines_info[j]));
            j = j + 1;
        }
        out.push(
            PluginDescriptionResponse { plugin_info: copy_plugin_info(&p.plugin_info), engines },
        );
        i = i + 1;
    }
    out
}

/// Whether `destroy_engine` has been handed an instance looking like `v`.
pub open spec fn destroyed_as<D: Fn(&ActiveInstance)>(destroy_engine: D, v: InstanceView) -> bool {
    exists|a: &ActiveInstance| a@ == v && #[trigger] call_ensures(destroy_engine, (a,), ())
}

fn destroy_all<D: Fn(&ActiveInstance)>(instances: &Vec<ActiveInstance>, destroy_engine: &D)
    requires
        forall|a: &ActiveInstance| destroy_engine.requires((a,)),
    ensures
        forall|k: int| 0 <= k < instances@.len() ==> destroyed_as(*destroy_engine, (#[trigger] instances@[k])@),
{
    let n = instances.len();
    let mut i: usize = 0;
    while i < n
        invariant
            n == instances@.len(),
            0 <= i <= n,
            forall|a: &ActiveInstance| destroy_engine.requires((a,)),
            forall|k: int| 0 <= k < i ==> destroyed_as(*destroy_engine, (#[trigger] instances@[k])@),
        decreases n - i,
    {
        destroy_engine(&instances[i]);
        proof {
            assert(call_ensures(*destroy_engine, (&instances@[i as int],), ()));
        }
        i = i + 1;
    }
}

/// Whether an instance can be handed to its plugin again: a loaded plugin
/// has its plugin id, with an engine at its index.
pub open spec fn instance_resolves(v: InstanceView, plugins: Seq<LoadedPlugin>) -> bool {
    match last_with_id(plugins, v.plugin_id) {
        None => false,
        Some(k) => v.engine_index < plugins[k].engines_info@.len(),
    }
}

/// Whether `after` holds the instances of `before` again, each with its
/// plugin id, engine index and configuration, and `ids` lists their UUIDs,
/// each once.
pub open spec fn restored(before: Map<u128, InstanceView>, ids: Seq<u128>, after: Map<u128, InstanceView>) -> bool {
    &&& ids.no_duplicates()
    &&& forall|id: u128| ids.contains(id) <==> #[trigger] before.contains_key(id)
    &&& after.dom() == before.dom()
    &&& forall|id: u128| #[trigger] after.contains_key(id) ==> exported(after[id]) == exported(before[id])
}

/// Whether every instance of `before` can be re-created: its plugin is
/// loaded (each plugin answering to the id it describes itself by) with an
/// engine at its index, and the plugins create every engine they are asked
/// for.
pub open spec fn restorable<F: Fn(&LoadedPlugin, usize, &str) -> usize>(
    before: Map<u128, InstanceView>,
    plugins: Seq<LoadedPlugin>,
    create: F,
) -> bool {
    &&& forall|id: u128| #[trigger] before.contains_key(id) ==> instance_resolves(before[id], plugins)
    &&& forall|k: int| 0 <= k < plugins.len() ==> (#[trigger] plugins[k]).id@ == plugins[k].plugin_info.id@
    &&& forall|p: &LoadedPlugin, i: usize, c: &str, h: usize|
        #[trigger] call_ensures(create, (p, i, c), h) ==> h != 0
}

/// `POST /reset`: unregisters every instance (destroying each through
/// `destroy_engine`), reloads the plugins from their library paths through
/// `reload_plugins` when the query asks for it, and re-creates the
/// instances (through `create_engine`) under their old UUIDs. Gives the
/// re-created UUIDs. Without a plugin reload, when every instance is
/// `restorable`, the same instances come back.
pub fn reset<
    L: Fn(PluginManagerState) -> Result<Vec<LoadedPlugin>, AppError>,
    F: Fn(&LoadedPlugin, usize, &str) -> usize,
    D: Fn(&ActiveInstance),
>(
    plugin_manager: &mut PluginManager,
    instance_manager: &mut InstanceManager,
    query: &ResetQuery,
    reload_plugins: L,
    create_engine: F,
    destroy_engine: D,
) -> (r: Result<Vec<u128>, AppError>)
    requires
        forall|st: PluginManagerState| reload_plugins.requires((st,)),
        forall|p: &LoadedPlugin, i: usize, c: &str| create_engine.requires((p, i, c)),
        forall|a: &ActiveInstance| destroy_engine.requires((a,)),
    ensures
        forall|id: u128| #[trigger] old(instance_manager)@.contains_key(id) ==> destroyed_as(
            destroy_engine,
            old(instance_manager)@[id],
        ),
        ({
            let before = old(instance_manager)@;
            let plugins = old(plugin_manager).plugins@;
            query.plugins != Some(true) && restorable(before, plugins, create_engine) ==> (r matches Ok(
                ids,
            ) && restored(before, ids@, final(instance_manager)@) && final(plugin_manager).plugins@
                == plugins)
        }),
        match r {
            Ok(ids) => {
                &&& query.plugins == Some(true) ==> exists|
                    st: PluginManagerState,
                    v: Vec<LoadedPlugin>,
                |
                    is_paths_export(old(plugin_manager).plugins@, st) && #[trigger] call_ensures(
                        reload_plugins,
                        (st,),
                        Ok::<Vec<LoadedPlugin>, AppError>(v),
                    ) && final(plugin_manager).plugins@ == v@
                &&& query.plugins != Some(true) ==> final(plugin_manager).plugins@ == old(
                    plugin_manager,
                ).plugins@
                &&& exists|entries: Seq<InstanceState>|
                    #[trigger] is_export(old(instance_manager)@, entries) && import_answer(
                        entries,
                        final(plugin_manager).plugins@,
                        create_engine,
                        ids@,
                        final(instance_manager)@,
                    )
            },
            Err(e) => {
                &&& query.plugins == Some(true)
                &&& exists|st: PluginManagerState|
                    is_paths_export(old(plugin_manager).plugins@, st) && #[trigger] call_ensures(
                        reload_plugins,
                        (st,),
                        Err::<Vec<LoadedPlugin>, AppError>(e),
                    )
                &&& final(plugin_manager).plugins@.len() == 0
                &&& final(instance_manager)@ == Map::<u128, InstanceView>::empty()
            },
        },
{
    let reloads = reset_reloads_plugins(query);
    let instances_state = instance_manager.export_state();
    let cleared = instance_manager.cleanup();
    destroy_all(&cleared, &destroy_engine);
    proof {
        assert forall|id: u128| #[trigger] old(instance_manager)@.contains_key(id) implies destroyed_as(
            destroy_engine,
            old(instance_manager)@[id],
        ) by {
            let k = choose|k: int| 0 <= k < cleared@.len() && (#[trigger] cleared@[k]).uuid == id;
            assert(cleared@[k]@ == old(instance_manager)@[cleared@[k].uuid]);
        }
    }
    if reloads {
        let plugins_state = plugin_manager.export_state();
        let ghost st = plugins_state;
        plugin_manager.cleanup();
        match reload_plugins(plugins_state) {
            Ok(v) => {
                proof {
                    assert(is_paths_export(old(plugin_manager).plugins@, st));
                }
                plugin_manager.plugins = v;
            },
            Err(e) => {
                proof {
                    assert(is_paths_export(old(plugin_manager).plugins@, st));
                }
                return Err(e);
            },
        }
    }
    let ghost entries = instances_state.instances@;
    match instance_manager.import_state(instances_state, plugin_manager, create_engine) {
        Ok((ids, more)) => {
            destroy_all(&more, &destroy_engine);
            proof {
                let before = old(instance_manager)@;
                let plugins = old(plugin_manager).plugins@;
                assert(is_export(before, entries));
                if query.plugins != Some(true) && restorable(before, plugins, create_engine) {
                    assert(plugin_manager.plugins@ == plugins);
                    assert forall|i: int| 0 <= i < entries.len() implies import_resolves(
                        #[trigger] entries[i],
                        plugins,
                    ) by {
                        assert(before.contains_key(state_key(entries[i])));
                        assert(state_entry(entries[i]) == exported(before[entries[i].instance_id]));
                        assert(instance_resolves(before[entries[i].instance_id], plugins));
                    }
                    law_export_then_import(before, entries, plugins, create_engine, ids@, instance_manager@);
                    assert forall|a: int, b: int| 0 <= a < ids@.len() && 0 <= b < ids@.len() && a != b implies ids@[a]
                        != ids@[b] by {
                        assert(state_key(entries[a]) != state_key(entries[b]));
                    }
                    assert forall|id: u128| ids@.contains(id) <==> #[trigger] before.contains_key(id) by {
                        if ids@.contains(id) {
                            let k = choose|k: int| 0 <= k < ids@.len() && ids@[k] == id;
                            assert(before.contains_key(state_key(entries[k])));
                        }
                        if before.contains_key(id) {
                            let k = choose|k: int| 0 <= k < entries.len() && state_key(#[trigger] entries[k]) == id;
                            assert(ids@[k] == id);
                        }
                    }
                }
            }
            Ok(ids)
        },
        Err(e) => Err(e),
    }
}

} // verus!
