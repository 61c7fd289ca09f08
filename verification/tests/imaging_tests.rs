use upsclr_server::error::AppError;
use upsclr_server::handlers::{
    check_scale, decode_input_image, encode_output_image, output_format_for_accept,
    plan_output_buffer, preferred_output_format, OutputFormat,
};
use upsclr_server::headers::{Accept, MediaType};
use upsclr_server::plugin_ffi::UpsclrColorFormat;
use upsclr_server::raw_bitmap::{encode_raw_bitmap, parse_raw_bitmap};

fn accept(v: &str) -> Accept {
    Accept::decode(&vec![Some(v.to_string())]).unwrap()
}

fn raw_header(cf: u8, ch: u8, size: u32, w: u32, h: u32) -> Vec<u8> {
    let mut v = vec![b'R', b'B', cf, ch];
    v.extend_from_slice(&size.to_le_bytes());
    v.extend_from_slice(&w.to_le_bytes());
    v.extend_from_slice(&h.to_le_bytes());
    v
}

fn processing_message(r: Result<(Vec<u8>, u32, u32, u8, UpsclrColorFormat), AppError>) -> String {
    match r {
        Err(AppError::ImageProcessingError(m)) => m,
        _ => panic!("expected an image processing error"),
    }
}

#[test]
fn raw_bitmap_parses_its_header_and_pixels() {
    let mut data = raw_header(2, 3, 6, 2, 1);
    data.extend_from_slice(&[1, 2, 3, 4, 5, 6]);
    let (pixels, w, h, c, f) = parse_raw_bitmap(&data).unwrap();
    assert_eq!(pixels, vec![1, 2, 3, 4, 5, 6]);
    assert_eq!((w, h, c), (2, 1, 3));
    assert_eq!(f, UpsclrColorFormat::Bgr);
}

#[test]
fn raw_bitmap_errors_name_the_first_failing_check() {
    assert_eq!(
        processing_message(parse_raw_bitmap(&[b'R', b'B'])),
        "x-raw-bitmap data is too short for its 16-byte header."
    );
    let mut bad_magic = raw_header(1, 3, 3, 1, 1);
    bad_magic[0] = b'X';
    bad_magic.extend_from_slice(&[0, 0, 0]);
    assert_eq!(
        processing_message(parse_raw_bitmap(&bad_magic)),
        "Invalid magic bytes for x-raw-bitmap. Expected 'RB'."
    );
    assert_eq!(
        processing_message(parse_raw_bitmap(&raw_header(1, 3, 0, 0, 1))),
        "x-raw-bitmap header indicates zero width or height."
    );
    assert_eq!(
        processing_message(parse_raw_bitmap(&raw_header(1, 2, 2, 1, 1))),
        "x-raw-bitmap header specifies an unsupported channel count: 2. Expected 3 or 4."
    );
    assert_eq!(
        processing_message(parse_raw_bitmap(&raw_header(0xAB, 3, 3, 1, 1))),
        "Invalid ColorFormat byte (0xAB) in x-raw-bitmap header. Expected 0x01 or 0x02."
    );
    assert_eq!(
        processing_message(parse_raw_bitmap(&raw_header(1, 3, 4, 1, 1))),
        "x-raw-bitmap DataSize in header (4) does not match calculated size (3) from WxHxC."
    );
    assert_eq!(
        processing_message(parse_raw_bitmap(&raw_header(1, 3, 3, 1, 1))),
        "x-raw-bitmap total file size (16) does not match expected size based on header (19)."
    );
}

#[test]
fn raw_bitmap_encoding_round_trips() {
    let pixels = vec![9u8, 8, 7, 6, 5, 4, 3, 2];
    let body = encode_raw_bitmap(&pixels, 1, 2, 4, UpsclrColorFormat::Rgb);
    assert_eq!(&body[0..4], &[b'R', b'B', 1, 4]);
    assert_eq!(&body[4..8], &8u32.to_le_bytes());
    let (p, w, h, c, f) = parse_raw_bitmap(&body).unwrap();
    assert_eq!((p, w, h, c, f), (pixels, 1, 2, 4, UpsclrColorFormat::Rgb));
}

#[test]
fn decode_refuses_unsupported_content_types() {
    match decode_input_image(&[1, 2, 3], Some("text/plain; charset=utf-8")) {
        Err(AppError::UnsupportedMediaType(m)) => assert_eq!(
            m,
            "Content type 'text/plain' is not supported. Expected 'image/jpeg', 'image/png', 'image/webp', or 'image/x-raw-bitmap'."
        ),
        _ => panic!("expected UnsupportedMediaType"),
    }
}

#[test]
fn decode_reads_raw_bitmaps_by_content_type() {
    let mut data = raw_header(1, 4, 4, 1, 1);
    data.extend_from_slice(&[1, 2, 3, 4]);
    let (p, w, h, c, f) = decode_input_image(&data, Some(" image/x-raw-bitmap ; x=y")).unwrap();
    assert_eq!((p, w, h, c, f), (vec![1, 2, 3, 4], 1, 1, 4, UpsclrColorFormat::Rgb));
}

#[test]
fn png_encoding_decodes_back_to_the_same_pixels() {
    let pixels = vec![10u8, 20, 30, 40, 50, 60];
    let (ct, body) = encode_output_image(&pixels, 2, 1, 3, OutputFormat::Png { compression: 6 }).unwrap();
    assert_eq!(ct, "image/png");
    assert_eq!(&body[1..4], b"PNG");
    let (p, w, h, c, f) = decode_input_image(&body, Some("image/png")).unwrap();
    assert_eq!((p, w, h, c, f), (pixels.clone(), 2, 1, 3, UpsclrColorFormat::Rgb));
    let (p, _, _, c, _) = decode_input_image(&body, None).unwrap();
    assert_eq!((p, c), (pixels, 3));
}

#[test]
fn rgba_png_decodes_with_four_channels() {
    let pixels = vec![1u8, 2, 3, 255];
    let (_, body) = encode_output_image(&pixels, 1, 1, 4, OutputFormat::Png { compression: 6 }).unwrap();
    let (p, w, h, c, _) = decode_input_image(&body, Some("image/png")).unwrap();
    assert_eq!((p, w, h, c), (pixels, 1, 1, 4));
}

#[test]
fn decode_failures_say_which_format_was_tried() {
    let m = processing_message(decode_input_image(&[0, 1, 2, 3], Some("image/png")));
    assert!(m.starts_with("Failed to decode image (format: Png): "));
    let m = processing_message(decode_input_image(&[0, 1, 2, 3], None));
    assert!(m.starts_with("Failed to auto-detect and decode image: "));
}

#[test]
fn jpeg_encoding_produces_a_jpeg() {
    let pixels = vec![128u8; 8 * 8 * 3];
    let (ct, body) = encode_output_image(&pixels, 8, 8, 3, OutputFormat::Jpeg { quality: 85 }).unwrap();
    assert_eq!(ct, "image/jpeg");
    assert_eq!(&body[0..2], &[0xFF, 0xD8]);
    let (_, w, h, c, _) = decode_input_image(&body, Some("image/jpeg")).unwrap();
    assert_eq!((w, h, c), (8, 8, 3));
}

#[test]
fn encoding_errors() {
    match encode_output_image(&[0; 4], 1, 1, 4, OutputFormat::Jpeg { quality: 85 }) {
        Err(AppError::ImageProcessingError(m)) => assert_eq!(
            m,
            "JPEG output for 4-channel data (RGBA/BGRA) is not directly supported. Request 3-channel or PNG/RAW."
        ),
        _ => panic!("expected an error"),
    }
    match encode_output_image(&[0; 2], 1, 1, 2, OutputFormat::Png { compression: 6 }) {
        Err(AppError::ImageProcessingError(m)) => assert_eq!(m, "Unsupported channel count (2)."),
        _ => panic!("expected an error"),
    }
}

#[test]
fn raw_output_carries_the_requested_color_format() {
    let (ct, body) =
        encode_output_image(&[1, 2, 3], 1, 1, 3, OutputFormat::Raw { color_format: UpsclrColorFormat::Bgr })
            .unwrap();
    assert_eq!(ct, "image/x-raw-bitmap");
    assert_eq!(body.len(), 19);
    assert_eq!(body[2], 2);
}

#[test]
fn output_format_follows_the_first_usable_media_type() {
    assert_eq!(
        preferred_output_format(&accept("text/html, image/jpeg;quality=70, image/png")),
        Some(OutputFormat::Jpeg { quality: 70 })
    );
    assert_eq!(
        preferred_output_format(&accept("image/png")),
        Some(OutputFormat::Png { compression: 6 })
    );
    assert_eq!(
        preferred_output_format(&accept("image/jpeg;quality=300")),
        Some(OutputFormat::Jpeg { quality: 85 })
    );
    assert_eq!(
        preferred_output_format(&accept("image/x-raw-bitmap;format=BGRA")),
        Some(OutputFormat::Raw { color_format: UpsclrColorFormat::Bgr })
    );
    assert_eq!(
        preferred_output_format(&accept("image/x-raw-bitmap")),
        Some(OutputFormat::Raw { color_format: UpsclrColorFormat::Rgb })
    );
    assert_eq!(preferred_output_format(&accept("text/html")), None);
}

#[test]
fn output_format_color_format() {
    assert_eq!(OutputFormat::Png { compression: 1 }.color_format(), UpsclrColorFormat::Rgb);
    assert_eq!(OutputFormat::Jpeg { quality: 1 }.color_format(), UpsclrColorFormat::Rgb);
    assert_eq!(
        OutputFormat::Raw { color_format: UpsclrColorFormat::Bgr }.color_format(),
        UpsclrColorFormat::Bgr
    );
    let m = MediaType::parse("image/webp").unwrap();
    assert_eq!(OutputFormat::try_from_media_type(&m), None);
}

#[test]
fn not_acceptable_names_the_header() {
    match output_format_for_accept(&accept("text/html, application/json")) {
        Err(AppError::NotAcceptable(m)) => {
            assert_eq!(m, "Accept([\"text/html\", \"application/json\"])")
        }
        _ => panic!("expected NotAcceptable"),
    }
}

#[test]
fn scale_must_exceed_one() {
    assert!(check_scale(2).is_ok());
    match check_scale(1) {
        Err(AppError::BadRequest(m)) => assert_eq!(m, "Invalid 'scale' parameter. Must be greater than 1."),
        _ => panic!("expected BadRequest"),
    }
}

#[test]
fn output_buffer_plan() {
    assert_eq!(plan_output_buffer(10, 20, 3, 4).unwrap(), (40, 80, 3, 9600));
    match plan_output_buffer(20000, 20000, 4, 2) {
        Err(AppError::UnprocessableContent(m)) => assert_eq!(
            m,
            "Calculated output image dimensions (40000x40000) result in an excessively large buffer requirement."
        ),
        _ => panic!("expected UnprocessableContent"),
    }
    match plan_output_buffer(0, 5, 3, 2) {
        Err(AppError::UnprocessableContent(m)) => assert!(m.contains("(0x10)")),
        _ => panic!("expected UnprocessableContent"),
    }
    match plan_output_buffer(u32::MAX, 1, 3, 2) {
        Err(AppError::UnprocessableContent(m)) => assert!(m.contains("(4294967295x2)")),
        _ => panic!("expected UnprocessableContent"),
    }
}

#[test]
fn output_format_converts_to_plugin_color_format() {
    assert_eq!(UpsclrColorFormat::from(OutputFormat::Png { compression: 6 }), UpsclrColorFormat::Rgb);
    assert_eq!(UpsclrColorFormat::from(OutputFormat::Jpeg { quality: 90 }), UpsclrColorFormat::Rgb);
    assert_eq!(
        UpsclrColorFormat::from(OutputFormat::Raw { color_format: UpsclrColorFormat::Bgr }),
        UpsclrColorFormat::Bgr
    );
}

#[test]
fn decoding_ignores_content_type_parameters_and_spaces() {
    let pixels = vec![9u8; 2 * 2 * 3];
    let body = encode_raw_bitmap(&pixels, 2, 2, 3, UpsclrColorFormat::Rgb);
    let plain = decode_input_image(&body, Some("image/x-raw-bitmap")).unwrap();
    let with_params = decode_input_image(&body, Some("image/x-raw-bitmap;q=1")).unwrap();
    let spaced = decode_input_image(&body, Some(" image/x-raw-bitmap ")).unwrap();
    assert_eq!(plain, with_params);
    assert_eq!(plain, spaced);
    match decode_input_image(&body, Some(" text/plain ;x")) {
        Err(AppError::UnsupportedMediaType(m)) => assert!(m.starts_with("Content type 'text/plain'")),
        _ => panic!("expected UnsupportedMediaType"),
    }
}
