use upsclr_server::error::AppError;
use upsclr_server::handlers::{
    check_direct_content_type, direct_upload, finish_upscale, is_file_field, is_multipart,
    prepare_upscale, MultipartScan, OutputFormat,
};
use upsclr_server::headers::Accept;
use upsclr_server::instance_manager::InstanceManager;
use upsclr_server::plugin_ffi::{UpsclrColorFormat, UpsclrErrorCode};
use upsclr_server::plugin_manager::{LoadedPlugin, PluginInfo};

fn raw_bitmap(w: u32, h: u32) -> Vec<u8> {
    let size = w * h * 3;
    let mut v = vec![b'R', b'B', 1, 3];
    v.extend_from_slice(&size.to_le_bytes());
    v.extend_from_slice(&w.to_le_bytes());
    v.extend_from_slice(&h.to_le_bytes());
    v.extend((0..size).map(|i| i as u8));
    v
}

fn one_instance() -> (InstanceManager, u128) {
    let p = LoadedPlugin {
        id: "p".to_string(),
        path: "/p".to_string(),
        plugin_info: PluginInfo {
            id: "p".to_string(),
            name: "P".to_string(),
            version: "1".to_string(),
            description: "".to_string(),
        },
        engines_info: vec![],
    };
    let mut im = InstanceManager::new();
    let (id, _) = im.create_instance(&p, 0, "{}", |_p: &LoadedPlugin, _i: usize, _c: &str| 77).unwrap();
    (im, id)
}

#[test]
fn upload_kinds_and_direct_uploads() {
    assert!(is_multipart("multipart/form-data; boundary=x"));
    assert!(!is_multipart("image/png"));
    assert!(check_direct_content_type("image/png").is_ok());
    assert!(check_direct_content_type("application/octet-stream").is_ok());
    match check_direct_content_type("text/plain") {
        Err(AppError::UnsupportedMediaType(m)) => assert_eq!(
            m,
            "Content-Type 'text/plain' is not supported. Expected image/*, multipart/form-data, or application/octet-stream."
        ),
        _ => panic!("expected UnsupportedMediaType"),
    }
    match direct_upload(vec![], "image/png") {
        Err(AppError::BadRequest(m)) => assert_eq!(m, "Request body is empty."),
        _ => panic!("expected BadRequest"),
    }
    let (b, t) = direct_upload(vec![1, 2], "image/png").unwrap();
    assert_eq!(b, vec![1, 2]);
    assert_eq!(t, Some("image/png".to_string()));
}

#[test]
fn multipart_keeps_the_last_file_field() {
    assert!(is_file_field(Some("file")));
    assert!(!is_file_field(Some("other")));
    assert!(!is_file_field(None));
    let mut scan = MultipartScan::new();
    scan.accept_file(vec![1], Some("image/png".to_string())).unwrap();
    scan.accept_file(vec![2, 3], None).unwrap();
    match scan.accept_file(vec![], None) {
        Err(AppError::BadRequest(m)) => assert_eq!(m, "Uploaded 'file' field is empty."),
        _ => panic!("expected BadRequest"),
    }
    assert_eq!(scan.finish().unwrap(), (vec![2, 3], None));
    match MultipartScan::new().finish() {
        Err(AppError::BadRequest(m)) => assert_eq!(m, "Missing 'file' field in multipart request."),
        _ => panic!("expected BadRequest"),
    }
}

#[test]
fn upscale_pipeline_with_raw_bitmaps() {
    let (im, id) = one_instance();
    let accept = Accept::decode(&vec![Some("image/x-raw-bitmap; format=bgr".to_string())]).unwrap();
    let input = raw_bitmap(2, 2);
    let job = prepare_upscale(&im, id, 2, &accept, &input, Some("image/x-raw-bitmap")).unwrap();
    assert_eq!(job.instance_handle, 77);
    assert_eq!(job.plugin_id, "p");
    assert_eq!((job.in_width, job.in_height, job.in_channels), (2, 2, 3));
    assert_eq!((job.out_width, job.out_height, job.out_size), (4, 4, 48));
    assert_eq!(job.output_format, OutputFormat::Raw { color_format: UpsclrColorFormat::Bgr });
    let out = vec![5u8; job.out_size];
    let (ct, body) = finish_upscale(&job, id, UpsclrErrorCode::Success, &out).unwrap();
    assert_eq!(ct, "image/x-raw-bitmap");
    assert_eq!(body.len(), 16 + 48);
    match finish_upscale(&job, 0x1, UpsclrErrorCode::Other, &out) {
        Err(AppError::PluginOperationFailed { operation, details }) => {
            assert_eq!(operation, "upscale_image");
            assert_eq!(
                details,
                "Plugin upscale operation failed with code: Other for instance 00000000-0000-0000-0000-000000000001"
            );
        }
        _ => panic!("expected PluginOperationFailed"),
    }
}

#[test]
fn upscale_preparation_errors_come_in_order() {
    let (im, id) = one_instance();
    let accept = Accept::decode(&vec![Some("text/html".to_string())]).unwrap();
    let input = raw_bitmap(1, 1);
    assert!(matches!(
        prepare_upscale(&im, id + 1, 2, &accept, &input, Some("image/x-raw-bitmap")),
        Err(AppError::InstanceNotFound)
    ));
    assert!(matches!(
        prepare_upscale(&im, id, 2, &accept, &[1, 2], Some("image/x-raw-bitmap")),
        Err(AppError::ImageProcessingError(_))
    ));
    match prepare_upscale(&im, id, 2, &accept, &input, Some("image/x-raw-bitmap")) {
        Err(AppError::NotAcceptable(m)) => assert_eq!(m, "Accept([\"text/html\"])"),
        _ => panic!("expected NotAcceptable"),
    }
}
