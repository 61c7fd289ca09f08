use upsclr_server::error::AppError;
use upsclr_server::instance_manager::check_c_string;

#[test]
fn test_plugin_not_found_error_response() {
    let error = AppError::PluginNotFound("test_plugin".to_string());
    assert_eq!(error.status_code(), 400);
    assert_eq!(error.error_code(), "PLUGIN_NOT_FOUND");
    assert!(error.message().contains("test_plugin"));
}

#[test]
fn test_instance_not_found_error_response() {
    let error = AppError::InstanceNotFound;
    assert_eq!(error.status_code(), 404);
    assert_eq!(error.error_code(), "INSTANCE_NOT_FOUND");
    assert_eq!(error.message(), "The requested engine instance was not found.");
}

#[test]
fn test_bad_request_error_response() {
    let error = AppError::BadRequest("Invalid parameter".to_string());
    assert_eq!(error.status_code(), 400);
    assert_eq!(error.error_code(), "BAD_REQUEST");
    assert_eq!(error.message(), "Invalid parameter");
}

#[test]
fn test_plugin_operation_failed_error_response() {
    let error = AppError::PluginOperationFailed {
        operation: "upscale".to_string(),
        details: "Out of memory".to_string(),
    };
    assert_eq!(error.status_code(), 500);
    assert_eq!(error.error_code(), "PLUGIN_OPERATION_FAILED");
    assert!(error.message().contains("upscale"));
    assert!(error.message().contains("Out of memory"));
}

#[test]
fn test_unsupported_media_type_error_response() {
    let error = AppError::UnsupportedMediaType("image/bmp".to_string());
    assert_eq!(error.status_code(), 415);
    assert_eq!(error.error_code(), "UNSUPPORTED_MEDIA_TYPE");
    assert!(error.message().contains("image/bmp"));
}

#[test]
fn test_from_cstring_error() {
    let app_error = check_c_string("test\0with\0nulls").unwrap_err();
    match app_error {
        AppError::CStringError(m) => {
            assert_eq!(m, "nul byte found in provided data at position: 4");
        }
        _ => panic!("Expected CStringError variant"),
    }
}

#[test]
fn every_error_has_its_status_and_code() {
    let cases: Vec<(AppError, u16, &str, &str)> = vec![
        (AppError::PluginLoadError("x".into()), 500, "PLUGIN_LOAD_ERROR", "A critical error occurred while loading plugins: x"),
        (AppError::EngineNotFound("e".into()), 400, "ENGINE_NOT_FOUND", "The requested engine was not found: e"),
        (AppError::InstanceCreationFailed("f".into()), 500, "INSTANCE_CREATION_FAILED", "Failed to create engine instance: f"),
        (AppError::Forbidden("no".into()), 403, "FORBIDDEN", "no"),
        (AppError::MultipartError("m".into()), 400, "MULTIPART_ERROR", "Invalid multipart request: m"),
        (AppError::NotAcceptable("a".into()), 406, "NOT_ACCEPTABLE", "Unsupported media type to write: a"),
        (AppError::UnprocessableContent("u".into()), 422, "UNPROCESSABLE_CONTENT", "Unprocessable content: u"),
        (AppError::ImageProcessingError("i".into()), 422, "IMAGE_PROCESSING_ERROR", "Image processing error: i"),
        (AppError::IoError("io".into()), 500, "IO_ERROR", "An I/O error occurred: io"),
        (AppError::CStringError("c".into()), 500, "CSTRING_CONVERSION_ERROR", "Internal server error preparing data for plugin: c"),
        (AppError::InternalServerError("s".into()), 500, "INTERNAL_SERVER_ERROR", "s"),
    ];
    for (e, status, code, message) in cases {
        assert_eq!(e.status_code(), status);
        assert_eq!(e.error_code(), code);
        assert_eq!(e.message(), message);
    }
}

#[test]
fn c_string_without_nul_is_accepted() {
    assert!(check_c_string("{\"a\": 1}").is_ok());
    match check_c_string("é\0").unwrap_err() {
        AppError::CStringError(m) => assert_eq!(m, "nul byte found in provided data at position: 2"),
        _ => panic!("Expected CStringError variant"),
    }
}
