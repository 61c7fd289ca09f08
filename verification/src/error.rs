//! The application's error kinds and what each one answers: an HTTP status,
//! a stable error code and a human-readable message.
//!
//! Errors of outside libraries (I/O, multipart decoding, C-string conversion)
//! are carried by their rendered text.
use vstd::prelude::*;

verus! {

#[derive(Debug)]
pub enum AppError {
    // Errors related to plugin loading and management
    PluginLoadError(String),
    PluginNotFound(String),
    EngineNotFound(String),
    // Errors related to instance management
    InstanceNotFound,
    InstanceCreationFailed(String),
    // Errors from plugin operations (preload, upscale)
    PluginOperationFailed { operation: String, details: String },
    // Errors related to request processing
    BadRequest(String),
    Forbidden(String),
    MultipartError(String),
    UnsupportedMediaType(String),
    NotAcceptable(String),
    UnprocessableContent(String),
    ImageProcessingError(String),
    // General I/O or internal errors
    IoError(String),
    CStringError(String),
    InternalServerError(String),
}

/// HTTP status answered for each error.
pub open spec fn status_of(e: AppError) -> u16 {
    match e {
        AppError::PluginLoadError(_) => 500,
        AppError::PluginNotFound(_) => 400,
        AppError::EngineNotFound(_) => 400,
        AppError::InstanceNotFound => 404,
        AppError::InstanceCreationFailed(_) => 500,
        AppError::PluginOperationFailed { .. } => 500,
        AppError::BadRequest(_) => 400,
        AppError::Forbidden(_) => 403,
        AppError::MultipartError(_) => 400,
        AppError::UnsupportedMediaType(_) => 415,
        AppError::NotAcceptable(_) => 406,
        AppError::UnprocessableContent(_) => 422,
        AppError::ImageProcessingError(_) => 422,
        AppError::IoError(_) => 500,
        AppError::CStringError(_) => 500,
        AppError::InternalServerError(_) => 500,
    }
}

/// Stable error code answered for each error.
pub open spec fn code_of(e: AppError) -> Seq<char> {
    match e {
        AppError::PluginLoadError(_) => "PLUGIN_LOAD_ERROR"@,
        AppError::PluginNotFound(_) => "PLUGIN_NOT_FOUND"@,
        AppError::EngineNotFound(_) => "ENGINE_NOT_FOUND"@,
        AppError::InstanceNotFound => "INSTANCE_NOT_FOUND"@,
        AppError::InstanceCreationFailed(_) => "INSTANCE_CREATION_FAILED"@,
        AppError::PluginOperationFailed { .. } => "PLUGIN_OPERATION_FAILED"@,
        AppError::BadRequest(_) => "BAD_REQUEST"@,
        AppError::Forbidden(_) => "FORBIDDEN"@,
        AppError::MultipartError(_) => "MULTIPART_ERROR"@,
        AppError::UnsupportedMediaType(_) => "UNSUPPORTED_MEDIA_TYPE"@,
        AppError::NotAcceptable(_) => "NOT_ACCEPTABLE"@,
        AppError::UnprocessableContent(_) => "UNPROCESSABLE_CONTENT"@,
        AppError::ImageProcessingError(_) => "IMAGE_PROCESSING_ERROR"@,
        AppError::IoError(_) => "IO_ERROR"@,
        AppError::CStringError(_) => "CSTRING_CONVERSION_ERROR"@,
        AppError::InternalServerError(_) => "INTERNAL_SERVER_ERROR"@,
    }
}

/// Message answered for each error.
pub open spec fn message_of(e: AppError) -> Seq<char> {
    match e {
        AppError::PluginLoadError(s) => "A critical error occurred while loading plugins: "@ + s@,
        AppError::PluginNotFound(s) => "The requested plugin was not found: "@ + s@,
        AppError::EngineNotFound(s) => "The requested engine was not found: "@ + s@,
        AppError::InstanceNotFound => "The requested engine instance was not found."@,
        AppError::InstanceCreationFailed(s) => "Failed to create engine instance: "@ + s@,
        AppError::PluginOperationFailed { operation, details } => "Plugin operation '"@
            + operation@ + "' failed: "@ + details@,
        AppError::BadRequest(s) => s@,
        AppError::Forbidden(s) => s@,
        AppError::MultipartError(s) => "Invalid multipart request: "@ + s@,
        AppError::UnsupportedMediaType(s) => "Unsupported media type to read: "@ + s@,
        AppError::NotAcceptable(s) => "Unsupported media type to write: "@ + s@,
        AppError::UnprocessableContent(s) => "Unprocessable content: "@ + s@,
        AppError::ImageProcessingError(s) => "Image processing error: "@ + s@,
        AppError::IoError(s) => "An I/O error occurred: "@ + s@,
        AppError::CStringError(s) => "Internal server error preparing data for plugin: "@ + s@,
        AppError::InternalServerError(s) => s@,
    }
}

/// `prefix` followed by `s`, as a new text.
pub fn prefixed(prefix: &str, s: &String) -> (r: String)
    ensures
        r@ == prefix@ + s@,
{
    String::from_str(prefix).concat(s.as_str())
}

impl AppError {
    /// The HTTP status answered for this error.
    pub fn status_code(&self) -> (r: u16)
        ensures
            r == status_of(*self),
    {
        match self {
            AppError::PluginLoadError(_) => 500,
            AppError::PluginNotFound(_) => 400,
            AppError::EngineNotFound(_) => 400,
            AppError::InstanceNotFound => 404,
            AppError::InstanceCreationFailed(_) => 500,
            AppError::PluginOperationFailed { .. } => 500,
            AppError::BadRequest(_) => 400,
            AppError::Forbidden(_) => 403,
            AppError::MultipartError(_) => 400,
            AppError::UnsupportedMediaType(_) => 415,
            AppError::NotAcceptable(_) => 406,
            AppError::UnprocessableContent(_) => 422,
            AppError::ImageProcessingError(_) => 422,
            AppError::IoError(_) => 500,
            AppError::CStringError(_) => 500,
            AppError::InternalServerError(_) => 500,
        }
    }

    /// The stable error code answered for this error.
    pub fn error_code(&self) -> (r: String)
        ensures
            r@ == code_of(*self),
    {
        let code = match self {
            AppError::PluginLoadError(_) => "PLUGIN_LOAD_ERROR",
            AppError::PluginNotFound(_) => "PLUGIN_NOT_FOUND",
            AppError::EngineNotFound(_) => "ENGINE_NOT_FOUND",
            AppError::InstanceNotFound => "INSTANCE_NOT_FOUND",
            AppError::InstanceCreationFailed(_) => "INSTANCE_CREATION_FAILED",
            AppError::PluginOperationFailed { .. } => "PLUGIN_OPERATION_FAILED",
            AppError::BadRequest(_) => "BAD_REQUEST",
            AppError::Forbidden(_) => "FORBIDDEN",
            AppError::MultipartError(_) => "MULTIPART_ERROR",
            AppError::UnsupportedMediaType(_) => "UNSUPPORTED_MEDIA_TYPE",
            AppError::NotAcceptable(_) => "NOT_ACCEPTABLE",
            AppError::UnprocessableContent(_) => "UNPROCESSABLE_CONTENT",
            AppError::ImageProcessingError(_) => "IMAGE_PROCESSING_ERROR",
            AppError::IoError(_) => "IO_ERROR",
            AppError::CStringError(_) => "CSTRING_CONVERSION_ERROR",
            AppError::InternalServerError(_) => "INTERNAL_SERVER_ERROR",
        };
        String::from_str(code)
    }

    /// The human-readable message answered for this error.
    pub fn message(&self) -> (r: String)
        ensures
            r@ == message_of(*self),
    {
        match self {
            AppError::PluginLoadError(s) => prefixed(
                "A critical error occurred while loading plugins: ",
                s,
            ),
            AppError::PluginNotFound(s) => prefixed("The requested plugin was not found: ", s),
            AppError::EngineNotFound(s) => prefixed("The requested engine was not found: ", s),
            AppError::InstanceNotFound => String::from_str(
                "The requested engine instance was not found.",
            ),
            AppError::InstanceCreationFailed(s) => prefixed(
                "Failed to create engine instance: ",
                s,
            ),
            AppError::PluginOperationFailed { operation, details } => {
                let head = prefixed("Plugin operation '", operation);
                head.concat("' failed: ").concat(details.as_str())
            },
            AppError::BadRequest(s) => s.clone(),
            AppError::Forbidden(s) => s.clone(),
            AppError::MultipartError(s) => prefixed("Invalid multipart request: ", s),
            AppError::UnsupportedMediaType(s) => prefixed("Unsupported media type to read: ", s),
            AppError::NotAcceptable(s) => prefixed("Unsupported media type to write: ", s),
            AppError::UnprocessableContent(s) => prefixed("Unprocessable content: ", s),
            AppError::ImageProcessingError(s) => prefixed("Image processing error: ", s),
            AppError::IoError(s) => prefixed("An I/O error occurred: ", s),
            AppError::CStringError(s) => prefixed(
                "Internal server error preparing data for plugin: ",
                s,
            ),
            AppError::InternalServerError(s) => s.clone(),
        }
    }
}

} // verus!
