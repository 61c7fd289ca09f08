//! Errors of the multi-process server's HTTP API and what each answers.
use crate::instance_manager::{uuid_hyphenated, uuid_text};
use crate::models::PluginHostError;
use vstd::prelude::*;
use vstd::string::*;

verus! {

/// An error answered by the HTTP API.
#[derive(Debug)]
pub enum ApiError {
    BadRequest(String),
    Unauthorized(String),
    Forbidden(String),
    NotFound(String),
    MethodNotAllowed(String),
    NotAcceptable(String),
    RequestTimeout(String),
    Conflict(String),
    Gone(String),
    LengthRequired(String),
    PayloadTooLarge(String),
    UnsupportedMediaType(String),
    UnprocessableEntity(String),
    TooManyRequests(String),
    InternalServerError(String),
    NotImplemented(String),
    BadGateway(String),
    ServiceUnavailable(String),
    GatewayTimeout(String),
    PluginNotFound(String),
    PluginLoadError(String),
    EngineNotFound(String),
    InstanceNotFound(u128),
    ImageProcessingError(String),
}

/// The HTTP status answered for each error.
pub open spec fn api_status(e: ApiError) -> u16 {
    match e {
        ApiError::BadRequest(_) => 400,
        ApiError::Unauthorized(_) => 401,
        ApiError::Forbidden(_) => 403,
        ApiError::NotFound(_) => 404,
        ApiError::MethodNotAllowed(_) => 405,
        ApiError::NotAcceptable(_) => 406,
        ApiError::RequestTimeout(_) => 408,
        ApiError::Conflict(_) => 409,
        ApiError::Gone(_) => 410,
        ApiError::LengthRequired(_) => 411,
        ApiError::PayloadTooLarge(_) => 413,
        ApiError::UnsupportedMediaType(_) => 415,
        ApiError::UnprocessableEntity(_) => 422,
        ApiError::TooManyRequests(_) => 429,
        ApiError::InternalServerError(_) => 500,
        ApiError::NotImplemented(_) => 501,
        ApiError::BadGateway(_) => 502,
        ApiError::ServiceUnavailable(_) => 503,
        ApiError::GatewayTimeout(_) => 504,
        ApiError::PluginNotFound(_) => 404,
        ApiError::PluginLoadError(_) => 500,
        ApiError::EngineNotFound(_) => 404,
        ApiError::InstanceNotFound(_) => 404,
        ApiError::ImageProcessingError(_) => 400,
    }
}

/// The message answered for each error.
pub open spec fn api_message(e: ApiError) -> Seq<char> {
    match e {
        ApiError::BadRequest(m) => m@,
        ApiError::Unauthorized(m) => m@,
        ApiError::Forbidden(m) => m@,
        ApiError::NotFound(m) => m@,
        ApiError::MethodNotAllowed(m) => m@,
        ApiError::NotAcceptable(m) => m@,
        ApiError::RequestTimeout(m) => m@,
        ApiError::Conflict(m) => m@,
        ApiError::Gone(m) => m@,
        ApiError::LengthRequired(m) => m@,
        ApiError::PayloadTooLarge(m) => m@,
        ApiError::UnsupportedMediaType(m) => m@,
        ApiError::UnprocessableEntity(m) => m@,
        ApiError::TooManyRequests(m) => m@,
        ApiError::InternalServerError(m) => m@,
        ApiError::NotImplemented(m) => m@,
        ApiError::BadGateway(m) => m@,
        ApiError::ServiceUnavailable(m) => m@,
        ApiError::GatewayTimeout(m) => m@,
        ApiError::PluginNotFound(m) => m@,
        ApiError::PluginLoadError(m) => m@,
        ApiError::EngineNotFound(m) => m@,
        ApiError::InstanceNotFound(id) => "Instance with ID "@ + uuid_hyphenated(id) + " not found"@,
        ApiError::ImageProcessingError(m) => m@,
    }
}

impl ApiError {
    /// The HTTP status answered for the error.
    pub fn status_code(&self) -> (r: u16)
        ensures
            r == api_status(*self),
    {
        match self {
            ApiError::BadRequest(_) => 400,
            ApiError::Unauthorized(_) => 401,
            ApiError::Forbidden(_) => 403,
            ApiError::NotFound(_) => 404,
            ApiError::MethodNotAllowed(_) => 405,
            ApiError::NotAcceptable(_) => 406,
            ApiError::RequestTimeout(_) => 408,
            ApiError::Conflict(_) => 409,
            ApiError::Gone(_) => 410,
            ApiError::LengthRequired(_) => 411,
            ApiError::PayloadTooLarge(_) => 413,
            ApiError::UnsupportedMediaType(_) => 415,
            ApiError::UnprocessableEntity(_) => 422,
            ApiError::TooManyRequests(_) => 429,
            ApiError::InternalServerError(_) => 500,
            ApiError::NotImplemented(_) => 501,
            ApiError::BadGateway(_) => 502,
            ApiError::ServiceUnavailable(_) => 503,
            ApiError::GatewayTimeout(_) => 504,
            ApiError::PluginNotFound(_) => 404,
            ApiError::PluginLoadError(_) => 500,
            ApiError::EngineNotFound(_) => 404,
            ApiError::InstanceNotFound(_) => 404,
            ApiError::ImageProcessingError(_) => 400,
        }
    }

    /// The message answered for the error.
    pub fn message(&self) -> (r: String)
        ensures
            r@ == api_message(*self),
    {
        match self {
            ApiError::InstanceNotFound(id) => String::from_str("Instance with ID ").concat(
                uuid_text(*id).as_str(),
            ).concat(" not found"),
            ApiError::BadRequest(m) => m.clone(),
            ApiError::Unauthorized(m) => m.clone(),
            ApiError::Forbidden(m) => m.clone(),
            ApiError::NotFound(m) => m.clone(),
            ApiError::MethodNotAllowed(m) => m.clone(),
            ApiError::NotAcceptable(m) => m.clone(),
            ApiError::RequestTimeout(m) => m.clone(),
            ApiError::Conflict(m) => m.clone(),
            ApiError::Gone(m) => m.clone(),
            ApiError::LengthRequired(m) => m.clone(),
            ApiError::PayloadTooLarge(m) => m.clone(),
            ApiError::UnsupportedMediaType(m) => m.clone(),
            ApiError::UnprocessableEntity(m) => m.clone(),
            ApiError::TooManyRequests(m) => m.clone(),
            ApiError::InternalServerError(m) => m.clone(),
            ApiError::NotImplemented(m) => m.clone(),
            ApiError::BadGateway(m) => m.clone(),
            ApiError::ServiceUnavailable(m) => m.clone(),
            ApiError::GatewayTimeout(m) => m.clone(),
            ApiError::PluginNotFound(m) => m.clone(),
            ApiError::PluginLoadError(m) => m.clone(),
            ApiError::EngineNotFound(m) => m.clone(),
            ApiError::ImageProcessingError(m) => m.clone(),
        }
    }
}

/// How a plugin host's error is answered.
pub open spec fn api_error_of(e: PluginHostError) -> ApiError {
    match e {
        PluginHostError::PluginNotFound(m) => ApiError::PluginNotFound(m),
        PluginHostError::PluginLoadError(m) => ApiError::PluginLoadError(m),
        PluginHostError::EngineNotFound(m) => ApiError::EngineNotFound(m),
        PluginHostError::EngineCreationFailed(m) => ApiError::BadRequest(m),
        PluginHostError::EngineInstanceNotFound(id) => ApiError::InstanceNotFound(id),
        PluginHostError::OperationFailed(m) => ApiError::InternalServerError(m),
        PluginHostError::InvalidParameter(m) => ApiError::BadRequest(m),
        PluginHostError::UnsupportedOperation(m) => ApiError::NotImplemented(m),
        PluginHostError::ResourceLimitExceeded(m) => ApiError::TooManyRequests(m),
        PluginHostError::Timeout(m) => ApiError::RequestTimeout(m),
        PluginHostError::InternalError(m) => ApiError::InternalServerError(m),
    }
}

impl From<PluginHostError> for ApiError {
    fn from(error: PluginHostError) -> (r: ApiError) {
        match error {
            PluginHostError::PluginNotFound(m) => ApiError::PluginNotFound(m),
            PluginHostError::PluginLoadError(m) => ApiError::PluginLoadError(m),
            PluginHostError::EngineNotFound(m) => ApiError::EngineNotFound(m),
            PluginHostError::EngineCreationFailed(m) => ApiError::BadRequest(m),
            PluginHostError::EngineInstanceNotFound(id) => ApiError::InstanceNotFound(id),
            PluginHostError::OperationFailed(m) => ApiError::InternalServerError(m),
            PluginHostError::InvalidParameter(m) => ApiError::BadRequest(m),
            PluginHostError::UnsupportedOperation(m) => ApiError::NotImplemented(m),
            PluginHostError::ResourceLimitExceeded(m) => ApiError::TooManyRequests(m),
            PluginHostError::Timeout(m) => ApiError::RequestTimeout(m),
            PluginHostError::InternalError(m) => ApiError::InternalServerError(m),
        }
    }
}

impl vstd::std_specs::convert::FromSpecImpl<PluginHostError> for ApiError {
    open spec fn obeys_from_spec() -> bool {
        true
    }

    open spec fn from_spec(v: PluginHostError) -> ApiError {
        api_error_of(v)
    }
}

/// Law: a plugin host error keeps its message when it is answered, except
/// a missing instance, which is named by its UUID.
pub proof fn law_host_error_message_kept(e: PluginHostError)
    ensures
        match e {
            PluginHostError::EngineInstanceNotFound(id) => api_message(api_error_of(e))
                == "Instance with ID "@ + uuid_hyphenated(id) + " not found"@,
            PluginHostError::PluginNotFound(m) => api_message(api_error_of(e)) == m@,
            PluginHostError::PluginLoadError(m) => api_message(api_error_of(e)) == m@,
            PluginHostError::EngineNotFound(m) => api_message(api_error_of(e)) == m@,
            PluginHostError::EngineCreationFailed(m) => api_message(api_error_of(e)) == m@,
            PluginHostError::OperationFailed(m) => api_message(api_error_of(e)) == m@,
            PluginHostError::InvalidParameter(m) => api_message(api_error_of(e)) == m@,
            PluginHostError::UnsupportedOperation(m) => api_message(api_error_of(e)) == m@,
            PluginHostError::ResourceLimitExceeded(m) => api_message(api_error_of(e)) == m@,
            PluginHostError::Timeout(m) => api_message(api_error_of(e)) == m@,
            PluginHostError::InternalError(m) => api_message(api_error_of(e)) == m@,
        },
{
}

} // verus!
