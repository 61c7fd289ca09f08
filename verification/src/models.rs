//! Request and response bodies of the HTTP API, as plain values.
//!
//! Instance identifiers are UUIDs held as their 128-bit value; engine
//! configurations are JSON texts. The second half describes what a plugin
//! host process exchanges with the main process.
use crate::plugin_manager::{EngineInfo, PluginInfo};
use vstd::prelude::*;

verus! {

/// A plugin and its engines, as listed by `GET /plugins`.
#[derive(Debug)]
pub struct PluginDescriptionResponse {
    pub plugin_info: PluginInfo,
    pub engines: Vec<EngineInfo>,
}

/// Body of `POST /instances`.
#[derive(Debug)]
pub struct CreateInstanceRequest {
    pub plugin_id: String,
    pub engine_name: String,
    /// The engine configuration as JSON text.
    pub config: String,
}

/// Answer of `POST /instances`.
#[derive(Debug)]
pub struct CreateInstanceResponse {
    /// The new instance's UUID; `None` for a dry run.
    pub instance_id: Option<u128>,
    pub validation: Option<ValidationResultDesc>,
}

/// Outcome of a plugin's validation of an engine configuration.
#[derive(Debug, Clone)]
pub struct ValidationResultDesc {
    pub is_valid: bool,
    pub error_count: usize,
    pub error_messages: Vec<String>,
    pub warning_count: usize,
    pub warning_messages: Vec<String>,
}

/// Query of `/preload` and `/upscale`: the upscale factor.
#[derive(Debug, Clone, Copy)]
pub struct ScaleQueryParam {
    pub scale: i32,
}

/// Query of `POST /instances`: validate only, when `dry_run` is true.
#[derive(Debug, Clone, Copy)]
pub struct CreateInstanceQuery {
    pub dry_run: Option<bool>,
}

/// One active instance, as listed by `GET /instances`.
#[derive(Debug)]
pub struct InstanceInfoForList {
    pub instance_id: u128,
    pub plugin_id: String,
    pub plugin_name: String,
    pub engine_name: String,
}

/// What a boolean query parameter given as `0`, `1`, `true` or `false`
/// reads as; any other text is refused (`Err` carries it back).
pub open spec fn bool_query_value(s: Option<Seq<char>>) -> Result<Option<bool>, Seq<char>> {
    match s {
        None => Ok(None),
        Some(t) => if t == "1"@ || t == "true"@ {
            Ok(Some(true))
        } else if t == "0"@ || t == "false"@ {
            Ok(Some(false))
        } else {
            Err(t)
        },
    }
}

/// Reads an optional boolean query parameter written `0`, `1`, `true` or
/// `false`; `Err` gives back any other text.
pub fn parse_bool_from_int_optional_query(s: Option<&str>) -> (r: Result<Option<bool>, String>)
    ensures
        match (r, bool_query_value(match s {
            Some(t) => Some(t@),
            None => None,
        })) {
            (Ok(v), Ok(w)) => v == w,
            (Err(e), Err(t)) => e@ == t,
            _ => false,
        },
{
    match s {
        None => Ok(None),
        Some(t) => {
            if crate::text::str_eq(t, "1") || crate::text::str_eq(t, "true") {
                Ok(Some(true))
            } else if crate::text::str_eq(t, "0") || crate::text::str_eq(t, "false") {
                Ok(Some(false))
            } else {
                Err(String::from_str(t))
            }
        },
    }
}

/// Errors of a plugin host process, as its service answers them.
#[derive(Debug)]
pub enum PluginHostError {
    PluginNotFound(String),
    PluginLoadError(String),
    EngineNotFound(String),
    EngineCreationFailed(String),
    EngineInstanceNotFound(u128),
    OperationFailed(String),
    InvalidParameter(String),
    UnsupportedOperation(String),
    ResourceLimitExceeded(String),
    Timeout(String),
    InternalError(String),
}

/// Pixel channel order exchanged with a plugin host.
#[derive(Debug, Clone, Copy, PartialEq, Eq, Structural)]
pub enum ColorFormat {
    Rgb,
    Bgr,
}

/// How an engine instance of a plugin host is (re)created.
#[derive(Debug, Clone)]
pub struct EngineInstanceConfig {
    pub instance_id: u128,
    pub plugin_id: u128,
    pub engine_name: String,
    /// The engine configuration as JSON text.
    pub engine_config: String,
}

/// An engine instance of a plugin host and how long it has been alive.
#[derive(Debug)]
pub struct EngineInstance {
    pub config: EngineInstanceConfig,
    pub uptime_ms: u64,
}

/// The image size a plugin host is asked to preload an engine for.
#[derive(Debug, Clone, Copy)]
pub struct PreloadParams {
    pub width: u32,
    pub height: u32,
    pub channels: u32,
}

/// An upscale request to a plugin host.
#[derive(Debug)]
pub struct UpscaleParams {
    pub scale: u32,
    pub input_width: u32,
    pub input_height: u32,
    pub channels: u32,
    pub input_color_format: ColorFormat,
    pub desired_color_format: ColorFormat,
    pub input_data: Vec<u8>,
}

/// The answer of a plugin host to an upscale request.
#[derive(Debug)]
pub struct UpscaleResult {
    pub processing_time_us: u64,
    pub output_width: u32,
    pub output_height: u32,
    pub channels: u32,
    pub output_color_format: ColorFormat,
    pub output_data: Vec<u8>,
}

/// An engine of a plugin loaded in a plugin host.
#[derive(Debug, Clone)]
pub struct HostEngineInfo {
    pub engine_name: String,
    /// The engine's configuration JSON schema, as compact JSON text.
    pub engine_config_schema: String,
}

/// A plugin loaded in a plugin host, with its engines and instances.
#[derive(Debug)]
pub struct HostPluginInfo {
    pub plugin_id: u128,
    pub path: String,
    pub name: String,
    pub version: String,
    pub author: String,
    pub description: String,
    pub supported_engines: Vec<HostEngineInfo>,
    pub engine_instances: Vec<EngineInstance>,
}

/// A plugin host's answer to a configuration validation.
#[derive(Debug)]
pub struct EngineConfigValidationResult {
    pub is_valid: bool,
    pub warning_messages: Vec<String>,
    pub error_messages: Vec<String>,
}

/// The state of a plugin host process.
#[derive(Debug)]
pub struct PluginHostStatus {
    pub process_id: u32,
    pub uptime_ms: u64,
    pub total_operations: u64,
    pub successful_operations: u64,
    pub failed_operations: u64,
    pub memory_usage_bytes: u64,
    pub loaded_plugins: Vec<HostPluginInfo>,
}

} // verus!
