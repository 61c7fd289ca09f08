//! Request and response bodies of the multi-process server's HTTP API.
//!
//! UUIDs are held as their 128-bit value; engine configurations as JSON text.
use crate::models::{HostEngineInfo, HostPluginInfo};
use vstd::prelude::*;

verus! {

/// A plugin and its engines, as listed by `GET /plugins`.
#[derive(Debug)]
pub struct PluginDescription {
    pub plugin_info: HostPluginInfo,
    pub engines: Vec<HostEngineInfo>,
}

/// Body of `POST /instances`.
#[derive(Debug)]
pub struct CreateInstanceRequest {
    pub plugin_id: u128,
    pub engine_name: String,
    /// The engine configuration as JSON text.
    pub config: String,
}

/// Query of `POST /instances`: validate only, when `dry_run` is true.
#[derive(Debug, Clone, Copy)]
pub struct CreateInstanceQuery {
    pub dry_run: Option<bool>,
}

/// Answer of `POST /instances`.
#[derive(Debug)]
pub struct CreateInstanceResponse {
    pub instance_id: Option<u128>,
    pub validation: Option<ValidationResultDesc>,
}

/// Outcome of a plugin's validation of an engine configuration.
#[derive(Debug)]
pub struct ValidationResultDesc {
    pub is_valid: bool,
    pub error_count: usize,
    pub error_messages: Vec<String>,
    pub warning_count: usize,
    pub warning_messages: Vec<String>,
}

/// Query of `/preload` and `/upscale`: the upscale factor.
#[derive(Debug, Clone, Copy)]
pub struct ScaleQueryParam {
    pub scale: u32,
}

/// One active instance, as listed by `GET /instances`.
#[derive(Debug)]
pub struct InstanceInfoForList {
    pub instance_id: u128,
    pub plugin_id: u128,
    pub plugin_name: String,
    pub engine_name: String,
    pub uptime_ms: u64,
}

} // verus!
