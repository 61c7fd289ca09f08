//! Verified core of the upscaling server: request validation, media-type
//! negotiation, the raw-bitmap wire format, plugin and instance bookkeeping.
pub mod text;
pub mod plugin_ffi;
pub mod error;
pub mod raw_bitmap;
pub mod headers;
pub mod imaging;
pub mod models;
pub mod plugin_manager;
pub mod instance_manager;
pub mod handlers;
pub mod listeners;
pub mod main_process;
pub mod plugin_host;
pub mod rpc_ipc_framework;
pub mod rpc_ipc_framework2;
