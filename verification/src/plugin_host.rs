//! The plugin host process of the multi-process server: one plugin, its
//! engine instances and the service the main process calls.
pub mod plugin;
pub mod plugin_ffi;
pub mod instance_manager;
pub mod plugin_host_impl;
