//! The main process of the multi-process server: supervising the plugin
//! host processes and the web front end that talks to them.
pub mod plugin_host_client;
pub mod web;
