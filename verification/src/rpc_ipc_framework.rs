//! Settings of the first RPC-over-IPC framework between the main process
//! and the plugin hosts.
use vstd::prelude::*;

verus! {

/// Settings of the RPC client (the main process).
#[derive(Debug, Clone, Copy)]
pub struct RpcClientConfig {
    /// Timeout for client calls, in milliseconds.
    pub timeout_ms: u64,
    /// Timeout for a graceful shutdown, in milliseconds.
    pub shutdown_timeout_ms: u64,
}

impl Default for RpcClientConfig {
    /// Five seconds for calls and for shutting down.
    fn default() -> (r: RpcClientConfig)
        ensures
            r.timeout_ms == 5000,
            r.shutdown_timeout_ms == 5000,
    {
        RpcClientConfig { timeout_ms: 5000, shutdown_timeout_ms: 5000 }
    }
}

/// Settings of the RPC server (the plugin host).
#[derive(Debug, Clone, Copy)]
pub struct RpcServerConfig {
    /// Timeout for a graceful shutdown, in milliseconds.
    pub shutdown_timeout_ms: u64,
}

impl Default for RpcServerConfig {
    /// Five seconds for shutting down.
    fn default() -> (r: RpcServerConfig)
        ensures
            r.shutdown_timeout_ms == 5000,
    {
        RpcServerConfig { shutdown_timeout_ms: 5000 }
    }
}

} // verus!
