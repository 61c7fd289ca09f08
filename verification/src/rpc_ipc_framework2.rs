//! Settings and bootstrap messages of the second RPC-over-IPC framework
//! between the main process and the RPC hosts.
use vstd::prelude::*;

verus! {

/// The confirmation an RPC host and the main process exchange once the
/// bootstrap has completed, or when one of them shuts down.
#[derive(Debug, Clone, Copy, PartialEq, Eq, Structural)]
pub enum BootstrapConfirmation {
    Ready,
    Shutdown,
}

/// Settings of the RPC client (the main process).
#[derive(Debug, Clone, Copy)]
pub struct RpcClientConfig {
    /// Timeout for a graceful shutdown, in milliseconds.
    pub shutdown_timeout_ms: u64,
}

impl Default for RpcClientConfig {
    /// Five seconds for shutting down.
    fn default() -> (r: RpcClientConfig)
        ensures
            r.shutdown_timeout_ms == 5000,
    {
        RpcClientConfig { shutdown_timeout_ms: 5000 }
    }
}

/// Settings of the RPC server (the RPC host).
#[derive(Debug, Clone, Copy)]
pub struct RpcServerConfig {
    /// Timeout for a graceful shutdown, in milliseconds.
    pub shutdown_timeout_ms: u64,
}

impl Default for RpcServerConfig {
    /// Five seconds for shutting down.
    fn default() -> (r: RpcServerConfig)
        ensures
            r.shutdown_timeout_ms == 5000,
    {
        RpcServerConfig { shutdown_timeout_ms: 5000 }
    }
}

} // verus!
