//! Decisions of the main process about one plugin host process: whether a
//! request may be sent to it, and the supervisor that respawns it when it
//! dies.
//!
//! The supervisor is a state machine: the caller sleeps, polls the process,
//! spawns a replacement and reports what happened; the machine answers what
//! to do next.
use crate::models::PluginHostError;
use vstd::prelude::*;
use vstd::string::*;

verus! {

/// What the supervisor does when the plugin host process ends.
#[derive(Debug, Clone, Copy, PartialEq, Eq, Structural)]
pub enum PluginHostRespawnMode {
    /// Restart the plugin host process if it crashes.
    RestartOnCrash,
    /// Do not restart it for now (it crashed too often).
    Suspended,
    /// Do not restart it (the application is shutting down).
    NoRestart,
}

/// How long the supervisor sleeps before each look at the process.
pub const POLL_INTERVAL_MS: u64 = 3000;

/// How long the supervisor waits while respawning is suspended.
pub const SUSPENDED_WAIT_MS: u64 = 5000;

/// How long the supervisor waits after a failed respawn attempt.
pub const RESPAWN_BACKOFF_MS: u64 = 1000;

/// Consecutive failed respawns after which respawning is suspended.
pub const MAX_CONSECUTIVE_CRASHES: u64 = 5;

/// What a look at the plugin host process found.
#[derive(Debug, Clone, Copy, PartialEq, Eq, Structural)]
pub enum ProcessObservation {
    Running,
    Exited,
    /// The process could not be waited for.
    WaitFailed,
}

/// How an attempt to respawn the plugin host ended.
#[derive(Debug, Clone, Copy, PartialEq, Eq, Structural)]
pub enum RespawnOutcome {
    /// The bootstrap channel for the new process could not be created.
    BootstrapFailed,
    /// The new process runs, with the plugin and its instances restored.
    Respawned,
    /// Spawning, connecting, reloading or restoring failed.
    Failed,
}

/// What the supervisor does next.
#[derive(Debug, Clone, Copy, PartialEq, Eq, Structural)]
pub enum SupervisorAction {
    /// Sleep `pause_ms`, then go on supervising (sleep the poll interval
    /// and look at the process).
    Continue { pause_ms: u64 },
    /// Spawn a replacement process and report the outcome.
    Respawn,
    /// Stop supervising.
    Stop,
}

/// The supervisor's state: the respawn mode and the number of respawn
/// attempts that failed in a row.
#[derive(Debug, Clone, Copy, PartialEq, Eq, Structural)]
pub struct RespawnSupervisor {
    pub mode: PluginHostRespawnMode,
    pub consecutive_crashes: u64,
}

/// The action after a look at the process.
pub open spec fn observed_action(mode: PluginHostRespawnMode, obs: ProcessObservation) -> SupervisorAction {
    match obs {
        ProcessObservation::Running => SupervisorAction::Continue { pause_ms: 0 },
        ProcessObservation::WaitFailed => SupervisorAction::Stop,
        ProcessObservation::Exited => match mode {
            PluginHostRespawnMode::Suspended => SupervisorAction::Continue {
                pause_ms: SUSPENDED_WAIT_MS,
            },
            PluginHostRespawnMode::NoRestart => SupervisorAction::Stop,
            PluginHostRespawnMode::RestartOnCrash => SupervisorAction::Respawn,
        },
    }
}

/// The state and action after a respawn attempt.
pub open spec fn respawn_step(s: RespawnSupervisor, outcome: RespawnOutcome) -> (
    RespawnSupervisor,
    SupervisorAction,
) {
    match outcome {
        RespawnOutcome::BootstrapFailed => (s, SupervisorAction::Continue { pause_ms: RESPAWN_BACKOFF_MS }),
        RespawnOutcome::Respawned => (
            RespawnSupervisor { consecutive_crashes: 0, ..s },
            SupervisorAction::Continue { pause_ms: 0 },
        ),
        RespawnOutcome::Failed => {
            let c = (s.consecutive_crashes + 1) as u64;
            if c >= MAX_CONSECUTIVE_CRASHES {
                (
                    RespawnSupervisor { mode: PluginHostRespawnMode::Suspended, consecutive_crashes: c },
                    SupervisorAction::Continue { pause_ms: 0 },
                )
            } else {
                (
                    RespawnSupervisor { consecutive_crashes: c, ..s },
                    SupervisorAction::Continue { pause_ms: RESPAWN_BACKOFF_MS },
                )
            }
        },
    }
}

impl RespawnSupervisor {
    /// A supervisor that restarts a crashed process, with no crash counted.
    pub fn new() -> (r: RespawnSupervisor)
        ensures
            r.mode == PluginHostRespawnMode::RestartOnCrash,
            r.consecutive_crashes == 0,
    {
        RespawnSupervisor { mode: PluginHostRespawnMode::RestartOnCrash, consecutive_crashes: 0 }
    }

    /// Changes the respawn mode (before shutting the process down, for one).
    pub fn set_respawn_mode(&mut self, mode: PluginHostRespawnMode)
        ensures
            final(self).mode == mode,
            final(self).consecutive_crashes == old(self).consecutive_crashes,
    {
        self.mode = mode;
    }

    /// What to do after a look at the process: go on while it runs, stop
    /// when it cannot be waited for; once it has exited, respawn it, wait
    /// while respawning is suspended, or stop when it must not restart.
    pub fn on_observation(&self, obs: ProcessObservation) -> (r: SupervisorAction)
        ensures
            r == observed_action(self.mode, obs),
    {
        match obs {
            ProcessObservation::Running => SupervisorAction::Continue { pause_ms: 0 },
            ProcessObservation::WaitFailed => SupervisorAction::Stop,
            ProcessObservation::Exited => match self.mode {
                PluginHostRespawnMode::Suspended => SupervisorAction::Continue {
                    pause_ms: SUSPENDED_WAIT_MS,
                },
                PluginHostRespawnMode::NoRestart => SupervisorAction::Stop,
                PluginHostRespawnMode::RestartOnCrash => SupervisorAction::Respawn,
            },
        }
    }

    /// What to do after a respawn attempt: a success clears the crash
    /// count; a failure counts, and the fifth in a row suspends
    /// respawning; a failure to set up the bootstrap channel only backs off.
    pub fn on_respawn(&mut self, outcome: RespawnOutcome) -> (r: SupervisorAction)
        requires
            old(self).consecutive_crashes < u64::MAX,
        ensures
            (*final(self), r) == respawn_step(*old(self), outcome),
    {
        match outcome {
            RespawnOutcome::BootstrapFailed => SupervisorAction::Continue {
                pause_ms: RESPAWN_BACKOFF_MS,
            },
            RespawnOutcome::Respawned => {
                self.consecutive_crashes = 0;
                SupervisorAction::Continue { pause_ms: 0 }
            },
            RespawnOutcome::Failed => {
                self.consecutive_crashes = self.consecutive_crashes + 1;
                if self.consecutive_crashes >= MAX_CONSECUTIVE_CRASHES {
                    self.mode = PluginHostRespawnMode::Suspended;
                    SupervisorAction::Continue { pause_ms: 0 }
                } else {
                    SupervisorAction::Continue { pause_ms: RESPAWN_BACKOFF_MS }
                }
            },
        }
    }
}

/// The supervisor after `n` failed respawn attempts in a row, each made
/// only while it restarts crashed processes.
pub open spec fn after_failures(s: RespawnSupervisor, n: nat) -> RespawnSupervisor
    decreases n,
{
    if n == 0 {
        s
    } else {
        let t = after_failures(s, (n - 1) as nat);
        if t.mode == PluginHostRespawnMode::RestartOnCrash {
            respawn_step(t, RespawnOutcome::Failed).0
        } else {
            t
        }
    }
}

/// Law: starting from a clear count, respawning is suspended exactly when
/// the fifth respawn in a row has failed; before that the supervisor keeps
/// restarting and counts the failures.
pub proof fn law_suspended_after_five_failures(n: nat)
    ensures
        ({
            let t = after_failures(RespawnSupervisor { mode: PluginHostRespawnMode::RestartOnCrash, consecutive_crashes: 0 }, n);
            &&& n < MAX_CONSECUTIVE_CRASHES ==> t.mode == PluginHostRespawnMode::RestartOnCrash
                && t.consecutive_crashes == n
            &&& n >= MAX_CONSECUTIVE_CRASHES ==> t.mode == PluginHostRespawnMode::Suspended
                && t.consecutive_crashes == MAX_CONSECUTIVE_CRASHES
        }),
    decreases n,
{
    if n > 0 {
        law_suspended_after_five_failures((n - 1) as nat);
    }
}

/// Law: a successful respawn clears the crash count and keeps the mode, so
/// the next failures are counted from zero again.
pub proof fn law_respawn_clears_count(s: RespawnSupervisor)
    ensures
        respawn_step(s, RespawnOutcome::Respawned).0.consecutive_crashes == 0,
        respawn_step(s, RespawnOutcome::Respawned).0.mode == s.mode,
{
}

/// Law: once the application has asked for no restart, an exited process
/// ends the supervision; a process that cannot be waited for always does.
pub proof fn law_no_restart_stops(mode: PluginHostRespawnMode)
    ensures
        observed_action(PluginHostRespawnMode::NoRestart, ProcessObservation::Exited)
            == SupervisorAction::Stop,
        observed_action(mode, ProcessObservation::WaitFailed) == SupervisorAction::Stop,
{
}

/// Checks that requests may be sent to the plugin host: the plugin must be
/// loaded, then the process must be there.
pub fn check_plugin_ready(plugin_loaded: bool, process_available: bool) -> (r: Result<
    (),
    PluginHostError,
>)
    ensures
        !plugin_loaded ==> (r matches Err(PluginHostError::PluginNotFound(m)) && m@
            == "Plugin not loaded"@),
        plugin_loaded && !process_available ==> (r matches Err(PluginHostError::InternalError(m))
            && m@ == "Plugin host process not available"@),
        plugin_loaded && process_available ==> r is Ok,
{
    if !plugin_loaded {
        return Err(PluginHostError::PluginNotFound(String::from_str("Plugin not loaded")));
    }
    if !process_available {
        return Err(
            PluginHostError::InternalError(String::from_str("Plugin host process not available")),
        );
    }
    Ok(())
}

/// Checks that the plugin may be loaded into the plugin host: it must not
/// be loaded already, then the process must be there.
pub fn check_plugin_loadable(plugin_loaded: bool, process_available: bool) -> (r: Result<
    (),
    PluginHostError,
>)
    ensures
        plugin_loaded ==> (r matches Err(PluginHostError::PluginLoadError(m)) && m@
            == "Plugin already loaded"@),
        !plugin_loaded && !process_available ==> (r matches Err(PluginHostError::InternalError(m))
            && m@ == "Plugin host process not available"@),
        !plugin_loaded && process_available ==> r is Ok,
{
    if plugin_loaded {
        return Err(PluginHostError::PluginLoadError(String::from_str("Plugin already loaded")));
    }
    if !process_available {
        return Err(
            PluginHostError::InternalError(String::from_str("Plugin host process not available")),
        );
    }
    Ok(())
}

} // verus!
