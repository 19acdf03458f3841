//! Workspace synchronizer core: the daemon control plane (workspace registry,
//! monitor bookkeeping, request dispatch), the monitor's filesystem-watch state
//! machine, the watchdog policy, and the sync-command builder, together with the
//! canonical JSON text format used on the control socket, on the monitors'
//! standard input and in the registry file.

use vstd::prelude::*;

pub mod model;
pub mod registry;
pub mod json;
pub mod codec;
pub mod interface;
pub mod envelope;
pub mod dispatch;
pub mod monitor_mgr;
pub mod watchdog;
pub mod watch;
pub mod syncdrv;
pub mod errors;
pub mod config;

verus! {

/// The number of times a workspace's monitor may exit before the watchdog
/// stops restarting it.
pub const MAX_MONITOR_FAILURES: u64 = 3;

} // verus!
