//! Waiting limits.

use vstd::prelude::*;

verus! {

/// Interval between two checks of the pacman database lock, in milliseconds.
pub const PACMAN_LOCK_CHECK_INTERVAL_MS: u64 = 500;
pub const DEFAULT_WAIT_LOCK_SECS: u64 = 30;
/// Limit of one containerised test run, in seconds.
pub const DOCKER_RUN_TIMEOUT_SECS: u64 = 1800;

} // verus!
