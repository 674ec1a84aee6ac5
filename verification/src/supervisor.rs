//! Process supervision rules.
//!
//! The supervisor runs the governed pipeline in a child process,
//! restarts children forever, and bounds each child's lifetime with a
//! watchdog: once the ceiling has elapsed the child is terminated, not
//! because anything failed, but to bound stale backend connections.

use vstd::prelude::*;

use crate::log::Level;

verus! {

/// A supervised child process: its id and the time it was spawned.
#[derive(Debug, Clone, Copy, PartialEq, Eq, Structural)]
pub struct ChildHandle {
    pub pid: i32,
    pub spawned_ms: u64,
}

/// Whether the watchdog's lifetime ceiling has elapsed for the child:
/// the child is forcibly terminated as soon as this holds.
pub fn watchdog_expired(child: &ChildHandle, now_ms: u64, ceiling_ms: u64) -> (r: bool)
    ensures
        r == (now_ms >= child.spawned_ms && now_ms - child.spawned_ms >= ceiling_ms),
{
    now_ms >= child.spawned_ms && now_ms - child.spawned_ms >= ceiling_ms
}

/// What the non-blocking status check reported just before the watchdog
/// terminates a child.
#[derive(Debug, Clone, Copy, PartialEq, Eq, Structural)]
pub enum WaitObservation {
    /// The child still runs: the expected case.
    StillAlive,
    /// The child had already exited on its own.
    AlreadyExited,
    /// The status could not be read.
    StatusUnavailable,
}

/// The severity the watchdog reports the pre-termination status check
/// at: a still-running child is expected, one that already exited is
/// surprising, a failed status check is an error.
pub fn watchdog_check_level(w: &WaitObservation) -> (r: Level)
    ensures
        w is StillAlive ==> r == Level::Debug,
        w is AlreadyExited ==> r == Level::Warn,
        w is StatusUnavailable ==> r == Level::Error,
{
    match w {
        WaitObservation::StillAlive => Level::Debug,
        WaitObservation::AlreadyExited => Level::Warn,
        WaitObservation::StatusUnavailable => Level::Error,
    }
}

} // verus!
