//! The relay's heartbeat to the master: what a heartbeat's outcome does to
//! the count of consecutive failures and when the relay registers again.

use vstd::prelude::*;

verus! {

/// Consecutive failed heartbeats after which the relay registers again.
pub const HEARTBEAT_FAILURES_BEFORE_REREGISTER: u32 = 6;

/// The shortest heartbeat interval, in milliseconds.
pub const MIN_HEARTBEAT_INTERVAL_MS: u64 = 500;

/// How a heartbeat request ended.
#[derive(Debug, Clone, Copy, PartialEq, Eq, Structural)]
pub enum HeartbeatOutcome {
    /// The master answered with this HTTP status.
    Response(u16),
    /// The request did not reach the master or got no answer.
    TransportError,
}

/// What to do after a heartbeat.
#[derive(Debug, Clone, Copy, PartialEq, Eq, Structural)]
pub enum HeartbeatAction {
    /// Wait for the next beat.
    Continue,
    /// Register with the master again, then beat at the interval it gives.
    Reregister,
}

/// The state after a heartbeat that followed `failures` consecutive failed
/// ones: the new failure count, whether the relay counts as registered with
/// the master (after any re-registration has completed), and what to do.
/// A 2xx answer clears the count; any other answer or a transport error
/// adds one (saturating); a 404 answer, or a sixth failure in a row, leads
/// to registering again, after which the count starts over.
pub open spec fn heartbeat_spec(failures: u32, outcome: HeartbeatOutcome) -> (u32, bool, HeartbeatAction) {
    let failed = if failures < u32::MAX { (failures + 1) as u32 } else { u32::MAX };
    match outcome {
        HeartbeatOutcome::Response(status) => if 200 <= status < 300 {
            (0, true, HeartbeatAction::Continue)
        } else if status == 404 || failed >= HEARTBEAT_FAILURES_BEFORE_REREGISTER {
            (0, true, HeartbeatAction::Reregister)
        } else {
            (failed, false, HeartbeatAction::Continue)
        },
        HeartbeatOutcome::TransportError => if failed >= HEARTBEAT_FAILURES_BEFORE_REREGISTER {
            (0, true, HeartbeatAction::Reregister)
        } else {
            (failed, false, HeartbeatAction::Continue)
        },
    }
}

/// See [`heartbeat_spec`].
pub fn heartbeat_step(failures: u32, outcome: HeartbeatOutcome) -> (r: (u32, bool, HeartbeatAction))
    ensures
        r == heartbeat_spec(failures, outcome),
{
    let failed = failures.saturating_add(1);
    match outcome {
        HeartbeatOutcome::Response(status) => {
            if 200 <= status && status < 300 {
                (0, true, HeartbeatAction::Continue)
            } else if status == 404 || failed >= HEARTBEAT_FAILURES_BEFORE_REREGISTER {
                (0, true, HeartbeatAction::Reregister)
            } else {
                (failed, false, HeartbeatAction::Continue)
            }
        },
        HeartbeatOutcome::TransportError => {
            if failed >= HEARTBEAT_FAILURES_BEFORE_REREGISTER {
                (0, true, HeartbeatAction::Reregister)
            } else {
                (failed, false, HeartbeatAction::Continue)
            }
        },
    }
}

/// The heartbeat interval the master asked for, at least 500 ms.
pub fn heartbeat_interval_ms(requested_ms: u64) -> (r: u64)
    ensures
        r == if requested_ms >= MIN_HEARTBEAT_INTERVAL_MS {
            requested_ms
        } else {
            MIN_HEARTBEAT_INTERVAL_MS
        },
{
    if requested_ms >= MIN_HEARTBEAT_INTERVAL_MS {
        requested_ms
    } else {
        MIN_HEARTBEAT_INTERVAL_MS
    }
}

/// The relay never goes more than six heartbeats in a row without
/// registering again: from fewer than six failures, the count after any
/// outcome stays below six.
pub proof fn law_failures_stay_below_reregister(failures: u32, outcome: HeartbeatOutcome)
    requires
        failures < HEARTBEAT_FAILURES_BEFORE_REREGISTER,
    ensures
        heartbeat_spec(failures, outcome).0 < HEARTBEAT_FAILURES_BEFORE_REREGISTER,
        heartbeat_spec(failures, outcome).2 == HeartbeatAction::Reregister
            ==> heartbeat_spec(failures, outcome).0 == 0,
{
}

} // verus!
