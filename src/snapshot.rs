//! The persisted form of the store. The running marker is kept as a
//! wall-clock start (nanoseconds since the Unix epoch), since a monotonic
//! reading means nothing to another process.
use vstd::prelude::*;

use crate::time::{sat_sub, since};
use crate::tracker::PausedTracker;

verus! {

/// The running marker as persisted.
#[derive(Debug)]
pub struct StoredRunning {
    pub key: String,
    /// Wall-clock start, in nanoseconds since the Unix epoch.
    pub start_unix_nanos: u128,
}

/// The whole state as persisted: the marker and the trackers in order.
#[derive(Debug)]
pub struct StoredState {
    pub running: Option<StoredRunning>,
    pub trackers: Vec<(String, PausedTracker)>,
}

/// No two stored trackers share a key.
pub open spec fn keys_unique(s: Seq<(String, PausedTracker)>) -> bool {
    forall|i: int, j: int|
        0 <= i < s.len() && 0 <= j < s.len() && i != j ==> (#[trigger] s[i]).0@ != (#[trigger] s[j]).0@
}

/// A stored state can be loaded: keys are unique and the marker names one
/// of the trackers.
pub open spec fn restorable(state: StoredState) -> bool {
    &&& keys_unique(state.trackers@)
    &&& (state.running matches Some(r) ==> exists|i: int|
        0 <= i < state.trackers@.len() && (#[trigger] state.trackers@[i]).0@ == r.key@)
}

/// The wall-clock start of a marker that started at the monotonic reading
/// `start`, when the clocks read `now` and `wall_now`.
pub open spec fn wall_start(start: u128, now: u128, wall_now: u128) -> int {
    sat_sub(wall_now as int, since(start, now))
}

/// The monotonic start of a marker stored with wall-clock start `stored`,
/// when the clocks read `now` and `wall_now`.
pub open spec fn monotonic_start(stored: u128, now: u128, wall_now: u128) -> int {
    sat_sub(now as int, sat_sub(wall_now as int, stored as int))
}

} // verus!
