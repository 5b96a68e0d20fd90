//! Time tracking against externally identified work items.
//!
//! The core is [`store::TrackerStore`]: an insertion-ordered set of paused
//! trackers plus at most one running marker. Every operation that depends on
//! the clock takes the current monotonic reading as an argument, so the whole
//! state machine is a pure function of its inputs.
pub mod config;
pub mod error;
pub mod key;
pub mod laws;
pub mod map;
pub mod snapshot;
pub mod store;
pub mod time;
pub mod tracker;
