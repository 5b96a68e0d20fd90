use vstd::prelude::*;

use crate::time::{sat_add, sat_sub, since, total, LocalTime};

verus! {

/// The accumulated record of one work item. Time spent while running is not
/// held here: it is folded into `duration` when the tracker is paused.
#[derive(Debug)]
pub struct PausedTracker {
    /// Identifier of the work item, resolved when the tracker was created.
    pub id: String,
    /// Free text; the store never sets it to an empty string.
    pub description: Option<String>,
    /// Accumulated paused time, in nanoseconds.
    pub duration: u128,
    /// Manual corrections that add time, in nanoseconds, in order of entry.
    pub positive_adjustments: Vec<u128>,
    /// Manual corrections that remove time, in nanoseconds, in order of entry.
    pub negative_adjustments: Vec<u128>,
    /// When the tracker was created.
    pub start_time: LocalTime,
}

/// A copy of a list of spans.
fn copy_spans(v: &Vec<u128>) -> (r: Vec<u128>)
    ensures
        r@ == v@,
{
    let mut out: Vec<u128> = Vec::new();
    let mut i: usize = 0;
    while i < v.len()
        invariant
            i <= v@.len(),
            out@ == v@.subrange(0, i as int),
        decreases v@.len() - i,
    {
        out.push(v[i]);
        i = i + 1;
        proof {
            assert(out@ =~= v@.subrange(0, i as int));
        }
    }
    proof {
        assert(v@.subrange(0, i as int) =~= v@);
    }
    out
}

/// The view of an optional string.
pub open spec fn opt_view(s: Option<String>) -> Option<Seq<char>> {
    match s {
        Some(t) => Some(t@),
        None => None,
    }
}

impl PausedTracker {
    /// A fresh tracker: no time, no adjustments, no description.
    pub fn new(id: &str, start_time: LocalTime) -> (r: PausedTracker)
        ensures
            r.id@ == id@,
            r.description is None,
            r.duration == 0,
            r.positive_adjustments@.len() == 0,
            r.negative_adjustments@.len() == 0,
            r.start_time == start_time,
    {
        PausedTracker {
            id: id.to_owned(),
            description: None,
            duration: 0,
            positive_adjustments: Vec::new(),
            negative_adjustments: Vec::new(),
            start_time,
        }
    }

    /// A copy of this record.
    pub fn copy(&self) -> (r: PausedTracker)
        ensures
            r.same_as(self),
    {
        let description = match &self.description {
            Some(d) => Some(d.clone()),
            None => None,
        };
        PausedTracker {
            id: self.id.clone(),
            description,
            duration: self.duration,
            positive_adjustments: copy_spans(&self.positive_adjustments),
            negative_adjustments: copy_spans(&self.negative_adjustments),
            start_time: self.start_time,
        }
    }

    /// Elapsed time of this tracker given `running` nanoseconds of live time:
    /// duration plus live time plus the positive adjustments, minus the
    /// negative ones, never below zero.
    pub open spec fn elapsed_with(&self, running: int) -> int {
        sat_sub(
            sat_add(sat_add(self.duration as int, running), total(self.positive_adjustments@)),
            total(self.negative_adjustments@),
        )
    }

    /// `self` is `o` with `live` nanoseconds folded into its duration.
    pub open spec fn is_folded_from(&self, o: PausedTracker, live: int) -> bool {
        &&& self.id == o.id
        &&& self.description == o.description
        &&& self.positive_adjustments == o.positive_adjustments
        &&& self.negative_adjustments == o.negative_adjustments
        &&& self.start_time == o.start_time
        &&& self.duration == sat_add(o.duration as int, live)
    }

    /// `self` is a tracker just created with identifier `id` at `created`.
    pub open spec fn is_fresh(&self, id: Seq<char>, created: LocalTime) -> bool {
        &&& self.id@ == id
        &&& self.description is None
        &&& self.duration == 0
        &&& self.positive_adjustments@.len() == 0
        &&& self.negative_adjustments@.len() == 0
        &&& self.start_time == created
    }

    /// `self` is `o` with only its description changed, to `d`.
    pub open spec fn is_described_from(&self, o: PausedTracker, d: Option<Seq<char>>) -> bool {
        &&& self.id == o.id
        &&& opt_view(self.description) == d
        &&& self.duration == o.duration
        &&& self.positive_adjustments == o.positive_adjustments
        &&& self.negative_adjustments == o.negative_adjustments
        &&& self.start_time == o.start_time
    }

    /// `self` is `o` with `d` appended to the positive adjustments.
    pub open spec fn is_raised_from(&self, o: PausedTracker, d: u128) -> bool {
        &&& self.id == o.id
        &&& self.description == o.description
        &&& self.duration == o.duration
        &&& self.positive_adjustments@ == o.positive_adjustments@.push(d)
        &&& self.negative_adjustments == o.negative_adjustments
        &&& self.start_time == o.start_time
    }

    /// `self` is `o` with `d` appended to the negative adjustments.
    pub open spec fn is_lowered_from(&self, o: PausedTracker, d: u128) -> bool {
        &&& self.id == o.id
        &&& self.description == o.description
        &&& self.duration == o.duration
        &&& self.positive_adjustments == o.positive_adjustments
        &&& self.negative_adjustments@ == o.negative_adjustments@.push(d)
        &&& self.start_time == o.start_time
    }

    /// Same record, as seen through the fields that contracts compare.
    pub open spec fn same_as(&self, o: &PausedTracker) -> bool {
        &&& self.id@ == o.id@
        &&& opt_view(self.description) == opt_view(o.description)
        &&& self.duration == o.duration
        &&& self.positive_adjustments@ == o.positive_adjustments@
        &&& self.negative_adjustments@ == o.negative_adjustments@
        &&& self.start_time == o.start_time
    }
}

/// The running marker: which tracker accumulates live time, and since when
/// (a monotonic reading in nanoseconds).
#[derive(Debug)]
pub struct RunningTracker {
    pub key: String,
    pub start_time: u128,
}

impl RunningTracker {
    pub fn new(key: &str, start_time: u128) -> (r: RunningTracker)
        ensures
            r.key@ == key@,
            r.start_time == start_time,
    {
        RunningTracker { key: key.to_owned(), start_time }
    }

    /// Live time of the marker at the reading `now`.
    pub open spec fn elapsed_at(&self, now: u128) -> int {
        since(self.start_time, now)
    }
}

/// What a caller sees of a tracker, computed on demand.
#[derive(Debug)]
pub struct TrackerInformation {
    pub key: String,
    pub id: String,
    pub description: Option<String>,
    /// Elapsed time including live time and adjustments, in whole seconds.
    pub duration: u128,
    pub running: bool,
    pub start_time: LocalTime,
}

} // verus!
