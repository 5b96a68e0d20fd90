//! The tracker store: paused trackers in insertion order plus at most one
//! running marker, and every state transition on them.
use vstd::prelude::*;

use indexmap::IndexMap;

use crate::error::TrackerError;
use crate::key::{is_valid_key, key_pattern_matches};
use crate::map::{
    map_get_index, map_index_of, map_insert, map_len, map_new, map_shift_remove_index,
    map_value_mut, tracker_entries,
};
use crate::time::{local_now, sat_add, since, sum_spans, total, whole_secs, LocalTime, NANOS_PER_SEC};
use crate::snapshot::{keys_unique, monotonic_start, restorable, wall_start, StoredRunning, StoredState};
use crate::tracker::{opt_view, PausedTracker, RunningTracker, TrackerInformation};

verus! {

/// Live time that the marker `marker` (key, start reading) contributes to
/// the tracker `k` at the reading `now`.
pub open spec fn live_in(marker: Option<(Seq<char>, u128)>, k: Seq<char>, now: u128) -> int {
    match marker {
        Some(m) => if m.0 == k {
            since(m.1, now)
        } else {
            0
        },
        None => 0,
    }
}

/// `info` is the view of tracker `t` under key `k`, with `elapsed`
/// nanoseconds of elapsed time and the given running flag.
pub open spec fn shows(
    info: TrackerInformation,
    k: Seq<char>,
    t: PausedTracker,
    elapsed: int,
    running: bool,
) -> bool {
    &&& info.key@ == k
    &&& info.id@ == t.id@
    &&& opt_view(info.description) == opt_view(t.description)
    &&& info.duration == whole_secs(elapsed)
    &&& info.running == running
    &&& info.start_time == t.start_time
}

/// An empty description means none.
pub open spec fn normalized(d: Option<String>) -> Option<Seq<char>> {
    match d {
        Some(s) => if s@.len() == 0 {
            None
        } else {
            Some(s@)
        },
        None => None,
    }
}

/// Some pair of `e` has the key `k`.
pub open spec fn holds_key(e: Seq<(Seq<char>, PausedTracker)>, k: Seq<char>) -> bool {
    exists|i: int| 0 <= i < e.len() && (#[trigger] e[i]).0 == k
}

/// A position of a pair of `e` with the key `k`.
pub open spec fn position_of(e: Seq<(Seq<char>, PausedTracker)>, k: Seq<char>) -> int {
    choose|i: int| 0 <= i < e.len() && (#[trigger] e[i]).0 == k
}

/// The state of the tracker engine.
#[derive(Debug)]
pub struct TrackerStore {
    running: Option<RunningTracker>,
    trackers: IndexMap<String, PausedTracker>,
}

impl TrackerStore {
    /// The trackers with their keys, in insertion order.
    pub closed spec fn entries(&self) -> Seq<(Seq<char>, PausedTracker)> {
        tracker_entries(self.trackers)
    }

    /// The running marker: its key and its start reading.
    pub closed spec fn marker(&self) -> Option<(Seq<char>, u128)> {
        match self.running {
            Some(r) => Some((r.key@, r.start_time)),
            None => None,
        }
    }

    pub open spec fn len(&self) -> int {
        self.entries().len() as int
    }

    pub open spec fn key_at(&self, i: int) -> Seq<char> {
        self.entries()[i].0
    }

    pub open spec fn tracker_at(&self, i: int) -> PausedTracker {
        self.entries()[i].1
    }

    pub open spec fn has_key(&self, k: Seq<char>) -> bool {
        holds_key(self.entries(), k)
    }

    /// Position of the tracker with key `k`.
    pub open spec fn index_of(&self, k: Seq<char>) -> int {
        position_of(self.entries(), k)
    }

    pub open spec fn tracker(&self, k: Seq<char>) -> PausedTracker {
        self.tracker_at(self.index_of(k))
    }

    pub open spec fn is_running(&self, k: Seq<char>) -> bool {
        self.marker() matches Some(m) && m.0 == k
    }

    /// Live time of tracker `k` at the reading `now` (zero unless it runs).
    pub open spec fn live(&self, k: Seq<char>, now: u128) -> int {
        live_in(self.marker(), k, now)
    }

    /// Elapsed time, in nanoseconds, of the tracker at position `i`.
    pub open spec fn elapsed_at(&self, i: int, now: u128) -> int {
        self.tracker_at(i).elapsed_with(self.live(self.key_at(i), now))
    }

    /// Elapsed time, in nanoseconds, of the tracker with key `k`.
    pub open spec fn elapsed_of(&self, k: Seq<char>, now: u128) -> int {
        self.elapsed_at(self.index_of(k), now)
    }

    /// `info` is the view of the tracker with key `k` at the reading `now`.
    pub open spec fn view_of(&self, info: TrackerInformation, k: Seq<char>, now: u128) -> bool {
        shows(info, k, self.tracker(k), self.elapsed_of(k, now), self.is_running(k))
    }

    /// Whole seconds of the first `n` trackers, added up (held at `u128::MAX`).
    pub open spec fn secs_upto(&self, n: int, now: u128) -> int
        decreases n,
    {
        if n <= 0 {
            0
        } else {
            sat_add(self.secs_upto(n - 1, now), whole_secs(self.elapsed_at(n - 1, now)))
        }
    }

    /// Whole seconds of all trackers, running one included.
    pub open spec fn total_secs(&self, now: u128) -> int {
        self.secs_upto(self.len(), now)
    }

    /// Keys are unique, and the marker names an existing tracker.
    pub open spec fn wf(&self) -> bool {
        &&& forall|i: int, j: int|
            0 <= i < self.len() && 0 <= j < self.len() && i != j ==> #[trigger] self.key_at(i)
                != #[trigger] self.key_at(j)
        &&& (self.marker() matches Some(m) ==> self.has_key(m.0))
    }

    /// The observable state: trackers in order and the marker.
    pub open spec fn same_state(&self, o: &TrackerStore) -> bool {
        self.entries() == o.entries() && self.marker() == o.marker()
    }

    /// The trackers of `self` are those of `o` with the live time of `o`'s
    /// running tracker at `now` folded into its duration.
    pub open spec fn entries_paused_from(&self, o: TrackerStore, now: u128) -> bool {
        match o.marker() {
            None => self.entries() == o.entries(),
            Some(m) => {
                let i = o.index_of(m.0);
                &&& self.len() == o.len()
                &&& self.entries() == o.entries().update(i, (m.0, self.tracker_at(i)))
                &&& self.tracker_at(i).is_folded_from(o.tracker_at(i), since(m.1, now))
            },
        }
    }

    /// `self` is `o` paused at `now`.
    pub open spec fn paused_from(&self, o: TrackerStore, now: u128) -> bool {
        self.entries_paused_from(o, now) && self.marker() is None
    }

    /// `self` is `o` with `k` started at `now`.
    pub open spec fn started_from(&self, o: TrackerStore, k: Seq<char>, now: u128) -> bool {
        self.entries_paused_from(o, now) && self.marker() == Some((k, now))
    }

    /// `self` is `o` with the tracker `k` replaced by the one `self` holds, all
    /// else equal.
    pub open spec fn changed_one(&self, o: TrackerStore, k: Seq<char>) -> bool {
        &&& self.entries() == o.entries().update(o.index_of(k), (k, self.tracker(k)))
        &&& self.index_of(k) == o.index_of(k)
        &&& self.marker() == o.marker()
    }

    /// `self` is `o` with the tracker `k` added last, fresh, marker unchanged.
    pub open spec fn created_from(
        &self,
        o: TrackerStore,
        k: Seq<char>,
        id: Seq<char>,
        created: LocalTime,
    ) -> bool {
        &&& self.entries() == o.entries().push((k, self.tracker_at(o.len())))
        &&& self.tracker_at(o.len()).is_fresh(id, created)
        &&& self.marker() == o.marker()
    }

    /// The outcome of creating `k` for `id` at `created` on `o`, given
    /// whether `k` has the required shape: `self` is the store after, `r`
    /// the result.
    pub open spec fn create_outcome(
        &self,
        o: TrackerStore,
        k: Seq<char>,
        well_formed: bool,
        id: Seq<char>,
        created: LocalTime,
        r: Result<TrackerInformation, TrackerError>,
    ) -> bool {
        &&& !well_formed ==> r == Err::<TrackerInformation, TrackerError>(
            TrackerError::KeyFormatError,
        ) && self.same_state(&o)
        &&& well_formed && o.has_key(k) ==> r == Err::<TrackerInformation, TrackerError>(
            TrackerError::OccupiedError,
        ) && self.same_state(&o)
        &&& well_formed && !o.has_key(k) ==> self.created_from(o, k, id, created) && self.has_key(k)
        &&& well_formed && !o.has_key(k) ==> (r matches Ok(info) && shows(
            info,
            k,
            self.tracker(k),
            0,
            false,
        ))
    }

    /// `t` is what the tracker at position `i` holds once paused at `now`.
    pub open spec fn paused_tracker(&self, i: int, now: u128, t: PausedTracker) -> bool {
        if self.is_running(self.key_at(i)) {
            t.is_folded_from(self.tracker_at(i), self.live(self.key_at(i), now))
        } else {
            t == self.tracker_at(i)
        }
    }

    pub(crate) proof fn lemma_keys_kept(&self, o: TrackerStore)
        requires
            o.wf(),
            self.len() == o.len(),
            forall|j: int| 0 <= j < o.len() ==> #[trigger] self.key_at(j) == o.key_at(j),
        ensures
            forall|k: Seq<char>| #[trigger]
                o.has_key(k) ==> self.has_key(k) && self.index_of(k) == o.index_of(k),
            forall|k: Seq<char>| #[trigger] self.has_key(k) ==> o.has_key(k),
            forall|i: int, j: int|
                0 <= i < self.len() && 0 <= j < self.len() && i != j ==> #[trigger] self.key_at(i)
                    != #[trigger] self.key_at(j),
    {
        assert forall|k: Seq<char>| #[trigger]
            o.has_key(k) implies self.has_key(k) && self.index_of(k) == o.index_of(k) by {
            let i = o.index_of(k);
            assert(o.entries()[i].0 == k);
            assert(self.key_at(i) == o.key_at(i));
            assert(self.entries()[i].0 == k);
            let j = self.index_of(k);
            assert(self.entries()[j].0 == k);
            assert(o.key_at(j) == self.key_at(j));
            assert(o.key_at(i) == o.key_at(j));
        }
        assert forall|k: Seq<char>| #[trigger] self.has_key(k) implies o.has_key(k) by {
            let i = self.index_of(k);
            assert(self.entries()[i].0 == k);
            assert(o.key_at(i) == self.key_at(i));
            assert(o.entries()[i].0 == k);
        }
    }

    pub(crate) proof fn lemma_paused_keys(&self, o: TrackerStore, now: u128)
        requires
            o.wf(),
            self.entries_paused_from(o, now),
        ensures
            self.len() == o.len(),
            forall|j: int| 0 <= j < o.len() ==> #[trigger] self.key_at(j) == o.key_at(j),
            forall|j: int|
                0 <= j < o.len() ==> o.paused_tracker(j, now, #[trigger] self.tracker_at(j)),
    {
        if let Some(m) = o.marker() {
            let i = o.index_of(m.0);
            assert(o.key_at(i) == m.0);
            assert forall|j: int| 0 <= j < o.len() implies o.paused_tracker(
                j,
                now,
                #[trigger] self.tracker_at(j),
            ) by {
                if j != i {
                    assert(o.key_at(j) != m.0);
                }
            }
        }
    }

    /// After a change to one tracker that keeps its key and the marker.
    pub(crate) proof fn lemma_updated(&self, o: TrackerStore, i: int)
        requires
            o.wf(),
            0 <= i < o.len(),
            self.entries() == o.entries().update(i, (o.key_at(i), self.tracker_at(i))),
            self.marker() == o.marker(),
        ensures
            self.wf(),
            self.changed_one(o, o.key_at(i)),
            o.index_of(o.key_at(i)) == i,
    {
        o.lemma_index_of(i);
        assert forall|j: int| 0 <= j < o.len() implies #[trigger] self.key_at(j) == o.key_at(j) by {}
        self.lemma_keys_kept(o);
    }

    /// `state` is `self` saved when the clocks read `now` and `wall_now`.
    pub open spec fn saved_as(&self, state: StoredState, now: u128, wall_now: u128) -> bool {
        &&& state.trackers@.len() == self.len()
        &&& forall|i: int|
            0 <= i < self.len() ==> (#[trigger] state.trackers@[i]).0@ == self.key_at(i)
                && state.trackers@[i].1.same_as(&self.tracker_at(i))
        &&& match self.marker() {
            None => state.running is None,
            Some(m) => state.running matches Some(r) && r.key@ == m.0 && r.start_unix_nanos
                == wall_start(m.1, now, wall_now),
        }
    }

    /// `self` is `state` loaded when the clocks read `now` and `wall_now`.
    pub open spec fn restored_from(&self, state: StoredState, now: u128, wall_now: u128) -> bool {
        &&& self.len() == state.trackers@.len()
        &&& forall|i: int|
            0 <= i < self.len() ==> #[trigger] self.key_at(i) == state.trackers@[i].0@
                && self.tracker_at(i) == state.trackers@[i].1
        &&& self.marker() == match state.running {
            None => None,
            Some(r) => Some((r.key@, monotonic_start(r.start_unix_nanos, now, wall_now) as u128)),
        }
    }

    pub(crate) proof fn lemma_index_of(&self, i: int)
        requires
            self.wf(),
            0 <= i < self.len(),
        ensures
            self.index_of(self.key_at(i)) == i,
            self.has_key(self.key_at(i)),
    {
        let k = self.key_at(i);
        assert(self.entries()[i].0 == k);
        assert(self.has_key(k));
        let j = self.index_of(k);
        assert(self.entries()[j].0 == k);
        assert(self.key_at(j) == self.key_at(i));
    }

    /// An empty store.
    pub fn new() -> (r: TrackerStore)
        ensures
            r.wf(),
            r.len() == 0,
            r.marker() is None,
    {
        TrackerStore { running: None, trackers: map_new() }
    }

    /// Position of `key`, if present.
    fn find(&self, key: &str) -> (r: Option<usize>)
        requires
            self.wf(),
        ensures
            r matches Some(i) ==> i < self.len() && self.key_at(i as int) == key@ && self.index_of(key@) == i,
            r is None <==> !self.has_key(key@),
    {
        let r = map_index_of(&self.trackers, key);
        proof {
            if let Some(i) = r {
                self.lemma_index_of(i as int);
            }
        }
        r
    }

    /// Live time of the tracker at `key`.
    fn live_time(&self, key: &String, now: u128) -> (r: u128)
        ensures
            r == self.live(key@, now),
    {
        match &self.running {
            Some(running) => {
                if running.key == *key {
                    if now >= running.start_time {
                        now - running.start_time
                    } else {
                        0
                    }
                } else {
                    0
                }
            },
            None => 0,
        }
    }

    /// Elapsed time of the tracker at position `i`.
    fn elapsed_index(&self, i: usize, now: u128) -> (r: u128)
        requires
            i < self.len(),
        ensures
            r == self.elapsed_at(i as int, now),
    {
        let (k, t) = map_get_index(&self.trackers, i).unwrap();
        let live = self.live_time(k, now);
        let pos = sum_spans(&t.positive_adjustments);
        let neg = sum_spans(&t.negative_adjustments);
        t.duration.saturating_add(live).saturating_add(pos).saturating_sub(neg)
    }

    /// The view of the tracker at position `i`.
    fn information(&self, i: usize, now: u128) -> (r: TrackerInformation)
        requires
            self.wf(),
            i < self.len(),
        ensures
            self.view_of(r, self.key_at(i as int), now),
    {
        proof {
            self.lemma_index_of(i as int);
        }
        let elapsed = self.elapsed_index(i, now);
        let (k, t) = map_get_index(&self.trackers, i).unwrap();
        let description = match &t.description {
            Some(d) => Some(d.clone()),
            None => None,
        };
        let running = match &self.running {
            Some(r) => r.key == *k,
            None => false,
        };
        TrackerInformation {
            key: k.clone(),
            id: t.id.clone(),
            description,
            duration: elapsed / NANOS_PER_SEC,
            running,
            start_time: t.start_time,
        }
    }

    /// Elapsed time of `key` in nanoseconds, or `None` when absent.
    pub fn elapsed(&self, key: &str, now: u128) -> (r: Option<u128>)
        requires
            self.wf(),
        ensures
            self.has_key(key@) ==> r is Some && r->0 == self.elapsed_of(key@, now),
            !self.has_key(key@) ==> r is None,
    {
        match self.find(key) {
            Some(i) => Some(self.elapsed_index(i, now)),
            None => None,
        }
    }

    /// Elapsed time of `key` in whole seconds, or `None` when absent.
    pub fn elapsed_seconds(&self, key: &str, now: u128) -> (r: Option<u128>)
        requires
            self.wf(),
        ensures
            self.has_key(key@) ==> r is Some && r->0 == whole_secs(self.elapsed_of(key@, now)),
            !self.has_key(key@) ==> r is None,
    {
        match self.elapsed(key, now) {
            Some(e) => Some(e / NANOS_PER_SEC),
            None => None,
        }
    }

    /// The view of the running tracker, or `NotFoundError` when nothing runs.
    pub fn current(&self, now: u128) -> (r: Result<TrackerInformation, TrackerError>)
        requires
            self.wf(),
        ensures
            self.marker() is None ==> r == Err::<TrackerInformation, TrackerError>(
                TrackerError::NotFoundError,
            ),
            self.marker() matches Some(m) ==> (r matches Ok(info) && self.view_of(info, m.0, now)),
    {
        match &self.running {
            Some(running) => match self.find(running.key.as_str()) {
                Some(i) => Ok(self.information(i, now)),
                None => Err(TrackerError::NotFoundError),
            },
            None => Err(TrackerError::NotFoundError),
        }
    }

    /// The view of `key`, or `NotFoundError` when absent.
    pub fn get_tracker(&self, key: &str, now: u128) -> (r: Result<TrackerInformation, TrackerError>)
        requires
            self.wf(),
        ensures
            !self.has_key(key@) ==> r == Err::<TrackerInformation, TrackerError>(
                TrackerError::NotFoundError,
            ),
            self.has_key(key@) ==> (r matches Ok(info) && self.view_of(info, key@, now)),
    {
        match self.find(key) {
            Some(i) => Ok(self.information(i, now)),
            None => Err(TrackerError::NotFoundError),
        }
    }

    /// The views of all trackers, in insertion order.
    pub fn list_trackers(&self, now: u128) -> (r: Vec<TrackerInformation>)
        requires
            self.wf(),
        ensures
            r@.len() == self.len(),
            forall|i: int| 0 <= i < self.len() ==> self.view_of(#[trigger] r@[i], self.key_at(i), now),
    {
        let n = map_len(&self.trackers);
        let mut out: Vec<TrackerInformation> = Vec::new();
        let mut i: usize = 0;
        while i < n
            invariant
                self.wf(),
                n == self.len(),
                i <= n,
                out@.len() == i,
                forall|j: int| 0 <= j < i ==> self.view_of(#[trigger] out@[j], self.key_at(j), now),
            decreases n - i,
        {
            let info = self.information(i, now);
            out.push(info);
            i = i + 1;
        }
        out
    }

    /// Whole seconds of all trackers added up, the running one included.
    pub fn sum(&self, now: u128) -> (r: u128)
        requires
            self.wf(),
        ensures
            r == self.total_secs(now),
    {
        let n = map_len(&self.trackers);
        let mut acc: u128 = 0;
        let mut i: usize = 0;
        while i < n
            invariant
                n == self.len(),
                i <= n,
                acc == self.secs_upto(i as int, now),
            decreases n - i,
        {
            let e = self.elapsed_index(i, now);
            acc = acc.saturating_add(e / NANOS_PER_SEC);
            i = i + 1;
        }
        acc
    }

    /// Folds the running tracker's live time into its duration and clears
    /// the marker; does nothing when nothing runs.
    pub fn pause(&mut self, now: u128)
        requires
            old(self).wf(),
        ensures
            final(self).wf(),
            final(self).paused_from(*old(self), now),
    {
        let ghost before = *self;
        let target: Option<(usize, u128)> = match &self.running {
            Some(r) => match self.find(r.key.as_str()) {
                Some(i) => Some(
                    (
                        i,
                        if now >= r.start_time {
                            now - r.start_time
                        } else {
                            0
                        },
                    ),
                ),
                None => None,
            },
            None => None,
        };
        if let Some((i, live)) = target {
            let t = map_value_mut(&mut self.trackers, i);
            t.duration = t.duration.saturating_add(live);
        }
        self.running = None;
        proof {
            assert forall|j: int| 0 <= j < self.len() implies #[trigger] self.key_at(j)
                == before.key_at(j) by {}
        }
    }

    /// Starts `key` at `now`, pausing whatever ran before (the same key
    /// included: its time so far is folded in and its start reset).
    pub fn start(&mut self, key: &str, now: u128) -> (r: Result<TrackerInformation, TrackerError>)
        requires
            old(self).wf(),
        ensures
            final(self).wf(),
            !old(self).has_key(key@) ==> r == Err::<TrackerInformation, TrackerError>(
                TrackerError::NotFoundError,
            ) && final(self).same_state(&*old(self)),
            old(self).has_key(key@) ==> final(self).started_from(*old(self), key@, now),
            old(self).has_key(key@) ==> (r matches Ok(info) && final(self).view_of(info, key@, now)),
    {
        if let None = self.find(key) {
            return Err(TrackerError::NotFoundError);
        }
        let ghost before = *self;
        self.pause(now);
        proof {
            self.lemma_paused_keys(before, now);
            self.lemma_keys_kept(before);
            assert(before.has_key(key@));
            assert(self.has_key(key@));
        }
        let ghost paused = *self;
        self.running = Some(RunningTracker::new(key, now));
        proof {
            assert(self.entries() == paused.entries());
            let w = paused.index_of(key@);
            assert(self.key_at(w) == key@);
            assert forall|a: int, b: int|
                0 <= a < self.len() && 0 <= b < self.len() && a != b implies #[trigger] self.key_at(a)
                != #[trigger] self.key_at(b) by {
                assert(paused.key_at(a) != paused.key_at(b));
            }
        }
        match self.find(key) {
            Some(i) => Ok(self.information(i, now)),
            None => Err(TrackerError::NotFoundError),
        }
    }

    /// Adds a fresh tracker under `key` for the work item `id`, created now
    /// by the local clock. The running marker is not touched.
    pub fn create_tracker(&mut self, key: &str, id: &str) -> (r: Result<
        TrackerInformation,
        TrackerError,
    >)
        requires
            old(self).wf(),
        ensures
            final(self).wf(),
            final(self).create_outcome(
                *old(self),
                key@,
                key_pattern_matches(key@),
                id@,
                final(self).tracker_at(old(self).len()).start_time,
                r,
            ),
    {
        let created = local_now();
        self.create_tracker_at(key, id, created)
    }

    /// Adds a fresh tracker under `key` for the work item `id`, created at
    /// `created`. The running marker is not touched.
    pub fn create_tracker_at(&mut self, key: &str, id: &str, created: LocalTime) -> (r: Result<
        TrackerInformation,
        TrackerError,
    >)
        requires
            old(self).wf(),
        ensures
            final(self).wf(),
            final(self).create_outcome(*old(self), key@, key_pattern_matches(key@), id@, created, r),
    {
        let well_formed = is_valid_key(key);
        self.create_tracker_checked(key, well_formed, id, created)
    }

    /// Adds a fresh tracker under `key`, whose shape has been found
    /// acceptable (`well_formed`) or not.
    pub fn create_tracker_checked(
        &mut self,
        key: &str,
        well_formed: bool,
        id: &str,
        created: LocalTime,
    ) -> (r: Result<TrackerInformation, TrackerError>)
        requires
            old(self).wf(),
        ensures
            final(self).wf(),
            final(self).create_outcome(*old(self), key@, well_formed, id@, created, r),
    {
        if !well_formed {
            return Err(TrackerError::KeyFormatError);
        }
        if let Some(_) = self.find(key) {
            return Err(TrackerError::OccupiedError);
        }
        let ghost before = *self;
        self.push_new(key.to_owned(), PausedTracker::new(id, created));
        let n = map_len(&self.trackers);
        proof {
            if let Some(m) = before.marker() {
                assert(before.has_key(m.0));
            }
            self.lemma_index_of(before.len());
            assert(total(self.tracker_at(before.len()).positive_adjustments@) == 0);
            assert(total(self.tracker_at(before.len()).negative_adjustments@) == 0);
        }
        Ok(self.information(n - 1, 0))
    }

    /// Sets the description of `key`; an empty one means none.
    pub fn set_description(&mut self, key: &str, description: Option<String>, now: u128) -> (r:
        Result<TrackerInformation, TrackerError>)
        requires
            old(self).wf(),
        ensures
            final(self).wf(),
            !old(self).has_key(key@) ==> r == Err::<TrackerInformation, TrackerError>(
                TrackerError::NotFoundError,
            ) && final(self).same_state(&*old(self)),
            old(self).has_key(key@) ==> final(self).changed_one(*old(self), key@) && final(self).tracker(key@).is_described_from(old(self).tracker(key@), normalized(description)),
            old(self).has_key(key@) ==> (r matches Ok(info) && final(self).view_of(info, key@, now)),
    {
        let d = match description {
            Some(text) => if text.as_str().is_empty() {
                None
            } else {
                Some(text)
            },
            None => None,
        };
        match self.find(key) {
            None => Err(TrackerError::NotFoundError),
            Some(i) => {
                let ghost before = *self;
                let t = map_value_mut(&mut self.trackers, i);
                t.description = d;
                proof {
                    self.lemma_updated(before, i as int);
                }
                Ok(self.information(i, now))
            },
        }
    }

    /// Appends a positive adjustment of `duration` nanoseconds to `key`.
    pub fn adjust_positive_duration(&mut self, key: &str, duration: u128, now: u128) -> (r: Result<
        TrackerInformation,
        TrackerError,
    >)
        requires
            old(self).wf(),
        ensures
            final(self).wf(),
            !old(self).has_key(key@) ==> r == Err::<TrackerInformation, TrackerError>(
                TrackerError::NotFoundError,
            ) && final(self).same_state(&*old(self)),
            old(self).has_key(key@) ==> final(self).changed_one(*old(self), key@) && final(self).tracker(key@).is_raised_from(old(self).tracker(key@), duration),
            old(self).has_key(key@) ==> (r matches Ok(info) && final(self).view_of(info, key@, now)),
    {
        match self.find(key) {
            None => Err(TrackerError::NotFoundError),
            Some(i) => {
                let ghost before = *self;
                let t = map_value_mut(&mut self.trackers, i);
                t.positive_adjustments.push(duration);
                proof {
                    self.lemma_updated(before, i as int);
                }
                Ok(self.information(i, now))
            },
        }
    }

    /// Appends a negative adjustment of `duration` nanoseconds to `key`,
    /// unless it exceeds the tracker's elapsed time at `now`.
    pub fn adjust_negative_duration(&mut self, key: &str, duration: u128, now: u128) -> (r: Result<
        TrackerInformation,
        TrackerError,
    >)
        requires
            old(self).wf(),
        ensures
            final(self).wf(),
            !old(self).has_key(key@) ==> r == Err::<TrackerInformation, TrackerError>(
                TrackerError::NotFoundError,
            ) && final(self).same_state(&*old(self)),
            old(self).has_key(key@) && duration > old(self).elapsed_of(key@, now) ==> r == Err::<
                TrackerInformation,
                TrackerError,
            >(TrackerError::DurationAdjustmentError) && final(self).same_state(&*old(self)),
            old(self).has_key(key@) && duration <= old(self).elapsed_of(key@, now) ==> final(self).changed_one(*old(self), key@) && final(self).tracker(key@).is_lowered_from(
                old(self).tracker(key@),
                duration,
            ),
            old(self).has_key(key@) && duration <= old(self).elapsed_of(key@, now) ==> (r matches Ok(
                info,
            ) && final(self).view_of(info, key@, now)),
    {
        match self.find(key) {
            None => Err(TrackerError::NotFoundError),
            Some(i) => {
                let elapsed = self.elapsed_index(i, now);
                if duration > elapsed {
                    return Err(TrackerError::DurationAdjustmentError);
                }
                let ghost before = *self;
                let t = map_value_mut(&mut self.trackers, i);
                t.negative_adjustments.push(duration);
                proof {
                    self.lemma_updated(before, i as int);
                }
                Ok(self.information(i, now))
            },
        }
    }

    /// Removes `key` and hands back its record; when it was running it is
    /// paused first, so no time is lost.
    pub fn remove(&mut self, key: &str, now: u128) -> (r: Result<PausedTracker, TrackerError>)
        requires
            old(self).wf(),
        ensures
            final(self).wf(),
            !old(self).has_key(key@) ==> r == Err::<PausedTracker, TrackerError>(
                TrackerError::NotFoundError,
            ) && final(self).same_state(&*old(self)),
            old(self).has_key(key@) ==> (r matches Ok(t) && old(self).paused_tracker(
                old(self).index_of(key@),
                now,
                t,
            )),
            old(self).has_key(key@) ==> final(self).entries() == old(self).entries().remove(
                old(self).index_of(key@),
            ),
            old(self).has_key(key@) ==> final(self).marker() == if old(self).is_running(key@) {
                None
            } else {
                old(self).marker()
            },
    {
        let i = match self.find(key) {
            None => {
                return Err(TrackerError::NotFoundError);
            },
            Some(i) => i,
        };
        let running_here = match &self.running {
            Some(r) => match self.find(r.key.as_str()) {
                Some(j) => j == i,
                None => false,
            },
            None => false,
        };
        let ghost before = *self;
        if running_here {
            self.pause(now);
            proof {
                self.lemma_paused_keys(before, now);
                assert(self.entries().remove(i as int) =~= before.entries().remove(i as int));
            }
        }
        let removed = map_shift_remove_index(&mut self.trackers, i);
        proof {
            assert(self.entries() =~= before.entries().remove(i as int));
            assert forall|a: int, b: int|
                0 <= a < self.len() && 0 <= b < self.len() && a != b implies #[trigger] self.key_at(a)
                != #[trigger] self.key_at(b) by {
                let a2 = if a < i { a } else { a + 1 };
                let b2 = if b < i { b } else { b + 1 };
                assert(self.key_at(a) == before.key_at(a2));
                assert(self.key_at(b) == before.key_at(b2));
            }
            if let Some(m) = self.marker() {
                let w = before.index_of(m.0);
                assert(before.key_at(w) == m.0);
                assert(w != i);
                let w2 = if w < i { w } else { w - 1 };
                assert(self.key_at(w2) == m.0);
            }
        }
        match removed {
            Some((_, t)) => Ok(t),
            None => Err(TrackerError::NotFoundError),
        }
    }

    /// Pauses, then removes every tracker, handing them back in order.
    pub fn remove_all(&mut self, now: u128) -> (r: Vec<PausedTracker>)
        requires
            old(self).wf(),
        ensures
            final(self).wf(),
            final(self).len() == 0,
            final(self).marker() is None,
            r@.len() == old(self).len(),
            forall|i: int|
                0 <= i < old(self).len() ==> old(self).paused_tracker(i, now, #[trigger] r@[i]),
    {
        let ghost before = *self;
        self.pause(now);
        proof {
            self.lemma_paused_keys(before, now);
        }
        let ghost mid = *self;
        let n = map_len(&self.trackers);
        let mut out: Vec<PausedTracker> = Vec::new();
        let mut k: usize = 0;
        proof {
            assert(self.entries() =~= mid.entries().subrange(0, n as int));
        }
        while k < n
            invariant
                n == mid.len(),
                k <= n,
                self.entries() == mid.entries().subrange(k as int, n as int),
                self.marker() is None,
                out@.len() == k,
                forall|j: int| 0 <= j < k ==> #[trigger] out@[j] == mid.tracker_at(j),
            decreases n - k,
        {
            let removed = map_shift_remove_index(&mut self.trackers, 0);
            proof {
                assert(self.entries() =~= mid.entries().subrange(k as int + 1, n as int));
            }
            match removed {
                Some((_, t)) => out.push(t),
                None => {},
            }
            k = k + 1;
        }
        out
    }

    /// Appends a tracker under a key that is not present yet.
    fn push_new(&mut self, key: String, t: PausedTracker)
        requires
            old(self).wf(),
            !old(self).has_key(key@),
        ensures
            final(self).wf(),
            final(self).entries() == old(self).entries().push((key@, t)),
            final(self).marker() == old(self).marker(),
    {
        let ghost before = *self;
        let ghost k = key@;
        proof {
            assert forall|i: int| 0 <= i < before.len() implies #[trigger] before.entries()[i].0
                != k by {
                assert(before.key_at(i) != k);
            }
        }
        let _ = map_insert(&mut self.trackers, key, t);
        proof {
            assert forall|i: int, j: int|
                0 <= i < self.len() && 0 <= j < self.len() && i != j implies #[trigger] self.key_at(i)
                != #[trigger] self.key_at(j) by {
                if i < before.len() && j < before.len() {
                    assert(before.key_at(i) != before.key_at(j));
                }
            }
            if let Some(m) = self.marker() {
                let w = before.index_of(m.0);
                assert(self.key_at(w) == m.0);
            }
        }
    }

    /// The state to persist, with the running marker's start turned into
    /// wall-clock time by the readings `now` (monotonic) and `wall_now`
    /// (nanoseconds since the Unix epoch).
    pub fn snapshot(&self, now: u128, wall_now: u128) -> (r: StoredState)
        requires
            self.wf(),
        ensures
            self.saved_as(r, now, wall_now),
    {
        let n = map_len(&self.trackers);
        let mut trackers: Vec<(String, PausedTracker)> = Vec::new();
        let mut i: usize = 0;
        while i < n
            invariant
                n == self.len(),
                i <= n,
                trackers@.len() == i,
                forall|j: int|
                    0 <= j < i ==> (#[trigger] trackers@[j]).0@ == self.key_at(j)
                        && trackers@[j].1.same_as(&self.tracker_at(j)),
            decreases n - i,
        {
            let (k, t) = map_get_index(&self.trackers, i).unwrap();
            trackers.push((k.clone(), t.copy()));
            i = i + 1;
        }
        let running = match &self.running {
            Some(r) => {
                let live = if now >= r.start_time {
                    now - r.start_time
                } else {
                    0
                };
                Some(StoredRunning { key: r.key.clone(), start_unix_nanos: wall_now.saturating_sub(live) })
            },
            None => None,
        };
        StoredState { running, trackers }
    }

    /// Loads `items` in order into an empty store, draining it; `None` when
    /// two of them share a key.
    fn load_trackers(items: &mut Vec<(String, PausedTracker)>) -> (r: Option<TrackerStore>)
        ensures
            r is Some <==> keys_unique(old(items)@),
            r is Some ==> r->0.wf() && r->0.marker() is None && r->0.len() == old(items)@.len(),
            r is Some ==> forall|i: int|
                0 <= i < old(items)@.len() ==> #[trigger] r->0.key_at(i) == old(items)@[i].0@
                    && r->0.tracker_at(i) == old(items)@[i].1,
    {
        let ghost items0 = items@;
        let mut store = TrackerStore::new();
        let n = items.len();
        let mut i: usize = 0;
        while i < n
            invariant
                items0 == old(items)@,
                n == items0.len(),
                i <= n,
                items@ == items0.subrange(i as int, n as int),
                store.wf(),
                store.marker() is None,
                store.len() == i,
                forall|j: int|
                    0 <= j < i ==> #[trigger] store.key_at(j) == items0[j].0@ && store.tracker_at(j)
                        == items0[j].1,
                keys_unique(items0.subrange(0, i as int)),
            decreases n - i,
        {
            proof {
                assert(items@[0] == items0[i as int]);
            }
            let (k, t) = items.remove(0);
            if let Some(j) = store.find(k.as_str()) {
                proof {
                    assert(items0[j as int].0@ == items0[i as int].0@);
                    assert(!keys_unique(items0));
                }
                return None;
            }
            let ghost before = store;
            let ghost pair = (k, t);
            store.push_new(k, t);
            proof {
                assert(pair == items0[i as int]);
                assert forall|j: int| 0 <= j < i + 1 implies #[trigger] store.key_at(j) == items0[j].0@
                    && store.tracker_at(j) == items0[j].1 by {
                    if j < i {
                        assert(before.key_at(j) == items0[j].0@);
                    }
                }
                assert(items@ =~= items0.subrange(i as int + 1, n as int));
                let p = items0.subrange(0, i as int + 1);
                assert forall|a: int, b: int|
                    0 <= a < p.len() && 0 <= b < p.len() && a != b implies (#[trigger] p[a]).0@ != (
                    #[trigger] p[b]).0@ by {
                    if a < i && b < i {
                        assert(before.key_at(a) != before.key_at(b));
                    } else if a == i {
                        assert(before.key_at(b) != p[a].0@);
                    } else {
                        assert(before.key_at(a) != p[b].0@);
                    }
                }
            }
            i = i + 1;
        }
        proof {
            assert(items0.subrange(0, n as int) =~= items0);
        }
        Some(store)
    }

    /// Loads a persisted state when the clocks read `now` (monotonic) and
    /// `wall_now` (nanoseconds since the Unix epoch); `None` when two
    /// trackers share a key or the marker names no tracker.
    pub fn from_snapshot(state: StoredState, now: u128, wall_now: u128) -> (r: Option<TrackerStore>)
        ensures
            r is Some <==> restorable(state),
            r is Some ==> r->0.wf() && r->0.restored_from(state, now, wall_now),
    {
        let StoredState { running, trackers } = state;
        let mut items = trackers;
        let mut store = match Self::load_trackers(&mut items) {
            Some(s) => s,
            None => {
                return None;
            },
        };
        proof {
            assert forall|i: int| 0 <= i < store.len() implies #[trigger] store.key_at(i)
                == state.trackers@[i].0@ && store.tracker_at(i) == state.trackers@[i].1 by {}
        }
        match running {
            None => Some(store),
            Some(r) => match store.find(r.key.as_str()) {
                None => {
                    proof {
                        assert forall|j: int| 0 <= j < state.trackers@.len() implies (
                        #[trigger] state.trackers@[j]).0@ != r.key@ by {
                            assert(store.key_at(j) != r.key@);
                        }
                    }
                    None
                },
                Some(_) => {
                    let elapsed = wall_now.saturating_sub(r.start_unix_nanos);
                    let ghost before = store;
                    store.running = Some(RunningTracker { key: r.key, start_time: now.saturating_sub(elapsed) });
                    proof {
                        let w = before.index_of(r.key@);
                        assert(store.key_at(w) == r.key@);
                        assert(state.trackers@[w].0@ == r.key@);
                        assert forall|a: int, b: int|
                            0 <= a < store.len() && 0 <= b < store.len() && a != b implies #[trigger] store.key_at(
                            a,
                        ) != #[trigger] store.key_at(b) by {
                            assert(before.key_at(a) != before.key_at(b));
                        }
                        assert forall|i: int| 0 <= i < store.len() implies #[trigger] store.key_at(i)
                            == state.trackers@[i].0@ && store.tracker_at(i) == state.trackers@[i].1 by {
                            assert(before.key_at(i) == state.trackers@[i].0@);
                        }
                    }
                    Some(store)
                },
            },
        }
    }
}

} // verus!
