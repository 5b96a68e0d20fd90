//! Properties that relate several operations of the store, stated over the
//! same spec functions that the operations' contracts use.
use vstd::prelude::*;

use crate::snapshot::{restorable, StoredState};
use crate::store::TrackerStore;
use crate::time::{sat_add, since, whole_secs, LocalTime};
use crate::tracker::{opt_view, PausedTracker, TrackerInformation};

verus! {

/// A tracker just created shows no elapsed time and is not running, whatever
/// the clock reads.
pub proof fn created_tracker_is_empty(
    before: TrackerStore,
    after: TrackerStore,
    k: Seq<char>,
    id: Seq<char>,
    created: LocalTime,
    now: u128,
)
    requires
        before.wf(),
        !before.has_key(k),
        after.created_from(before, k, id, created),
    ensures
        after.has_key(k),
        after.elapsed_of(k, now) == 0,
        !after.is_running(k),
        forall|info: TrackerInformation| #[trigger]
            after.view_of(info, k, now) ==> info.duration == 0 && !info.running,
{
    let n = before.len();
    assert(after.key_at(n) == k);
    assert(after.has_key(k));
    let j = after.index_of(k);
    if j != n {
        assert(before.key_at(j) == k);
    }
    if let Some(m) = before.marker() {
        assert(before.has_key(m.0));
    }
}

/// Starting `a` and then `b`: afterwards `b` runs, `a` does not, and `a`
/// has gained exactly the time between the two starts. A tracker that held
/// no time and did not run before therefore holds just that span.
pub proof fn start_switches_trackers(
    s0: TrackerStore,
    s1: TrackerStore,
    s2: TrackerStore,
    a: Seq<char>,
    b: Seq<char>,
    t1: u128,
    t2: u128,
)
    requires
        s0.wf(),
        s0.has_key(a),
        s0.has_key(b),
        a != b,
        s1.started_from(s0, a, t1),
        s2.started_from(s1, b, t2),
        t1 <= t2,
    ensures
        s2.is_running(b),
        !s2.is_running(a),
        s2.tracker(a).duration == sat_add(s1.tracker(a).duration as int, t2 - t1),
        s0.tracker(a).duration == 0 && !s0.is_running(a) ==> s2.tracker(a).duration == t2 - t1,
{
    s1.lemma_paused_keys(s0, t1);
    s1.lemma_keys_kept(s0);
    assert(s1.has_key(a));
    let i = s1.index_of(a);
    assert(s1.key_at(i) == a);
    s2.lemma_paused_keys(s1, t2);
    s2.lemma_keys_kept(s1);
    assert(s2.index_of(a) == i);
    assert(s0.index_of(a) == i);
    assert(since(t1, t2) == t2 - t1);
}

/// Pausing with nothing running changes nothing: trackers, marker and the
/// total stay as they were, at every reading of the clock.
pub proof fn pause_when_idle_changes_nothing(s0: TrackerStore, s1: TrackerStore, now: u128, t: u128)
    requires
        s0.wf(),
        s0.marker() is None,
        s1.paused_from(s0, now),
    ensures
        s1.same_state(&s0),
        s1.total_secs(t) == s0.total_secs(t),
{
    same_state_same_total(s0, s1, s0.len(), t);
}

proof fn same_state_same_total(s0: TrackerStore, s1: TrackerStore, n: int, t: u128)
    requires
        s1.same_state(&s0),
    ensures
        s1.secs_upto(n, t) == s0.secs_upto(n, t),
    decreases n,
{
    if n > 0 {
        same_state_same_total(s0, s1, n - 1, t);
    }
}

/// Pausing twice in a row leaves the state that the first pause made.
pub proof fn pause_twice_is_pause_once(
    s0: TrackerStore,
    s1: TrackerStore,
    s2: TrackerStore,
    t1: u128,
    t2: u128,
)
    requires
        s0.wf(),
        s1.paused_from(s0, t1),
        s2.paused_from(s1, t2),
    ensures
        s2.same_state(&s1),
{
}

/// Removing all trackers hands back one record per listed tracker, in the
/// listed order, each with the identifier, description and elapsed time
/// that the listing showed at that reading of the clock.
pub proof fn removed_records_match_listing(s0: TrackerStore, r: Seq<PausedTracker>, now: u128)
    requires
        s0.wf(),
        r.len() == s0.len(),
        forall|i: int| 0 <= i < s0.len() ==> s0.paused_tracker(i, now, #[trigger] r[i]),
    ensures
        forall|i: int|
            0 <= i < s0.len() ==> {
                &&& (#[trigger] r[i]).id == s0.tracker_at(i).id
                &&& r[i].description == s0.tracker_at(i).description
                &&& r[i].start_time == s0.tracker_at(i).start_time
                &&& r[i].elapsed_with(0) == s0.elapsed_at(i, now)
            },
        forall|i: int, info: TrackerInformation|
            0 <= i < s0.len() && #[trigger] s0.view_of(info, s0.key_at(i), now) ==> {
                &&& info.id@ == r[i].id@
                &&& opt_view(info.description) == opt_view(r[i].description)
                &&& info.start_time == r[i].start_time
                &&& info.duration == whole_secs(r[i].elapsed_with(0))
            },
{
    assert forall|i: int| 0 <= i < s0.len() implies {
        &&& (#[trigger] r[i]).id == s0.tracker_at(i).id
        &&& r[i].description == s0.tracker_at(i).description
        &&& r[i].start_time == s0.tracker_at(i).start_time
        &&& r[i].elapsed_with(0) == s0.elapsed_at(i, now)
    } by {
        assert(s0.paused_tracker(i, now, r[i]));
        if !s0.is_running(s0.key_at(i)) {
            assert(s0.live(s0.key_at(i), now) == 0);
        }
    }
    assert forall|i: int, info: TrackerInformation|
        0 <= i < s0.len() && #[trigger] s0.view_of(info, s0.key_at(i), now) implies {
        &&& info.id@ == r[i].id@
        &&& opt_view(info.description) == opt_view(r[i].description)
        &&& info.start_time == r[i].start_time
        &&& info.duration == whole_secs(r[i].elapsed_with(0))
    } by {
        s0.lemma_index_of(i);
    }
}

/// Saving the store and loading what was saved after both clocks have moved
/// on by the same delay gives back the same trackers, in the same order, and
/// the same running marker; so every tracker's elapsed time and the total
/// agree at every reading. This holds when the marker did not start in the
/// future and the wall clock reads past the Unix epoch by more than its live
/// time.
pub proof fn save_then_restore_round_trip(
    s: TrackerStore,
    saved: StoredState,
    r: TrackerStore,
    now: u128,
    wall_now: u128,
    delay: u128,
    t: u128,
)
    requires
        s.wf(),
        s.saved_as(saved, now, wall_now),
        s.marker() matches Some(m) ==> m.1 <= now && now - m.1 <= wall_now,
        now + delay <= u128::MAX,
        wall_now + delay <= u128::MAX,
        r.restored_from(saved, (now + delay) as u128, (wall_now + delay) as u128),
    ensures
        restorable(saved),
        r.len() == s.len(),
        r.marker() == s.marker(),
        forall|i: int| 0 <= i < s.len() ==> #[trigger] r.key_at(i) == s.key_at(i),
        forall|i: int| 0 <= i < s.len() ==> (#[trigger] r.tracker_at(i)).same_as(&s.tracker_at(i)),
        forall|i: int| 0 <= i < s.len() ==> #[trigger] r.elapsed_at(i, t) == s.elapsed_at(i, t),
        r.total_secs(t) == s.total_secs(t),
{
    let items = saved.trackers@;
    assert forall|a: int, b: int|
        0 <= a < items.len() && 0 <= b < items.len() && a != b implies (#[trigger] items[a]).0@ != (
        #[trigger] items[b]).0@ by {
        assert(s.key_at(a) != s.key_at(b));
    }
    if let Some(m) = s.marker() {
        let w = s.index_of(m.0);
        assert(s.key_at(w) == m.0);
        assert(items[w].0@ == m.0);
        let x = saved.running->0;
        assert(x.start_unix_nanos == wall_now - (now - m.1));
        assert(r.marker() == Some((m.0, m.1)));
    }
    assert(r.marker() == s.marker());
    assert forall|i: int|
        #![trigger r.key_at(i)]
        #![trigger r.tracker_at(i)]
        #![trigger r.elapsed_at(i, t)]
        0 <= i < s.len() implies r.key_at(i) == s.key_at(i) && r.tracker_at(i).same_as(&s.tracker_at(i))
            && r.elapsed_at(i, t) == s.elapsed_at(i, t) by {
        assert(items[i].0@ == s.key_at(i));
        assert(r.key_at(i) == items[i].0@);
        assert(r.tracker_at(i) == items[i].1);
        assert(items[i].1.same_as(&s.tracker_at(i)));
        assert(r.live(r.key_at(i), t) == s.live(s.key_at(i), t));
    }
    same_elapsed_same_total(s, r, s.len(), t);
}

proof fn same_elapsed_same_total(s0: TrackerStore, s1: TrackerStore, n: int, t: u128)
    requires
        n <= s0.len(),
        forall|i: int| 0 <= i < s0.len() ==> #[trigger] s1.elapsed_at(i, t) == s0.elapsed_at(i, t),
    ensures
        s1.secs_upto(n, t) == s0.secs_upto(n, t),
    decreases n,
{
    if n > 0 {
        same_elapsed_same_total(s0, s1, n - 1, t);
        assert(s1.elapsed_at(n - 1, t) == s0.elapsed_at(n - 1, t));
    }
}

} // verus!
