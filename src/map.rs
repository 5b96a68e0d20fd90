//! The insertion-ordered map of trackers, kept in an `indexmap::IndexMap`.
use vstd::prelude::*;

use indexmap::IndexMap;

use crate::tracker::PausedTracker;

verus! {

#[verifier::external_type_specification]
#[verifier::external_body]
#[verifier::reject_recursive_types(K)]
#[verifier::reject_recursive_types(V)]
#[verifier::reject_recursive_types(S)]
pub struct ExIndexMap<K, V, S>(IndexMap<K, V, S>);

/// The key-value pairs of a tracker map, in the map's order.
pub uninterp spec fn tracker_entries(m: IndexMap<String, PausedTracker>) -> Seq<(Seq<char>, PausedTracker)>;

/// Relies on `IndexMap::new`: the new map holds no pairs.
#[verifier::external_body]
pub(crate) fn map_new() -> (m: IndexMap<String, PausedTracker>)
    ensures
        tracker_entries(m).len() == 0,
{
    IndexMap::new()
}

/// Relies on `IndexMap::len`: the number of pairs.
#[verifier::external_body]
pub(crate) fn map_len(m: &IndexMap<String, PausedTracker>) -> (n: usize)
    ensures
        n == tracker_entries(*m).len(),
{
    m.len()
}

/// Relies on `IndexMap::get_index_of`: the position of the pair whose key
/// equals `key`, if there is one.
#[verifier::external_body]
pub(crate) fn map_index_of(m: &IndexMap<String, PausedTracker>, key: &str) -> (r: Option<usize>)
    ensures
        r matches Some(i) ==> i < tracker_entries(*m).len() && tracker_entries(*m)[i as int].0 == key@,
        r is None ==> forall|i: int|
            0 <= i < tracker_entries(*m).len() ==> #[trigger] tracker_entries(*m)[i].0 != key@,
{
    m.get_index_of(key)
}

/// Relies on `IndexMap::get_index`: the pair at a position.
#[verifier::external_body]
pub(crate) fn map_get_index(m: &IndexMap<String, PausedTracker>, i: usize) -> (r: Option<(&String, &PausedTracker)>)
    ensures
        i < tracker_entries(*m).len() ==> r is Some && (r->0).0@ == tracker_entries(*m)[i as int].0
            && *(r->0).1 == tracker_entries(*m)[i as int].1,
        i >= tracker_entries(*m).len() ==> r is None,
{
    m.get_index(i)
}

/// Relies on `IndexMap::get_index_mut`: the value at a position, to be
/// changed in place; key and order stay.
#[verifier::external_body]
pub(crate) fn map_value_mut(m: &mut IndexMap<String, PausedTracker>, i: usize) -> (r: &mut PausedTracker)
    requires
        i < tracker_entries(*old(m)).len(),
    ensures
        *r == tracker_entries(*old(m))[i as int].1,
        tracker_entries(*final(m)) == tracker_entries(*old(m)).update(
            i as int,
            (tracker_entries(*old(m))[i as int].0, *final(r)),
        ),
{
    m.get_index_mut(i).unwrap().1
}

/// Relies on `IndexMap::insert`: a new key goes last; an existing key keeps
/// its place and gets the new value.
#[verifier::external_body]
pub(crate) fn map_insert(m: &mut IndexMap<String, PausedTracker>, key: String, value: PausedTracker) -> (r: Option<PausedTracker>)
    ensures
        forall|i: int|
            0 <= i < tracker_entries(*old(m)).len() && #[trigger] tracker_entries(*old(m))[i].0 == key@
                ==> tracker_entries(*final(m)) == tracker_entries(*old(m)).update(i, (key@, value))
                && r == Some(tracker_entries(*old(m))[i].1),
        (forall|i: int|
            0 <= i < tracker_entries(*old(m)).len() ==> #[trigger] tracker_entries(*old(m))[i].0 != key@)
            ==> tracker_entries(*final(m)) == tracker_entries(*old(m)).push((key@, value)) && r is None,
{
    m.insert(key, value)
}

/// Relies on `IndexMap::shift_remove_index`: removes the pair at a position;
/// the pairs after it move up one place, in the same order.
#[verifier::external_body]
pub(crate) fn map_shift_remove_index(m: &mut IndexMap<String, PausedTracker>, i: usize) -> (r: Option<(String, PausedTracker)>)
    ensures
        i < tracker_entries(*old(m)).len() ==> r is Some && (r->0).0@ == tracker_entries(*old(m))[i as int].0
            && (r->0).1 == tracker_entries(*old(m))[i as int].1
            && tracker_entries(*final(m)) == tracker_entries(*old(m)).remove(i as int),
        i >= tracker_entries(*old(m)).len() ==> r is None && tracker_entries(*final(m)) == tracker_entries(*old(m)),
{
    m.shift_remove_index(i)
}

} // verus!
