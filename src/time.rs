use vstd::prelude::*;

use chrono::{Local, Offset};

verus! {

/// Nanoseconds in one second.
pub const NANOS_PER_SEC: u128 = 1_000_000_000;

/// `a + b`, held at `u128::MAX`.
pub open spec fn sat_add(a: int, b: int) -> int {
    if a + b > u128::MAX {
        u128::MAX as int
    } else {
        a + b
    }
}

/// `a - b`, held at zero.
pub open spec fn sat_sub(a: int, b: int) -> int {
    if a >= b {
        a - b
    } else {
        0
    }
}

/// The sum of a sequence of nanosecond spans, held at `u128::MAX`.
pub open spec fn total(s: Seq<u128>) -> int
    decreases s.len(),
{
    if s.len() == 0 {
        0
    } else {
        sat_add(total(s.drop_last()), s.last() as int)
    }
}

/// The time between a monotonic reading `start` and a later reading `now`;
/// zero when `now` is not later.
pub open spec fn since(start: u128, now: u128) -> int {
    if now >= start {
        now - start
    } else {
        0
    }
}

/// Number of whole seconds in a span of nanoseconds.
pub open spec fn whole_secs(nanos: int) -> int {
    nanos / (NANOS_PER_SEC as int)
}

/// The saturated sum of `spans`.
pub fn sum_spans(spans: &Vec<u128>) -> (r: u128)
    ensures
        r == total(spans@),
{
    let mut acc: u128 = 0;
    let mut i: usize = 0;
    while i < spans.len()
        invariant
            i <= spans@.len(),
            acc == total(spans@.subrange(0, i as int)),
        decreases spans@.len() - i,
    {
        proof {
            let s = spans@.subrange(0, i as int + 1);
            assert(s.drop_last() =~= spans@.subrange(0, i as int));
        }
        acc = acc.saturating_add(spans[i]);
        i = i + 1;
    }
    proof {
        assert(spans@.subrange(0, i as int) =~= spans@);
    }
    acc
}

/// Wall-clock time in the local zone: seconds and nanoseconds since the Unix
/// epoch, with the zone's offset from UTC. Carried for display only.
#[derive(Debug, Clone, Copy, PartialEq, Eq, Structural)]
pub struct LocalTime {
    pub unix_secs: i64,
    pub subsec_nanos: u32,
    pub utc_offset_secs: i32,
}

/// Relies on `chrono::Local::now`: the current local time, with the
/// nanoseconds below one second (up to one extra second during a leap
/// second) and the zone's offset from UTC in seconds.
#[verifier::external_body]
pub(crate) fn local_now() -> (r: LocalTime)
    ensures
        r.subsec_nanos < 2_000_000_000,
{
    let now = Local::now();
    LocalTime {
        unix_secs: now.timestamp(),
        subsec_nanos: now.timestamp_subsec_nanos(),
        utc_offset_secs: now.offset().fix().local_minus_utc(),
    }
}

} // verus!
