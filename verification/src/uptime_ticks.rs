use vstd::prelude::*;

use crate::adapters::tick::Tick;
use crate::adapters::uptime::{UptimeCounter, UptimeOverflow};
use crate::arith::fits_i64;
use crate::timespan::TimeSpan;
use crate::uptime_drv::UptimeDrv;

verus! {

/// The ticks since start of a sample of `overflows` periods of `max + 1`
/// ticks and a counter value, as an `i64` (wrapping, like a cast).
pub open spec fn uptime_ticks(max: u32, overflows: u32, counter: u32) -> i64 {
    (overflows * (max + 1) + counter) as i64
}

/// The ticks that a counter value lies before the sampled one, the counter
/// having wrapped at most once in between.
pub open spec fn ticks_since(max: u32, sampled: u32, counter: u32) -> int {
    if counter <= sampled {
        sampled - counter
    } else {
        sampled + (max + 1) - counter
    }
}

impl<T: Tick, Cnt: UptimeCounter<T, A>, Ovf: UptimeOverflow<A>, A: Send + Sync> UptimeDrv<
    T,
    Cnt,
    Ovf,
    A,
> {
    /// The uptime of a sample `(overflows, counter)`.
    pub fn ticks(sample: (u32, u32)) -> (r: TimeSpan<T>)
        requires
            sample.1 <= Cnt::MAX,
        ensures
            r.0 == uptime_ticks(Cnt::MAX, sample.0, sample.1),
    {
        let period: u64 = Cnt::MAX as u64 + 1;
        proof {
            assert(sample.0 * period <= (u32::MAX as int) * period) by (nonlinear_arith)
                requires
                    sample.0 <= u32::MAX,
                    period >= 0,
            ;
            assert((u32::MAX as int) * period + (u32::MAX as int) <= u64::MAX) by (nonlinear_arith)
                requires
                    period <= u32::MAX + 1,
            ;
        }
        let ticks: u64 = sample.0 as u64 * period + sample.1 as u64;
        TimeSpan::from_ticks(ticks as i64)
    }

    /// The uptime at which the counter had the value `counter`, given a
    /// later sample; `None` when that uptime does not fit in an `i64`.
    pub fn ticks_at(sample: (u32, u32), counter: u32) -> (r: Option<TimeSpan<T>>)
        requires
            sample.1 <= Cnt::MAX,
        ensures
            ({
                let t = uptime_ticks(Cnt::MAX, sample.0, sample.1) - ticks_since(
                    Cnt::MAX,
                    sample.1,
                    counter,
                );
                &&& fits_i64(t) ==> r == Some(TimeSpan::<T>::from_ticks_spec(t as i64))
                &&& !fits_i64(t) ==> r is None
            }),
    {
        let now = Self::ticks(sample);
        let delta: i64 = if counter <= sample.1 {
            (sample.1 - counter) as i64
        } else {
            sample.1 as i64 + Cnt::MAX as i64 + 1 - counter as i64
        };
        match now.0.checked_sub(delta) {
            Some(t) => Some(TimeSpan::from_ticks(t)),
            None => None,
        }
    }
}

} // verus!

verus! {

/// Uptime does not go back: a sample taken later, with at least as many
/// overflows and, for the same overflows, at least the counter value, stands
/// for at least as many ticks (while the ticks fit in an `i64`).
pub proof fn lemma_uptime_monotone(max: u32, o1: u32, c1: u32, o2: u32, c2: u32)
    requires
        c1 <= max,
        c2 <= max,
        o1 < o2 || (o1 == o2 && c1 <= c2),
        o2 * (max + 1) + c2 <= i64::MAX,
    ensures
        uptime_ticks(max, o1, c1) <= uptime_ticks(max, o2, c2),
{
    let p = max + 1;
    if o1 < o2 {
        assert(o1 * p + p <= o2 * p) by (nonlinear_arith)
            requires
                o1 < o2,
                p > 0,
        ;
    }
    assert(o1 * p + c1 <= o2 * p + c2);
    assert(0 <= o1 * p) by (nonlinear_arith)
        requires
            p > 0,
    ;
}

/// A counter wrap adds one tick: the last counter value of a period is one
/// tick before the first of the next.
pub proof fn lemma_uptime_wrap(max: u32, overflows: u32)
    requires
        overflows < u32::MAX,
        (overflows + 1) * (max + 1) <= i64::MAX,
    ensures
        uptime_ticks(max, overflows, max) + 1 == uptime_ticks(max, (overflows + 1) as u32, 0),
{
    let p = max + 1;
    assert((overflows + 1) * p == overflows * p + p) by (nonlinear_arith);
    assert(0 <= overflows * p) by (nonlinear_arith)
        requires
            p > 0,
    ;
    let next = (overflows + 1) as u32;
    assert(next == overflows + 1);
    assert(uptime_ticks(max, next, 0) == next * p);
    assert(uptime_ticks(max, overflows, max) == overflows * p + max);
}

} // verus!
