use vstd::prelude::*;

use core::marker::PhantomData;
use core::sync::atomic::{AtomicBool, AtomicU32, AtomicUsize, Ordering};

use crate::adapters::tick::Tick;
use crate::adapters::uptime::{UptimeCounter, UptimeOverflow};
use crate::timespan::TimeSpan;

verus! {

/// An uptime driver: a wrapping hardware counter extended by the count of
/// its overflows into a non-wrapping uptime.
pub struct UptimeDrv<T: Tick, Cnt: UptimeCounter<T, A>, Ovf: UptimeOverflow<A>, A: Send + Sync> {
    tick: PhantomData<T>,
    counter: Cnt,
    overflow: Ovf,
    /// The number of threads simultaneously calling now() and seeing the "pending overflow" flag.
    get_overflows_level: AtomicUsize,
    /// The number of timer overflow interrupts that have occured.
    overflows: AtomicU32,
    /// The next value to use for `overflows`.
    overflows_next: AtomicU32,
    overflows_next_pending: AtomicBool,
    adapter: PhantomData<A>,
}

impl<T: Tick, Cnt: UptimeCounter<T, A>, Ovf: UptimeOverflow<A>, A: Send + Sync> UptimeDrv<
    T,
    Cnt,
    Ovf,
    A,
> {
    /// The hardware counter.
    pub closed spec fn counter_device(&self) -> Cnt {
        self.counter
    }

    /// The overflow control of the hardware counter.
    pub closed spec fn overflow_device(&self) -> Ovf {
        self.overflow
    }

    /// Create a new Uptime driver on `counter` and its `overflow` control.
    pub fn new(counter: Cnt, overflow: Ovf, _tick: T) -> (r: Self)
        ensures
            r.counter_device() == counter,
            r.overflow_device() == overflow,
    {
        UptimeDrv {
            tick: PhantomData,
            counter,
            overflow,
            get_overflows_level: AtomicUsize::new(0),
            overflows: AtomicU32::new(0),
            overflows_next: AtomicU32::new(1),
            overflows_next_pending: AtomicBool::new(false),
            adapter: PhantomData,
        }
    }

    /// Enable the overflow interrupt of the timer.
    pub fn overflow_int_enable(&self) {
        self.overflow.overflow_int_enable();
    }

    /// Whether the timer has overflowed since the overflow was last counted.
    pub fn is_pending_overflow(&self) -> (r: bool) {
        self.overflow.is_pending_overflow()
    }

    /// The current value of the hardware counter.
    pub fn counter(&self) -> (r: u32)
        ensures
            r <= Cnt::MAX,
    {
        self.counter.value()
    }

    /// The number of overflows of the counter, counting a pending one, with
    /// the values it was decided from.
    fn get_overflows(&self) -> (r: (u32, OverflowReads))
        ensures
            r.0 == counted_overflows(r.1.pending, r.1.current, r.1.next),
    {
        // Increment the thread-recursion count, and get "our" level
        let level = self.get_overflows_level.fetch_add(1, Ordering::Acquire);

        let pending = self.overflow.is_pending_overflow();
        let current = self.overflows.load(Ordering::Relaxed);
        // The `overflows_next` value to be assigned to `overflows` on an overflow.
        let next = self.overflows_next.load(Ordering::Relaxed);
        let (overflows, take_next) = overflow_step(pending, current, next);
        if take_next {
            self.overflows.store(overflows, Ordering::Relaxed);
            self.overflow.clear_pending_overflow();
            self.overflows_next_pending.store(true, Ordering::Release);
        }

        let mark_taken = if level == 0 {
            self.overflows_next_pending.compare_exchange(
                true,
                false,
                Ordering::AcqRel,
                Ordering::Acquire,
            ).is_ok()
        } else {
            false
        };
        if increments_next(level, mark_taken) {
            // We are the outer-most thread (lowest priority) that have called now() and seen the overflow flag.
            // The flag is now cleared, and so there is a-lot of time until the pending flag is seen again,
            // and we can safely increment the value of `overflow_next`,
            // to be assigned to `overflows` when the next flag is detected the next time.
            self.overflows_next.fetch_add(1, Ordering::Relaxed);
        }

        // Release level.
        self.get_overflows_level.fetch_sub(1, Ordering::Release);

        (overflows, OverflowReads { pending, current, next })
    }

    /// One attempt to sample `(overflows, counter)` consistently: the counter
    /// is read before and after the overflows; the sample is good, and
    /// returned, only if the counter did not wrap in between.
    pub fn try_sample(&self) -> (r: Option<(u32, u32)>)
        ensures
            r matches Some(s) ==> s.1 <= Cnt::MAX,
    {
        let cnt1 = self.counter.value();
        let (overflows, _reads) = self.get_overflows();
        let cnt2 = self.counter.value();
        sample_from_reads(cnt1, overflows, cnt2)
    }
}

/// What a count of the overflows read: whether the timer flagged an overflow,
/// the count stored, and the count to store at the next overflow.
struct OverflowReads {
    pending: bool,
    current: u32,
    next: u32,
}

/// The overflow count given what was read: the next count on a pending
/// overflow, the stored count otherwise.
pub open spec fn counted_overflows(pending: bool, current: u32, next: u32) -> u32 {
    if pending {
        next
    } else {
        current
    }
}

/// The overflow count decided from what was read, and whether the next count
/// is taken: on a pending overflow the next count becomes the count (to be
/// stored, the flag cleared and the next count marked for increment);
/// otherwise the stored count stands.
pub fn overflow_step(pending: bool, current: u32, next: u32) -> (r: (u32, bool))
    ensures
        r.0 == counted_overflows(pending, current, next),
        r.1 == pending,
{
    if pending {
        (next, true)
    } else {
        (current, false)
    }
}

/// Whether a count of the overflows moves the next count on: only the
/// outermost caller (at level 0) that took the mark set by the count that saw
/// the overflow, so that each overflow moves it on once.
pub fn increments_next(level: usize, mark_taken: bool) -> (r: bool)
    ensures
        r == (level == 0 && mark_taken),
{
    level == 0 && mark_taken
}

/// The sample made of two counter reads around a read of the overflows: the
/// overflows and the second read when the counter did not wrap in between
/// (the first read is not above the second), `None` when it did.
pub fn sample_from_reads(cnt1: u32, overflows: u32, cnt2: u32) -> (r: Option<(u32, u32)>)
    ensures
        r == (if cnt1 <= cnt2 {
            Some((overflows, cnt2))
        } else {
            None::<(u32, u32)>
        }),
{
    if cnt1 <= cnt2 {
        // There was no timer wrap while `overflows` was obtained.
        Some((overflows, cnt2))
    } else {
        // The underlying timer wrapped, retry
        None
    }
}

} // verus!
