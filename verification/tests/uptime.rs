use drone_time::uptime_drv::{increments_next, overflow_step, sample_from_reads};
use std::sync::atomic::{AtomicBool, AtomicU32, Ordering};

use drone_time::{Tick, UptimeCounter, UptimeDrv, UptimeOverflow};

struct Adapter;

struct FastTick;
impl Tick for FastTick {
    const FREQ: u32 = 1000;
}

/// A counter that returns the values it is given, one per read.
struct ScriptedCounter {
    values: Vec<u32>,
    next: AtomicU32,
}

impl UptimeCounter<FastTick, Adapter> for ScriptedCounter {
    const MAX: u32 = 9;

    fn value(&self) -> u32 {
        let i = self.next.fetch_add(1, Ordering::SeqCst) as usize;
        self.values[i.min(self.values.len() - 1)]
    }
}

struct FlagOverflow(AtomicBool);

impl UptimeOverflow<Adapter> for FlagOverflow {
    fn overflow_int_enable(&self) {}

    fn is_pending_overflow(&self) -> bool {
        self.0.load(Ordering::SeqCst)
    }

    fn clear_pending_overflow(&self) {
        self.0.store(false, Ordering::SeqCst);
    }
}

type Drv = UptimeDrv<FastTick, ScriptedCounter, FlagOverflow, Adapter>;

fn drv(values: Vec<u32>, pending: bool) -> Drv {
    UptimeDrv::new(
        ScriptedCounter { values, next: AtomicU32::new(0) },
        FlagOverflow(AtomicBool::new(pending)),
        FastTick,
    )
}

#[test]
fn sample_without_wrap() {
    let d = drv(vec![3, 4], false);
    assert_eq!(Some((0, 4)), d.try_sample());
}

#[test]
fn sample_retried_on_wrap() {
    let d = drv(vec![8, 1], false);
    assert_eq!(None, d.try_sample());
}

#[test]
fn pending_overflow_is_counted_once() {
    let d = drv(vec![2, 2, 5, 5, 6, 6], true);
    assert_eq!(Some((1, 2)), d.try_sample());
    // The flag was cleared: the next sample sees the same overflow count.
    assert_eq!(Some((1, 5)), d.try_sample());
    assert!(!d.is_pending_overflow());
}

#[test]
fn ticks_of_a_sample() {
    assert_eq!(0, Drv::ticks((0, 0)).0);
    assert_eq!(9, Drv::ticks((0, 9)).0);
    assert_eq!(10, Drv::ticks((1, 0)).0);
    assert_eq!(37, Drv::ticks((3, 7)).0);
}

#[test]
fn ticks_at_earlier_counter() {
    // Counter 5 before a sample (3, 7) is 2 ticks earlier.
    assert_eq!(Some(35), Drv::ticks_at((3, 7), 5).map(|t| t.0));
    // Counter 9 before a sample (3, 2) was in the previous period: 3 ticks earlier.
    assert_eq!(Some(29), Drv::ticks_at((3, 2), 9).map(|t| t.0));
    // The sampled counter itself is the sample's uptime.
    assert_eq!(Some(32), Drv::ticks_at((3, 2), 2).map(|t| t.0));
    // Before the start the uptime is negative.
    assert_eq!(Some(-1), Drv::ticks_at((0, 1), 9).map(|t| t.0));
}

#[test]
fn uptime_grows_across_a_wrap() {
    assert_eq!(Drv::ticks((4, 9)).0 + 1, Drv::ticks((5, 0)).0);
    assert!(Drv::ticks((4, 9)).0 < Drv::ticks((5, 0)).0);
    assert!(Drv::ticks((4, 3)).0 < Drv::ticks((4, 8)).0);
}

#[test]
fn sample_from_counter_reads() {
    assert_eq!(Some((7, 5)), sample_from_reads(3, 7, 5));
    assert_eq!(Some((7, 5)), sample_from_reads(5, 7, 5));
    assert_eq!(None, sample_from_reads(9, 7, 1));
}

#[test]
fn overflow_step_takes_next_on_pending() {
    assert_eq!((4, true), overflow_step(true, 3, 4));
    assert_eq!((3, false), overflow_step(false, 3, 4));
}

#[test]
fn only_outermost_caller_increments_next() {
    assert!(increments_next(0, true));
    assert!(!increments_next(0, false));
    assert!(!increments_next(1, true));
    assert!(!increments_next(2, false));
}

/// An overflow flag that the test can raise while the driver owns it.
struct SharedFlag(std::sync::Arc<AtomicBool>);

impl UptimeOverflow<Adapter> for SharedFlag {
    fn overflow_int_enable(&self) {}

    fn is_pending_overflow(&self) -> bool {
        self.0.load(Ordering::SeqCst)
    }

    fn clear_pending_overflow(&self) {
        self.0.store(false, Ordering::SeqCst);
    }
}

#[test]
fn each_overflow_counted_once() {
    let flag = std::sync::Arc::new(AtomicBool::new(true));
    let d = UptimeDrv::<FastTick, _, _, Adapter>::new(
        ScriptedCounter { values: vec![1, 1, 2, 2, 3, 3, 4, 4], next: AtomicU32::new(0) },
        SharedFlag(flag.clone()),
        FastTick,
    );
    assert_eq!(Some((1, 1)), d.try_sample());
    assert_eq!(Some((1, 2)), d.try_sample());
    // A second overflow moves the count on by exactly one more.
    flag.store(true, Ordering::SeqCst);
    assert_eq!(Some((2, 3)), d.try_sample());
    assert_eq!(Some((2, 4)), d.try_sample());
}
