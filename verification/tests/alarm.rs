use drone_time::subscription::{arm_outcome, complete_outcome, ADDED, COMPLETED, DROPPED, WAKEABLE};
use std::sync::Mutex;

use drone_time::{
    burn_nanos, burn_step, counter_add, counter_after, nanos_to_cycles, BURN_CHUNK_NANOS, AlarmCounter, AlarmTimerMode, SleepPlan,
    SleepStep, SubscriptionQueue, SubscriptionState, Tick, TimeSpan,
};

struct FakeTick;
impl Tick for FakeTick {
    const FREQ: u32 = 1;
    const CPU_FREQ: u32 = 180_000_000;
}

fn compares(mode: AlarmTimerMode, max: u32, base: u32, duration: i64) -> Vec<SleepStep> {
    let mut plan = SleepPlan::new(mode, max, base, duration);
    let mut steps = Vec::new();
    loop {
        let step = plan.step();
        if step == SleepStep::Done {
            break;
        }
        steps.push(step);
    }
    steps
}

fn next(compare: u32, soon: bool) -> SleepStep {
    SleepStep::Next { compare, soon }
}

#[test]
fn sleep_less_than_a_period() {
    assert_eq!(vec![next(3, false)], compares(AlarmTimerMode::AlwaysRunning, 9, 4, 9));
}

#[test]
fn sleep_a_period() {
    assert_eq!(
        vec![next(9, false), next(4, false)],
        compares(AlarmTimerMode::AlwaysRunning, 9, 4, 10)
    );
}

#[test]
fn sleep_more_than_a_period() {
    assert_eq!(
        vec![next(9, false), next(4, false), next(9, false), next(5, false)],
        compares(AlarmTimerMode::AlwaysRunning, 9, 4, 21)
    );
}

#[test]
fn short_sleep_is_soon() {
    assert_eq!(vec![next(6, true)], compares(AlarmTimerMode::AlwaysRunning, 9, 4, 2));
}

#[test]
fn zero_sleep_schedules_nothing() {
    assert!(compares(AlarmTimerMode::AlwaysRunning, 9, 4, 0).is_empty());
    assert!(compares(AlarmTimerMode::OneShotOnly, 9, 0, 0).is_empty());
}

#[test]
fn one_shot_sleep_delays() {
    assert_eq!(
        vec![
            SleepStep::Delay { duration: 9 },
            SleepStep::Delay { duration: 9 },
            SleepStep::Delay { duration: 3 }
        ],
        compares(AlarmTimerMode::OneShotOnly, 9, 0, 21)
    );
    assert_eq!(
        vec![SleepStep::Delay { duration: 9 }],
        compares(AlarmTimerMode::OneShotOnly, 9, 0, 9)
    );
}

#[test]
fn counter_add_wraps() {
    assert_eq!(3, counter_add(9, 4, 9));
    assert_eq!(9, counter_add(9, 4, 5));
    assert_eq!(0, counter_add(0xFFFF, 0xFFFF, 1));
    assert_eq!(u32::MAX - 1, counter_add(u32::MAX, u32::MAX, u32::MAX));
}

struct Adapter;

struct CountingSpin(Mutex<Vec<u32>>);

impl AlarmCounter<FakeTick, Adapter> for CountingSpin {
    fn value(&self) -> u32 {
        0
    }

    fn spin(&self, cycles: u32) {
        self.0.lock().unwrap().push(cycles);
    }
}

#[test]
fn nanos_to_cycles_at_180_mhz() {
    assert_eq!(180, nanos_to_cycles::<FakeTick>(1000));
    assert_eq!(0, nanos_to_cycles::<FakeTick>(5));
}

#[test]
fn burn_nanos_spins() {
    let c = CountingSpin(Mutex::new(Vec::new()));
    burn_nanos::<FakeTick, Adapter, _>(&c, 2000);
    assert_eq!(vec![360], std::mem::take(&mut *c.0.lock().unwrap()));
    burn_nanos::<FakeTick, Adapter, _>(&c, 1002000);
    assert_eq!(vec![180000, 360], std::mem::take(&mut *c.0.lock().unwrap()));
    burn_nanos::<FakeTick, Adapter, _>(&c, 1000000);
    assert_eq!(vec![180000], std::mem::take(&mut *c.0.lock().unwrap()));
    // Long spins add up to the whole duration, with no overflow.
    burn_nanos::<FakeTick, Adapter, _>(&c, 3500005);
    let spun = std::mem::take(&mut *c.0.lock().unwrap());
    assert_eq!(vec![180000, 180000, 180000, 90000], spun);
    assert_eq!(3500005u64 * 180 / 1000, spun.iter().map(|&x| x as u64).sum::<u64>());
    burn_nanos::<FakeTick, Adapter, _>(&c, u32::MAX);
    let spun = std::mem::take(&mut *c.0.lock().unwrap());
    assert_eq!(4295, spun.len());
    assert_eq!(u32::MAX as u64 * 180 / 1000, spun.iter().map(|&x| x as u64).sum::<u64>());
}

#[test]
fn burn_step_chunks() {
    assert_eq!((360, None), burn_step::<FakeTick>(2000));
    assert_eq!((180000, None), burn_step::<FakeTick>(BURN_CHUNK_NANOS));
    assert_eq!((180000, Some(2000)), burn_step::<FakeTick>(1002000));
    assert_eq!((0, None), burn_step::<FakeTick>(0));
}

#[test]
fn counter_after_wraps() {
    assert_eq!(3, counter_after(9, 4, 9));
    assert_eq!(4, counter_after(9, 4, 10));
    assert_eq!(5, counter_after(9, 4, 21));
    assert_eq!(0, counter_after(u32::MAX, u32::MAX, 1));
    assert_eq!(7, counter_after(0xFFFF, 7, 0x10000 * 5));
}

#[test]
fn queue_keeps_expiry_order() {
    let mut q = SubscriptionQueue::<FakeTick, &str>::new();
    assert_eq!(0, q.insert(TimeSpan::from_ticks(2), "two"));
    assert_eq!(0, q.insert(TimeSpan::from_ticks(1), "one"));
    assert_eq!(2, q.insert(TimeSpan::from_ticks(3), "three"));
    // Equal durations keep their order of arrival.
    assert_eq!(2, q.insert(TimeSpan::from_ticks(2), "two again"));
    assert_eq!(4, q.len());
    assert_eq!(Some(1), q.front_remaining().map(|t| t.0));

    assert_eq!(vec!["one"], q.elapse(TimeSpan::from_ticks(1)));
    assert_eq!(Some(1), q.front_remaining().map(|t| t.0));
    assert_eq!(vec!["two", "two again"], q.elapse(TimeSpan::from_ticks(1)));
    assert_eq!(vec!["three"], q.elapse(TimeSpan::from_ticks(1)));
    assert!(q.front_remaining().is_none());
}

#[test]
fn elapse_past_a_deadline_drops_without_expiring() {
    let mut q = SubscriptionQueue::<FakeTick, u8>::new();
    q.insert(TimeSpan::from_ticks(2), 1);
    q.insert(TimeSpan::from_ticks(5), 2);
    assert!(q.elapse(TimeSpan::from_ticks(3)).is_empty());
    assert_eq!(1, q.len());
    assert_eq!(Some(2), q.front_remaining().map(|t| t.0));
}

#[test]
fn remove_dropped_keeps_the_rest() {
    let mut q = SubscriptionQueue::<FakeTick, u8>::new();
    q.insert(TimeSpan::from_ticks(1), 1);
    q.insert(TimeSpan::from_ticks(2), 2);
    q.insert(TimeSpan::from_ticks(3), 3);
    q.remove_dropped(&vec![false, true, false]);
    assert_eq!(2, q.len());
    assert_eq!(vec![1], q.elapse(TimeSpan::from_ticks(1)));
    assert!(q.elapse(TimeSpan::from_ticks(1)).is_empty());
    assert_eq!(vec![3], q.elapse(TimeSpan::from_ticks(1)));
}

#[test]
fn subscription_state_hands_out_the_waker() {
    let state = SubscriptionState::new();
    assert!(state.try_begin_add());
    assert!(!state.try_begin_add());
    assert!(!state.arm(futures::task::noop_waker()));
    assert!(state.complete().is_some());
    // Once completed, arming reports completion at once.
    assert!(state.arm(futures::task::noop_waker()));
    assert!(state.complete().is_none());
}

#[test]
fn dropped_subscription_stays_dropped() {
    let state = SubscriptionState::new();
    assert!(!state.is_dropped());
    state.mark_dropped();
    assert!(state.is_dropped());
    assert!(state.complete().is_none());
    assert!(state.is_dropped());
    state.revert_to_pending_add();
    assert!(!state.is_dropped());
}

#[test]
fn queue_states_by_position() {
    let mut q = SubscriptionQueue::<FakeTick, char>::new();
    q.insert(TimeSpan::from_ticks(4), 'b');
    q.insert(TimeSpan::from_ticks(1), 'a');
    assert_eq!('a', *q.state(0));
    assert_eq!('b', *q.state(1));
}

#[test]
fn sleep_ends_on_start_plus_duration() {
    // Whatever the split, the last compare value is the start plus the duration, modulo the period.
    for duration in [1i64, 5, 10, 11, 37, 100] {
        let steps = compares(AlarmTimerMode::AlwaysRunning, 9, 7, duration);
        match steps.last() {
            Some(SleepStep::Next { compare, .. }) => {
                assert_eq!(((7 + duration) % 10) as u32, *compare)
            }
            other => panic!("unexpected last step {:?}", other),
        }
    }
    // A one-shot timer delays for the duration in total.
    let total: u32 = compares(AlarmTimerMode::OneShotOnly, 0xFFFFFF, 0, 40_000_000)
        .iter()
        .map(|s| match s {
            SleepStep::Delay { duration } => *duration,
            _ => 0,
        })
        .sum();
    assert_eq!(40_000_000, total);
}

#[test]
fn arm_and_complete_outcomes() {
    assert_eq!((true, Some(COMPLETED)), arm_outcome(COMPLETED));
    assert_eq!((false, Some(DROPPED)), arm_outcome(DROPPED));
    assert_eq!((false, None), arm_outcome(ADDED));
    assert_eq!((true, None), complete_outcome(WAKEABLE));
    assert_eq!((false, Some(DROPPED)), complete_outcome(DROPPED));
    assert_eq!((false, None), complete_outcome(ADDED));
}
