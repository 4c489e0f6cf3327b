use vstd::prelude::*;

use crate::adapters::tick::Tick;

verus! {

/// The alarm timer counter.
/// The counter must be monotonically increasing.
pub trait AlarmCounter<T: Tick, A>: Send + Sync {
    /// Get the current counter value of the timer.
    fn value(&self) -> u32;

    /// Spin a number of clock cycles.
    fn spin(&self, cycles: u32);
}

/// How an alarm timer can be driven.
#[derive(Clone, Copy, Debug, PartialEq, Eq, Structural)]
pub enum AlarmTimerMode {
    /// The preferred timer mode.
    /// The timer is always running between between 0 <= counter <= MAX, even when compare value is currently configured.
    AlwaysRunning,
    /// The alternate timer mode to be used when the timer is not always running between 0 <= counter <= MAX.
    /// This mode is less robust when the duration exceeds a period, as jitter is introduced when setting up the next interrupt.
    OneShotOnly,
}

/// The counter value `duration` ticks after `base`, on a counter that wraps
/// after `max`.
pub fn counter_add(max: u32, base: u32, duration: u32) -> (r: u32)
    requires
        base <= max,
        duration <= max,
    ensures
        r == (base + duration) % (max + 1),
        r <= max,
{
    ((base as u64 + duration as u64) % (max as u64 + 1)) as u32
}

/// The counter value `duration` ticks after `base`, for a duration of any
/// length: whole periods bring the counter back to where it was.
pub fn counter_after(max: u32, base: u32, duration: i64) -> (r: u32)
    requires
        base <= max,
        duration >= 0,
    ensures
        r == (base + duration) % (max + 1),
        r <= max,
{
    let period: u64 = max as u64 + 1;
    let within: u32 = (duration as u64 % period) as u32;
    proof {
        vstd::arithmetic::div_mod::lemma_add_mod_noop_right(
            base as int,
            duration as int,
            period as int,
        );
    }
    counter_add(max, base, within)
}

/// What a sleeping alarm timer waits for next.
#[derive(Clone, Copy, Debug, PartialEq, Eq, Structural)]
pub enum SleepStep {
    /// Wait until the counter equals `compare`; resolve at once if `soon` and
    /// the compare value has already passed by at most half a period.
    Next { compare: u32, soon: bool },
    /// Wait for `duration` ticks of a one-shot timer.
    Delay { duration: u32 },
    /// The sleep is over.
    Done,
}

/// The schedule of a sleep of an alarm timer: the compare values or delays
/// that together make up the requested duration.
pub struct SleepPlan {
    mode: AlarmTimerMode,
    max: u32,
    base: u32,
    remaining: u64,
    soon: bool,
    start: Ghost<u32>,
    duration: Ghost<nat>,
}

impl SleepPlan {
    /// The mode of the timer.
    pub closed spec fn mode(&self) -> AlarmTimerMode {
        self.mode
    }

    /// The maximum counter value of the timer.
    pub closed spec fn max(&self) -> nat {
        self.max as nat
    }

    /// The counter period of the timer.
    pub open spec fn period(&self) -> nat {
        self.max() + 1
    }

    /// The most ticks scheduled by one compare value before the last.
    pub open spec fn half_period(&self) -> nat {
        self.period() / 2
    }

    /// The counter value that the scheduled ticks run up to.
    pub closed spec fn base(&self) -> nat {
        self.base as nat
    }

    /// The ticks not scheduled yet.
    pub closed spec fn remaining(&self) -> nat {
        self.remaining as nat
    }

    /// Whether the last compare value may resolve at once when passed.
    pub closed spec fn soon(&self) -> bool {
        self.soon
    }

    /// The counter value at which the sleep started.
    pub closed spec fn start(&self) -> nat {
        self.start@ as nat
    }

    /// The ticks that the whole sleep lasts.
    pub closed spec fn duration(&self) -> nat {
        self.duration@
    }

    /// The ticks scheduled so far.
    pub open spec fn scheduled(&self) -> int {
        self.duration() - self.remaining()
    }

    /// The plan is consistent: the scheduled and the remaining ticks make up
    /// the duration, and the counter value reached is the start moved on by
    /// the scheduled ticks. A start past the counter's range is only taken
    /// for an empty sleep in `AlwaysRunning` mode, which never moves it.
    #[verifier::type_invariant]
    pub closed spec fn wf(&self) -> bool {
        &&& (self.remaining > 0 || self.mode == AlarmTimerMode::OneShotOnly) ==> self.max > 0
        &&& self.remaining <= self.duration@
        &&& self.soon == (self.duration@ < self.period() / 2)
        &&& if self.start@ <= self.max {
            &&& self.base <= self.max
            &&& self.mode == AlarmTimerMode::AlwaysRunning ==> self.base == (self.start@
                + self.scheduled()) % (self.period() as int)
        } else {
            &&& self.mode == AlarmTimerMode::AlwaysRunning
            &&& self.duration@ == 0
            &&& self.base == self.start@
        }
    }

    /// Plan a sleep of `duration` ticks from the counter value `base`.
    pub fn new(mode: AlarmTimerMode, max: u32, base: u32, duration: i64) -> (r: SleepPlan)
        requires
            max > 0 || (mode == AlarmTimerMode::AlwaysRunning && duration == 0),
            base <= max || (mode == AlarmTimerMode::AlwaysRunning && duration == 0),
            duration >= 0,
            mode == AlarmTimerMode::OneShotOnly ==> base == 0,
        ensures
            r.wf(),
            r.mode() == mode,
            r.max() == max,
            r.base() == base,
            r.start() == base,
            r.duration() == duration,
            r.remaining() == duration,
            r.soon() == (duration < r.period() / 2),
    {
        let remaining: u64 = duration as u64;
        let period: u64 = max as u64 + 1;
        let soon: bool = remaining < period / 2;
        proof {
            if base <= max {
                vstd::arithmetic::div_mod::lemma_small_mod(base as nat, period as nat);
            }
        }
        SleepPlan {
            mode,
            max,
            base,
            remaining,
            soon,
            start: Ghost(base),
            duration: Ghost(duration as nat),
        }
    }

    /// Whether every tick of the sleep has been scheduled.
    pub fn is_done(&self) -> (r: bool)
        ensures
            r == (self.remaining() == 0),
    {
        self.remaining == 0
    }

    /// The next thing to wait for, scheduling its ticks.
    pub fn step(&mut self) -> (s: SleepStep)
        ensures
            final(self).wf(),
            final(self).mode() == old(self).mode(),
            final(self).max() == old(self).max(),
            final(self).start() == old(self).start(),
            final(self).duration() == old(self).duration(),
            final(self).soon() == old(self).soon(),
            old(self).remaining() == 0 ==> s == SleepStep::Done && final(self).remaining() == 0,
            old(self).remaining() > 0 ==> final(self).remaining() < old(self).remaining(),
            old(self).mode() == AlarmTimerMode::AlwaysRunning && old(self).remaining() > 0 ==> {
                let advance = if old(self).remaining() >= old(self).period() {
                    old(self).half_period()
                } else {
                    old(self).remaining()
                };
                &&& final(self).remaining() == old(self).remaining() - advance
                &&& final(self).base() == ((old(self).base() + advance) as int) % (old(self).period() as int)
                &&& s == SleepStep::Next {
                    compare: final(self).base() as u32,
                    soon: if old(self).remaining() >= old(self).period() {
                        false
                    } else {
                        old(self).soon()
                    },
                }
            },
            old(self).mode() == AlarmTimerMode::OneShotOnly && old(self).remaining() > 0 ==> {
                let advance = if old(self).remaining() >= old(self).max() {
                    old(self).max()
                } else {
                    old(self).remaining()
                };
                &&& final(self).remaining() == old(self).remaining() - advance
                &&& final(self).base() == old(self).base()
                &&& s == SleepStep::Delay { duration: advance as u32 }
            },
    {
        proof {
            use_type_invariant(&*self);
        }
        if self.remaining == 0 {
            return SleepStep::Done;
        }
        match self.mode {
            AlarmTimerMode::AlwaysRunning => {
                let period: u64 = self.max as u64 + 1;
                let half_period: u32 = (period / 2) as u32;
                if self.remaining >= period {
                    // The maximum delay is half the counters increment.
                    // This ensures that we can hit the actual fire time directly when the last timeout is setup.
                    let compare = counter_add(self.max, self.base, half_period);
                    proof {
                        lemma_add_mod_step(
                            self.start@ as int,
                            self.scheduled(),
                            half_period as int,
                            period as int,
                        );
                    }
                    *self = SleepPlan {
                        base: compare,
                        remaining: self.remaining - half_period as u64,
                        ..*self
                    };
                    SleepStep::Next { compare, soon: false }
                } else {
                    let compare = counter_add(self.max, self.base, self.remaining as u32);
                    proof {
                        lemma_add_mod_step(
                            self.start@ as int,
                            self.scheduled(),
                            self.remaining as int,
                            period as int,
                        );
                    }
                    let soon = self.soon;
                    *self = SleepPlan { base: compare, remaining: 0, ..*self };
                    SleepStep::Next { compare, soon }
                }
            },
            AlarmTimerMode::OneShotOnly => {
                if self.remaining >= self.max as u64 {
                    let duration: u32 = self.max;
                    *self = SleepPlan { remaining: self.remaining - self.max as u64, ..*self };
                    SleepStep::Delay { duration }
                } else {
                    let duration: u32 = self.remaining as u32;
                    *self = SleepPlan { remaining: 0, ..*self };
                    SleepStep::Delay { duration }
                }
            },
        }
    }
}

/// Moving a counter value on by a further `d` ticks modulo the period.
proof fn lemma_add_mod_step(start: int, scheduled: int, d: int, period: int)
    requires
        period > 0,
        start >= 0,
        scheduled >= 0,
        d >= 0,
    ensures
        ((start + scheduled) % period + d) % period == (start + (scheduled + d)) % period,
{
    vstd::arithmetic::div_mod::lemma_add_mod_noop_right(d, start + scheduled, period);
    assert(start + (scheduled + d) == d + (start + scheduled));
}

} // verus!

verus! {

/// A sleep lasts exactly its duration: once every tick has been scheduled,
/// the scheduled ticks are the duration, and in `AlwaysRunning` mode the last
/// compare value is the start moved on by the duration, modulo the period
/// (for a start within the counter's range; an empty sleep keeps any start).
pub proof fn lemma_sleep_ends_on_time(plan: SleepPlan)
    requires
        plan.wf(),
        plan.remaining() == 0,
    ensures
        plan.scheduled() == plan.duration(),
        plan.mode() == AlarmTimerMode::AlwaysRunning && plan.start() <= plan.max()
            ==> plan.base() == ((plan.start() + plan.duration()) as int) % (plan.period() as int),
{
}

} // verus!
