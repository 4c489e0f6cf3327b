use vstd::prelude::*;

use std::collections::VecDeque;

use crate::adapters::alarm::AlarmCounter;
use crate::adapters::tick::Tick;
use crate::timespan::TimeSpan;

verus! {

/// A sleep waiting in the queue of an alarm.
pub struct Subscription<T: Tick, K> {
    /// The remaining duration until the future is resolved.
    pub remaining: TimeSpan<T>,
    /// Shared state related to the subscription.
    pub state: K,
}

/// The sleeps of an alarm, in the order in which they expire.
pub struct SubscriptionQueue<T: Tick, K> {
    subs: VecDeque<Subscription<T, K>>,
}

/// The subscriptions are ordered by their remaining durations.
pub open spec fn sorted<T: Tick, K>(s: Seq<Subscription<T, K>>) -> bool {
    forall|i: int, j: int| 0 <= i < j < s.len() ==> s[i].remaining.0 <= s[j].remaining.0
}

/// No subscription has a negative remaining duration.
pub open spec fn all_nonneg<T: Tick, K>(s: Seq<Subscription<T, K>>) -> bool {
    forall|i: int| 0 <= i < s.len() ==> s[i].remaining.0 >= 0
}

/// The first `n` subscriptions of `s` that are not flagged in `dropped`, in
/// order.
pub open spec fn unflagged<T: Tick, K>(
    s: Seq<Subscription<T, K>>,
    dropped: Seq<bool>,
    n: int,
) -> Seq<Subscription<T, K>>
    decreases n,
{
    if n <= 0 {
        Seq::empty()
    } else if dropped[n - 1] {
        unflagged(s, dropped, n - 1)
    } else {
        unflagged(s, dropped, n - 1).push(s[n - 1])
    }
}

/// Of the first `n` subscriptions of `s`, those still waiting after
/// `elapsed` ticks, in order, with `elapsed` taken off their remaining
/// durations.
pub open spec fn still_waiting<T: Tick, K>(
    s: Seq<Subscription<T, K>>,
    elapsed: int,
    n: int,
) -> Seq<Subscription<T, K>>
    decreases n,
{
    if n <= 0 {
        Seq::empty()
    } else if s[n - 1].remaining.0 - elapsed > 0 {
        still_waiting(s, elapsed, n - 1).push(
            Subscription {
                remaining: TimeSpan((s[n - 1].remaining.0 - elapsed) as i64, core::marker::PhantomData),
                state: s[n - 1].state,
            },
        )
    } else {
        still_waiting(s, elapsed, n - 1)
    }
}

/// Of the first `n` subscriptions of `s`, the states of those that expire
/// exactly after `elapsed` ticks, in order.
pub open spec fn expiring<T: Tick, K>(s: Seq<Subscription<T, K>>, elapsed: int, n: int) -> Seq<K>
    decreases n,
{
    if n <= 0 {
        Seq::empty()
    } else if s[n - 1].remaining.0 - elapsed == 0 {
        expiring(s, elapsed, n - 1).push(s[n - 1].state)
    } else {
        expiring(s, elapsed, n - 1)
    }
}

impl<T: Tick, K> View for SubscriptionQueue<T, K> {
    type V = Seq<Subscription<T, K>>;

    closed spec fn view(&self) -> Seq<Subscription<T, K>> {
        self.subs@
    }
}

/// The positions below `n` that are not flagged in `dropped`, in order.
pub open spec fn kept_positions(dropped: Seq<bool>, n: int) -> Seq<int> {
    Seq::new(n as nat, |i: int| i).filter(|i: int| !dropped[i])
}

/// Removing the flagged subscriptions keeps exactly the subscriptions at the
/// positions not flagged, in their order: every flagged one goes, every
/// other one stays.
pub proof fn lemma_unflagged_keeps_the_rest<T: Tick, K>(
    s: Seq<Subscription<T, K>>,
    dropped: Seq<bool>,
    n: int,
)
    requires
        0 <= n <= s.len(),
        dropped.len() == s.len(),
    ensures
        unflagged(s, dropped, n) == kept_positions(dropped, n).map_values(
            |i: int| s[i],
        ),
        (forall|i: int| 0 <= i < n ==> !dropped[i]) ==> unflagged(s, dropped, n) == s.subrange(0, n),
        (forall|i: int| 0 <= i < n ==> dropped[i]) ==> unflagged(s, dropped, n).len() == 0,
    decreases n,
{
    if n > 0 {
        lemma_unflagged_keeps_the_rest(s, dropped, n - 1);
        assert(s.subrange(0, n) =~= s.subrange(0, n - 1).push(s[n - 1]));
        let all = Seq::new(n as nat, |i: int| i);
        assert(all.drop_last() =~= Seq::new((n - 1) as nat, |i: int| i));
        assert(all.last() == n - 1);
        let pred = |i: int| !dropped[i];
        assert(kept_positions(dropped, n) == all.filter(pred));
        reveal_with_fuel(Seq::filter, 1);
        if dropped[n - 1] {
            assert(all.filter(pred) == all.drop_last().filter(pred));
        } else {
            assert(all.filter(pred) == all.drop_last().filter(pred).push(n - 1));
            assert(kept_positions(dropped, n).map_values(|i: int| s[i]) =~= kept_positions(
                dropped,
                n - 1,
            ).map_values(|i: int| s[i]).push(s[n - 1]));
        }
    } else {
        assert(kept_positions(dropped, 0) =~= Seq::<int>::empty());
        assert(kept_positions(dropped, 0).map_values(|i: int| s[i]) =~= Seq::<
            Subscription<T, K>,
        >::empty());
    }
}

/// Keeping the unflagged subscriptions of a sorted sequence leaves it sorted.
proof fn lemma_unflagged_sorted<T: Tick, K>(s: Seq<Subscription<T, K>>, dropped: Seq<bool>, n: int)
    requires
        sorted(s),
        all_nonneg(s),
        0 <= n <= s.len(),
        dropped.len() == s.len(),
    ensures
        sorted(unflagged(s, dropped, n)),
        all_nonneg(unflagged(s, dropped, n)),
        unflagged(s, dropped, n).len() <= n,
        forall|j: int, k: int|
            0 <= j < unflagged(s, dropped, n).len() && n <= k < s.len() ==> unflagged(
                s,
                dropped,
                n,
            )[j].remaining.0 <= s[k].remaining.0,
    decreases n,
{
    if n > 0 {
        lemma_unflagged_sorted(s, dropped, n - 1);
    }
}

/// Taking the elapsed ticks off a sorted sequence keeps it sorted, and the
/// subscriptions still waiting have time left.
proof fn lemma_still_waiting_sorted<T: Tick, K>(s: Seq<Subscription<T, K>>, elapsed: int, n: int)
    requires
        sorted(s),
        all_nonneg(s),
        elapsed >= 0,
        0 <= n <= s.len(),
    ensures
        sorted(still_waiting(s, elapsed, n)),
        forall|j: int|
            0 <= j < still_waiting(s, elapsed, n).len() ==> still_waiting(
                s,
                elapsed,
                n,
            )[j].remaining.0 > 0,
        forall|j: int, k: int|
            0 <= j < still_waiting(s, elapsed, n).len() && n <= k < s.len() ==> still_waiting(
                s,
                elapsed,
                n,
            )[j].remaining.0 <= s[k].remaining.0 - elapsed,
    decreases n,
{
    if n > 0 {
        lemma_still_waiting_sorted(s, elapsed, n - 1);
    }
}

impl<T: Tick, K> SubscriptionQueue<T, K> {
    /// The queue is ordered by remaining duration and holds no negative one.
    #[verifier::type_invariant]
    pub open spec fn wf(&self) -> bool {
        sorted(self@) && all_nonneg(self@)
    }

    /// An empty queue.
    pub fn new() -> (r: Self)
        ensures
            r@ == Seq::<Subscription<T, K>>::empty(),
    {
        SubscriptionQueue { subs: VecDeque::new() }
    }

    /// The number of waiting subscriptions.
    pub fn len(&self) -> (r: usize)
        ensures
            r == self@.len(),
    {
        self.subs.len()
    }

    /// The state of the subscription at position `index`.
    pub fn state(&self, index: usize) -> (r: &K)
        requires
            index < self@.len(),
        ensures
            *r == self@[index as int].state,
    {
        &self.subs[index].state
    }

    /// The remaining duration of the subscription that expires first.
    pub fn front_remaining(&self) -> (r: Option<TimeSpan<T>>)
        ensures
            self@.len() == 0 ==> r is None,
            self@.len() > 0 ==> r == Some(self@[0].remaining),
    {
        if self.subs.len() == 0 {
            None
        } else {
            Some(self.subs[0].remaining)
        }
    }

    /// The position where a subscription with `remaining` time left goes:
    /// after every subscription with as much or less time left.
    pub fn insert_index(&self, remaining: TimeSpan<T>) -> (index: usize)
        ensures
            index <= self@.len(),
            forall|i: int| 0 <= i < index ==> self@[i].remaining.0 <= remaining.0,
            index < self@.len() ==> remaining.0 < self@[index as int].remaining.0,
    {
        let mut index: usize = 0;
        let n = self.subs.len();
        while index < n
            invariant
                n == self@.len(),
                index <= n,
                forall|i: int| 0 <= i < index ==> self@[i].remaining.0 <= remaining.0,
            ensures
                index <= n,
                forall|i: int| 0 <= i < index ==> self@[i].remaining.0 <= remaining.0,
                index < n ==> remaining.0 < self@[index as int].remaining.0,
            decreases n - index,
        {
            if remaining.0 < self.subs[index].remaining.0 {
                break;
            }
            index = index + 1;
        }
        index
    }

    /// Add a subscription at its place in the queue; returns that place.
    pub fn insert(&mut self, remaining: TimeSpan<T>, state: K) -> (index: usize)
        requires
            remaining.0 >= 0,
        ensures
            sorted(final(self)@),
            all_nonneg(final(self)@),
            index <= old(self)@.len(),
            final(self)@ == old(self)@.insert(index as int, Subscription { remaining, state }),
            forall|i: int| 0 <= i < index ==> old(self)@[i].remaining.0 <= remaining.0,
            index < old(self)@.len() ==> remaining.0 < old(self)@[index as int].remaining.0,
    {
        proof {
            use_type_invariant(&*self);
        }
        let index = self.insert_index(remaining);
        let mut subs: VecDeque<Subscription<T, K>> = VecDeque::new();
        std::mem::swap(&mut subs, &mut self.subs);
        subs.insert(index, Subscription { remaining, state });
        proof {
            let s = subs@;
            assert forall|i: int, j: int| 0 <= i < j < s.len() implies s[i].remaining.0
                <= s[j].remaining.0 by {
                if j < index {
                } else if j == index {
                } else if i < index {
                    assert(old(self)@[index as int].remaining.0 <= s[j].remaining.0);
                } else if i == index {
                } else {
                }
            }
        }
        self.subs = subs;
        index
    }

    /// Remove the subscriptions flagged in `dropped`.
    pub fn remove_dropped(&mut self, dropped: &Vec<bool>)
        requires
            dropped@.len() == old(self)@.len(),
        ensures
            sorted(final(self)@),
            all_nonneg(final(self)@),
            final(self)@ == unflagged(old(self)@, dropped@, old(self)@.len() as int),
            final(self)@ == kept_positions(dropped@, old(self)@.len() as int).map_values(
                |i: int| old(self)@[i],
            ),
    {
        proof {
            use_type_invariant(&*self);
        }
        let ghost orig = self@;
        let mut subs: VecDeque<Subscription<T, K>> = VecDeque::new();
        std::mem::swap(&mut subs, &mut self.subs);
        let n = subs.len();
        let mut i: usize = 0;
        while i < n
            invariant
                n == orig.len(),
                dropped@.len() == n,
                i <= n,
                subs@ == orig.subrange(i as int, n as int) + unflagged(orig, dropped@, i as int),
            decreases n - i,
        {
            let ghost before = subs@;
            assert(before[0] == orig[i as int]);
            let sub = subs.pop_front().unwrap();
            if !dropped[i] {
                subs.push_back(sub);
            }
            proof {
                assert(orig.subrange((i + 1) as int, n as int) =~= orig.subrange(
                    i as int,
                    n as int,
                ).subrange(1, (n - i) as int));
                assert(subs@ =~= orig.subrange((i + 1) as int, n as int) + unflagged(
                    orig,
                    dropped@,
                    (i + 1) as int,
                ));
            }
            i = i + 1;
        }
        proof {
            assert(orig.subrange(n as int, n as int) =~= Seq::<Subscription<T, K>>::empty());
            assert(subs@ =~= unflagged(orig, dropped@, n as int));
            lemma_unflagged_sorted(orig, dropped@, n as int);
            lemma_unflagged_keeps_the_rest(orig, dropped@, n as int);
        }
        self.subs = subs;
    }

    /// Let `elapsed` ticks pass: take them off every remaining duration,
    /// drop the subscriptions whose time is up, and return the states of
    /// those that expire exactly now, in queue order.
    pub fn elapse(&mut self, elapsed: TimeSpan<T>) -> (expired: Vec<K>)
        requires
            elapsed.0 >= 0,
        ensures
            sorted(final(self)@),
            all_nonneg(final(self)@),
            final(self)@ == still_waiting(old(self)@, elapsed.0 as int, old(self)@.len() as int),
            expired@ == expiring(old(self)@, elapsed.0 as int, old(self)@.len() as int),
    {
        proof {
            use_type_invariant(&*self);
        }
        let ghost orig = self@;
        let mut subs: VecDeque<Subscription<T, K>> = VecDeque::new();
        std::mem::swap(&mut subs, &mut self.subs);
        let n = subs.len();
        let mut expired: Vec<K> = Vec::new();
        let mut i: usize = 0;
        while i < n
            invariant
                n == orig.len(),
                all_nonneg(orig),
                elapsed.0 >= 0,
                i <= n,
                subs@ == orig.subrange(i as int, n as int) + still_waiting(
                    orig,
                    elapsed.0 as int,
                    i as int,
                ),
                expired@ == expiring(orig, elapsed.0 as int, i as int),
            decreases n - i,
        {
            let ghost before = subs@;
            assert(before[0] == orig[i as int]);
            let sub = subs.pop_front().unwrap();
            let left: i64 = sub.remaining.0 - elapsed.0;
            if left == 0 {
                expired.push(sub.state);
            } else if left > 0 {
                subs.push_back(Subscription { remaining: TimeSpan::from_ticks(left), state: sub.state });
            }
            proof {
                assert(orig.subrange((i + 1) as int, n as int) =~= orig.subrange(
                    i as int,
                    n as int,
                ).subrange(1, (n - i) as int));
                assert(subs@ =~= orig.subrange((i + 1) as int, n as int) + still_waiting(
                    orig,
                    elapsed.0 as int,
                    (i + 1) as int,
                ));
            }
            i = i + 1;
        }
        proof {
            assert(orig.subrange(n as int, n as int) =~= Seq::<Subscription<T, K>>::empty());
            assert(subs@ =~= still_waiting(orig, elapsed.0 as int, n as int));
            lemma_still_waiting_sorted(orig, elapsed.0 as int, n as int);
        }
        self.subs = subs;
        expired
    }
}

/// The cycles that one spin of `burn_nanos` burns for `nanos` nanoseconds.
pub fn nanos_to_cycles<T: Tick>(nanos: u32) -> (r: u32)
    requires
        nanos * (T::CPU_FREQ / 1000000) <= u32::MAX,
    ensures
        r == (nanos * (T::CPU_FREQ / 1000000)) / 1000,
{
    (nanos * (T::CPU_FREQ / 1000000)) / 1000
}

/// The nanoseconds that `burn_nanos` spins at most at a time, so that the
/// cycle count of one spin fits in a `u32`.
pub const BURN_CHUNK_NANOS: u32 = 1000000;

/// The CPU cycles per microsecond at the CPU clock frequency `cpu_freq`.
pub open spec fn cycles_per_micro(cpu_freq: u32) -> nat {
    (cpu_freq / 1000000) as nat
}

/// The cycle counts that `burn_nanos` hands to `spin`, in order, to burn
/// `nanos` nanoseconds at `per_micro` cycles per microsecond: a whole chunk
/// of `BURN_CHUNK_NANOS` while more than a chunk is left, then the rest.
pub open spec fn burn_plan(per_micro: nat, nanos: nat) -> Seq<nat>
    decreases nanos,
{
    if nanos > BURN_CHUNK_NANOS {
        seq![((BURN_CHUNK_NANOS as nat) * per_micro / 1000) as nat].add(
            burn_plan(per_micro, (nanos - BURN_CHUNK_NANOS) as nat),
        )
    } else {
        seq![nanos * per_micro / 1000]
    }
}

/// The sum of a sequence of cycle counts.
pub open spec fn total_cycles(s: Seq<nat>) -> nat
    decreases s.len(),
{
    if s.len() == 0 {
        0
    } else {
        s[0] + total_cycles(s.drop_first())
    }
}

/// One spin of `burn_nanos` for `nanos` nanoseconds still to burn: the cycles
/// to spin now and, unless this is the last spin, the nanoseconds left after it.
pub fn burn_step<T: Tick>(nanos: u32) -> (r: (u32, Option<u32>))
    ensures
        r.0 == burn_plan(cycles_per_micro(T::CPU_FREQ), nanos as nat)[0],
        nanos > BURN_CHUNK_NANOS ==> r.1 == Some((nanos - BURN_CHUNK_NANOS) as u32),
        nanos <= BURN_CHUNK_NANOS ==> r.1 is None,
{
    let per_micro: u32 = T::CPU_FREQ / 1000000;
    assert(per_micro <= 4294);
    if nanos > BURN_CHUNK_NANOS {
        assert(BURN_CHUNK_NANOS * per_micro <= 4294000000) by (nonlinear_arith)
            requires
                per_micro <= 4294,
        ;
        let cycles = nanos_to_cycles::<T>(BURN_CHUNK_NANOS);
        (cycles, Some(nanos - BURN_CHUNK_NANOS))
    } else {
        assert(nanos * per_micro <= 4294000000) by (nonlinear_arith)
            requires
                per_micro <= 4294,
                nanos <= 1000000,
        ;
        (nanos_to_cycles::<T>(nanos), None)
    }
}

/// Spin `nanos` nanoseconds on the CPU clock of `T`, a chunk at a time, one
/// `burn_step` after another. The ghost result is the plan those steps
/// follow, `burn_plan` of `nanos`, whose sum is the cycles of `nanos`
/// nanoseconds (`lemma_burn_plan_total`). What `spin` does with each count
/// is up to the counter and is not stated.
pub fn burn_nanos<T: Tick, A, C: AlarmCounter<T, A>>(counter: &C, nanos: u32) -> (plan: Ghost<
    Seq<nat>,
>)
    requires
        T::CPU_FREQ != 0,
    ensures
        plan@ == burn_plan(cycles_per_micro(T::CPU_FREQ), nanos as nat),
{
    let ghost per_micro = cycles_per_micro(T::CPU_FREQ);
    let ghost mut spun: Seq<nat> = Seq::empty();
    let mut left: u32 = nanos;
    loop
        invariant_except_break
            spun + burn_plan(per_micro, left as nat) == burn_plan(per_micro, nanos as nat),
        invariant
            per_micro == cycles_per_micro(T::CPU_FREQ),
        ensures
            spun == burn_plan(per_micro, nanos as nat),
        decreases left,
    {
        let (cycles, rest) = burn_step::<T>(left);
        counter.spin(cycles);
        proof {
            let plan = burn_plan(per_micro, left as nat);
            assert(spun.push(cycles as nat) + plan.drop_first() =~= spun + plan);
            spun = spun.push(cycles as nat);
        }
        match rest {
            None => {
                proof {
                    assert(burn_plan(per_micro, left as nat).drop_first() =~= Seq::<nat>::empty());
                    assert(spun + Seq::<nat>::empty() =~= spun);
                }
                break ;
            },
            Some(r) => {
                proof {
                    assert(burn_plan(per_micro, left as nat).drop_first() =~= burn_plan(
                        per_micro,
                        r as nat,
                    ));
                }
                left = r;
            },
        }
    }
    Ghost(spun)
}

/// The spins of `burn_nanos` add up to the cycles of `nanos` nanoseconds:
/// `nanos * per_micro / 1000`, rounded down once, not once per spin.
pub proof fn lemma_burn_plan_total(per_micro: nat, nanos: nat)
    ensures
        total_cycles(burn_plan(per_micro, nanos)) == nanos * per_micro / 1000,
    decreases nanos,
{
    let plan = burn_plan(per_micro, nanos);
    if nanos > BURN_CHUNK_NANOS {
        let rest = (nanos - BURN_CHUNK_NANOS) as nat;
        lemma_burn_plan_total(per_micro, rest);
        assert(plan.drop_first() =~= burn_plan(per_micro, rest));
        assert((BURN_CHUNK_NANOS as nat) * per_micro / 1000 == 1000 * per_micro)
            by (nonlinear_arith);
        assert(total_cycles(plan) == plan[0] + total_cycles(plan.drop_first()));
        assert(nanos * per_micro == rest * per_micro + (1000 * per_micro) * 1000)
            by (nonlinear_arith)
            requires
                nanos == rest + 1000000,
        ;
        vstd::arithmetic::div_mod::lemma_hoist_over_denominator(
            (rest * per_micro) as int,
            (1000 * per_micro) as int,
            1000,
        );
    } else {
        assert(plan.drop_first() =~= Seq::<nat>::empty());
        assert(total_cycles(Seq::<nat>::empty()) == 0);
        assert(total_cycles(plan) == plan[0] + total_cycles(plan.drop_first()));
    }
}

} // verus!
