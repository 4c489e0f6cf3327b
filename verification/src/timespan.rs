use vstd::prelude::*;

use core::marker::PhantomData;

use crate::arith::{fits_i64, lemma_mul_within, lemma_tdiv, tdiv, trem};
use crate::adapters::tick::Tick;

verus! {

/// A signed duration, counted in ticks of the clock `T`.
pub struct TimeSpan<T: Tick>(pub i64, pub PhantomData<T>);

/// A duration split into days, hours, minutes, seconds and milliseconds.
#[derive(Debug)]
pub struct TimeSpanParts {
    pub days: i16,
    pub hours: i8,
    pub mins: i8,
    pub secs: i8,
    pub millis: i16,
}

/// The largest number of whole days accepted by `from_parts`
/// (`i32::MAX` seconds, in whole days).
pub const MAX_DAYS: i16 = 24855;
/// The smallest number of whole days accepted by `from_parts`.
pub const MIN_DAYS: i16 = -24855;
/// The largest number of milliseconds accepted by `from_millis`.
pub const MAX_MILLIS: i64 = 2147483647000;
/// The smallest number of milliseconds accepted by `from_millis`.
pub const MIN_MILLIS: i64 = -2147483648000;

/// Ticks per second of the clock `T`.
pub open spec fn tps<T: Tick>() -> int {
    T::FREQ as int
}

/// Ticks per minute of the clock `T`.
pub open spec fn tpm<T: Tick>() -> int {
    60 * tps::<T>()
}

/// Ticks per hour of the clock `T`.
pub open spec fn tph<T: Tick>() -> int {
    3600 * tps::<T>()
}

/// Ticks per day of the clock `T`.
pub open spec fn tpd<T: Tick>() -> int {
    86400 * tps::<T>()
}

impl TimeSpanParts {
    /// Each component lies in the range that `from_parts` accepts.
    pub open spec fn in_range(self) -> bool {
        &&& MIN_DAYS <= self.days <= MAX_DAYS
        &&& -24 < self.hours < 24
        &&& -60 < self.mins < 60
        &&& -60 < self.secs < 60
        &&& -1000 < self.millis < 1000
    }

    /// The ticks of the whole days, hours, minutes and seconds.
    pub open spec fn whole_ticks<T: Tick>(self) -> int {
        self.days * tpd::<T>() + self.hours * tph::<T>() + self.mins * tpm::<T>() + self.secs
            * tps::<T>()
    }

    /// The ticks that the parts stand for; the milliseconds are truncated
    /// to whole ticks.
    pub open spec fn ticks<T: Tick>(self) -> int {
        self.whole_ticks::<T>() + tdiv(self.millis * tps::<T>(), 1000)
    }

    /// Every partial sum of `ticks` fits in an `i64`.
    pub open spec fn fits<T: Tick>(self) -> bool {
        &&& fits_i64(self.days * tpd::<T>())
        &&& fits_i64(self.days * tpd::<T>() + self.hours * tph::<T>())
        &&& fits_i64(self.days * tpd::<T>() + self.hours * tph::<T>() + self.mins * tpm::<T>())
        &&& fits_i64(self.whole_ticks::<T>())
        &&& fits_i64(self.ticks::<T>())
    }
}

/// The parts of a number of ticks: each component is the quotient, rounded
/// toward zero, of what the larger units leave; the milliseconds are the
/// remaining ticks rounded to the nearest millisecond.
pub open spec fn spec_parts<T: Tick>(t: int) -> TimeSpanParts {
    let days = tdiv(t, tpd::<T>());
    let r1 = trem(t, tpd::<T>());
    let hours = tdiv(r1, tph::<T>());
    let r2 = trem(r1, tph::<T>());
    let mins = tdiv(r2, tpm::<T>());
    let r3 = trem(r2, tpm::<T>());
    let secs = tdiv(r3, tps::<T>());
    let r4 = trem(r3, tps::<T>());
    let millis = tdiv(r4 * 1000 + tps::<T>() / 2, tps::<T>());
    TimeSpanParts {
        days: days as i16,
        hours: hours as i8,
        mins: mins as i8,
        secs: secs as i8,
        millis: millis as i16,
    }
}

/// The ticks of a number of milliseconds: whole seconds exactly, the rest
/// truncated to whole ticks.
pub open spec fn millis_to_ticks<T: Tick>(millis: int) -> int {
    let secs = tdiv(millis, 1000);
    let sub_secs = millis - secs * 1000;
    secs * tps::<T>() + tdiv(sub_secs * tps::<T>(), 1000)
}

/// The ticks that `from_micros` computes: the ticks of the whole
/// milliseconds and of the sub-millisecond rest, divided by 1000.
pub open spec fn micros_sec_ticks<T: Tick>(micros: int) -> int {
    let millis = tdiv(micros, 1000);
    let sub_millis = micros - millis * 1000;
    millis * tps::<T>() + tdiv(sub_millis * tps::<T>(), 1000)
}

/// The whole seconds of a number of ticks, as `as_secs` returns them.
pub open spec fn spec_as_secs<T: Tick>(t: int) -> i32 {
    tdiv(t, tps::<T>()) as i32
}

/// The ticks left over after the whole seconds that `as_secs` returns.
pub open spec fn sub_sec_ticks<T: Tick>(t: int) -> int {
    t - spec_as_secs::<T>(t) * tps::<T>()
}

/// The milliseconds of a number of ticks, rounded to the nearest one.
pub open spec fn spec_as_millis<T: Tick>(t: int) -> int {
    spec_as_secs::<T>(t) * 1000 + tdiv(sub_sec_ticks::<T>(t) * 1000 + tps::<T>() / 2, tps::<T>())
}

/// No intermediate value of `as_millis` overflows.
pub open spec fn as_millis_fits<T: Tick>(t: int) -> bool {
    &&& fits_i64(sub_sec_ticks::<T>(t))
    &&& fits_i64(sub_sec_ticks::<T>(t) * 1000)
    &&& fits_i64(sub_sec_ticks::<T>(t) * 1000 + tps::<T>() / 2)
    &&& fits_i64(spec_as_millis::<T>(t))
}

/// The whole milliseconds of a number of ticks, rounded down, as
/// `as_micros` computes them on the way.
pub open spec fn micros_floor_millis<T: Tick>(t: int) -> int {
    spec_as_secs::<T>(t) * 1000 + tdiv(sub_sec_ticks::<T>(t) * 1000, tps::<T>())
}

/// The ticks left over after those milliseconds.
pub open spec fn sub_milli_ticks<T: Tick>(t: int) -> int {
    t - tdiv(micros_floor_millis::<T>(t) * tps::<T>(), 1000)
}

/// The microseconds of a number of ticks: the milliseconds, and the ticks
/// after them rounded to the nearest microsecond.
pub open spec fn spec_as_micros<T: Tick>(t: int) -> int {
    micros_floor_millis::<T>(t) * 1000 + tdiv(
        sub_milli_ticks::<T>(t) * 1000000 + tps::<T>() / 2,
        tps::<T>(),
    )
}

/// No intermediate value of `as_micros` overflows.
pub open spec fn as_micros_fits<T: Tick>(t: int) -> bool {
    &&& fits_i64(sub_sec_ticks::<T>(t))
    &&& fits_i64(sub_sec_ticks::<T>(t) * 1000)
    &&& fits_i64(micros_floor_millis::<T>(t))
    &&& fits_i64(micros_floor_millis::<T>(t) * tps::<T>())
    &&& fits_i64(sub_milli_ticks::<T>(t))
    &&& fits_i64(micros_floor_millis::<T>(t) * 1000)
    &&& fits_i64(sub_milli_ticks::<T>(t) * 1000000)
    &&& fits_i64(sub_milli_ticks::<T>(t) * 1000000 + tps::<T>() / 2)
    &&& fits_i64(spec_as_micros::<T>(t))
}

impl<T: Tick> TimeSpan<T> {
    /// The span of no ticks.
    pub fn zero() -> (r: Self)
        ensures
            r.0 == 0,
    {
        TimeSpan(0, PhantomData)
    }

    /// The longest span.
    pub fn max_value() -> (r: Self)
        ensures
            r.0 == i64::MAX,
    {
        TimeSpan(i64::MAX, PhantomData)
    }

    /// The most negative span.
    pub fn min_value() -> (r: Self)
        ensures
            r.0 == i64::MIN,
    {
        TimeSpan(i64::MIN, PhantomData)
    }

    /// Create a new `TimeSpan` from `hours`, `mins`, and `secs`.
    pub fn new_time(hours: i8, mins: i8, secs: i8) -> (r: Self)
        requires
            -24 < hours < 24,
            -60 < mins < 60,
            -60 < secs < 60,
        ensures
            r.0 == hours * tph::<T>() + mins * tpm::<T>() + secs * tps::<T>(),
    {
        let parts = TimeSpanParts { days: 0, hours, mins, secs, millis: 0 };
        proof {
            let f = tps::<T>();
            assert(0 <= f <= u32::MAX);
            lemma_mul_within(hours as int, -23, 23, tph::<T>());
            lemma_mul_within(mins as int, -59, 59, tpm::<T>());
            lemma_mul_within(secs as int, -59, 59, tps::<T>());
            assert(0 * tpd::<T>() == 0);
            assert(0 * tps::<T>() == 0);
            assert(tdiv(0, 1000) == 0);
        }
        Self::from_parts(parts)
    }

    /// Create a new `TimeSpan` from individual components.
    pub fn from_parts(parts: TimeSpanParts) -> (r: Self)
        requires
            parts.in_range(),
            parts.fits::<T>(),
        ensures
            r.0 == parts.ticks::<T>(),
    {
        let tps: i64 = T::FREQ as i64;
        let tpm: i64 = tps * 60;
        let tph: i64 = tpm * 60;
        let tpd: i64 = tph * 24;
        proof {
            lemma_mul_within(parts.hours as int, -23, 23, tph as int);
            lemma_mul_within(parts.mins as int, -59, 59, tpm as int);
            lemma_mul_within(parts.secs as int, -59, 59, tps as int);
            lemma_mul_within(parts.millis as int, -999, 999, tps as int);
        }
        let days_ticks: i64 = parts.days as i64 * tpd;
        let hours_ticks: i64 = parts.hours as i64 * tph;
        let mins_ticks: i64 = parts.mins as i64 * tpm;
        let secs_ticks: i64 = parts.secs as i64 * tps;
        let millis_ticks: i64 = (parts.millis as i64 * tps) / 1000;
        let ticks: i64 = days_ticks + hours_ticks + mins_ticks + secs_ticks + millis_ticks;
        Self::from_ticks(ticks)
    }

    /// Create a new `TimeSpan` from the specified number of _whole_ days.
    pub fn from_days(days: i16) -> (r: Self)
        requires
            fits_i64(days * tpd::<T>()),
        ensures
            r.0 == days * tpd::<T>(),
    {
        let tpd: i64 = T::FREQ as i64 * 86400;
        Self::from_ticks(days as i64 * tpd)
    }

    /// Create a new `TimeSpan` from the specified number of _whole_ hours.
    pub fn from_hours(hours: i32) -> (r: Self)
        requires
            fits_i64(hours * tph::<T>()),
        ensures
            r.0 == hours * tph::<T>(),
    {
        let tph: i64 = T::FREQ as i64 * 3600;
        Self::from_ticks(hours as i64 * tph)
    }

    /// Create a new `TimeSpan` from the specified number of _whole_ mins.
    pub fn from_mins(mins: i32) -> (r: Self)
        requires
            fits_i64(mins * tpm::<T>()),
        ensures
            r.0 == mins * tpm::<T>(),
    {
        let tpm: i64 = T::FREQ as i64 * 60;
        Self::from_ticks(mins as i64 * tpm)
    }

    /// Create a new `TimeSpan` from the specified number of _whole_ seconds.
    pub fn from_secs(secs: i32) -> (r: Self)
        ensures
            r.0 == secs * tps::<T>(),
    {
        let tps: i64 = T::FREQ as i64;
        proof {
            lemma_mul_within(secs as int, i32::MIN as int, i32::MAX as int, tps as int);
            assert(i32::MIN * (tps as int) >= i32::MIN * (u32::MAX as int)) by (nonlinear_arith)
                requires
                    0 <= tps <= u32::MAX,
            ;
            assert(i32::MAX * (tps as int) <= i32::MAX * (u32::MAX as int)) by (nonlinear_arith)
                requires
                    0 <= tps <= u32::MAX,
            ;
        }
        Self::from_ticks(secs as i64 * tps)
    }

    /// Create a new `TimeSpan` from the specified number of _whole_ milliseconds.
    pub fn from_millis(millis: i64) -> (r: Self)
        requires
            MIN_MILLIS <= millis <= MAX_MILLIS,
        ensures
            r.0 == millis_to_ticks::<T>(millis as int),
    {
        let tps: i64 = T::FREQ as i64;
        let secs: i64 = millis / 1000;
        let sub_secs: i64 = millis - secs * 1000;
        proof {
            lemma_tdiv(millis as int, 1000);
            lemma_millis_to_ticks_bounds::<T>(millis as int);
            lemma_mul_within(sub_secs as int, -999, 999, tps as int);
        }
        let ticks: i64 = secs * tps + (sub_secs * tps) / 1000;
        Self::from_ticks(ticks)
    }

    /// Create a new `TimeSpan` from the specified number of _whole_ microseconds.
    pub fn from_micros(micros: i64) -> (r: Self)
        requires
            fits_i64(tdiv(micros as int, 1000) * tps::<T>()),
            fits_i64(micros_sec_ticks::<T>(micros as int)),
        ensures
            r.0 == tdiv(micros_sec_ticks::<T>(micros as int), 1000),
    {
        let tps: i64 = T::FREQ as i64;
        let millis: i64 = micros / 1000;
        let sub_millis: i64 = micros - millis * 1000;
        proof {
            lemma_tdiv(micros as int, 1000);
            lemma_mul_within(sub_millis as int, -999, 999, tps as int);
            lemma_tdiv(sub_millis * tps, 1000);
        }
        let sec_ticks: i64 = millis * tps + (sub_millis * tps) / 1000;
        Self::from_ticks(sec_ticks / 1000)
    }

    /// The span of `ticks` ticks.
    pub open spec fn from_ticks_spec(ticks: i64) -> Self {
        TimeSpan(ticks, PhantomData)
    }

    /// Create a new `TimeSpan` from the specified number of _whole_ ticks.
    pub fn from_ticks(ticks: i64) -> (r: Self)
        ensures
            r.0 == ticks,
            r == Self::from_ticks_spec(ticks),
    {
        TimeSpan(ticks, PhantomData)
    }

    /// Get the individual components of a `TimeSpan`.
    pub fn parts(&self) -> (p: TimeSpanParts)
        requires
            T::FREQ > 0,
        ensures
            p == spec_parts::<T>(self.0 as int),
    {
        let tps: i64 = T::FREQ as i64;
        let tpm: i64 = tps * 60;
        let tph: i64 = tpm * 60;
        let tpd: i64 = tph * 24;
        let mut ticks: i64 = self.0;

        let days: i64 = ticks / tpd;
        proof {
            lemma_tdiv(ticks as int, tpd as int);
        }
        ticks = ticks - days * tpd;

        let hours: i64 = ticks / tph;
        proof {
            lemma_tdiv(ticks as int, tph as int);
        }
        ticks = ticks - hours * tph;

        let mins: i64 = ticks / tpm;
        proof {
            lemma_tdiv(ticks as int, tpm as int);
        }
        ticks = ticks - mins * tpm;

        let secs: i64 = ticks / tps;
        proof {
            lemma_tdiv(ticks as int, tps as int);
        }
        ticks = ticks - secs * tps;

        // Round to nearest.
        let millis: i64 = (ticks * 1000 + tps / 2) / tps;

        TimeSpanParts {
            days: days as i16,
            hours: hours as i8,
            mins: mins as i8,
            secs: secs as i8,
            millis: millis as i16,
        }
    }

    /// Get the absolute duration of a `TimeSpan`.
    pub fn abs(&self) -> (r: Self)
        requires
            self.0 != i64::MIN,
        ensures
            r.0 == (if self.0 >= 0 { self.0 as int } else { -self.0 }),
    {
        if self.0 >= 0 {
            TimeSpan(self.0, PhantomData)
        } else {
            TimeSpan(-self.0, PhantomData)
        }
    }

    /// Get the number of _whole_ seconds in the `TimeSpan`.
    pub fn as_secs(&self) -> (r: i32)
        requires
            T::FREQ > 0,
        ensures
            r == spec_as_secs::<T>(self.0 as int),
    {
        let tps: i64 = T::FREQ as i64;
        (self.0 / tps) as i32
    }

    /// Get the number of _whole_ milliseconds in the `TimeSpan`.
    pub fn as_millis(&self) -> (r: i64)
        requires
            T::FREQ > 0,
            as_millis_fits::<T>(self.0 as int),
        ensures
            r == spec_as_millis::<T>(self.0 as int),
    {
        let tps: i64 = T::FREQ as i64;
        let secs: i64 = self.as_secs() as i64;
        proof {
            lemma_secs_times_freq::<T>(secs as int);
        }
        let sub_sec_ticks: i64 = self.0 - secs * tps;
        // Round to nearest millisecond.
        secs * 1000 + (sub_sec_ticks * 1000 + tps / 2) / tps
    }

    /// Get the number of _whole_ microseconds in the `TimeSpan`.
    pub fn as_micros(&self) -> (r: i64)
        requires
            T::FREQ > 0,
            as_micros_fits::<T>(self.0 as int),
        ensures
            r == spec_as_micros::<T>(self.0 as int),
    {
        let tps: i64 = T::FREQ as i64;
        let secs: i64 = self.as_secs() as i64;
        proof {
            lemma_secs_times_freq::<T>(secs as int);
        }
        let sub_sec_ticks: i64 = self.0 - secs * tps;
        // Floor milliseconds.
        let millis: i64 = secs * 1000 + (sub_sec_ticks * 1000) / tps;
        let sub_milli_ticks: i64 = self.0 - (millis * tps) / 1000;
        // Round to nearest.
        millis * 1000 + (sub_milli_ticks * 1000000 + tps / 2) / tps
    }
}

/// Whole seconds held by an `i32`, in ticks, fit in an `i64`.
proof fn lemma_secs_times_freq<T: Tick>(secs: int)
    requires
        i32::MIN <= secs <= i32::MAX,
    ensures
        fits_i64(secs * tps::<T>()),
        fits_i64(secs * 1000),
{
    let f = tps::<T>();
    assert(0 <= f <= u32::MAX);
    lemma_mul_within(secs, i32::MIN as int, i32::MAX as int, f);
    assert(i32::MIN * f >= i32::MIN * (u32::MAX as int)) by (nonlinear_arith)
        requires
            0 <= f <= u32::MAX,
    ;
    assert(i32::MAX * f <= i32::MAX * (u32::MAX as int)) by (nonlinear_arith)
        requires
            0 <= f <= u32::MAX,
    ;
}

/// The ticks of any number of milliseconds accepted by `from_millis` fit in
/// an `i64`, and so does every intermediate value.
proof fn lemma_millis_to_ticks_bounds<T: Tick>(millis: int)
    requires
        MIN_MILLIS <= millis <= MAX_MILLIS,
    ensures
        fits_i64(tdiv(millis, 1000) * tps::<T>()),
        fits_i64(millis_to_ticks::<T>(millis)),
{
    let f = tps::<T>();
    let secs = tdiv(millis, 1000);
    let sub = millis - secs * 1000;
    lemma_tdiv(millis, 1000);
    assert(0 <= f <= u32::MAX);
    lemma_secs_times_freq::<T>(secs);
    lemma_mul_within(sub, -999, 999, f);
    lemma_tdiv(sub * f, 1000);
    let frac = tdiv(sub * f, 1000);
    if millis >= 0 {
        assert(frac * 1000 <= sub * f);
        assert(sub * f <= 999 * f) by (nonlinear_arith)
            requires
                sub <= 999,
                f >= 0,
        ;
        assert(0 <= frac <= f);
        assert(secs <= i32::MAX);
        assert(secs * f <= (i32::MAX as int) * f) by (nonlinear_arith)
            requires
                secs <= i32::MAX,
                f >= 0,
        ;
        assert((i32::MAX as int) * f + f == 2147483648 * f) by (nonlinear_arith);
        assert(2147483648 * f <= 2147483648 * (u32::MAX as int)) by (nonlinear_arith)
            requires
                f <= u32::MAX,
        ;
    } else {
        assert(sub <= 0);
        assert(sub * f <= 0) by (nonlinear_arith)
            requires
                sub <= 0,
                f >= 0,
        ;
        assert(frac * 1000 >= sub * f);
        assert(sub * f >= -999 * f) by (nonlinear_arith)
            requires
                sub >= -999,
                f >= 0,
        ;
        assert(-f <= frac <= 0);
        if secs == i32::MIN {
            assert(sub == 0);
        } else {
            assert(secs >= i32::MIN + 1);
            assert(secs * f >= (i32::MIN + 1) * f) by (nonlinear_arith)
                requires
                    secs >= i32::MIN + 1,
                    f >= 0,
            ;
            assert((i32::MIN + 1) * f - f == -2147483648 * f) by (nonlinear_arith);
            assert(-2147483648 * f >= -2147483648 * (u32::MAX as int)) by (nonlinear_arith)
                requires
                    f <= u32::MAX,
            ;
        }
    }
}

} // verus!

verus! {

impl<T: Tick> Copy for TimeSpan<T> {

}

impl<T: Tick> Clone for TimeSpan<T> {
    fn clone(&self) -> (r: Self)
        ensures
            r == *self,
    {
        TimeSpan(self.0, PhantomData)
    }
}

impl<T: Tick> Default for TimeSpan<T> {
    fn default() -> (r: Self)
        ensures
            r.0 == 0,
    {
        Self::zero()
    }
}

impl<T: Tick> PartialEq for TimeSpan<T> {
    fn eq(&self, other: &Self) -> (r: bool) {
        self.0 == other.0
    }
}

impl<T: Tick> vstd::std_specs::cmp::PartialEqSpecImpl for TimeSpan<T> {
    open spec fn obeys_eq_spec() -> bool {
        true
    }

    open spec fn eq_spec(&self, other: &Self) -> bool {
        self.0 == other.0
    }
}

impl<T: Tick> core::ops::Add for TimeSpan<T> {
    type Output = TimeSpan<T>;

    fn add(self, rhs: Self) -> (r: Self::Output) {
        TimeSpan::from_ticks(self.0 + rhs.0)
    }
}

impl<T: Tick> vstd::std_specs::ops::AddSpecImpl for TimeSpan<T> {
    open spec fn obeys_add_spec() -> bool {
        true
    }

    open spec fn add_req(self, rhs: Self) -> bool {
        fits_i64(self.0 + rhs.0)
    }

    open spec fn add_spec(self, rhs: Self) -> Self {
        TimeSpan((self.0 + rhs.0) as i64, PhantomData)
    }
}

impl<T: Tick> core::ops::Sub for TimeSpan<T> {
    type Output = TimeSpan<T>;

    fn sub(self, rhs: Self) -> (r: Self::Output) {
        TimeSpan::from_ticks(self.0 - rhs.0)
    }
}

impl<T: Tick> vstd::std_specs::ops::SubSpecImpl for TimeSpan<T> {
    open spec fn obeys_sub_spec() -> bool {
        true
    }

    open spec fn sub_req(self, rhs: Self) -> bool {
        fits_i64(self.0 - rhs.0)
    }

    open spec fn sub_spec(self, rhs: Self) -> Self {
        TimeSpan((self.0 - rhs.0) as i64, PhantomData)
    }
}

impl<T: Tick> core::ops::AddAssign for TimeSpan<T> {
    fn add_assign(&mut self, rhs: Self)
        requires
            fits_i64(old(self).0 + rhs.0),
        ensures
            final(self).0 == old(self).0 + rhs.0,
    {
        self.0 = self.0 + rhs.0;
    }
}

} // verus!

verus! {

impl<T: Tick> core::ops::SubAssign for TimeSpan<T> {
    fn sub_assign(&mut self, rhs: Self)
        requires
            fits_i64(old(self).0 - rhs.0),
        ensures
            final(self).0 == old(self).0 - rhs.0,
    {
        self.0 = self.0 - rhs.0;
    }
}

impl<T: Tick> PartialOrd for TimeSpan<T> {
    fn partial_cmp(&self, other: &Self) -> (r: Option<core::cmp::Ordering>) {
        if self.0 < other.0 {
            Some(core::cmp::Ordering::Less)
        } else if self.0 == other.0 {
            Some(core::cmp::Ordering::Equal)
        } else {
            Some(core::cmp::Ordering::Greater)
        }
    }
}

impl<T: Tick> vstd::std_specs::cmp::PartialOrdSpecImpl for TimeSpan<T> {
    open spec fn obeys_partial_cmp_spec() -> bool {
        true
    }

    open spec fn partial_cmp_spec(&self, other: &Self) -> Option<core::cmp::Ordering> {
        if self.0 < other.0 {
            Some(core::cmp::Ordering::Less)
        } else if self.0 == other.0 {
            Some(core::cmp::Ordering::Equal)
        } else {
            Some(core::cmp::Ordering::Greater)
        }
    }
}

} // verus!

verus! {

/// The parts of nonnegative ticks that lie below one unit of the next larger
/// component split exactly into their components.
proof fn lemma_rounded_millis<T: Tick>(millis: int)
    requires
        T::FREQ >= 1998,
        0 <= millis < 1000,
    ensures
        0 <= tdiv(millis * tps::<T>(), 1000) < tps::<T>(),
        tdiv(tdiv(millis * tps::<T>(), 1000) * 1000 + tps::<T>() / 2, tps::<T>()) == millis,
{
    let f = tps::<T>();
    let x = tdiv(millis * f, 1000);
    assert(millis * f >= 0) by (nonlinear_arith)
        requires
            millis >= 0,
            f >= 0,
    ;
    lemma_tdiv(millis * f, 1000);
    assert(millis * f <= 999 * f) by (nonlinear_arith)
        requires
            millis <= 999,
            f >= 0,
    ;
    assert(x * 1000 <= millis * f < x * 1000 + 1000);
    let n = x * 1000 + f / 2;
    let r = n - millis * f;
    assert(n == millis * f + r);
    assert(0 <= r < f);
    crate::arith::lemma_tdiv_unique(n, f, millis, r);
}

/// Splitting the ticks of nonnegative parts gives back those parts, for a
/// clock of at least 1998 ticks per second (so that rounding the truncated
/// milliseconds to the nearest millisecond restores them). Nonpositive parts
/// come back too when they have no milliseconds.
pub proof fn lemma_parts_round_trip<T: Tick>(p: TimeSpanParts)
    requires
        T::FREQ >= 1998,
        p.in_range(),
        p.fits::<T>(),
        (p.days >= 0 && p.hours >= 0 && p.mins >= 0 && p.secs >= 0 && p.millis >= 0) || (p.days
            <= 0 && p.hours <= 0 && p.mins <= 0 && p.secs <= 0 && p.millis == 0),
    ensures
        spec_parts::<T>(p.ticks::<T>()) == p,
{
    let f = tps::<T>();
    let t = p.ticks::<T>();
    let x = tdiv(p.millis * f, 1000);
    let r3 = p.secs * f + x;
    let r2 = p.mins * tpm::<T>() + r3;
    let r1 = p.hours * tph::<T>() + r2;
    if p.millis >= 0 && p.days >= 0 && p.hours >= 0 && p.mins >= 0 && p.secs >= 0 {
        lemma_rounded_millis::<T>(p.millis as int);
        lemma_mul_within(p.secs as int, 0, 59, f);
        lemma_mul_within(p.mins as int, 0, 59, tpm::<T>());
        lemma_mul_within(p.hours as int, 0, 23, tph::<T>());
        lemma_mul_within(p.days as int, 0, MAX_DAYS as int, tpd::<T>());
    } else {
        assert(x == 0);
        lemma_rounded_millis::<T>(0);
        lemma_mul_within(p.secs as int, -59, 0, f);
        lemma_mul_within(p.mins as int, -59, 0, tpm::<T>());
        lemma_mul_within(p.hours as int, -23, 0, tph::<T>());
        lemma_mul_within(p.days as int, MIN_DAYS as int, 0, tpd::<T>());
    }
    assert(t == p.days * tpd::<T>() + r1);
    crate::arith::lemma_tdiv_unique(t, tpd::<T>(), p.days as int, r1);
    crate::arith::lemma_tdiv_unique(r1, tph::<T>(), p.hours as int, r2);
    crate::arith::lemma_tdiv_unique(r2, tpm::<T>(), p.mins as int, r3);
    crate::arith::lemma_tdiv_unique(r3, f, p.secs as int, x);
}

/// The whole seconds of a span made from whole seconds are those seconds.
pub proof fn lemma_secs_round_trip<T: Tick>(secs: i32)
    requires
        T::FREQ > 0,
    ensures
        spec_as_secs::<T>(secs * tps::<T>()) == secs,
{
    let f = tps::<T>();
    assert(secs * f == secs * f + 0);
    if secs >= 0 {
        assert(secs * f >= 0) by (nonlinear_arith)
            requires
                secs >= 0,
                f >= 0,
        ;
    } else {
        assert(secs * f <= 0) by (nonlinear_arith)
            requires
                secs < 0,
                f >= 0,
        ;
    }
    crate::arith::lemma_tdiv_unique(secs * f, f, secs as int, 0);
}

/// The milliseconds of a span made from a nonnegative number of milliseconds
/// are those milliseconds, for a clock of at least 1998 ticks per second;
/// `as_millis` accepts every such span.
pub proof fn lemma_millis_round_trip<T: Tick>(millis: i64)
    requires
        T::FREQ >= 1998,
        0 <= millis <= MAX_MILLIS,
    ensures
        as_millis_fits::<T>(millis_to_ticks::<T>(millis as int)),
        spec_as_millis::<T>(millis_to_ticks::<T>(millis as int)) == millis,
{
    let f = tps::<T>();
    let secs = tdiv(millis as int, 1000);
    let sub = millis - secs * 1000;
    lemma_tdiv(millis as int, 1000);
    lemma_millis_to_ticks_bounds::<T>(millis as int);
    lemma_rounded_millis::<T>(sub);
    let x = tdiv(sub * f, 1000);
    let t = millis_to_ticks::<T>(millis as int);
    assert(t == secs * f + x);
    assert(secs * f >= 0) by (nonlinear_arith)
        requires
            secs >= 0,
            f >= 0,
    ;
    crate::arith::lemma_tdiv_unique(t, f, secs, x);
    assert(secs <= i32::MAX);
    assert(spec_as_secs::<T>(t) == secs);
    assert(sub_sec_ticks::<T>(t) == x);
    assert(x * 1000 <= 1000 * f) by (nonlinear_arith)
        requires
            x < f,
            x >= 0,
            f <= u32::MAX,
    ;
}

/// A quotient of `tdiv` by `b` stays strictly within `k` when the dividend
/// stays strictly within `k * b`.
proof fn lemma_tdiv_within(a: int, b: int, k: int)
    requires
        b > 0,
        k > 0,
        -(k * b) < a < k * b,
    ensures
        -k < tdiv(a, b) < k,
{
    lemma_tdiv(a, b);
    let q = tdiv(a, b);
    if q >= k {
        assert(q * b >= k * b) by (nonlinear_arith)
            requires
                q >= k,
                b > 0,
        ;
    }
    if q <= -k {
        assert(q * b <= -(k * b)) by (nonlinear_arith)
            requires
                q <= -k,
                b > 0,
        ;
    }
}

/// Splitting a duration into parts, for a day count that fits the `days`
/// field: every part has the duration's sign, each lies within its unit, and
/// the whole parts leave a remainder of less than a second, of the same sign,
/// that rounds to `millis` (half a millisecond and up rounds up).
pub proof fn lemma_parts_of_ticks<T: Tick>(t: i64)
    requires
        T::FREQ > 0,
        i16::MIN <= tdiv(t as int, tpd::<T>()) <= i16::MAX,
    ensures
        ({
            let p = spec_parts::<T>(t as int);
            let f = tps::<T>();
            let sub = t - (p.days * tpd::<T>() + p.hours * tph::<T>() + p.mins * tpm::<T>()
                + p.secs * f);
            &&& -24 < p.hours < 24
            &&& -60 < p.mins < 60
            &&& -60 < p.secs < 60
            &&& -1000 < p.millis <= 1000
            &&& t >= 0 ==> 0 <= p.days && 0 <= p.hours && 0 <= p.mins && 0 <= p.secs && 0
                <= p.millis && 0 <= sub < f
            &&& t <= 0 ==> p.days <= 0 && p.hours <= 0 && p.mins <= 0 && p.secs <= 0 && p.millis
                <= 0 && -f < sub <= 0
            &&& p.millis == tdiv(sub * 1000 + f / 2, f)
        }),
{
    let f = tps::<T>();
    let t = t as int;
    let d = tdiv(t, tpd::<T>());
    let r1 = trem(t, tpd::<T>());
    lemma_tdiv(t, tpd::<T>());
    let h = tdiv(r1, tph::<T>());
    let r2 = trem(r1, tph::<T>());
    lemma_tdiv(r1, tph::<T>());
    lemma_tdiv_within(r1, tph::<T>(), 24);
    let m = tdiv(r2, tpm::<T>());
    let r3 = trem(r2, tpm::<T>());
    lemma_tdiv(r2, tpm::<T>());
    lemma_tdiv_within(r2, tpm::<T>(), 60);
    let s = tdiv(r3, f);
    let r4 = trem(r3, f);
    lemma_tdiv(r3, f);
    lemma_tdiv_within(r3, f, 60);
    let num = r4 * 1000 + f / 2;
    let ms = tdiv(num, f);
    lemma_tdiv(num, f);
    lemma_tdiv_within(num, f, 1001);
    if num >= 0 && t <= 0 {
        lemma_tdiv_within(num, f, 1);
    }
    if t <= 0 && num < 0 {
        assert(ms > -1000) by {
            lemma_tdiv_within(-num, f, 1000);
            assert(tdiv(num, f) == -tdiv(-num, f));
        }
    }
    let p = spec_parts::<T>(t);
    assert(p.days == d && p.hours == h && p.mins == m && p.secs == s && p.millis == ms);
    assert(t - (d * tpd::<T>() + h * tph::<T>() + m * tpm::<T>() + s * f) == r4);
}

/// How far `as_micros` is from the exact microseconds, scaled by the
/// frequency: the error of flooring to milliseconds and back to ticks, plus
/// that of the final rounding.
proof fn lemma_as_micros_error<T: Tick>(t: int)
    requires
        T::FREQ > 0,
        i32::MIN <= tdiv(t, tps::<T>()) <= i32::MAX,
    ensures
        ({
            let f = tps::<T>();
            let m = micros_floor_millis::<T>(t);
            let x = sub_milli_ticks::<T>(t) * 1000000 + f / 2;
            &&& spec_as_micros::<T>(t) * f - t * 1000000 == 1000 * trem(m * f, 1000) + f / 2
                - trem(x, f)
            &&& t >= 0 ==> 0 <= trem(m * f, 1000) && 0 <= trem(x, f)
            &&& t <= 0 ==> trem(m * f, 1000) <= 0
            &&& -1000 < trem(m * f, 1000) < 1000
            &&& -f < trem(x, f) < f
        }),
{
    let f = tps::<T>();
    let secs = tdiv(t, f);
    assert(spec_as_secs::<T>(t) == secs);
    let sub = t - secs * f;
    lemma_tdiv(t, f);
    let a = tdiv(sub * 1000, f);
    let ra = trem(sub * 1000, f);
    lemma_tdiv(sub * 1000, f);
    let m = secs * 1000 + a;
    assert(m == micros_floor_millis::<T>(t));
    assert(m * f == secs * 1000 * f + a * f) by (nonlinear_arith)
        requires
            m == secs * 1000 + a,
    ;
    assert(secs * 1000 * f == 1000 * (secs * f)) by (nonlinear_arith);
    assert(m * f == 1000 * t - ra);
    let q = tdiv(m * f, 1000);
    let d = trem(m * f, 1000);
    lemma_tdiv(m * f, 1000);
    let sm = t - q;
    assert(sm == sub_milli_ticks::<T>(t));
    assert(1000 * sm == ra + d);
    let x = sm * 1000000 + f / 2;
    let y = tdiv(x, f);
    let ry = trem(x, f);
    lemma_tdiv(x, f);
    assert(spec_as_micros::<T>(t) == m * 1000 + y);
    assert((m * 1000 + y) * f == 1000 * (m * f) + y * f) by (nonlinear_arith);
    assert(sm * 1000000 == 1000 * (1000 * sm)) by (nonlinear_arith);
    if t >= 0 {
        assert(secs >= 0 && sub >= 0 && ra >= 0 && a >= 0);
        assert(m >= 0);
        assert(m * f >= 0) by (nonlinear_arith)
            requires
                m >= 0,
                f > 0,
        ;
    }
    if t <= 0 {
        assert(secs <= 0 && sub <= 0 && a <= 0);
        assert(m <= 0);
        assert(m * f <= 0) by (nonlinear_arith)
            requires
                m <= 0,
                f > 0,
        ;
    }
}

/// `as_micros` is within about a microsecond per tick of the exact value
/// `t * 1_000_000 / FREQ`: scaled by the frequency, its error lies between
/// `-FREQ` and `1_000_000 + FREQ` for a nonnegative span, and between
/// `-(1_000_000 + FREQ)` and `2 * FREQ` for a nonpositive one.
pub proof fn lemma_as_micros_close<T: Tick>(t: i64)
    requires
        T::FREQ > 0,
        i32::MIN <= tdiv(t as int, tps::<T>()) <= i32::MAX,
    ensures
        t >= 0 ==> -tps::<T>() < spec_as_micros::<T>(t as int) * tps::<T>() - t * 1000000
            <= 1000000 + tps::<T>(),
        t <= 0 ==> -(1000000 + tps::<T>()) < spec_as_micros::<T>(t as int) * tps::<T>() - t
            * 1000000 < 2 * tps::<T>(),
{
    lemma_as_micros_error::<T>(t as int);
}

/// A span of whole seconds is that many million microseconds.
pub proof fn lemma_as_micros_whole_secs<T: Tick>(secs: i32)
    requires
        T::FREQ > 0,
    ensures
        spec_as_micros::<T>(secs * tps::<T>()) == secs * 1000000,
{
    let f = tps::<T>();
    let t = secs * f;
    crate::arith::lemma_tdiv_unique(t, f, secs as int, 0);
    lemma_as_micros_error::<T>(t);
    let m = micros_floor_millis::<T>(t);
    assert(sub_sec_ticks::<T>(t) == 0);
    crate::arith::lemma_tdiv_unique(0, f, 0, 0);
    assert(m == secs * 1000);
    assert(m * f == 1000 * t) by (nonlinear_arith)
        requires
            m == secs * 1000,
            t == secs * f,
    ;
    crate::arith::lemma_tdiv_unique(m * f, 1000, t, 0);
    assert(sub_milli_ticks::<T>(t) == 0);
    crate::arith::lemma_tdiv_unique(f / 2, f, 0, f / 2);
    let u = spec_as_micros::<T>(t);
    assert(u * f == t * 1000000);
    assert(u * f == (secs * 1000000) * f) by (nonlinear_arith)
        requires
            u * f == t * 1000000,
            t == secs * f,
    ;
    vstd::arithmetic::mul::lemma_mul_equality_converse(f, u, secs * 1000000);
}

/// Spans are ordered by their ticks: `partial_cmp` (and so `<`, `<=`, `>`,
/// `>=`) says `Less` exactly when the first has fewer ticks, `Equal` exactly
/// when both have as many, and `Greater` exactly when the first has more;
/// swapping the two reverses the answer.
pub proof fn lemma_timespan_order<T: Tick>(a: TimeSpan<T>, b: TimeSpan<T>)
    ensures
        (vstd::std_specs::cmp::PartialOrdSpec::partial_cmp_spec(&a, &b) == Some(
            core::cmp::Ordering::Less,
        )) == (a.0 < b.0),
        (vstd::std_specs::cmp::PartialOrdSpec::partial_cmp_spec(&a, &b) == Some(
            core::cmp::Ordering::Equal,
        )) == (a.0 == b.0),
        (vstd::std_specs::cmp::PartialOrdSpec::partial_cmp_spec(&a, &b) == Some(
            core::cmp::Ordering::Greater,
        )) == (a.0 > b.0),
        (vstd::std_specs::cmp::PartialOrdSpec::partial_cmp_spec(&a, &b) == Some(
            core::cmp::Ordering::Less,
        )) == (vstd::std_specs::cmp::PartialOrdSpec::partial_cmp_spec(&b, &a) == Some(
            core::cmp::Ordering::Greater,
        )),
{
}

} // verus!
