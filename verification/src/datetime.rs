use vstd::prelude::*;

use crate::adapters::tick::Tick;
use crate::timespan::{spec_as_secs, TimeSpan};

verus! {

/// A point in time, counted in seconds since 1970-01-01T00:00:00.
#[derive(Clone, Copy, PartialEq, Eq, Structural, Debug)]
pub struct DateTime(pub u32);

/// A date and time split into calendar components.
pub struct DateTimeParts {
    pub year: u16,
    pub month: Month,
    pub day: u8,
    pub hour: u8,
    pub minute: u8,
    pub second: u8,
}

/// A month of the year.
#[derive(Copy, Clone, Debug, PartialEq, Eq, Structural)]
pub enum Month {
    January,
    February,
    March,
    April,
    May,
    June,
    July,
    August,
    September,
    October,
    November,
    December,
}

/// The year in which the seconds of a `DateTime` start.
pub const EPOCH_YEAR: u16 = 1970;
/// Seconds per minute.
pub const SECONDS_PER_MINUTE: u32 = 60;
/// Seconds per hour.
pub const SECONDS_PER_HOUR: u32 = 3600;
/// Seconds per day.
pub const SECONDS_PER_DAY: u32 = 86400;

impl Month {
    /// The number of the month, January being 1.
    pub open spec fn spec_number(self) -> int {
        match self {
            Month::January => 1,
            Month::February => 2,
            Month::March => 3,
            Month::April => 4,
            Month::May => 5,
            Month::June => 6,
            Month::July => 7,
            Month::August => 8,
            Month::September => 9,
            Month::October => 10,
            Month::November => 11,
            Month::December => 12,
        }
    }

    /// The number of the month, January being 1.
    pub fn number(self) -> (r: u8)
        ensures
            r == self.spec_number(),
            1 <= r <= 12,
    {
        match self {
            Month::January => 1,
            Month::February => 2,
            Month::March => 3,
            Month::April => 4,
            Month::May => 5,
            Month::June => 6,
            Month::July => 7,
            Month::August => 8,
            Month::September => 9,
            Month::October => 10,
            Month::November => 11,
            Month::December => 12,
        }
    }

    /// The month with the number `num`, January being 1.
    pub fn from_number(num: u8) -> (m: Month)
        requires
            1 <= num <= 12,
        ensures
            m.spec_number() == num,
    {
        match num {
            1 => Month::January,
            2 => Month::February,
            3 => Month::March,
            4 => Month::April,
            5 => Month::May,
            6 => Month::June,
            7 => Month::July,
            8 => Month::August,
            9 => Month::September,
            10 => Month::October,
            11 => Month::November,
            _ => Month::December,
        }
    }
}

/// Gregorian leap years: divisible by 4, and not by 100 unless by 400.
pub open spec fn is_leap(year: int) -> bool {
    year % 4 == 0 && (year % 100 != 0 || year % 400 == 0)
}

/// The number of days of a year.
pub open spec fn year_days(year: int) -> int {
    if is_leap(year) {
        366
    } else {
        365
    }
}

/// The number of days of month `month` (1 to 12) of a year.
pub open spec fn month_days(year: int, month: int) -> int {
    if month == 2 {
        if is_leap(year) {
            29
        } else {
            28
        }
    } else if month == 4 || month == 6 || month == 9 || month == 11 {
        30
    } else {
        31
    }
}

/// The days from the start of 1970 to the start of `year` (none for years
/// before 1970).
pub open spec fn days_before_year(year: int) -> int
    decreases year - 1970,
{
    if year <= 1970 {
        0
    } else {
        days_before_year(year - 1) + year_days(year - 1)
    }
}

/// The days from the start of `year` to the start of month `month`.
pub open spec fn days_before_month(year: int, month: int) -> int
    decreases month,
{
    if month <= 1 {
        0
    } else {
        days_before_month(year, month - 1) + month_days(year, month - 1)
    }
}

/// The seconds since 1970 of a date and time, counting the days of the month
/// from 1.
pub open spec fn date_seconds(
    year: int,
    month: int,
    day: int,
    hour: int,
    minute: int,
    second: int,
) -> int {
    (days_before_year(year) + days_before_month(year, month) + day - 1) * 86400 + hour * 3600
        + minute * 60 + second
}

impl DateTimeParts {
    /// The seconds since 1970 that the parts stand for.
    pub open spec fn seconds(self) -> int {
        date_seconds(
            self.year as int,
            self.month.spec_number(),
            self.day as int,
            self.hour as int,
            self.minute as int,
            self.second as int,
        )
    }

    /// A calendar date from 1970 on, with a time of day.
    pub open spec fn valid(self) -> bool {
        &&& EPOCH_YEAR <= self.year
        &&& 1 <= self.day <= month_days(self.year as int, self.month.spec_number())
        &&& self.hour < 24
        &&& self.minute < 60
        &&& self.second < 60
    }
}

/// Whether `year` is a leap year.
pub fn is_leap_year(year: u16) -> (r: bool)
    ensures
        r == is_leap(year as int),
{
    if year % 4 > 0 {
        false
    } else if year % 100 > 0 {
        true
    } else if year % 400 > 0 {
        false
    } else {
        true
    }
}

/// The number of days of `year`.
pub fn days_in_year(year: u16) -> (r: u16)
    ensures
        r == year_days(year as int),
{
    if is_leap_year(year) {
        366
    } else {
        365
    }
}

/// The number of days of `month` in `year`.
pub fn days_in_month(year: u16, month: Month) -> (r: u8)
    ensures
        r == month_days(year as int, month.spec_number()),
{
    if is_leap_year(year) && month == Month::February {
        29
    } else {
        match month {
            Month::February => 28,
            Month::April => 30,
            Month::June => 30,
            Month::September => 30,
            Month::November => 30,
            _ => 31,
        }
    }
}

} // verus!

verus! {

proof fn lemma_year_days_bounds(year: int)
    ensures
        365 <= year_days(year) <= 366,
{
}

proof fn lemma_month_days_bounds(year: int, month: int)
    ensures
        28 <= month_days(year, month) <= 31,
{
}

/// The days before a later year grow by 365 or 366 a year.
proof fn lemma_days_before_year_mono(a: int, b: int)
    requires
        1970 <= a <= b,
    ensures
        days_before_year(a) + 365 * (b - a) <= days_before_year(b),
        days_before_year(b) <= days_before_year(a) + 366 * (b - a),
    decreases b - a,
{
    if a < b {
        lemma_days_before_year_mono(a, b - 1);
        lemma_year_days_bounds(b - 1);
    }
}

/// The days before a later month of the same year grow by 28 to 31 a month.
proof fn lemma_days_before_month_mono(year: int, a: int, b: int)
    requires
        1 <= a <= b,
    ensures
        days_before_month(year, a) + 28 * (b - a) <= days_before_month(year, b),
        days_before_month(year, b) <= days_before_month(year, a) + 31 * (b - a),
    decreases b - a,
{
    if a < b {
        lemma_days_before_month_mono(year, a, b - 1);
        lemma_month_days_bounds(year, b - 1);
    }
}

/// The twelve months make up the year.
proof fn lemma_months_make_year(year: int)
    ensures
        days_before_month(year, 12) + month_days(year, 12) == year_days(year),
        days_before_month(year, 1) == 0,
{
    reveal_with_fuel(days_before_month, 13);
}

proof fn lemma_days_before_month_nonneg(year: int, month: int)
    ensures
        days_before_month(year, month) >= 0,
{
    if month >= 1 {
        lemma_days_before_month_mono(year, 1, month);
    }
}

proof fn lemma_days_before_year_nonneg(year: int)
    ensures
        days_before_year(year) >= 0,
{
    if year >= 1970 {
        lemma_days_before_year_mono(1970, year);
    }
}

impl DateTime {
    /// The start of 1970.
    pub fn epoch() -> (r: DateTime)
        ensures
            r.0 == 0,
    {
        DateTime::from_unixtimestamp(0)
    }

    /// Create a new `DateTime`.
    pub fn new(year: u16, month: Month, day: u8, hour: u8, minute: u8, second: u8) -> (r: Self)
        requires
            day >= 1,
            date_seconds(
                year as int,
                month.spec_number(),
                day as int,
                hour as int,
                minute as int,
                second as int,
            ) <= u32::MAX,
        ensures
            r.0 == date_seconds(
                year as int,
                month.spec_number(),
                day as int,
                hour as int,
                minute as int,
                second as int,
            ),
    {
        let ghost total_days = days_before_year(year as int) + days_before_month(
            year as int,
            month.spec_number(),
        ) + day - 1;
        proof {
            lemma_days_before_month_nonneg(year as int, month.spec_number());
            lemma_days_before_year_nonneg(year as int);
            assert(total_days * 86400 <= u32::MAX);
            assert(total_days <= 49710);
        }
        let mut days: u16 = day as u16 - 1;

        let mut y: u16 = EPOCH_YEAR;
        while y < year
            invariant
                EPOCH_YEAR <= y,
                EPOCH_YEAR <= year ==> y <= year,
                year < EPOCH_YEAR ==> y == EPOCH_YEAR,
                days == day - 1 + days_before_year(y as int),
                total_days <= 49710,
                total_days == days_before_year(year as int) + days_before_month(
                    year as int,
                    month.spec_number(),
                ) + day - 1,
                days_before_month(year as int, month.spec_number()) >= 0,
            decreases year - y,
        {
            proof {
                lemma_days_before_year_mono((y + 1) as int, year as int);
            }
            days = days + days_in_year(y);
            y = y + 1;
        }
        proof {
            if year < EPOCH_YEAR {
                assert(days_before_year(year as int) == 0);
                assert(days_before_year(y as int) == 0);
            } else {
                assert(y == year);
            }
            assert(days == day - 1 + days_before_year(year as int));
            assert(days_before_month(year as int, 1) == 0);
        }

        let month_num: u8 = month.number();
        let mut m: u8 = 1;
        while m < month_num
            invariant
                1 <= m <= month_num,
                month_num == month.spec_number(),
                days == day - 1 + days_before_year(year as int) + days_before_month(
                    year as int,
                    m as int,
                ),
                total_days <= 49710,
                total_days == days_before_year(year as int) + days_before_month(
                    year as int,
                    month.spec_number(),
                ) + day - 1,
            decreases month_num - m,
        {
            proof {
                lemma_days_before_month_mono(year as int, (m + 1) as int, month_num as int);
            }
            days = days + days_in_month(year, Month::from_number(m)) as u16;
            m = m + 1;
        }

        let seconds: u32 = days as u32 * SECONDS_PER_DAY + hour as u32 * SECONDS_PER_HOUR
            + minute as u32 * SECONDS_PER_MINUTE + second as u32;
        DateTime(seconds)
    }

    /// A `DateTime` from the seconds since 1970.
    pub fn from_unixtimestamp(timestamp: u32) -> (r: Self)
        ensures
            r.0 == timestamp,
    {
        DateTime(timestamp)
    }

    /// Get the date part without the time component.
    pub fn date(&self) -> (r: Self)
        ensures
            r.0 == (self.0 / 86400) * 86400,
    {
        DateTime((self.0 / SECONDS_PER_DAY) * SECONDS_PER_DAY)
    }

    /// Get the different date and time parts.
    pub fn parts(&self) -> (p: DateTimeParts)
        ensures
            p.valid(),
            p.seconds() == self.0,
    {
        let mut year: u16 = EPOCH_YEAR;
        let mut seconds: u32 = self.0;
        while days_in_year(year) as u32 * SECONDS_PER_DAY <= seconds
            invariant
                EPOCH_YEAR <= year <= 2106,
                self.0 == days_before_year(year as int) * 86400 + seconds,
            decreases seconds,
        {
            proof {
                lemma_days_before_year_mono(EPOCH_YEAR as int, (year + 1) as int);
                lemma_year_days_bounds(year as int);
            }
            seconds = seconds - days_in_year(year) as u32 * SECONDS_PER_DAY;
            year = year + 1;
        }

        let mut month: u8 = 1;
        proof {
            lemma_months_make_year(year as int);
        }
        while days_in_month(year, Month::from_number(month)) as u32 * SECONDS_PER_DAY <= seconds
            invariant
                1 <= month <= 12,
                EPOCH_YEAR <= year <= 2106,
                self.0 == (days_before_year(year as int) + days_before_month(
                    year as int,
                    month as int,
                )) * 86400 + seconds,
                seconds < (year_days(year as int) - days_before_month(year as int, month as int))
                    * 86400,
                days_before_month(year as int, 12) + month_days(year as int, 12) == year_days(
                    year as int,
                ),
            decreases 12 - month,
        {
            proof {
                if month == 12 {
                    assert(false);
                }
            }
            seconds = seconds - days_in_month(year, Month::from_number(month)) as u32
                * SECONDS_PER_DAY;
            month = month + 1;
        }

        let mut day: u8 = 1;
        proof {
            lemma_month_days_bounds(year as int, month as int);
        }
        while SECONDS_PER_DAY <= seconds
            invariant
                1 <= day <= month_days(year as int, month as int),
                1 <= month <= 12,
                EPOCH_YEAR <= year <= 2106,
                self.0 == (days_before_year(year as int) + days_before_month(
                    year as int,
                    month as int,
                ) + day - 1) * 86400 + seconds,
                seconds < (month_days(year as int, month as int) - (day - 1)) * 86400,
                month_days(year as int, month as int) <= 31,
            decreases seconds,
        {
            seconds = seconds - SECONDS_PER_DAY;
            day = day + 1;
        }

        let ghost time_of_day = seconds;
        let mut hour: u8 = 0;
        while SECONDS_PER_HOUR <= seconds
            invariant
                seconds + hour * 3600 == time_of_day,
                time_of_day < 86400,
            decreases seconds,
        {
            seconds = seconds - SECONDS_PER_HOUR;
            hour = hour + 1;
        }

        let ghost time_of_hour = seconds;
        let mut minute: u8 = 0;
        while SECONDS_PER_MINUTE <= seconds
            invariant
                seconds + minute * 60 == time_of_hour,
                time_of_hour < 3600,
            decreases seconds,
        {
            seconds = seconds - SECONDS_PER_MINUTE;
            minute = minute + 1;
        }

        DateTimeParts {
            year,
            month: Month::from_number(month),
            day,
            hour,
            minute,
            second: seconds as u8,
        }
    }
}

} // verus!

verus! {

/// The day of a valid date falls within its month and its year.
proof fn lemma_day_within_year(p: DateTimeParts)
    requires
        p.valid(),
    ensures
        days_before_month(p.year as int, p.month.spec_number()) <= days_before_month(
            p.year as int,
            p.month.spec_number(),
        ) + p.day - 1,
        days_before_month(p.year as int, p.month.spec_number()) + p.day - 1 < days_before_month(
            p.year as int,
            p.month.spec_number() + 1,
        ),
        days_before_month(p.year as int, p.month.spec_number()) + p.day - 1 < year_days(
            p.year as int,
        ),
{
    let y = p.year as int;
    let m = p.month.spec_number();
    lemma_months_make_year(y);
    lemma_days_before_month_mono(y, m, 12);
    assert(days_before_month(y, m + 1) == days_before_month(y, m) + month_days(y, m));
    if m < 12 {
        lemma_days_before_month_mono(y, m + 1, 12);
    }
}

/// A month is given by its number: `Month::from_number(m.number())` is `m`.
pub proof fn lemma_month_number_injective(a: Month, b: Month)
    requires
        a.spec_number() == b.spec_number(),
    ensures
        a == b,
{
}

/// Two valid dates and times with the same seconds since 1970 are the same:
/// so `DateTime::parts` gives back the parts that `DateTime::new` was given.
pub proof fn lemma_parts_of_new(p: DateTimeParts, q: DateTimeParts)
    requires
        p.valid(),
        q.valid(),
        p.seconds() == q.seconds(),
    ensures
        q == p,
{
    let dp = days_before_year(p.year as int) + days_before_month(
        p.year as int,
        p.month.spec_number(),
    ) + p.day - 1;
    let dq = days_before_year(q.year as int) + days_before_month(
        q.year as int,
        q.month.spec_number(),
    ) + q.day - 1;
    let tp = p.hour * 3600 + p.minute * 60 + p.second;
    let tq = q.hour * 3600 + q.minute * 60 + q.second;
    vstd::arithmetic::div_mod::lemma_fundamental_div_mod_converse(p.seconds(), 86400, dp, tp);
    vstd::arithmetic::div_mod::lemma_fundamental_div_mod_converse(q.seconds(), 86400, dq, tq);
    assert(dp == dq);
    assert(tp == tq);
    vstd::arithmetic::div_mod::lemma_fundamental_div_mod_converse(
        tp,
        3600,
        p.hour as int,
        p.minute * 60 + p.second,
    );
    vstd::arithmetic::div_mod::lemma_fundamental_div_mod_converse(
        tq,
        3600,
        q.hour as int,
        q.minute * 60 + q.second,
    );
    vstd::arithmetic::div_mod::lemma_fundamental_div_mod_converse(
        p.minute * 60 + p.second,
        60,
        p.minute as int,
        p.second as int,
    );
    vstd::arithmetic::div_mod::lemma_fundamental_div_mod_converse(
        q.minute * 60 + q.second,
        60,
        q.minute as int,
        q.second as int,
    );

    lemma_day_within_year(p);
    lemma_day_within_year(q);
    lemma_days_before_month_nonneg(p.year as int, p.month.spec_number());
    lemma_days_before_month_nonneg(q.year as int, q.month.spec_number());
    if p.year < q.year {
        lemma_days_before_year_mono((p.year + 1) as int, q.year as int);
        assert(false);
    }
    if q.year < p.year {
        lemma_days_before_year_mono((q.year + 1) as int, p.year as int);
        assert(false);
    }
    let y = p.year as int;
    let mp = p.month.spec_number();
    let mq = q.month.spec_number();
    if mp < mq {
        lemma_days_before_month_mono(y, mp + 1, mq);
        assert(false);
    }
    if mq < mp {
        lemma_days_before_month_mono(y, mq + 1, mp);
        assert(false);
    }
    lemma_month_number_injective(p.month, q.month);
}

/// The parts of any `DateTime` are accepted by `DateTime::new`, which makes
/// the same `DateTime` of them.
pub proof fn lemma_new_of_parts(x: u32, p: DateTimeParts)
    requires
        p.valid(),
        p.seconds() == x,
    ensures
        p.day >= 1,
        date_seconds(
            p.year as int,
            p.month.spec_number(),
            p.day as int,
            p.hour as int,
            p.minute as int,
            p.second as int,
        ) == x,
{
}

} // verus!

verus! {

impl<T: Tick> core::ops::Add<TimeSpan<T>> for DateTime {
    type Output = DateTime;

    /// Moves the time forward by the whole seconds of `rhs`.
    fn add(self, rhs: TimeSpan<T>) -> (r: Self::Output) {
        let secs: i64 = rhs.as_secs() as i64;
        DateTime((self.0 as i64 + secs) as u32)
    }
}

impl<T: Tick> vstd::std_specs::ops::AddSpecImpl<TimeSpan<T>> for DateTime {
    open spec fn obeys_add_spec() -> bool {
        true
    }

    open spec fn add_req(self, rhs: TimeSpan<T>) -> bool {
        &&& T::FREQ > 0
        &&& 0 <= self.0 + spec_as_secs::<T>(rhs.0 as int) <= u32::MAX
    }

    open spec fn add_spec(self, rhs: TimeSpan<T>) -> DateTime {
        DateTime((self.0 + spec_as_secs::<T>(rhs.0 as int)) as u32)
    }
}

impl<T: Tick> core::ops::Sub<TimeSpan<T>> for DateTime {
    type Output = DateTime;

    /// Moves the time back by the whole seconds of `rhs`.
    fn sub(self, rhs: TimeSpan<T>) -> (r: Self::Output) {
        let secs: i64 = rhs.as_secs() as i64;
        DateTime((self.0 as i64 - secs) as u32)
    }
}

impl<T: Tick> vstd::std_specs::ops::SubSpecImpl<TimeSpan<T>> for DateTime {
    open spec fn obeys_sub_spec() -> bool {
        true
    }

    open spec fn sub_req(self, rhs: TimeSpan<T>) -> bool {
        &&& T::FREQ > 0
        &&& 0 <= self.0 - spec_as_secs::<T>(rhs.0 as int) <= u32::MAX
    }

    open spec fn sub_spec(self, rhs: TimeSpan<T>) -> DateTime {
        DateTime((self.0 - spec_as_secs::<T>(rhs.0 as int)) as u32)
    }
}

} // verus!

verus! {

/// The date of a `DateTime` is the same calendar day at midnight: the
/// seconds that `DateTime::date` keeps are those of the day of its parts,
/// with no time of day.
pub proof fn lemma_date_is_midnight(x: u32, p: DateTimeParts)
    requires
        p.valid(),
        p.seconds() == x,
    ensures
        date_seconds(p.year as int, p.month.spec_number(), p.day as int, 0, 0, 0) == (x / 86400)
            * 86400,
{
    let d = days_before_year(p.year as int) + days_before_month(
        p.year as int,
        p.month.spec_number(),
    ) + p.day - 1;
    let t = p.hour * 3600 + p.minute * 60 + p.second;
    vstd::arithmetic::div_mod::lemma_fundamental_div_mod_converse(x as int, 86400, d, t);
}

/// The Gregorian month lengths: thirty days have September, April, June and
/// November; February has 29 in years divisible by 4 but not by 100 unless by
/// 400, and 28 otherwise; every other month has 31. The months make up a year
/// of 365 or 366 days.
pub proof fn lemma_gregorian_month_lengths(year: int)
    ensures
        month_days(year, Month::January.spec_number()) == 31,
        month_days(year, Month::February.spec_number()) == (if year % 4 == 0 && (year % 100 != 0
            || year % 400 == 0) {
            29int
        } else {
            28int
        }),
        month_days(year, Month::March.spec_number()) == 31,
        month_days(year, Month::April.spec_number()) == 30,
        month_days(year, Month::May.spec_number()) == 31,
        month_days(year, Month::June.spec_number()) == 30,
        month_days(year, Month::July.spec_number()) == 31,
        month_days(year, Month::August.spec_number()) == 31,
        month_days(year, Month::September.spec_number()) == 30,
        month_days(year, Month::October.spec_number()) == 31,
        month_days(year, Month::November.spec_number()) == 30,
        month_days(year, Month::December.spec_number()) == 31,
        days_before_month(year, 12) + month_days(year, 12) == year_days(year),
        year_days(year) == (if year % 4 == 0 && (year % 100 != 0 || year % 400 == 0) {
            366int
        } else {
            365int
        }),
{
    reveal_with_fuel(days_before_month, 13);
}

} // verus!
