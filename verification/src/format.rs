use vstd::prelude::*;

use crate::adapters::tick::Tick;
use crate::datetime::DateTimeParts;
use crate::timespan::{spec_parts, TimeSpan};

verus! {

/// The decimal digit `d` (0 to 9).
pub open spec fn digit_char(d: int) -> char {
    (48 + d) as char
}

/// The decimal digits of `n`, most significant first, without leading zeros.
pub open spec fn decimal(n: nat) -> Seq<char>
    decreases n,
{
    if n < 10 {
        seq![digit_char(n as int)]
    } else {
        decimal(n / 10).push(digit_char((n % 10) as int))
    }
}

/// `s` with zeros in front, to at least `width` characters.
pub open spec fn zero_pad(s: Seq<char>, width: int) -> Seq<char> {
    if s.len() >= width {
        s
    } else {
        Seq::new((width - s.len()) as nat, |i: int| '0') + s
    }
}

/// An integer as `{:0width$}` writes it: the minus sign of a negative
/// number first, then the digits padded with zeros so that the whole is at
/// least `width` characters.
pub open spec fn int_text(n: int, width: int) -> Seq<char> {
    if n >= 0 {
        zero_pad(decimal(n as nat), width)
    } else {
        seq!['-'] + zero_pad(decimal((-n) as nat), width - 1)
    }
}

/// The text of a duration: `{days}d{hours:02}:{mins:02}:{secs:02}.{millis:03}`.
pub open spec fn timespan_text(days: int, hours: int, mins: int, secs: int, millis: int) -> Seq<
    char,
> {
    int_text(days, 0) + seq!['d'] + int_text(hours, 2) + seq![':'] + int_text(mins, 2) + seq![':']
        + int_text(secs, 2) + seq!['.'] + int_text(millis, 3)
}

/// The text of a date and time:
/// `{year}-{month:02}-{day:02}T{hour:02}:{minute:02}:{second:02}`.
pub open spec fn datetime_text(
    year: int,
    month: int,
    day: int,
    hour: int,
    minute: int,
    second: int,
) -> Seq<char> {
    int_text(year, 0) + seq!['-'] + int_text(month, 2) + seq!['-'] + int_text(day, 2) + seq!['T']
        + int_text(hour, 2) + seq![':'] + int_text(minute, 2) + seq![':'] + int_text(second, 2)
}

/// `format!` of the duration components, as the standard library documents
/// it: integers in decimal, `{:0N}` padding with zeros after the sign to `N`
/// characters.
#[verifier::external_body]
fn format_timespan(days: i16, hours: i8, mins: i8, secs: i8, millis: i16) -> (r: String)
    ensures
        r@ == timespan_text(days as int, hours as int, mins as int, secs as int, millis as int),
{
    format!("{}d{:02}:{:02}:{:02}.{:03}", days, hours, mins, secs, millis)
}

/// `format!` of the date and time components, as the standard library
/// documents it: integers in decimal, `{:02}` padding with zeros to two
/// digits.
#[verifier::external_body]
fn format_datetime(year: u16, month: u8, day: u8, hour: u8, minute: u8, second: u8) -> (r: String)
    ensures
        r@ == datetime_text(
            year as int,
            month as int,
            day as int,
            hour as int,
            minute as int,
            second as int,
        ),
{
    format!("{}-{:02}-{:02}T{:02}:{:02}:{:02}", year, month, day, hour, minute, second)
}

impl<T: Tick> TimeSpan<T> {
    /// The duration as `1d02:03:04.005`: days, then hours, minutes, seconds
    /// and milliseconds.
    pub fn debug_string(&self) -> (r: String)
        requires
            T::FREQ > 0,
        ensures
            ({
                let p = spec_parts::<T>(self.0 as int);
                r@ == timespan_text(
                    p.days as int,
                    p.hours as int,
                    p.mins as int,
                    p.secs as int,
                    p.millis as int,
                )
            }),
    {
        let p = self.parts();
        format_timespan(p.days, p.hours, p.mins, p.secs, p.millis)
    }
}

impl DateTimeParts {
    /// The date and time as `1985-08-28T01:02:03`.
    pub fn debug_string(&self) -> (r: String)
        ensures
            r@ == datetime_text(
                self.year as int,
                self.month.spec_number(),
                self.day as int,
                self.hour as int,
                self.minute as int,
                self.second as int,
            ),
    {
        format_datetime(self.year, self.month.number(), self.day, self.hour, self.minute, self.second)
    }
}

} // verus!
