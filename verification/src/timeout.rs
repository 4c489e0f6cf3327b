use vstd::prelude::*;

use core::marker::PhantomData;

use crate::adapters::tick::Tick;
use crate::timespan::TimeSpan;

verus! {

/// Timeouts of the clock `T`, where one span stands for "never".
pub struct Timeout<T: Tick>(pub PhantomData<T>);

impl<T: Tick> Timeout<T> {
    /// The span that stands for a timeout that never expires.
    pub fn infinite() -> (r: TimeSpan<T>)
        ensures
            r.0 == -1,
    {
        TimeSpan::from_ticks(-1)
    }

    /// Whether `timespan` stands for a timeout that never expires.
    pub fn is_infinite(timespan: &TimeSpan<T>) -> (r: bool)
        ensures
            r == (timespan.0 == -1),
    {
        timespan.0 == -1
    }
}

} // verus!
