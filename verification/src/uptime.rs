use vstd::prelude::*;

use crate::adapters::tick::Tick;
use crate::timespan::TimeSpan;

verus! {

/// A source of uptime.
pub trait Uptime<T: Tick>: Sync {
    /// Sample the uptime counter, returning the non-wrapping time since the uptime was started.
    fn now(&self) -> TimeSpan<T>;
}

} // verus!
