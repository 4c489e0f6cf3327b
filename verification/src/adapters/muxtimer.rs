use vstd::prelude::*;

verus! {

/// MuxAlarm stop handler.
pub trait TimerStop: Send {
    /// Stops the timer.
    fn stop(&mut self);
}

} // verus!
