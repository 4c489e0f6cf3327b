use vstd::prelude::*;

use std::sync::Arc;

use crate::arith::fits_i64;
use crate::datetime::DateTime;
use crate::adapters::tick::Tick;
use crate::timespan::{spec_as_secs, TimeSpan};
use crate::uptime::Uptime;

verus! {

/// The wall-clock time `datetime` that was current at the uptime `upstamp`.
struct Adjust<T: Tick> {
    datetime: DateTime,
    upstamp: TimeSpan<T>,
}

/// The watch was asked for the time before it was set.
#[derive(Debug)]
pub struct NotSetError;

/// A wall clock that follows an uptime counter once it has been set.
pub struct Watch<U: Uptime<T>, T: Tick> {
    uptime: Arc<U>,
    adjust: Option<Adjust<T>>,
}

/// The seconds since 1970 at uptime `upstamp` of a watch set to `datetime`
/// seconds at uptime `set_upstamp`: the set time moved by the whole seconds
/// between the two uptimes.
pub open spec fn watch_seconds<T: Tick>(datetime: u32, set_upstamp: i64, upstamp: i64) -> int {
    if upstamp > set_upstamp {
        datetime + spec_as_secs::<T>(upstamp - set_upstamp)
    } else {
        datetime - spec_as_secs::<T>(set_upstamp - upstamp)
    }
}

/// The time at `upstamp` can be computed without overflow and lies in the
/// range of a `DateTime`.
pub open spec fn watch_defined<T: Tick>(datetime: u32, set_upstamp: i64, upstamp: i64) -> bool {
    &&& T::FREQ > 0
    &&& (if upstamp > set_upstamp {
        fits_i64(upstamp - set_upstamp)
    } else {
        fits_i64(set_upstamp - upstamp)
    })
    &&& 0 <= watch_seconds::<T>(datetime, set_upstamp, upstamp) <= u32::MAX
}

impl<U: Uptime<T>, T: Tick> Watch<U, T> {
    /// The time the watch was last set to and the uptime at which it was:
    /// `(seconds since 1970, uptime ticks)`.
    pub closed spec fn setting(&self) -> Option<(u32, i64)> {
        match self.adjust {
            Some(adjust) => Some((adjust.datetime.0, adjust.upstamp.0)),
            None => None,
        }
    }

    /// The uptime the watch follows.
    pub closed spec fn uptime(&self) -> Arc<U> {
        self.uptime
    }

    /// A watch that has not been set, following `uptime`.
    pub fn new(uptime: Arc<U>) -> (r: Self)
        ensures
            r.setting() is None,
            r.uptime() == uptime,
    {
        Self { uptime, adjust: None }
    }

    /// Set the watch: `datetime` was current at the uptime `upstamp`.
    pub fn set(&mut self, datetime: DateTime, upstamp: TimeSpan<T>)
        ensures
            final(self).setting() == Some((datetime.0, upstamp.0)),
            final(self).uptime() == old(self).uptime(),
    {
        self.adjust = Some(Adjust { datetime, upstamp });
    }

    /// The current time: what the watch shows (`shows_at`, as `time_at`
    /// returns it) at the uptime that this call samples from its uptime source.
    pub fn now(&self) -> (r: Result<DateTime, NotSetError>)
        requires
            self.setting() is Some ==> T::FREQ > 0,
        ensures
            self.setting() is None ==> r is Err,
            r matches Ok(d) ==> exists|upstamp: i64|
                {
                    &&& #[trigger] watch_defined::<T>(
                        self.setting().unwrap().0,
                        self.setting().unwrap().1,
                        upstamp,
                    )
                    &&& d.0 == watch_seconds::<T>(
                        self.setting().unwrap().0,
                        self.setting().unwrap().1,
                        upstamp,
                    )
                },
            exists|sample: TimeSpan<T>|
                {
                    &&& #[trigger] call_ensures(U::now, (&*self.uptime(),), sample)
                    &&& self.shows_at(sample.0, r)
                },
    {
        let upstamp = self.uptime.now();
        assert(call_ensures(U::now, (&*self.uptime(),), upstamp));
        self.time_at(upstamp)
    }

    /// `r` is what the watch shows at the uptime `upstamp`: an error when it
    /// is not set or its time there lies outside the range of a `DateTime`,
    /// that time otherwise.
    pub open spec fn shows_at(&self, upstamp: i64, r: Result<DateTime, NotSetError>) -> bool {
        match self.setting() {
            None => r is Err,
            Some(s) => if watch_defined::<T>(s.0, s.1, upstamp) {
                r matches Ok(d) && d.0 == watch_seconds::<T>(s.0, s.1, upstamp)
            } else {
                r is Err
            },
        }
    }

    /// The time at the uptime `upstamp`, if the watch has been set and that
    /// time lies in the range of a `DateTime`; `NotSetError` otherwise.
    pub fn time_at(&self, upstamp: TimeSpan<T>) -> (r: Result<DateTime, NotSetError>)
        requires
            self.setting() is Some ==> T::FREQ > 0,
        ensures
            match self.setting() {
                None => r is Err,
                Some(s) => if watch_defined::<T>(s.0, s.1, upstamp.0) {
                    r matches Ok(d) && d.0 == watch_seconds::<T>(s.0, s.1, upstamp.0)
                } else {
                    r is Err
                },
            },
            self.shows_at(upstamp.0, r),
    {
        if self.in_range(upstamp) {
            self.at(upstamp)
        } else {
            Err(NotSetError)
        }
    }

    /// Whether the watch is set and its time at `upstamp` can be computed.
    fn in_range(&self, upstamp: TimeSpan<T>) -> (r: bool)
        requires
            self.setting() is Some ==> T::FREQ > 0,
        ensures
            r == (self.setting() matches Some(s) && watch_defined::<T>(s.0, s.1, upstamp.0)),
    {
        match &self.adjust {
            None => false,
            Some(adjust) => {
                let diff = if upstamp.0 > adjust.upstamp.0 {
                    upstamp.0.checked_sub(adjust.upstamp.0)
                } else {
                    adjust.upstamp.0.checked_sub(upstamp.0)
                };
                match diff {
                    None => false,
                    Some(diff) => {
                        let secs: i64 = TimeSpan::<T>::from_ticks(diff).as_secs() as i64;
                        let seconds: i64 = if upstamp.0 > adjust.upstamp.0 {
                            adjust.datetime.0 as i64 + secs
                        } else {
                            adjust.datetime.0 as i64 - secs
                        };
                        0 <= seconds && seconds <= u32::MAX as i64
                    },
                }
            },
        }
    }

    /// The time at the uptime `upstamp`.
    pub fn at(&self, upstamp: TimeSpan<T>) -> (r: Result<DateTime, NotSetError>)
        requires
            self.setting() matches Some(s) ==> watch_defined::<T>(s.0, s.1, upstamp.0),
        ensures
            match self.setting() {
                None => r is Err,
                Some(s) => r matches Ok(d) && d.0 == watch_seconds::<T>(s.0, s.1, upstamp.0),
            },
    {
        if let Some(adjust) = &self.adjust {
            if upstamp > adjust.upstamp {
                // upstamp was sampled after the time was last adjusted.
                Ok(adjust.datetime + (upstamp - adjust.upstamp))
            } else {
                // upstamp was sampled before the time was last adjusted.
                Ok(adjust.datetime - (adjust.upstamp - upstamp))
            }
        } else {
            Err(NotSetError)
        }
    }
}

} // verus!

verus! {

/// Right after being set, the watch shows the time it was set to.
pub proof fn lemma_watch_at_set_upstamp<T: Tick>(datetime: u32, upstamp: i64)
    requires
        T::FREQ > 0,
    ensures
        watch_defined::<T>(datetime, upstamp, upstamp),
        watch_seconds::<T>(datetime, upstamp, upstamp) == datetime,
{
    crate::arith::lemma_tdiv_unique(0, T::FREQ as int, 0, 0);
}

/// The watch moves with the uptime: `secs` whole seconds of uptime after
/// (or before) the setting, it shows the set time plus (or minus) `secs`.
pub proof fn lemma_watch_follows_uptime<T: Tick>(datetime: u32, upstamp: i64, secs: int)
    requires
        T::FREQ > 0,
        -i32::MAX <= secs <= i32::MAX,
        fits_i64(upstamp + secs * T::FREQ),
    ensures
        watch_seconds::<T>(datetime, upstamp, (upstamp + secs * T::FREQ) as i64) == datetime
            + secs,
{
    let f = T::FREQ as int;
    let later = upstamp + secs * f;
    if secs > 0 {
        assert(secs * f > 0) by (nonlinear_arith)
            requires
                secs > 0,
                f > 0,
        ;
        crate::arith::lemma_tdiv_unique(secs * f, f, secs, 0);
        assert(later > upstamp);
        assert(spec_as_secs::<T>(later - upstamp) == secs);
    } else {
        assert(secs * f <= 0) by (nonlinear_arith)
            requires
                secs <= 0,
                f > 0,
        ;
        assert(-(secs * f) == (-secs) * f) by (nonlinear_arith);
        crate::arith::lemma_tdiv_unique((-secs) * f, f, -secs, 0);
        assert(upstamp - later == (-secs) * f);
        assert(spec_as_secs::<T>(upstamp - later) == -secs);
    }
}

} // verus!
