//! Time keeping for embedded systems: spans of hardware timer ticks, calendar
//! date and time, a wall-clock watch backed by an uptime counter, and the
//! scheduling decisions of alarm timers.

pub mod adapters;
pub mod alarm;
pub mod arith;
pub mod datetime;
pub mod format;
pub mod prelude;
pub mod subscription;
pub mod timeout;
pub mod timespan;
pub mod uptime;
pub mod uptime_drv;
pub mod uptime_ticks;
pub mod watch;

pub use crate::adapters::alarm::{
    counter_add, counter_after, AlarmCounter, AlarmTimerMode, SleepPlan, SleepStep,
};
pub use crate::adapters::jiffies::{JiffiesClock, JiffiesTimer};
pub use crate::adapters::muxtimer::TimerStop;
pub use crate::adapters::tick::Tick;
pub use crate::adapters::uptime::{UptimeCounter, UptimeOverflow};
pub use crate::alarm::{
    burn_nanos, burn_step, nanos_to_cycles, Subscription, SubscriptionQueue, BURN_CHUNK_NANOS,
};
pub use crate::datetime::{
    days_in_month, days_in_year, is_leap_year, DateTime, DateTimeParts, Month,
};
pub use crate::timespan::TimeSpan;
pub use crate::uptime::Uptime;
pub use crate::subscription::SubscriptionState;
pub use crate::timeout::Timeout;
pub use crate::timespan::TimeSpanParts;
pub use crate::uptime_drv::UptimeDrv;
pub use crate::watch::{NotSetError, Watch};
