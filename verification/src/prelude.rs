//! The types most users need.

pub use crate::datetime::{DateTime, Month};
pub use crate::timespan::TimeSpan;
pub use crate::uptime::Uptime;
