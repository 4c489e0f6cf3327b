pub mod alarm;
pub mod jiffies;
pub mod muxtimer;
pub mod tick;
pub mod uptime;
