//! The monitors and what they have in common.

pub mod loadavgmonitor;
pub mod monitor;

pub use crate::services::monitors::loadavgmonitor::{LoadAvgMonitor, MonitorJob};
pub use crate::services::monitors::monitor::Monitor;
