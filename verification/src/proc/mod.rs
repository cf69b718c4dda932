//! Readouts of the system: load averages, memory counters and processors.

pub mod cpuinfo;
pub mod loadavg;
pub mod meminfo;

pub use crate::proc::cpuinfo::ProcsCpuinfo;
pub use crate::proc::loadavg::ProcsLoadavg;
pub use crate::proc::meminfo::ProcsMeminfo;
