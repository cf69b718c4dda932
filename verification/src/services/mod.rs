//! The registry of statuses, the monitors, their scheduling and the status server.

pub mod cron;
pub mod monitors;
pub mod registry;
pub mod schedulingservice;
pub mod server;

pub use crate::services::registry::Registry;
pub use crate::services::schedulingservice::SchedulingService;
pub use crate::services::server::Server;
