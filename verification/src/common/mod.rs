//! Statuses, errors, configuration and the handling of numbers and text.

pub mod applicationerror;
pub mod configuration;
pub mod decimal;
pub mod monitorstatus;
pub mod notation;
pub mod text;

pub use crate::common::applicationerror::ApplicationError;
pub use crate::common::configuration::{DatabaseStoreLevel, MonitorConfig};
pub use crate::common::decimal::Decimal;
pub use crate::common::monitorstatus::{MonitorStatus, MonitorStatusView, Status, StatusView};
