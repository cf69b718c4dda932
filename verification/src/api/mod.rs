//! What the read-only endpoints answer.

pub mod response;

pub use crate::api::response::{CpuinfoResponse, MeminfoResponse};
