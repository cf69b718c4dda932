//! The core of a monitoring agent for one host.
//!
//! A monitor holds measurements of the system against optional ceilings and classifies
//! each check as passed or failed. The [`services::Registry`] keeps the current status of
//! every monitor by name, the [`services::SchedulingService`] decides for which monitors a
//! job is made, and the store level of a monitor decides whether a measurement is stored.
//! Numbers are fixed-point ([`common::Decimal`]), so that every comparison and every
//! message is exact. Reading the system, waiting for the clock, locking and talking to
//! the network are left to the program that uses this library.

pub mod api;
pub mod common;
pub mod proc;
pub mod services;
