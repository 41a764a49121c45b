//! Dispatch pipeline of an uptime monitor: a producer turns the registry of
//! monitored sites into check jobs on a broker stream, and regional workers
//! consume those jobs as competing consumers, probe each target and record
//! the outcome.

pub mod accounts;
pub mod api;
pub mod config;
pub mod job;
pub mod stream;
pub mod producer;
pub mod worker;
pub mod guarantees;
pub mod ids;
pub mod tracking;
