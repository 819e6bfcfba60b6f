//! The load test runner: which CPUs each load test uses, and the server
//! configurations of each load test set.

pub mod common;
pub mod protocols;
pub mod set;
