//! The protocols that the load test runner can test.

pub mod udp;
