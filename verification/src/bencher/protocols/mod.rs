//! The protocols that the benchmark runner can benchmark.

pub mod udp;
