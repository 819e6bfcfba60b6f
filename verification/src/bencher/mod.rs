//! The benchmark runner: run priorities, the CPUs each run uses, the
//! tracker configurations of each benchmark set, and what a run reads from
//! the load tester's output.

pub mod common;
pub mod protocols;
pub mod run;
pub mod set;
