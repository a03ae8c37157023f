//! Generating the documents and driving the workload.

pub mod data_generator;
pub mod harness;
pub mod random;
pub mod run;
pub mod schedule;
