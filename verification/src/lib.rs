//! Workload engine for comparing a document store with a relational store
//! that keeps its documents in a semi-structured column.
//!
//! The crate holds the parts that decide and compute: the generator of nested
//! documents, the paths, queries and update statements that each backend
//! needs for a nesting depth, the ratio-driven interleaving of reads and
//! writes, and the protocol that brackets a workload with an energy sampling
//! window. Connections, processes, files and clocks belong to the caller.

pub mod benchmark;
pub mod databases;
pub mod error;
pub mod metrics;
pub mod text;
