//! Measuring: the sampling process that brackets a workload.

pub mod pcm;
