//! Collection of benchmark-run artifacts into partitioned tables.
//!
//! The task set (`tasks`, `run_config`) says which runs go to which
//! partitions. A run's archive entries (`file_info`, `lazy_read`) go through
//! the collectors that `registry` lists for its benchmark type (`status`,
//! `threadstat`, `time`, `dacapo_iteration`, `dacapo_latency`,
//! `java_threads`, `zgc_phases`, `system_load`), and `run` assembles their
//! tables with a status table. `router` routes each (partition, table) stream
//! to one accumulator, and `accumulator` cuts each stream into segments.
use vstd::prelude::*;

pub mod accumulator;
pub mod collectors;
pub mod dacapo_latency;
pub mod dacapo_iteration;
pub mod file_info;
pub mod java_threads;
pub mod frame;
pub mod lazy_read;
pub mod pattern;
pub mod queue;
pub mod registry;
pub mod router;
pub mod run;
pub mod run_config;
pub mod shrink;
pub mod status;
pub mod system_load;
pub mod tasks;
pub mod text;
pub mod threadstat;
pub mod time;
pub mod zgc_phases;

verus! {

} // verus!
