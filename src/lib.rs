//! A concurrent HTTP download engine: capability probing, transfer-strategy
//! selection, byte-range partitioning, chunk workers, resumption, bandwidth
//! pacing and a bounded multi-file scheduler, each stated as a contract.
pub mod range;
pub mod text;
pub mod strategy;
pub mod limiter;
pub mod progress;
pub mod worker;
pub mod config;
pub mod job;
pub mod scheduler;
pub mod display;
