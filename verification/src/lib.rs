//! A fixed-size worker pool, reduced to its coordination core.
//!
//! Submitters and workers meet at one hand-off channel that carries two kinds
//! of signal: a unit of work, or the directive to terminate. Everything that
//! decides who gets which signal, when a worker is free for the next one,
//! and when the pool may be torn down, lives here as sequential code over
//! explicit state, so that it can be verified. Threads, locks and the
//! execution of the jobs themselves belong to the caller, which keeps a pool
//! behind a lock, performs one verified transition at a time, and tells the
//! pool when a job has ended.

pub mod channel;
pub mod laws;
pub mod pool;
pub mod preservation;
pub mod signal;
pub mod state;
pub mod worker;
