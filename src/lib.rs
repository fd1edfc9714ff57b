//! The job queue and report aggregation of an analysis broker: jobs are
//! handed to authenticated engine workers in priority order, their per-ply
//! results are collected, and a finished report is shipped exactly once.
pub mod chess;
pub mod crypto;
pub mod db;
pub mod error;
pub mod fishnet;
pub mod irwin;
pub mod model;
pub mod queue;
