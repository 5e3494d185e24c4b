//! Persistent knowledge processing: tasks, their attempts, and the executor
//! that owns them.

pub mod drain;
pub mod effects;
pub mod engine;
pub mod engine_run;
pub mod execution;
pub mod failure;
pub mod laws;
pub mod projection;
pub mod rows;
pub mod select;
pub mod store;
pub mod types;
