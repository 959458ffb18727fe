//! Adaptive execution engine: pipeline graphs, their validation and
//! scheduling, task queues, query-level event tracking and the decisions of
//! the task-driven executor.

pub mod builder;
pub mod channel;
pub mod engine;
pub mod executor;
pub mod ffi;
pub mod graph;
pub mod pipeline;
pub mod query_engine;
pub mod sequence;
pub mod source;
pub mod text;
