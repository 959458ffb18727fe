//! Plain data exchanged with the native (C++) side of the engine.

pub mod buffer;
pub mod events;
pub mod query;
