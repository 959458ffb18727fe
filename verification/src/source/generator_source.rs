//! The configuration of generator sources, which emit a generated buffer at
//! a fixed interval, optionally up to a number of buffers.

use std::time::Duration;
use vstd::prelude::*;

verus! {

/// How a generator source emits.
#[derive(Debug, Clone, Copy)]
pub struct GeneratorConfig {
    /// The time between two buffers.
    pub emit_interval: Duration,
    /// The number of buffers after which the source ends its stream; no
    /// limit when `None`.
    pub max_buffers: Option<u64>,
}

impl GeneratorConfig {
    /// A configuration emitting every `emit_interval`, without limit.
    pub fn new(emit_interval: Duration) -> (r: Self)
        ensures
            r.emit_interval == emit_interval,
            r.max_buffers is None,
    {
        GeneratorConfig { emit_interval, max_buffers: None }
    }

    /// This configuration, limited to `max` buffers.
    pub fn with_max_buffers(self, max: u64) -> (r: Self)
        ensures
            r.emit_interval == self.emit_interval,
            r.max_buffers == Some(max),
    {
        GeneratorConfig { max_buffers: Some(max), ..self }
    }
}

} // verus!
