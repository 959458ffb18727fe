//! The metadata that travels with a buffer across the native boundary.

use vstd::prelude::*;

verus! {

/// Metadata associated with a buffer, laid out as the native side's
/// buffer metadata.
#[derive(Debug, Clone)]
pub struct BufferMetadata {
    /// Sequence number for ordering.
    pub sequence_number: u64,
    /// Identifier of the data source.
    pub origin_id: u64,
    /// Watermark timestamp for event-time processing.
    pub watermark: u64,
    /// Number of tuples in the buffer.
    pub num_tuples: u64,
    /// Current chunk number in a multi-chunk transfer.
    pub chunk_number: u32,
    /// Whether this is the last chunk.
    pub last_chunk: bool,
}

impl Default for BufferMetadata {
    /// All counters zero, not the last chunk.
    fn default() -> (r: Self)
        ensures
            r.sequence_number == 0,
            r.origin_id == 0,
            r.watermark == 0,
            r.num_tuples == 0,
            r.chunk_number == 0,
            !r.last_chunk,
    {
        BufferMetadata {
            sequence_number: 0,
            origin_id: 0,
            watermark: 0,
            num_tuples: 0,
            chunk_number: 0,
            last_chunk: false,
        }
    }
}

} // verus!
