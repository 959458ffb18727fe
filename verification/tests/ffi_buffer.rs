use adaptive_engine::ffi::buffer::BufferMetadata;

#[test]
fn test_metadata_default() {
    let meta = BufferMetadata::default();
    assert_eq!(meta.sequence_number, 0);
    assert_eq!(meta.origin_id, 0);
    assert_eq!(meta.watermark, 0);
    assert_eq!(meta.num_tuples, 0);
    assert_eq!(meta.chunk_number, 0);
    assert!(!meta.last_chunk);
}
