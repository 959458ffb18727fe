use adaptive_engine::executor::metadata::PipelineMetadata;
use std::sync::atomic::Ordering;

#[test]
fn stop_flag_handle_sees_the_stop_request() {
    let mut meta = PipelineMetadata::new();
    let flag = meta.get_source_stop_flag();
    assert!(!flag.load(Ordering::SeqCst));
    meta.request_source_stop();
    assert!(flag.load(Ordering::SeqCst));
    assert!(meta.is_source_stop_requested());
}
