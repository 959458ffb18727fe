use adaptive_engine::executor::{ExecutorContext, PipelineExecutionContext};
use adaptive_engine::pipeline::{Buffer, PipelineId};

#[test]
fn test_context_creation() {
    let context = ExecutorContext::new(PipelineId::new("test"), 0, 1);

    assert_eq!(context.get_worker_id(), 0);
    assert_eq!(context.get_worker_count(), 1);
    assert_eq!(context.get_pipeline_id().as_str(), "test");
}

#[test]
fn test_context_emit_buffer() {
    let mut context = ExecutorContext::new(PipelineId::new("test"), 0, 1);

    let buffer = Buffer::new(vec![1, 2, 3]);
    assert!(context.emit_buffer(buffer.clone()));

    assert_eq!(context.get_pipeline_id().as_str(), "test");
    let received = context.take_emitted_buffers();
    assert_eq!(received.len(), 1);
    assert_eq!(received[0].data(), &[1, 2, 3]);
}

#[test]
fn test_context_allocate_buffer() {
    let context = ExecutorContext::new(PipelineId::new("test"), 0, 1);

    let buffer = context.allocate_buffer().unwrap();
    assert_eq!(buffer.data().len(), 0);
}

#[test]
fn context_repeat_request_is_taken_once() {
    let mut context = ExecutorContext::with_query_id(PipelineId::new("p"), 7, 2, 4);
    assert_eq!(context.query_id(), 7);
    assert_eq!(context.get_pipeline_id_str(), "p");
    context.repeat_task(Buffer::new(vec![1]), 10);
    context.repeat_task(Buffer::new(vec![2]), 20);
    assert_eq!(context.get_repeat_delay_ms(), 20);
    assert_eq!(context.take_repeat_buffer().unwrap().data(), &[2]);
    assert!(context.take_repeat_buffer().is_none());
}
