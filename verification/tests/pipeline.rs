use adaptive_engine::executor::ExecutorContext;
use adaptive_engine::pipeline::{Buffer, OpaqueBufferHandle, Pipeline, PipelineError, PipelineId};

#[test]
fn test_pipeline_id_creation() {
    let id1 = PipelineId::new("test");
    let id2 = PipelineId::from("test");
    let id3 = PipelineId::from("test".to_string());

    assert_eq!(id1, id2);
    assert_eq!(id1, id3);
    assert_eq!(id1.as_str(), "test");
    assert_eq!(id1.to_string(), "test");
}

#[test]
fn test_buffer_creation() {
    let data = vec![1, 2, 3, 4, 5];
    let buffer = Buffer::new(data.clone());

    assert_eq!(buffer.data(), &data);
}

#[test]
fn test_buffer_clone() {
    let buffer = Buffer::new(vec![1, 2, 3]);
    let cloned = buffer.clone();
    assert_eq!(cloned.data(), &[1, 2, 3]);
}

struct TestPipeline {
    id: PipelineId,
}

impl Pipeline for TestPipeline {
    fn execute(
        &mut self,
        input: Buffer,
        _context: &mut ExecutorContext,
    ) -> Result<Vec<Buffer>, PipelineError> {
        Ok(vec![input])
    }

    fn id(&self) -> &PipelineId {
        &self.id
    }
}

#[test]
fn test_pipeline_trait() {
    let mut context = ExecutorContext::new(PipelineId::new("test"), 0, 1);

    let mut pipeline = TestPipeline { id: PipelineId::new("test") };

    let input = Buffer::new(vec![1, 2, 3]);
    let result = pipeline.execute(input, &mut context).unwrap();

    assert_eq!(result.len(), 1);
    assert_eq!(result[0].data(), &[1, 2, 3]);
}

#[test]
fn pipeline_opaque_buffer_has_no_bytes() {
    let buffer = Buffer::opaque(OpaqueBufferHandle::new(77));
    assert!(buffer.is_opaque());
    assert_eq!(buffer.data().len(), 0);
    assert_eq!(buffer.len(), 0);
    assert_eq!(buffer.opaque_handle().unwrap().handle(), 77);
    let owned = Buffer::new(vec![9]);
    assert!(!owned.is_opaque());
    assert!(owned.opaque_handle().is_none());
}

#[test]
fn pipeline_buffer_set_data() {
    let mut buffer = Buffer::new(vec![1]);
    buffer.set_data(vec![4, 5]);
    assert_eq!(buffer.to_vec(), vec![4, 5]);
}

#[test]
fn pipeline_error_texts() {
    assert_eq!(
        PipelineError::ExecutionFailed("boom".to_string()).to_string(),
        "Pipeline execution failed: boom"
    );
    assert_eq!(PipelineError::NotFound(PipelineId::new("p")).to_string(), "Pipeline not found: p");
    assert_eq!(
        PipelineError::InvalidBuffer("x".to_string()).to_string(),
        "Invalid buffer state: x"
    );
}

struct Defaults {
    id: adaptive_engine::pipeline::PipelineId,
}

impl adaptive_engine::pipeline::Pipeline for Defaults {
    fn execute(
        &mut self,
        input: adaptive_engine::pipeline::Buffer,
        _context: &mut adaptive_engine::executor::ExecutorContext,
    ) -> Result<Vec<adaptive_engine::pipeline::Buffer>, adaptive_engine::pipeline::PipelineError> {
        Ok(vec![input])
    }

    fn id(&self) -> &adaptive_engine::pipeline::PipelineId {
        &self.id
    }
}

#[test]
fn default_lifecycle_methods_succeed_without_output() {
    let mut p = Defaults { id: adaptive_engine::pipeline::PipelineId::new("d") };
    let mut ctx = adaptive_engine::executor::ExecutorContext::new(adaptive_engine::pipeline::PipelineId::new("d"), 0, 1);
    assert!(p.setup(&mut ctx).is_ok());
    assert!(p.flush(&mut ctx).unwrap().is_empty());
    assert!(p.teardown(&mut ctx).is_ok());
}
