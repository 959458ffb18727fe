use adaptive_engine::executor::ExecutorContext;
use adaptive_engine::pipeline::{Buffer, Pipeline, PipelineError, PipelineId};
use adaptive_engine::source::{Source, SourceEmitHandle, SourceError, SourcePipeline};

struct MockSource {
    id: PipelineId,
}

impl Source for MockSource {
    fn start(&self, _emit_handle: SourceEmitHandle) -> Result<(), SourceError> {
        Ok(())
    }

    fn stop(&self) -> Result<(), SourceError> {
        Ok(())
    }

    fn id(&self) -> &PipelineId {
        &self.id
    }
}

struct FailingSource {
    id: PipelineId,
}

impl Source for FailingSource {
    fn setup(&self) -> Result<(), SourceError> {
        Err(SourceError::SetupFailed("no device".to_string()))
    }

    fn start(&self, _emit_handle: SourceEmitHandle) -> Result<(), SourceError> {
        Ok(())
    }

    fn stop(&self) -> Result<(), SourceError> {
        Ok(())
    }

    fn teardown(&self) -> Result<(), SourceError> {
        Err(SourceError::TeardownFailed("busy".to_string()))
    }

    fn id(&self) -> &PipelineId {
        &self.id
    }
}

fn mock() -> Box<dyn Source> {
    Box::new(MockSource { id: PipelineId::new("test-source") })
}

#[test]
fn test_source_pipeline_delegates_id() {
    let wrapper = SourcePipeline::new(mock());
    assert_eq!(wrapper.id().as_str(), "test-source");
}

#[test]
fn test_source_pipeline_setup_success() {
    let mut wrapper = SourcePipeline::new(mock());
    let mut context = ExecutorContext::new(PipelineId::new("test"), 0, 1);
    assert!(wrapper.setup(&mut context).is_ok());
}

#[test]
fn test_source_pipeline_teardown_success() {
    let mut wrapper = SourcePipeline::new(mock());
    let mut context = ExecutorContext::new(PipelineId::new("test"), 0, 1);
    assert!(wrapper.teardown(&mut context).is_ok());
}

#[test]
fn test_source_pipeline_flush_returns_empty() {
    let mut wrapper = SourcePipeline::new(mock());
    let mut context = ExecutorContext::new(PipelineId::new("test"), 0, 1);
    let result = wrapper.flush(&mut context).unwrap();
    assert!(result.is_empty());
}

#[test]
fn test_source_wrapper_access() {
    let wrapper = SourcePipeline::new(mock());
    assert_eq!(wrapper.source().id().as_str(), "test-source");
}

#[test]
fn source_pipeline_refuses_input_buffers() {
    let mut wrapper = SourcePipeline::new(mock());
    let mut context = ExecutorContext::new(PipelineId::new("test-source"), 0, 1);
    match wrapper.execute(Buffer::new(vec![1, 2, 3]), &mut context) {
        Err(PipelineError::ExecutionFailed(m)) => {
            assert!(m.starts_with("execute() called on source 'test-source'"));
        }
        _ => panic!("expected ExecutionFailed"),
    }
}

#[test]
fn source_errors_are_wrapped() {
    let mut wrapper = SourcePipeline::new(Box::new(FailingSource { id: PipelineId::new("f") }));
    let mut context = ExecutorContext::new(PipelineId::new("f"), 0, 1);
    match wrapper.setup(&mut context) {
        Err(PipelineError::ExecutionFailed(m)) => assert!(m.starts_with("Source setup failed: ")),
        _ => panic!("expected ExecutionFailed"),
    }
    match wrapper.teardown(&mut context) {
        Err(PipelineError::ExecutionFailed(m)) => assert!(m.starts_with("Source teardown failed: ")),
        _ => panic!("expected ExecutionFailed"),
    }
}
