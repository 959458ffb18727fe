//! `SourcePipeline`: a source seen as a graph node.

use crate::executor::context::ExecutorContext;
use crate::pipeline::{Buffer, Pipeline, PipelineError, PipelineId};
use crate::source::{Source, SourceEmitHandle, SourceError, source_error_text};
use vstd::prelude::*;
use vstd::string::*;

verus! {

/// A source wrapped as a pipeline node: lifecycle calls go to the source;
/// a source never processes input buffers.
pub struct SourcePipeline {
    source: Box<dyn Source>,
}

/// The message of the error a source node answers when asked to process a
/// buffer.
pub open spec fn source_execute_message(id: Seq<char>) -> Seq<char> {
    "execute() called on source '"@ + id + "': sources generate data and never receive input buffers"@
}

impl SourcePipeline {
    /// Wraps `source`.
    pub fn new(source: Box<dyn Source>) -> (r: Self) {
        Self { source }
    }

    /// The wrapped source.
    pub fn source(&self) -> &Box<dyn Source> {
        &self.source
    }

    /// Starts the source with `emit_handle`.
    pub fn start_source(&self, emit_handle: SourceEmitHandle) -> Result<(), SourceError> {
        self.source.start(emit_handle)
    }

    /// Stops the source.
    pub fn stop_source(&self) -> Result<(), SourceError> {
        self.source.stop()
    }
}

fn wrap_source_error(prefix: &str, e: &SourceError) -> (r: PipelineError)
    ensures
        r matches PipelineError::ExecutionFailed(m) && m@ == prefix@ + source_error_text(*e),
{
    let mut s = String::from_str(prefix);
    let text = e.to_string();
    s.append(text.as_str());
    PipelineError::ExecutionFailed(s)
}

impl Pipeline for SourcePipeline {
    /// The source's `setup`, its error mapped to `ExecutionFailed`.
    fn setup(&mut self, context: &mut ExecutorContext) -> (r: Result<(), PipelineError>)
        ensures
            r matches Err(e) ==> e is ExecutionFailed,
            r matches Err(PipelineError::ExecutionFailed(m)) ==> exists|e: SourceError|
                m@ == "Source setup failed: "@ + #[trigger] source_error_text(e),
            *final(context) == *old(context),
    {
        match self.source.setup() {
            Ok(()) => Ok(()),
            Err(e) => Err(wrap_source_error("Source setup failed: ", &e)),
        }
    }

    /// Sources never process buffers: always `ExecutionFailed`.
    fn execute(&mut self, input: Buffer, context: &mut ExecutorContext) -> (r: Result<
        Vec<Buffer>,
        PipelineError,
    >)
        ensures
            r matches Err(e) && e matches PipelineError::ExecutionFailed(m) && m@
                == source_execute_message(old(context).pipeline_id_spec()@),
            *final(context) == *old(context),
    {
        let mut s = String::from_str("execute() called on source '");
        s.append(context.get_pipeline_id_str());
        s.append("': sources generate data and never receive input buffers");
        Err(PipelineError::ExecutionFailed(s))
    }

    /// A source holds nothing to flush.
    fn flush(&mut self, context: &mut ExecutorContext) -> (r: Result<Vec<Buffer>, PipelineError>)
        ensures
            r is Ok && r->Ok_0@.len() == 0,
            *final(context) == *old(context),
    {
        Ok(Vec::new())
    }

    /// The source's `teardown`, its error mapped to `ExecutionFailed`.
    fn teardown(&mut self, context: &mut ExecutorContext) -> (r: Result<(), PipelineError>)
        ensures
            r matches Err(e) ==> e is ExecutionFailed,
            r matches Err(PipelineError::ExecutionFailed(m)) ==> exists|e: SourceError|
                m@ == "Source teardown failed: "@ + #[trigger] source_error_text(e),
            *final(context) == *old(context),
    {
        match self.source.teardown() {
            Ok(()) => Ok(()),
            Err(e) => Err(wrap_source_error("Source teardown failed: ", &e)),
        }
    }

    fn id(&self) -> &PipelineId {
        self.source.id()
    }
}

} // verus!
