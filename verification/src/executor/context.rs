//! The execution context handed to pipelines.

use crate::executor::QueryId;
use crate::pipeline::{Buffer, BufferView, PipelineError, PipelineId};
use vstd::prelude::*;

verus! {

/// Services the executor offers a running pipeline: emitting buffers,
/// allocating buffers, worker information and re-execution requests.
pub trait PipelineExecutionContext {
    /// Emits a buffer to the successors of the current pipeline.
    fn emit_buffer(&mut self, buffer: Buffer) -> bool;

    /// Allocates a new buffer.
    fn allocate_buffer(&self) -> Result<Buffer, PipelineError>;

    /// The worker thread id.
    fn get_worker_id(&self) -> usize;

    /// The number of worker threads.
    fn get_worker_count(&self) -> usize;

    /// The id of the current pipeline.
    fn get_pipeline_id(&self) -> &PipelineId;

    /// Asks the executor to run the current pipeline again on `buffer`,
    /// after `delay_ms` milliseconds (immediately for 0).
    fn repeat_task(&mut self, buffer: Buffer, delay_ms: u64);
}

/// The executor's context: it collects the buffers a pipeline emits and the
/// re-execution request it makes, for the executor to act on after the call.
pub struct ExecutorContext {
    pipeline_id: PipelineId,
    query_id: QueryId,
    worker_id: usize,
    worker_count: usize,
    emitted: Vec<Buffer>,
    repeat_buffer: Option<Buffer>,
    repeat_delay_ms: u64,
}

impl ExecutorContext {
    pub closed spec fn pipeline_id_spec(&self) -> PipelineId {
        self.pipeline_id
    }

    pub closed spec fn query_id_spec(&self) -> QueryId {
        self.query_id
    }

    pub closed spec fn worker_id_spec(&self) -> usize {
        self.worker_id
    }

    pub closed spec fn worker_count_spec(&self) -> usize {
        self.worker_count
    }

    /// The buffers emitted so far, in emission order.
    pub closed spec fn emitted_spec(&self) -> Seq<Buffer> {
        self.emitted@
    }

    /// The pending re-execution request, if any.
    pub closed spec fn repeat_spec(&self) -> Option<Buffer> {
        self.repeat_buffer
    }

    pub closed spec fn repeat_delay_spec(&self) -> u64 {
        self.repeat_delay_ms
    }

    /// A fresh context: nothing emitted, no re-execution requested.
    pub open spec fn is_fresh(&self) -> bool {
        &&& self.emitted_spec().len() == 0
        &&& self.repeat_spec() is None
        &&& self.repeat_delay_spec() == 0
    }

    /// A context for `pipeline_id` on worker `worker_id` of `worker_count`,
    /// for query 0.
    pub fn new(pipeline_id: PipelineId, worker_id: usize, worker_count: usize) -> (r: Self)
        ensures
            r.pipeline_id_spec() == pipeline_id,
            r.query_id_spec() == 0,
            r.worker_id_spec() == worker_id,
            r.worker_count_spec() == worker_count,
            r.is_fresh(),
    {
        Self::with_query_id(pipeline_id, 0, worker_id, worker_count)
    }

    /// A context for `pipeline_id` of query `query_id`.
    pub fn with_query_id(
        pipeline_id: PipelineId,
        query_id: QueryId,
        worker_id: usize,
        worker_count: usize,
    ) -> (r: Self)
        ensures
            r.pipeline_id_spec() == pipeline_id,
            r.query_id_spec() == query_id,
            r.worker_id_spec() == worker_id,
            r.worker_count_spec() == worker_count,
            r.is_fresh(),
    {
        ExecutorContext {
            pipeline_id,
            query_id,
            worker_id,
            worker_count,
            emitted: Vec::new(),
            repeat_buffer: None,
            repeat_delay_ms: 0,
        }
    }

    /// The text of the current pipeline's id.
    pub fn get_pipeline_id_str(&self) -> (r: &str)
        ensures
            r@ == self.pipeline_id_spec()@,
    {
        self.pipeline_id.as_str()
    }

    /// The query this context belongs to.
    pub fn query_id(&self) -> (r: QueryId)
        ensures
            r == self.query_id_spec(),
    {
        self.query_id
    }

    /// Takes the re-execution buffer stored by `repeat_task`, if any.
    pub fn take_repeat_buffer(&mut self) -> (r: Option<Buffer>)
        ensures
            r == old(self).repeat_spec(),
            final(self).repeat_spec() is None,
            final(self).emitted_spec() == old(self).emitted_spec(),
            final(self).repeat_delay_spec() == old(self).repeat_delay_spec(),
            final(self).pipeline_id_spec() == old(self).pipeline_id_spec(),
            final(self).worker_id_spec() == old(self).worker_id_spec(),
            final(self).worker_count_spec() == old(self).worker_count_spec(),
            final(self).query_id_spec() == old(self).query_id_spec(),
    {
        self.repeat_buffer.take()
    }

    /// The delay stored by `repeat_task`.
    pub fn get_repeat_delay_ms(&self) -> (r: u64)
        ensures
            r == self.repeat_delay_spec(),
    {
        self.repeat_delay_ms
    }

    /// Takes the buffers emitted so far, in emission order.
    pub fn take_emitted_buffers(&mut self) -> (r: Vec<Buffer>)
        ensures
            r@ == old(self).emitted_spec(),
            final(self).emitted_spec().len() == 0,
            final(self).repeat_spec() == old(self).repeat_spec(),
            final(self).repeat_delay_spec() == old(self).repeat_delay_spec(),
            final(self).pipeline_id_spec() == old(self).pipeline_id_spec(),
            final(self).worker_id_spec() == old(self).worker_id_spec(),
            final(self).worker_count_spec() == old(self).worker_count_spec(),
            final(self).query_id_spec() == old(self).query_id_spec(),
    {
        let mut out = Vec::new();
        std::mem::swap(&mut out, &mut self.emitted);
        out
    }
}

impl PipelineExecutionContext for ExecutorContext {
    /// Records the buffer for routing; always accepted.
    fn emit_buffer(&mut self, buffer: Buffer) -> (r: bool)
        ensures
            r,
            final(self).emitted_spec() == old(self).emitted_spec().push(buffer),
            final(self).repeat_spec() == old(self).repeat_spec(),
            final(self).repeat_delay_spec() == old(self).repeat_delay_spec(),
            final(self).pipeline_id_spec() == old(self).pipeline_id_spec(),
            final(self).worker_id_spec() == old(self).worker_id_spec(),
            final(self).worker_count_spec() == old(self).worker_count_spec(),
            final(self).query_id_spec() == old(self).query_id_spec(),
    {
        self.emitted.push(buffer);
        true
    }

    /// A new empty owned buffer.
    fn allocate_buffer(&self) -> (r: Result<Buffer, PipelineError>)
        ensures
            r is Ok && r->Ok_0@ == BufferView::Owned(Seq::empty()),
    {
        Ok(Buffer::new(Vec::new()))
    }

    fn get_worker_id(&self) -> (r: usize)
        ensures
            r == self.worker_id_spec(),
    {
        self.worker_id
    }

    fn get_worker_count(&self) -> (r: usize)
        ensures
            r == self.worker_count_spec(),
    {
        self.worker_count
    }

    fn get_pipeline_id(&self) -> (r: &PipelineId)
        ensures
            *r == self.pipeline_id_spec(),
    {
        &self.pipeline_id
    }

    /// Stores `buffer` and `delay_ms`; a later request replaces an earlier
    /// one.
    fn repeat_task(&mut self, buffer: Buffer, delay_ms: u64)
        ensures
            final(self).repeat_spec() == Some(buffer),
            final(self).repeat_delay_spec() == delay_ms,
            final(self).emitted_spec() == old(self).emitted_spec(),
            final(self).pipeline_id_spec() == old(self).pipeline_id_spec(),
            final(self).worker_id_spec() == old(self).worker_id_spec(),
            final(self).worker_count_spec() == old(self).worker_count_spec(),
            final(self).query_id_spec() == old(self).query_id_spec(),
    {
        self.repeat_buffer = Some(buffer);
        self.repeat_delay_ms = delay_ms;
    }
}

} // verus!
