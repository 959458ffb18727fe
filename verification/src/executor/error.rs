//! Error types and execution statistics of the executor.

use crate::graph::{GraphError, graph_error_text};
use crate::pipeline::{PipelineError, PipelineId, pipeline_error_text};
use vstd::prelude::*;
use vstd::string::*;

verus! {

/// The kind of entity an execution error concerns.
#[derive(Debug, Clone, Copy, PartialEq, Eq, Structural)]
pub enum EntityType {
    Pipeline,
    Source,
}

/// The kind of task during which an execution error occurred.
#[derive(Debug, Clone, Copy, PartialEq, Eq, Structural)]
pub enum TaskType {
    WorkTask,
    StartSource,
    DeployGraph,
    StopPipeline,
}

/// An error that occurred while executing a task.
#[derive(Debug)]
pub struct ExecutionError {
    /// The pipeline or source that failed.
    pub entity_id: PipelineId,
    /// Whether a pipeline or a source failed.
    pub entity_type: EntityType,
    /// The error message.
    pub error: String,
    /// The task during which the error occurred.
    pub task_type: TaskType,
}

/// The abstract content of an execution error.
pub ghost struct ExecutionErrorView {
    pub entity_id: Seq<char>,
    pub entity_type: EntityType,
    pub error: Seq<char>,
    pub task_type: TaskType,
}

impl View for ExecutionError {
    type V = ExecutionErrorView;

    open spec fn view(&self) -> ExecutionErrorView {
        ExecutionErrorView {
            entity_id: self.entity_id@,
            entity_type: self.entity_type,
            error: self.error@,
            task_type: self.task_type,
        }
    }
}

/// The views of a list of execution errors.
pub open spec fn error_views(s: Seq<ExecutionError>) -> Seq<ExecutionErrorView> {
    s.map_values(|e: ExecutionError| e@)
}

impl Clone for ExecutionError {
    fn clone(&self) -> (r: Self)
        ensures
            r@ == self@,
    {
        ExecutionError {
            entity_id: self.entity_id.clone(),
            entity_type: self.entity_type,
            error: self.error.clone(),
            task_type: self.task_type,
        }
    }
}

/// Errors of the executor's operations.
#[derive(Debug)]
pub enum ExecutorError {
    /// A pipeline failed.
    Pipeline(PipelineError),
    /// A graph operation failed.
    Graph(GraphError),
    /// No pipeline with this id is known.
    PipelineNotFound(PipelineId),
    /// The task queue could not be used.
    TaskQueue(String),
    /// No graph has been deployed.
    GraphNotDeployed,
}

/// The display text of an executor error.
pub open spec fn executor_error_text(e: ExecutorError) -> Seq<char> {
    match e {
        ExecutorError::Pipeline(p) => "Pipeline error: "@ + pipeline_error_text(p),
        ExecutorError::Graph(g) => "Graph error: "@ + graph_error_text(g),
        ExecutorError::PipelineNotFound(id) => "Pipeline not found: "@ + id@,
        ExecutorError::TaskQueue(m) => "Task queue error: "@ + m@,
        ExecutorError::GraphNotDeployed => "No graph deployed"@,
    }
}

fn prefixed(prefix: &str, text: String) -> (r: String)
    ensures
        r@ == prefix@ + text@,
{
    let mut s = String::from_str(prefix);
    s.append(text.as_str());
    s
}

impl ExecutorError {
    /// The display text of this error.
    pub fn to_string(&self) -> (r: String)
        ensures
            r@ == executor_error_text(*self),
    {
        match self {
            ExecutorError::Pipeline(p) => prefixed("Pipeline error: ", p.to_string()),
            ExecutorError::Graph(g) => prefixed("Graph error: ", g.to_string()),
            ExecutorError::PipelineNotFound(id) => prefixed("Pipeline not found: ", id.to_string()),
            ExecutorError::TaskQueue(m) => prefixed("Task queue error: ", m.clone()),
            ExecutorError::GraphNotDeployed => String::from_str("No graph deployed"),
        }
    }
}

impl From<PipelineError> for ExecutorError {
    fn from(e: PipelineError) -> (r: Self)
        ensures
            r == ExecutorError::Pipeline(e),
    {
        ExecutorError::Pipeline(e)
    }
}

impl vstd::std_specs::convert::FromSpecImpl<PipelineError> for ExecutorError {
    open spec fn obeys_from_spec() -> bool {
        true
    }

    open spec fn from_spec(e: PipelineError) -> Self {
        ExecutorError::Pipeline(e)
    }
}

impl From<GraphError> for ExecutorError {
    fn from(e: GraphError) -> (r: Self)
        ensures
            r == ExecutorError::Graph(e),
    {
        ExecutorError::Graph(e)
    }
}

impl vstd::std_specs::convert::FromSpecImpl<GraphError> for ExecutorError {
    open spec fn obeys_from_spec() -> bool {
        true
    }

    open spec fn from_spec(e: GraphError) -> Self {
        ExecutorError::Graph(e)
    }
}

/// Counters of what an executor did, and the errors it met.
#[derive(Debug)]
pub struct ExecutionStats {
    /// Tasks executed.
    pub tasks_executed: usize,
    /// Buffers processed by pipelines.
    pub buffers_processed: usize,
    /// Pipelines set up.
    pub pipelines_started: usize,
    /// Pipelines stopped.
    pub pipelines_stopped: usize,
    /// Graphs deployed.
    pub graphs_deployed: usize,
    /// Errors encountered.
    pub errors_encountered: usize,
    /// Tasks skipped (their pipeline was gone, failed or not set up).
    pub tasks_skipped: usize,
    /// The errors recorded during execution.
    pub errors: Vec<ExecutionError>,
}

impl ExecutionStats {
    /// Every counter can grow by `n` without overflow.
    pub open spec fn has_room(&self, n: nat) -> bool {
        &&& self.tasks_executed + n <= usize::MAX
        &&& self.buffers_processed + n <= usize::MAX
        &&& self.pipelines_started + n <= usize::MAX
        &&& self.pipelines_stopped + n <= usize::MAX
        &&& self.graphs_deployed + n <= usize::MAX
        &&& self.errors_encountered + n <= usize::MAX
        &&& self.tasks_skipped + n <= usize::MAX
    }

    /// These statistics are `old` with the counters grown by the given
    /// amounts and the same errors.
    pub open spec fn grown(
        &self,
        old: &ExecutionStats,
        executed: nat,
        processed: nat,
        started: nat,
        stopped: nat,
        deployed: nat,
        errors: nat,
        skipped: nat,
    ) -> bool {
        &&& self.tasks_executed == old.tasks_executed + executed
        &&& self.buffers_processed == old.buffers_processed + processed
        &&& self.pipelines_started == old.pipelines_started + started
        &&& self.pipelines_stopped == old.pipelines_stopped + stopped
        &&& self.graphs_deployed == old.graphs_deployed + deployed
        &&& self.errors_encountered == old.errors_encountered + errors
        &&& self.tasks_skipped == old.tasks_skipped + skipped
        &&& self.errors@ == old.errors@
    }

    /// All counters zero, no errors.
    pub open spec fn is_zero(&self) -> bool {
        &&& self.tasks_executed == 0
        &&& self.buffers_processed == 0
        &&& self.pipelines_started == 0
        &&& self.pipelines_stopped == 0
        &&& self.graphs_deployed == 0
        &&& self.errors_encountered == 0
        &&& self.tasks_skipped == 0
        &&& self.errors@.len() == 0
    }

    /// Empty statistics.
    pub fn new() -> (r: Self)
        ensures
            r.is_zero(),
    {
        ExecutionStats {
            tasks_executed: 0,
            buffers_processed: 0,
            pipelines_started: 0,
            pipelines_stopped: 0,
            graphs_deployed: 0,
            errors_encountered: 0,
            tasks_skipped: 0,
            errors: Vec::new(),
        }
    }

    /// Whether any error was recorded.
    pub fn has_errors(&self) -> (r: bool)
        ensures
            r == (self.errors@.len() > 0),
    {
        self.errors.len() > 0
    }

    /// The first recorded error, if any.
    pub fn first_error(&self) -> (r: Option<&ExecutionError>)
        ensures
            self.errors@.len() == 0 ==> r is None,
            self.errors@.len() > 0 ==> r == Some(&self.errors@[0]),
    {
        if self.errors.len() == 0 {
            None
        } else {
            Some(&self.errors[0])
        }
    }

    /// Adds the counters of `other` to these and appends its errors.
    pub fn merge(&mut self, other: ExecutionStats)
        requires
            old(self).tasks_executed + other.tasks_executed <= usize::MAX,
            old(self).buffers_processed + other.buffers_processed <= usize::MAX,
            old(self).pipelines_started + other.pipelines_started <= usize::MAX,
            old(self).pipelines_stopped + other.pipelines_stopped <= usize::MAX,
            old(self).graphs_deployed + other.graphs_deployed <= usize::MAX,
            old(self).errors_encountered + other.errors_encountered <= usize::MAX,
            old(self).tasks_skipped + other.tasks_skipped <= usize::MAX,
        ensures
            final(self).tasks_executed == old(self).tasks_executed + other.tasks_executed,
            final(self).buffers_processed == old(self).buffers_processed + other.buffers_processed,
            final(self).pipelines_started == old(self).pipelines_started + other.pipelines_started,
            final(self).pipelines_stopped == old(self).pipelines_stopped + other.pipelines_stopped,
            final(self).graphs_deployed == old(self).graphs_deployed + other.graphs_deployed,
            final(self).errors_encountered == old(self).errors_encountered
                + other.errors_encountered,
            final(self).tasks_skipped == old(self).tasks_skipped + other.tasks_skipped,
            final(self).errors@ == old(self).errors@ + other.errors@,
    {
        self.tasks_executed = self.tasks_executed + other.tasks_executed;
        self.buffers_processed = self.buffers_processed + other.buffers_processed;
        self.pipelines_started = self.pipelines_started + other.pipelines_started;
        self.pipelines_stopped = self.pipelines_stopped + other.pipelines_stopped;
        self.graphs_deployed = self.graphs_deployed + other.graphs_deployed;
        self.errors_encountered = self.errors_encountered + other.errors_encountered;
        self.tasks_skipped = self.tasks_skipped + other.tasks_skipped;
        let mut rest = other.errors;
        self.errors.append(&mut rest);
    }
}

impl Default for ExecutionStats {
    fn default() -> (r: Self)
        ensures
            r.is_zero(),
    {
        Self::new()
    }
}

} // verus!
