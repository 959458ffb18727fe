//! The tasks processed by the executor.

use crate::executor::QueryId;
use crate::graph::{GraphToDeploy, PipelineGraph};
use crate::pipeline::{Buffer, BufferView, PipelineId};
use vstd::prelude::*;

verus! {

/// A unit of work for the executor.
pub enum Task {
    /// Run a pipeline on a buffer.
    WorkTask { query_id: QueryId, pipeline_id: PipelineId, buffer: Buffer },
    /// Merge a pipeline graph into the running graph and start its pipelines.
    DeployGraph { graph: GraphToDeploy, query_id: QueryId },
    /// Start a source of the running graph.
    StartSource { query_id: QueryId, source_id: PipelineId },
    /// A predecessor (`source_id`) will send no more buffers to `pipeline_id`.
    EndOfStream { query_id: QueryId, source_id: PipelineId, pipeline_id: PipelineId },
    /// Flush, tear down and remove a pipeline, then signal its successors.
    StopPipelineTask { pipeline_id: PipelineId },
    /// A source reported an error.
    SourceError { query_id: QueryId, source_id: PipelineId, error: String },
    /// Stop processing tasks.
    Shutdown,
}

/// The abstract content of a task: ids by their text, buffers by their
/// content.
pub ghost enum TaskView {
    Work { query_id: QueryId, pipeline: Seq<char>, buffer: BufferView },
    Deploy { graph: PipelineGraph, query_id: QueryId },
    StartSource { query_id: QueryId, source: Seq<char> },
    EndOfStream { query_id: QueryId, source: Seq<char>, pipeline: Seq<char> },
    Stop { pipeline: Seq<char> },
    SourceError { query_id: QueryId, source: Seq<char>, error: Seq<char> },
    Shutdown,
}

impl View for Task {
    type V = TaskView;

    open spec fn view(&self) -> TaskView {
        match self {
            Task::WorkTask { query_id, pipeline_id, buffer } => TaskView::Work {
                query_id: *query_id,
                pipeline: pipeline_id@,
                buffer: buffer@,
            },
            Task::DeployGraph { graph, query_id } => TaskView::Deploy {
                graph: graph.graph_spec(),
                query_id: *query_id,
            },
            Task::StartSource { query_id, source_id } => TaskView::StartSource {
                query_id: *query_id,
                source: source_id@,
            },
            Task::EndOfStream { query_id, source_id, pipeline_id } => TaskView::EndOfStream {
                query_id: *query_id,
                source: source_id@,
                pipeline: pipeline_id@,
            },
            Task::StopPipelineTask { pipeline_id } => TaskView::Stop { pipeline: pipeline_id@ },
            Task::SourceError { query_id, source_id, error } => TaskView::SourceError {
                query_id: *query_id,
                source: source_id@,
                error: error@,
            },
            Task::Shutdown => TaskView::Shutdown,
        }
    }
}

/// The views of a list of tasks.
pub open spec fn task_views(s: Seq<Task>) -> Seq<TaskView> {
    s.map_values(|t: Task| t@)
}

/// The kind of a task, without its payload.
#[derive(Debug, Clone, Copy, PartialEq, Eq, Structural)]
pub enum TaskKind {
    WorkTask,
    DeployGraph,
    StartSource,
    EndOfStream,
    StopPipelineTask,
    SourceError,
    Shutdown,
}

impl Task {
    /// The variant of a task, without its payload.
    pub open spec fn kind_spec(&self) -> TaskKind {
        match self {
            Task::WorkTask { .. } => TaskKind::WorkTask,
            Task::DeployGraph { .. } => TaskKind::DeployGraph,
            Task::StartSource { .. } => TaskKind::StartSource,
            Task::EndOfStream { .. } => TaskKind::EndOfStream,
            Task::StopPipelineTask { .. } => TaskKind::StopPipelineTask,
            Task::SourceError { .. } => TaskKind::SourceError,
            Task::Shutdown => TaskKind::Shutdown,
        }
    }

    /// The variant of a task, without its payload.
    pub fn kind(&self) -> (r: TaskKind)
        ensures
            r == self.kind_spec(),
    {
        match self {
            Task::WorkTask { .. } => TaskKind::WorkTask,
            Task::DeployGraph { .. } => TaskKind::DeployGraph,
            Task::StartSource { .. } => TaskKind::StartSource,
            Task::EndOfStream { .. } => TaskKind::EndOfStream,
            Task::StopPipelineTask { .. } => TaskKind::StopPipelineTask,
            Task::SourceError { .. } => TaskKind::SourceError,
            Task::Shutdown => TaskKind::Shutdown,
        }
    }
}

} // verus!
