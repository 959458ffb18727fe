//! The task-driven executor: tasks, queues, execution context, metadata,
//! statistics, and the state machine that processes tasks.
//!
//! The executor state — the running graph, the task queue, the recorded
//! errors, the statistics sender and the delayed submitter — is owned by one
//! `ExecutorShared`; each task is processed by one call of its handler,
//! which decides from the state and the task what to run, what to queue and
//! what to report. Threads, locks and waiting for tasks belong to the
//! program around the library.

pub mod context;
pub mod delayed;
pub mod error;
pub mod metadata;
pub mod model;
pub mod queue;
pub mod stats;
pub mod task;

pub use context::{ExecutorContext, PipelineExecutionContext};
pub use delayed::{DelayedMessage, DelayedTaskSubmitterHandle};
pub use error::{ExecutionStats, ExecutorError};
pub use queue::{FifoQueue, LifoQueue, PriorityQueue, RandomQueue, TaskQueue};
pub use stats::{StatisticsEvent, StatisticsSender, TaskId, WorkerId};

use crate::executor::delayed::DelayedTaskSubmitterHandle as SubmitterHandle;
use crate::executor::error::{EntityType, ExecutionError, ExecutionErrorView, TaskType, error_views};
use crate::executor::model::{
    MetaOp, buffer_views, emit_events, lemma_op_on_all_append, lemma_op_on_all_shape,
    lemma_same_shape_index, lemma_op_on_shape, op_on, op_on_all, repeat, routed, stop_due, stop_tasks,
    with_stop_checked, with_task_done, work_for, after_done, after_routing, after_repeat,
    after_work, WorkOutcome, next_id, outcome_of, after_eos, after_failure, with_eos,
    after_removal, after_stop, after_stop_failure, eos_tasks, remove_from, stop_errors, StopOutcome,
    after_deploy, prepared, prepared_all, with_node, start_events, stop_events, start_source_tasks,
    remove_all, lemma_prepared_shape, lemma_prepared_all_shape, work_step, start_source_step,
    source_error_step, stop_step, deploy_step, task_step, task_room, lemma_live_vertex_ids_len,
};
use crate::executor::metadata::sources_finished;
use crate::executor::stats::EventView;
use crate::executor::task::{Task, TaskView};
use crate::graph::{GraphToDeploy, LifecycleCall, PipelineGraph, VertexView, live_index, live_vertex_ids, merged, no_live, successor_ids};
use crate::pipeline::{Buffer, PipelineError, PipelineId, id_views, pipeline_error_text};
use crate::source::{SourceEmitHandle, SourceError, SourceMessage, source_error_text};
use std::sync::mpsc::Sender;
use vstd::multiset::Multiset;
use vstd::prelude::*;
use vstd::string::*;

verus! {

broadcast use {
    vstd::seq_lib::group_to_multiset_ensures,
    vstd::multiset::group_multiset_axioms,
    vstd::multiset::lemma_multiset_empty_len,
};

/// Identifier of a submitted query.
pub type QueryId = u64;

/// The errors recorded during execution, in order.
pub struct ErrorState {
    errors: Vec<ExecutionError>,
}

impl ErrorState {
    /// The recorded errors, in order.
    pub closed spec fn recorded(&self) -> Seq<ExecutionErrorView> {
        error_views(self.errors@)
    }

    /// No errors recorded.
    pub fn new() -> (r: Self)
        ensures
            r.recorded().len() == 0,
    {
        ErrorState { errors: Vec::new() }
    }

    /// Records `error`.
    pub fn record_error(&mut self, error: ExecutionError)
        ensures
            final(self).recorded() == old(self).recorded().push(error@),
    {
        let ghost e = error@;
        self.errors.push(error);
        proof {
            assert(error_views(self.errors@) =~= error_views(old(self).errors@).push(e));
        }
    }

    /// Whether any error was recorded.
    pub fn has_error(&self) -> (r: bool)
        ensures
            r == (self.recorded().len() > 0),
    {
        self.errors.len() > 0
    }

    /// Copies of the recorded errors, in order.
    pub fn get_errors(&self) -> (r: Vec<ExecutionError>)
        ensures
            error_views(r@) == self.recorded(),
    {
        let mut out: Vec<ExecutionError> = Vec::new();
        let mut k: usize = 0;
        while k < self.errors.len()
            invariant
                k <= self.errors@.len(),
                error_views(out@) == error_views(self.errors@.subrange(0, k as int)),
            decreases self.errors@.len() - k,
        {
            let e = self.errors[k].clone();
            let ghost prev = out@;
            out.push(e);
            proof {
                assert(error_views(out@) =~= error_views(prev).push(e@));
                assert(self.errors@.subrange(0, k as int + 1) =~= self.errors@.subrange(
                    0,
                    k as int,
                ).push(self.errors@[k as int]));
                assert(error_views(self.errors@.subrange(0, k as int + 1)) =~= error_views(
                    self.errors@.subrange(0, k as int),
                ).push(self.errors@[k as int]@));
            }
            k = k + 1;
        }
        proof {
            assert(self.errors@.subrange(0, self.errors@.len() as int) =~= self.errors@);
        }
        out
    }
}

impl Default for ErrorState {
    fn default() -> (r: Self)
        ensures
            r.recorded().len() == 0,
    {
        Self::new()
    }
}

/// The handle through which the rest of the program talks to the executor:
/// it queues work, graphs and stop requests.
pub struct ExecutorHandle<Q: TaskQueue> {
    task_queue: Q,
    graph: PipelineGraph,
    error_state: ErrorState,
    shutting_down: bool,
}

impl<Q: TaskQueue> ExecutorHandle<Q> {
    /// The running graph.
    pub closed spec fn graph_spec(&self) -> PipelineGraph {
        self.graph
    }

    /// The task queue.
    pub closed spec fn queue_spec(&self) -> Q {
        self.task_queue
    }

    /// The queued tasks.
    pub open spec fn tasks(&self) -> Multiset<TaskView> {
        self.queue_spec().tasks()
    }

    /// The recorded errors, in order.
    pub closed spec fn errors(&self) -> Seq<ExecutionErrorView> {
        self.error_state.recorded()
    }

    /// Whether shutdown was requested.
    pub closed spec fn is_shutting_down(&self) -> bool {
        self.shutting_down
    }

    /// The handle's state is consistent.
    pub open spec fn wf(&self) -> bool {
        self.graph_spec().wf()
    }

    /// The abstract content of the running graph.
    pub open spec fn vertices(&self) -> Seq<VertexView> {
        self.graph_spec().vertices()
    }

    /// An executor state with an empty graph, the tasks of `queue`, no
    /// errors, and no shutdown requested.
    pub fn new(queue: Q) -> (r: Self)
        ensures
            r.wf(),
            r.vertices().len() == 0,
            r.queue_spec() == queue,
            r.errors().len() == 0,
            !r.is_shutting_down(),
    {
        ExecutorHandle {
            task_queue: queue,
            graph: PipelineGraph::new(),
            error_state: ErrorState::new(),
            shutting_down: false,
        }
    }

    /// The running graph.
    pub fn graph(&self) -> (r: &PipelineGraph)
        ensures
            *r == self.graph_spec(),
    {
        &self.graph
    }

    /// The recorded errors.
    pub fn error_state(&self) -> (r: &ErrorState)
        ensures
            r.recorded() == self.errors(),
    {
        &self.error_state
    }

    /// Applies `op` to the metadata of the node with id `id`, if it is in the
    /// graph.
    fn apply_meta_op(&mut self, id: &PipelineId, op: MetaOp)
        requires
            old(self).wf(),
        ensures
            final(self).wf(),
            final(self).vertices() == op_on(old(self).vertices(), id@, op),
            final(self).queue_spec() == old(self).queue_spec(),
            final(self).errors() == old(self).errors(),
            final(self).is_shutting_down() == old(self).is_shutting_down(),
    {
        proof {
            self.graph.lemma_vertex_index(id@);
        }
        let i = match self.graph.find(id) {
            Some(i) => i,
            None => {
                return;
            },
        };
        if !self.graph.is_live_at(i) {
            return;
        }
        let ghost g0 = self.graph;
        proof {
            g0.lemma_node_id(i as int);
        }
        let node = self.graph.node_mut(i);
        let md = node.metadata_mut();
        match op {
            MetaOp::CountPending => md.increment_pending(),
            MetaOp::RequestSourceStop => md.request_source_stop(),
            MetaOp::MarkFailed => md.mark_failed(),
            MetaOp::MarkSourceStarted => md.mark_source_started(),
            MetaOp::MarkSetupSucceeded => md.mark_setup_succeeded(),
        }
        proof {
            assert(self.graph.replaced(&g0, i as int, self.graph.node_at(i as int)));
            assert(self.graph.node_at(i as int).id_spec() == g0.node_at(i as int).id_spec());
            self.graph.lemma_vertices_meta(&g0, i as int);
            assert(g0.vertices()[i as int] == g0.vertex(i as int));
        }
    }

    /// Applies `op` to the node of each id of `ids` in turn.
    fn apply_meta_op_all(&mut self, ids: &Vec<PipelineId>, op: MetaOp)
        requires
            old(self).wf(),
        ensures
            final(self).wf(),
            final(self).vertices() == op_on_all(old(self).vertices(), id_views(ids@), op),
            final(self).queue_spec() == old(self).queue_spec(),
            final(self).errors() == old(self).errors(),
            final(self).is_shutting_down() == old(self).is_shutting_down(),
    {
        let mut k: usize = 0;
        while k < ids.len()
            invariant
                self.wf(),
                k <= ids@.len(),
                self.vertices() == op_on_all(old(self).vertices(), id_views(ids@).take(k as int), op),
                self.queue_spec() == old(self).queue_spec(),
                self.errors() == old(self).errors(),
                self.is_shutting_down() == old(self).is_shutting_down(),
            decreases ids@.len() - k,
        {
            self.apply_meta_op(&ids[k], op);
            proof {
                let v = id_views(ids@);
                assert(v.take(k as int + 1).drop_last() =~= v.take(k as int));
                assert(v.take(k as int + 1).last() == ids@[k as int]@);
            }
            k = k + 1;
        }
        proof {
            assert(id_views(ids@).take(ids@.len() as int) =~= id_views(ids@));
        }
    }

    /// Queues a stop task for each id of `ids`, in order.
    fn push_stop_tasks(&mut self, ids: &Vec<PipelineId>)
        requires
            old(self).wf(),
        ensures
            final(self).wf(),
            final(self).tasks() == old(self).tasks().add(stop_tasks(id_views(ids@)).to_multiset()),
            final(self).graph_spec() == old(self).graph_spec(),
            final(self).errors() == old(self).errors(),
            final(self).is_shutting_down() == old(self).is_shutting_down(),
    {
        let mut k: usize = 0;
        proof {
            assert(stop_tasks(id_views(ids@)).take(0).len() == 0);
            assert(self.tasks().add(stop_tasks(id_views(ids@)).take(0).to_multiset()) =~= self.tasks());
        }
        while k < ids.len()
            invariant
                self.wf(),
                k <= ids@.len(),
                self.tasks() == old(self).tasks().add(
                    stop_tasks(id_views(ids@)).take(k as int).to_multiset(),
                ),
                self.graph_spec() == old(self).graph_spec(),
                self.errors() == old(self).errors(),
                self.is_shutting_down() == old(self).is_shutting_down(),
            decreases ids@.len() - k,
        {
            let id = ids[k].clone();
            self.task_queue.push(Task::StopPipelineTask { pipeline_id: id });
            proof {
                let st = stop_tasks(id_views(ids@));
                assert(st.take(k as int + 1) =~= st.take(k as int).push(st[k as int]));
                assert(old(self).tasks().add(st.take(k as int + 1).to_multiset()) =~= old(
                    self,
                ).tasks().add(st.take(k as int).to_multiset()).insert(st[k as int]));
            }
            k = k + 1;
        }
        proof {
            assert(stop_tasks(id_views(ids@)).take(ids@.len() as int) =~= stop_tasks(
                id_views(ids@),
            ));
        }
    }

    /// Counts one pending task of the node with id `id` as done and checks
    /// it for a due stop; returns whether the stop is due (the caller then
    /// queues the stop task).
    fn finish_pending(&mut self, id: &PipelineId) -> (stop: bool)
        requires
            old(self).wf(),
        ensures
            final(self).wf(),
            final(self).queue_spec() == old(self).queue_spec(),
            final(self).errors() == old(self).errors(),
            final(self).is_shutting_down() == old(self).is_shutting_down(),
            match live_index(old(self).vertices(), id@) {
                None => !stop && final(self).vertices() == old(self).vertices(),
                Some(i) => {
                    let m = with_task_done(old(self).vertices()[i].meta);
                    &&& stop == stop_due(m)
                    &&& final(self).vertices() == old(self).vertices().update(
                        i,
                        old(self).vertices()[i].with_meta(with_stop_checked(m)),
                    )
                },
            },
    {
        proof {
            self.graph.lemma_vertex_index(id@);
        }
        let i = match self.graph.find(id) {
            Some(i) => i,
            None => {
                return false;
            },
        };
        if !self.graph.is_live_at(i) {
            return false;
        }
        let ghost g0 = self.graph;
        proof {
            g0.lemma_node_id(i as int);
        }
        let node = self.graph.node_mut(i);
        let md = node.metadata_mut();
        let pending = md.decrement_pending();
        let stop = if md.should_terminate() && pending == 0 {
            !md.claim_stop_task()
        } else {
            false
        };
        proof {
            assert(self.graph.replaced(&g0, i as int, self.graph.node_at(i as int)));
            assert(self.graph.node_at(i as int).id_spec() == g0.node_at(i as int).id_spec());
            self.graph.lemma_vertices_meta(&g0, i as int);
            assert(g0.vertices()[i as int] == g0.vertex(i as int));
        }
        stop
    }

    /// Counts an end-of-stream signal for the node with id `id`; returns
    /// whether its stop is now due (the caller then queues the stop task).
    fn count_end_of_stream(&mut self, id: &PipelineId) -> (stop: bool)
        requires
            old(self).wf(),
        ensures
            final(self).wf(),
            final(self).queue_spec() == old(self).queue_spec(),
            final(self).errors() == old(self).errors(),
            final(self).is_shutting_down() == old(self).is_shutting_down(),
            match live_index(old(self).vertices(), id@) {
                None => !stop && final(self).vertices() == old(self).vertices(),
                Some(i) => {
                    let m = with_eos(old(self).vertices()[i].meta);
                    &&& stop == (sources_finished(m) && stop_due(m))
                    &&& final(self).vertices() == old(self).vertices().update(
                        i,
                        old(self).vertices()[i].with_meta(
                            if sources_finished(m) {
                                with_stop_checked(m)
                            } else {
                                m
                            },
                        ),
                    )
                },
            },
    {
        proof {
            self.graph.lemma_vertex_index(id@);
        }
        let i = match self.graph.find(id) {
            Some(i) => i,
            None => {
                return false;
            },
        };
        if !self.graph.is_live_at(i) {
            return false;
        }
        let ghost g0 = self.graph;
        proof {
            g0.lemma_node_id(i as int);
        }
        let node = self.graph.node_mut(i);
        let md = node.metadata_mut();
        let eos_count = md.increment_eos();
        let expected = md.get_expected_sources();
        let stop = if expected > 0 && eos_count >= expected {
            md.request_termination();
            if md.should_terminate() && md.get_pending() == 0 {
                !md.claim_stop_task()
            } else {
                false
            }
        } else {
            false
        };
        proof {
            assert(self.graph.replaced(&g0, i as int, self.graph.node_at(i as int)));
            assert(self.graph.node_at(i as int).id_spec() == g0.node_at(i as int).id_spec());
            self.graph.lemma_vertices_meta(&g0, i as int);
            assert(g0.vertices()[i as int] == g0.vertex(i as int));
        }
        stop
    }

    /// Prepares the node with id `id` to run: sets its expected number of
    /// sources to its number of predecessors, runs its `setup` and, on
    /// success, marks it as set up. `None` when no node has that id.
    fn set_up_pipeline(&mut self, id: &PipelineId, worker_id: usize, worker_count: usize) -> (r:
        Option<Result<(), PipelineError>>)
        requires
            old(self).wf(),
        ensures
            final(self).wf(),
            r is None <==> live_index(old(self).vertices(), id@) is None,
            final(self).vertices() == prepared(
                old(self).vertices(),
                id@,
                r matches Some(Ok(())),
            ),
            final(self).queue_spec() == old(self).queue_spec(),
            final(self).errors() == old(self).errors(),
            final(self).is_shutting_down() == old(self).is_shutting_down(),
    {
        proof {
            self.graph.lemma_vertex_index(id@);
        }
        let i = match self.graph.find(id) {
            Some(i) => i,
            None => {
                return None;
            },
        };
        if !self.graph.is_live_at(i) {
            return None;
        }
        let expected = self.graph.count_predecessors_at(i);
        let mut context = ExecutorContext::new(id.clone(), worker_id, worker_count);
        let ghost g0 = self.graph;
        proof {
            g0.lemma_node_id(i as int);
            assert(g0.vertices()[i as int] == g0.vertex(i as int));
        }
        let node = self.graph.node_mut(i);
        node.metadata_mut().set_expected_sources(expected);
        let result = node.setup(&mut context);
        if result.is_ok() {
            node.metadata_mut().mark_setup_succeeded();
        }
        proof {
            assert(self.graph.replaced(&g0, i as int, self.graph.node_at(i as int)));
            assert(self.graph.node_at(i as int).id_spec() == g0.node_at(i as int).id_spec());
            self.graph.lemma_vertices_meta(&g0, i as int);
        }
        Some(result)
    }

    /// Runs `teardown` on the node with id `id`, if there is one; its
    /// result is not acted on.
    fn tear_down_pipeline(&mut self, id: &PipelineId, worker_id: usize, worker_count: usize)
        requires
            old(self).wf(),
        ensures
            final(self).wf(),
            ({
                let g0 = old(self).graph_spec();
                let g1 = final(self).graph_spec();
                let i = g0.index_of(id@);
                if g0.has_live(id@) {
                    &&& g1.same_except(&g0, i)
                    &&& g1.is_live(i)
                    &&& g1.node_at(i).same_frame(&g0.node_at(i))
                    &&& g1.node_at(i).calls() == g0.node_at(i).calls().push(LifecycleCall::Teardown)
                } else {
                    g1 == g0
                }
            }),
            final(self).vertices() == old(self).vertices(),
            final(self).queue_spec() == old(self).queue_spec(),
            final(self).errors() == old(self).errors(),
            final(self).is_shutting_down() == old(self).is_shutting_down(),
    {
        let i = match self.graph.find(id) {
            Some(i) => i,
            None => {
                return;
            },
        };
        if !self.graph.is_live_at(i) {
            return;
        }
        let mut context = ExecutorContext::new(id.clone(), worker_id, worker_count);
        let ghost g0 = self.graph;
        proof {
            g0.lemma_node_id(i as int);
        }
        let node = self.graph.node_mut(i);
        let _ = node.teardown(&mut context);
        proof {
            self.graph.lemma_vertices_meta(&g0, i as int);
            assert(self.graph.vertices() =~= g0.vertices());
        }
    }

    /// Queues `task` as it is.
    pub fn submit_task(&mut self, task: Task)
        requires
            old(self).wf(),
        ensures
            final(self).wf(),
            final(self).tasks() == old(self).tasks().insert(task@),
            final(self).graph_spec() == old(self).graph_spec(),
            final(self).errors() == old(self).errors(),
            final(self).is_shutting_down() == old(self).is_shutting_down(),
    {
        self.task_queue.push(task);
    }

    /// Queues `buffer` for `pipeline_id` and counts it as pending on the
    /// pipeline's node, if the pipeline is in the graph.
    fn enqueue_work_task(&mut self, query_id: QueryId, pipeline_id: &PipelineId, buffer: Buffer)
        requires
            old(self).wf(),
        ensures
            final(self).wf(),
            final(self).vertices() == op_on(old(self).vertices(), pipeline_id@, MetaOp::CountPending),
            final(self).tasks() == if live_index(old(self).vertices(), pipeline_id@) is Some {
                old(self).tasks().insert(
                    TaskView::Work { query_id, pipeline: pipeline_id@, buffer: buffer@ },
                )
            } else {
                old(self).tasks()
            },
            final(self).errors() == old(self).errors(),
            final(self).is_shutting_down() == old(self).is_shutting_down(),
    {
        proof {
            self.graph.lemma_vertex_index(pipeline_id@);
        }
        let live = match self.graph.find(pipeline_id) {
            Some(i) => self.graph.is_live_at(i),
            None => false,
        };
        if live {
            self.apply_meta_op(pipeline_id, MetaOp::CountPending);
            let id = pipeline_id.clone();
            self.task_queue.push(Task::WorkTask { query_id, pipeline_id: id, buffer });
        }
    }

    /// Queues `buffer` for `pipeline_id`, counting it as pending on the
    /// pipeline's node if it is in the graph. (A task for a pipeline that is
    /// not in the graph is skipped when it is processed.) Always succeeds.
    pub fn emit(&mut self, pipeline_id: PipelineId, buffer: Buffer) -> (r: Result<(), ExecutorError>)
        requires
            old(self).wf(),
        ensures
            r is Ok,
            final(self).wf(),
            final(self).tasks() == old(self).tasks().insert(
                TaskView::Work { query_id: 0, pipeline: pipeline_id@, buffer: buffer@ },
            ),
            final(self).vertices() == op_on(old(self).vertices(), pipeline_id@, MetaOp::CountPending),
            final(self).errors() == old(self).errors(),
            final(self).is_shutting_down() == old(self).is_shutting_down(),
    {
        self.apply_meta_op(&pipeline_id, MetaOp::CountPending);
        self.task_queue.push(Task::WorkTask { query_id: 0, pipeline_id, buffer });
        Ok(())
    }

    /// Queues `graph` for deployment. Always succeeds.
    pub fn deploy_graph(&mut self, graph: PipelineGraph) -> (r: Result<(), ExecutorError>)
        requires
            old(self).wf(),
            graph.wf(),
        ensures
            r is Ok,
            final(self).wf(),
            final(self).tasks() == old(self).tasks().insert(
                TaskView::Deploy { graph, query_id: 0 },
            ),
            final(self).graph_spec() == old(self).graph_spec(),
            final(self).errors() == old(self).errors(),
            final(self).is_shutting_down() == old(self).is_shutting_down(),
    {
        self.task_queue.push(Task::DeployGraph { graph: GraphToDeploy::new(graph), query_id: 0 });
        Ok(())
    }

    /// Queues the signal that `source_id` will send no more buffers to
    /// `pipeline_id`. Always succeeds.
    pub fn end_of_stream(&mut self, source_id: PipelineId, pipeline_id: PipelineId) -> (r: Result<
        (),
        ExecutorError,
    >)
        requires
            old(self).wf(),
        ensures
            r is Ok,
            final(self).wf(),
            final(self).tasks() == old(self).tasks().insert(
                TaskView::EndOfStream { query_id: 0, source: source_id@, pipeline: pipeline_id@ },
            ),
            final(self).graph_spec() == old(self).graph_spec(),
            final(self).errors() == old(self).errors(),
            final(self).is_shutting_down() == old(self).is_shutting_down(),
    {
        self.task_queue.push(Task::EndOfStream { query_id: 0, source_id, pipeline_id });
        Ok(())
    }

    /// Asks the given sources to stop and queues a stop task for each of
    /// them, in order. Always succeeds.
    pub fn stop_pipelines(&mut self, source_ids: &Vec<PipelineId>) -> (r: Result<(), ExecutorError>)
        requires
            old(self).wf(),
        ensures
            r is Ok,
            final(self).wf(),
            final(self).vertices() == op_on_all(
                old(self).vertices(),
                id_views(source_ids@),
                MetaOp::RequestSourceStop,
            ),
            final(self).tasks() == old(self).tasks().add(
                stop_tasks(id_views(source_ids@)).to_multiset(),
            ),
            final(self).errors() == old(self).errors(),
            final(self).is_shutting_down() == old(self).is_shutting_down(),
    {
        self.apply_meta_op_all(source_ids, MetaOp::RequestSourceStop);
        self.push_stop_tasks(source_ids);
        Ok(())
    }

    /// Requests shutdown: the executor shuts down once every pipeline has
    /// stopped. A stop task is queued for each node without predecessors;
    /// when there is none, a shutdown task is queued. Always succeeds.
    pub fn shutdown(&mut self) -> (r: Result<(), ExecutorError>)
        requires
            old(self).wf(),
        ensures
            r is Ok,
            final(self).wf(),
            final(self).is_shutting_down(),
            final(self).tasks() == if old(self).graph_spec().source_ids().len() == 0 {
                old(self).tasks().insert(TaskView::Shutdown)
            } else {
                old(self).tasks().add(stop_tasks(old(self).graph_spec().source_ids()).to_multiset())
            },
            final(self).graph_spec() == old(self).graph_spec(),
            final(self).errors() == old(self).errors(),
    {
        self.shutting_down = true;
        let all_sources = self.graph.get_sources();
        if all_sources.len() == 0 {
            self.task_queue.push(Task::Shutdown);
        } else {
            self.push_stop_tasks(&all_sources);
        }
        Ok(())
    }

    /// Marks the given pipelines as failed, asks the given sources to stop,
    /// and queues a stop task for each source, in order. Always succeeds.
    pub fn terminate_pipelines(
        &mut self,
        pipeline_ids: &Vec<PipelineId>,
        source_ids: &Vec<PipelineId>,
    ) -> (r: Result<(), ExecutorError>)
        requires
            old(self).wf(),
        ensures
            r is Ok,
            final(self).wf(),
            final(self).vertices() == op_on_all(
                op_on_all(old(self).vertices(), id_views(pipeline_ids@), MetaOp::MarkFailed),
                id_views(source_ids@),
                MetaOp::RequestSourceStop,
            ),
            final(self).tasks() == old(self).tasks().add(
                stop_tasks(id_views(source_ids@)).to_multiset(),
            ),
            final(self).errors() == old(self).errors(),
            final(self).is_shutting_down() == old(self).is_shutting_down(),
    {
        self.apply_meta_op_all(pipeline_ids, MetaOp::MarkFailed);
        self.apply_meta_op_all(source_ids, MetaOp::RequestSourceStop);
        if source_ids.len() > 0 {
            self.push_stop_tasks(source_ids);
        } else {
            proof {
                assert(stop_tasks(id_views(source_ids@)).len() == 0);
                assert(self.tasks().add(Multiset::empty()) =~= self.tasks());
            }
        }
        Ok(())
    }
}

/// The abstract state of the executor.
pub ghost struct ExecView {
    /// The running graph.
    pub vertices: Seq<VertexView>,
    /// The queued tasks.
    pub tasks: Multiset<TaskView>,
    /// The recorded errors, in order.
    pub errors: Seq<ExecutionErrorView>,
    /// The statistics events emitted, in order.
    pub events: Seq<EventView>,
    /// The tasks handed to the delayed submitter, with their delays, if
    /// there is one.
    pub delayed: Option<Seq<(TaskView, u64)>>,
    /// The id of the next executed task.
    pub next_task_id: u64,
    /// Whether shutdown was requested.
    pub shutting_down: bool,
    /// The number of workers.
    pub worker_count: usize,
    /// Whether a shutdown task was processed.
    pub shutdown_complete: bool,
}

/// The executor: the state shared by its workers and the handlers that
/// process tasks.
pub struct ExecutorShared<Q: TaskQueue> {
    handle: ExecutorHandle<Q>,
    source_sender: Sender<SourceMessage>,
    delayed_submitter_handle: Option<SubmitterHandle>,
    stats_sender: StatisticsSender,
    next_task_id: u64,
    worker_count: usize,
    shutdown_complete: bool,
}

impl<Q: TaskQueue> View for ExecutorShared<Q> {
    type V = ExecView;

    closed spec fn view(&self) -> ExecView {
        ExecView {
            vertices: self.handle.vertices(),
            tasks: self.handle.tasks(),
            errors: self.handle.errors(),
            events: self.stats_sender.log(),
            delayed: match self.delayed_submitter_handle {
                Some(h) => Some(h.log()),
                None => None,
            },
            next_task_id: self.next_task_id,
            shutting_down: self.handle.is_shutting_down(),
            worker_count: self.worker_count,
            shutdown_complete: self.shutdown_complete,
        }
    }
}

impl<Q: TaskQueue> ExecutorShared<Q> {
    /// The executor's state is consistent.
    pub closed spec fn wf(&self) -> bool {
        &&& self.handle.wf()
        &&& self.worker_count >= 1
    }

    /// The handle part of the state.
    pub closed spec fn handle_spec(&self) -> ExecutorHandle<Q> {
        self.handle
    }

    /// An executor with an empty graph, the tasks of `queue`, no errors, and
    /// task ids starting at 1; at least one worker.
    pub fn new(
        queue: Q,
        source_sender: Sender<SourceMessage>,
        stats_sender: StatisticsSender,
        worker_count: usize,
        delayed_submitter_handle: Option<SubmitterHandle>,
    ) -> (r: Self)
        ensures
            r.wf(),
            r@.vertices.len() == 0,
            r@.tasks == queue.tasks(),
            r@.errors.len() == 0,
            r@.events == stats_sender.log(),
            r@.delayed == match delayed_submitter_handle {
                Some(h) => Some(h.log()),
                None => None,
            },
            r@.next_task_id == 1,
            !r@.shutting_down,
            r@.worker_count == if worker_count == 0 {
                1
            } else {
                worker_count
            },
            !r@.shutdown_complete,
    {
        ExecutorShared {
            handle: ExecutorHandle::new(queue),
            source_sender,
            delayed_submitter_handle,
            stats_sender,
            next_task_id: 1,
            worker_count: if worker_count == 0 {
                1
            } else {
                worker_count
            },
            shutdown_complete: false,
        }
    }

    /// The handle part of the state, through which work is queued.
    pub fn handle(&self) -> (r: &ExecutorHandle<Q>)
        ensures
            *r == self.handle_spec(),
    {
        &self.handle
    }

    /// Mutable access to the handle part of the state.
    pub fn handle_mut(&mut self) -> (r: &mut ExecutorHandle<Q>)
        ensures
            *r == old(self).handle_spec(),
            final(self).handle_spec() == *final(r),
            final(self)@ == (ExecView {
                vertices: final(r).vertices(),
                tasks: final(r).tasks(),
                errors: final(r).errors(),
                shutting_down: final(r).is_shutting_down(),
                ..old(self)@
            }),
            final(self).wf() == (final(r).wf() && old(self)@.worker_count >= 1),
    {
        &mut self.handle
    }

    /// Drops every node of the running graph, releasing the resources of
    /// its pipelines and sources; used once the workers have stopped.
    pub fn clear_graph(&mut self)
        requires
            old(self).wf(),
        ensures
            final(self).wf(),
            final(self)@ == (ExecView { vertices: Seq::empty(), ..old(self)@ }),
    {
        self.handle.graph = PipelineGraph::new();
        assert(self.handle.graph.vertices() =~= Seq::<VertexView>::empty());
    }

    /// Whether a shutdown task was processed.
    pub fn is_shutdown_complete(&self) -> (r: bool)
        ensures
            r == self@.shutdown_complete,
    {
        self.shutdown_complete
    }

    /// Counts one pending task of `pipeline_id` as done; when its
    /// termination was requested and no work is left, queues its stop task
    /// (at most once).
    fn decrement_ref_and_check_stop(&mut self, pipeline_id: &PipelineId)
        requires
            old(self).wf(),
        ensures
            final(self).wf(),
            final(self)@ == after_done(old(self)@, pipeline_id@),
    {
        let stop = self.handle.finish_pending(pipeline_id);
        if stop {
            let id = pipeline_id.clone();
            self.handle.task_queue.push(Task::StopPipelineTask { pipeline_id: id });
        }
    }

    /// Routes `buffers` from `source_id` to its successors: for each buffer
    /// in turn and each successor in connection order, a work task for the
    /// successor (if it is in the graph, which then counts it as pending),
    /// preceded, when a task id is given, by a `TaskEmit` event.
    fn route_buffers_internal(
        &mut self,
        query_id: QueryId,
        source_id: &PipelineId,
        buffers: Vec<Buffer>,
        stats_task_id: Option<TaskId>,
    )
        requires
            old(self).wf(),
        ensures
            final(self).wf(),
            final(self)@ == after_routing(
                old(self)@,
                query_id,
                source_id@,
                buffer_views(buffers@),
                stats_task_id,
            ),
    {
        let ghost vs = old(self)@.vertices;
        let ghost names = successor_ids(vs, source_id@);
        let ghost bufs = buffer_views(buffers@);
        let ghost ev = match stats_task_id {
            Some(t) => emit_events(query_id, source_id@, names, t),
            None => Seq::empty(),
        };
        let successors = self.handle.graph.get_successors(source_id);
        proof {
            self.handle.graph.lemma_successor_ids(source_id@);
            self.handle.graph.lemma_vertex_index(source_id@);
            assert(id_views(successors@) == names);
            assert(repeat(names, 0) =~= Seq::<Seq<char>>::empty());
            assert(routed(vs, query_id, names, bufs.take(0)) =~= Seq::<TaskView>::empty());
            assert(old(self)@.tasks.add(Seq::<TaskView>::empty().to_multiset()) =~= old(self)@.tasks);
            assert(old(self)@.events + repeat(ev, 0) =~= old(self)@.events);
        }
        let mut k: usize = 0;
        while k < buffers.len()
            invariant
                self.wf(),
                k <= buffers@.len(),
                bufs == buffer_views(buffers@),
                id_views(successors@) == names,
                names == successor_ids(vs, source_id@),
                ev == match stats_task_id {
                    Some(t) => emit_events(query_id, source_id@, names, t),
                    None => Seq::<EventView>::empty(),
                },
                self@ == (ExecView {
                    vertices: op_on_all(vs, repeat(names, k as nat), MetaOp::CountPending),
                    tasks: old(self)@.tasks.add(routed(vs, query_id, names, bufs.take(k as int)).to_multiset()),
                    events: match stats_task_id {
                        Some(_) => old(self)@.events + repeat(ev, k as nat),
                        None => old(self)@.events,
                    },
                    ..old(self)@
                }),
            decreases buffers@.len() - k,
        {
            let mut j: usize = 0;
            proof {
                assert(names.take(0) =~= Seq::<Seq<char>>::empty());
                assert(repeat(names, k as nat) + names.take(0) =~= repeat(names, k as nat));
                assert(work_for(vs, query_id, names.take(0), bufs[k as int]) =~= Seq::<TaskView>::empty());
                assert(routed(vs, query_id, names, bufs.take(k as int)) + Seq::<TaskView>::empty()
                    =~= routed(vs, query_id, names, bufs.take(k as int)));
                assert(repeat(ev, k as nat) + ev.take(0) =~= repeat(ev, k as nat));
            }
            while j < successors.len()
                invariant
                    self.wf(),
                    k < buffers@.len(),
                    j <= successors@.len(),
                    bufs == buffer_views(buffers@),
                    id_views(successors@) == names,
                    names == successor_ids(vs, source_id@),
                    ev == match stats_task_id {
                        Some(t) => emit_events(query_id, source_id@, names, t),
                        None => Seq::<EventView>::empty(),
                    },
                    self@ == (ExecView {
                        vertices: op_on_all(
                            vs,
                            repeat(names, k as nat) + names.take(j as int),
                            MetaOp::CountPending,
                        ),
                        tasks: old(self)@.tasks.add(
                            (routed(vs, query_id, names, bufs.take(k as int)) + work_for(
                                vs,
                                query_id,
                                names.take(j as int),
                                bufs[k as int],
                            )).to_multiset(),
                        ),
                        events: match stats_task_id {
                            Some(_) => old(self)@.events + (repeat(ev, k as nat) + ev.take(j as int)),
                            None => old(self)@.events,
                        },
                        ..old(self)@
                    }),
                decreases successors@.len() - j,
            {
                let ghost before = self@;
                let ghost pre = repeat(names, k as nat) + names.take(j as int);
                let ghost done = routed(vs, query_id, names, bufs.take(k as int)) + work_for(
                    vs,
                    query_id,
                    names.take(j as int),
                    bufs[k as int],
                );
                let successor_id = &successors[j];
                assert(successor_id@ == names[j as int]);
                match stats_task_id {
                    Some(t) => {
                        self.stats_sender.task_emit(0, query_id, source_id.clone(), successor_id.clone(), t);
                    },
                    None => {},
                }
                let buffer = buffers[k].clone();
                proof {
                    lemma_op_on_all_shape(vs, pre, MetaOp::CountPending);
                    lemma_same_shape_index(op_on_all(vs, pre, MetaOp::CountPending), vs);
                }
                self.handle.enqueue_work_task(query_id, successor_id, buffer);
                proof {
                    let pre1 = repeat(names, k as nat) + names.take(j as int + 1);
                    assert(pre1.drop_last() =~= pre);
                    assert(pre1.last() == names[j as int]);
                    let nt1 = names.take(j as int + 1);
                    assert(nt1.drop_last() =~= names.take(j as int));
                    assert(nt1.last() == names[j as int]);
                    let w0 = work_for(vs, query_id, names.take(j as int), bufs[k as int]);
                    let w1 = work_for(vs, query_id, nt1, bufs[k as int]);
                    assert(bufs[k as int] == buffers@[k as int]@);
                    if live_index(vs, names[j as int]) is Some {
                        let t = TaskView::Work { query_id, pipeline: names[j as int], buffer: bufs[k as int] };
                        assert(w1 == w0.push(t));
                        assert(routed(vs, query_id, names, bufs.take(k as int)) + w1 =~= done.push(t));
                        assert(old(self)@.tasks.add(done.push(t).to_multiset()) =~= old(self)@.tasks.add(
                            done.to_multiset(),
                        ).insert(t));
                    } else {
                        assert(w1 == w0);
                    }
                    match stats_task_id {
                        Some(tid) => {
                            assert(ev[j as int] == (EventView::TaskEmit {
                                worker_id: 0,
                                query_id,
                                from: source_id@,
                                to: names[j as int],
                                task_id: tid,
                            }));
                            assert(repeat(ev, k as nat) + ev.take(j as int + 1) =~= (repeat(ev, k as nat)
                                + ev.take(j as int)).push(ev[j as int]));
                            assert(old(self)@.events + (repeat(ev, k as nat) + ev.take(j as int + 1))
                                =~= (old(self)@.events + (repeat(ev, k as nat) + ev.take(j as int))).push(
                                ev[j as int],
                            ));
                        },
                        None => {},
                    }
                }
                j = j + 1;
            }
            proof {
                assert(names.take(names.len() as int) =~= names);
                assert(ev.take(ev.len() as int) =~= ev);
                assert(bufs.take(k as int + 1).drop_last() =~= bufs.take(k as int));
                assert(bufs.take(k as int + 1).last() == bufs[k as int]);
                assert(repeat(names, k as nat + 1) == repeat(names, k as nat) + names);
                assert(repeat(ev, k as nat + 1) == repeat(ev, k as nat) + ev);
                assert(routed(vs, query_id, names, bufs.take(k as int + 1)) == routed(
                    vs,
                    query_id,
                    names,
                    bufs.take(k as int),
                ) + work_for(vs, query_id, names, bufs[k as int]));
            }
            k = k + 1;
        }
        proof {
            assert(bufs.take(buffers@.len() as int) =~= bufs);
        }
    }

    /// Acts on the outcome of running `pipeline_id` on a work task: emits
    /// `TaskExecutionComplete`; on success queues (or hands to the delayed
    /// submitter) the re-execution request, routes the returned and then
    /// the emitted buffers, and counts the buffer as processed; on failure
    /// records the error, marks the pipeline as failed and emits
    /// `PipelineExecutionError`. Either way the task then counts as done.
    pub fn finish_work_task(
        &mut self,
        worker_id: usize,
        query_id: QueryId,
        pipeline_id: &PipelineId,
        task_id: TaskId,
        result: Result<Vec<Buffer>, PipelineError>,
        context: ExecutorContext,
        stats: &mut ExecutionStats,
    )
        requires
            old(self).wf(),
            old(stats).has_room(1),
        ensures
            final(self).wf(),
            final(self)@ == after_work(
                old(self)@,
                worker_id as u64,
                query_id,
                pipeline_id@,
                task_id,
                outcome_of(result, context),
            ),
            result is Ok ==> final(stats).grown(old(stats), 0, 1, 0, 0, 0, 0, 0),
            result is Err ==> final(stats).grown(old(stats), 0, 0, 0, 0, 0, 1, 0),
    {
        let ghost outcome = outcome_of(result, context);
        self.stats_sender.task_execution_complete(worker_id as u64, query_id, pipeline_id.clone(), task_id);
        match result {
            Ok(returned) => {
                stats.buffers_processed = stats.buffers_processed + 1;
                let mut context = context;
                match context.take_repeat_buffer() {
                    Some(repeat_buffer) => {
                        let delay_ms = context.get_repeat_delay_ms();
                        self.handle.apply_meta_op(pipeline_id, MetaOp::CountPending);
                        let repeat_task = Task::WorkTask {
                            query_id,
                            pipeline_id: pipeline_id.clone(),
                            buffer: repeat_buffer,
                        };
                        if delay_ms == 0 {
                            self.handle.task_queue.push(repeat_task);
                        } else {
                            if let Some(h) = &mut self.delayed_submitter_handle {
                                let _ = h.submit_delayed(repeat_task, delay_ms);
                            }
                        }
                    },
                    None => {},
                }
                let mut all_buffers = returned;
                let mut emitted = context.take_emitted_buffers();
                let ghost out_views = buffer_views(all_buffers@);
                let ghost em_views = buffer_views(emitted@);
                all_buffers.append(&mut emitted);
                proof {
                    assert(buffer_views(all_buffers@) =~= out_views + em_views);
                }
                self.route_buffers_with_stats(query_id, pipeline_id, all_buffers, task_id);
                self.decrement_ref_and_check_stop(pipeline_id);
            },
            Err(e) => {
                let message = e.to_string();
                self.handle.error_state.record_error(
                    ExecutionError {
                        entity_id: pipeline_id.clone(),
                        entity_type: EntityType::Pipeline,
                        error: message,
                        task_type: TaskType::WorkTask,
                    },
                );
                stats.errors_encountered = stats.errors_encountered + 1;
                self.handle.apply_meta_op(pipeline_id, MetaOp::MarkFailed);
                self.stats_sender.pipeline_execution_error(worker_id as u64, pipeline_id.clone());
                self.decrement_ref_and_check_stop(pipeline_id);
            },
        }
    }

    /// Processes a work task for a pipeline that is in the graph.
    ///
    /// A failed pipeline skips the buffer (which counts as done); a pipeline
    /// that was not set up skips it; a source passes it on to its
    /// successors. Any other pipeline runs on the buffer under a fresh task
    /// id, announced by `TaskExecutionStart`, and the outcome is handled as
    /// `finish_work_task` describes.
    pub fn execute_work_task(
        &mut self,
        worker_id: usize,
        query_id: QueryId,
        pipeline_id: &PipelineId,
        buffer: Buffer,
        stats: &mut ExecutionStats,
    )
        requires
            old(self).wf(),
            old(stats).has_room(1),
            live_index(old(self)@.vertices, pipeline_id@) is Some,
        ensures
            final(self).wf(),
            work_step(
                old(self)@,
                *old(stats),
                worker_id as u64,
                query_id,
                pipeline_id@,
                buffer@,
                final(self)@,
                *final(stats),
            ),
    {
        proof {
            self.handle.graph.lemma_vertex_index(pipeline_id@);
        }
        let i = match self.handle.graph.find(pipeline_id) {
            Some(i) => i,
            None => {
                return;
            },
        };
        proof {
            assert(self@.vertices[i as int] == self.handle.graph.vertex(i as int));
        }
        let failed = self.handle.graph.node(i).metadata().is_failed();
        if failed {
            stats.tasks_skipped = stats.tasks_skipped + 1;
            self.decrement_ref_and_check_stop(pipeline_id);
            return;
        }
        if !self.handle.graph.node(i).metadata().is_setup_succeeded() {
            stats.tasks_skipped = stats.tasks_skipped + 1;
            return;
        }
        if self.handle.graph.is_source_at(i) {
            stats.buffers_processed = stats.buffers_processed + 1;
            let mut buffers = Vec::new();
            buffers.push(buffer);
            proof {
                assert(buffer_views(buffers@) =~= seq![buffer@]);
            }
            self.route_buffers(query_id, pipeline_id, buffers);
            return;
        }
        let task_id = self.next_task_id;
        self.next_task_id = if task_id == u64::MAX {
            0
        } else {
            task_id + 1
        };
        self.stats_sender.task_execution_start(worker_id as u64, query_id, pipeline_id.clone(), task_id);
        let mut context = ExecutorContext::with_query_id(
            pipeline_id.clone(),
            query_id,
            worker_id,
            self.worker_count,
        );
        let ghost g0 = self.handle.graph;
        proof {
            g0.lemma_node_id(i as int);
        }
        let node = self.handle.graph.node_mut(i);
        let result = node.execute(buffer, &mut context);
        proof {
            self.handle.graph.lemma_vertices_meta(&g0, i as int);
            assert(self.handle.graph.vertices() =~= g0.vertices());
        }
        let ghost o = outcome_of(result, context);
        self.finish_work_task(worker_id, query_id, pipeline_id, task_id, result, context, stats);
        proof {
            assert(o is Done ==> result is Ok);
        }
    }

    /// Processes an end-of-stream signal from `source_id` to `pipeline_id`:
    /// the signal is counted; once every expected source has signalled,
    /// termination is requested, and the stop task is queued (at most once)
    /// if no work is pending. A signal for a pipeline that is not in the
    /// graph is ignored.
    pub fn execute_eos_task(&mut self, source_id: &PipelineId, pipeline_id: &PipelineId)
        requires
            old(self).wf(),
        ensures
            final(self).wf(),
            final(self)@ == after_eos(old(self)@, pipeline_id@),
    {
        let stop = self.handle.count_end_of_stream(pipeline_id);
        if stop {
            let id = pipeline_id.clone();
            self.handle.task_queue.push(Task::StopPipelineTask { pipeline_id: id });
        }
    }

    /// Records that `source_id` failed with `error`: the error is recorded
    /// and counted, the source is marked as failed and
    /// `PipelineExecutionError` is emitted. An error of a source that is not
    /// in the graph is ignored.
    pub fn execute_source_error_task(
        &mut self,
        worker_id: usize,
        source_id: &PipelineId,
        error: &str,
        stats: &mut ExecutionStats,
    )
        requires
            old(self).wf(),
            old(stats).has_room(1),
        ensures
            final(self).wf(),
            source_error_step(
                old(self)@,
                *old(stats),
                worker_id as u64,
                source_id@,
                error@,
                final(self)@,
                *final(stats),
            ),
    {
        proof {
            self.handle.graph.lemma_vertex_index(source_id@);
        }
        match self.handle.graph.get_pipeline(source_id) {
            Some(_) => {},
            None => {
                return;
            },
        }
        self.handle.error_state.record_error(
            ExecutionError {
                entity_id: source_id.clone(),
                entity_type: EntityType::Source,
                error: String::from_str(error),
                task_type: TaskType::StartSource,
            },
        );
        stats.errors_encountered = stats.errors_encountered + 1;
        self.handle.apply_meta_op(source_id, MetaOp::MarkFailed);
        self.stats_sender.pipeline_execution_error(worker_id as u64, source_id.clone());
    }

    /// Acts on the result of starting source `source_id`: on success the
    /// source is marked as started and `SourceStarted` is emitted; on
    /// failure the error is recorded and counted, the source is marked as
    /// failed and `PipelineExecutionError` is emitted.
    pub fn finish_start_source(
        &mut self,
        worker_id: usize,
        source_id: &PipelineId,
        result: Result<(), SourceError>,
        stats: &mut ExecutionStats,
    )
        requires
            old(self).wf(),
            old(stats).has_room(1),
        ensures
            final(self).wf(),
            match result {
                Ok(()) => final(self)@ == (ExecView {
                    vertices: op_on(old(self)@.vertices, source_id@, MetaOp::MarkSourceStarted),
                    events: old(self)@.events.push(
                        EventView::SourceStarted { worker_id: worker_id as u64, source: source_id@ },
                    ),
                    ..old(self)@
                }) && final(stats).grown(old(stats), 0, 0, 0, 0, 0, 0, 0),
                Err(e) => final(self)@ == after_failure(
                    old(self)@,
                    worker_id as u64,
                    source_id@,
                    EntityType::Source,
                    TaskType::StartSource,
                    source_error_text(e),
                ) && final(stats).grown(old(stats), 0, 0, 0, 0, 0, 1, 0),
            },
    {
        match result {
            Ok(()) => {
                self.handle.apply_meta_op(source_id, MetaOp::MarkSourceStarted);
                self.stats_sender.source_started(worker_id as u64, source_id.clone());
            },
            Err(e) => {
                self.handle.error_state.record_error(
                    ExecutionError {
                        entity_id: source_id.clone(),
                        entity_type: EntityType::Source,
                        error: e.to_string(),
                        task_type: TaskType::StartSource,
                    },
                );
                stats.errors_encountered = stats.errors_encountered + 1;
                self.handle.apply_meta_op(source_id, MetaOp::MarkFailed);
                self.stats_sender.pipeline_execution_error(worker_id as u64, source_id.clone());
            },
        }
    }

    /// Starts source `source_id` of query `query_id` with an emit handle
    /// that sends its messages to the executor and observes the node's stop
    /// flag; the result is handled as `finish_start_source` describes. An
    /// id that names no source node is counted as an error.
    pub fn execute_start_source_task(
        &mut self,
        worker_id: usize,
        query_id: QueryId,
        source_id: &PipelineId,
        stats: &mut ExecutionStats,
    )
        requires
            old(self).wf(),
            old(stats).has_room(1),
        ensures
            final(self).wf(),
            start_source_step(
                old(self)@,
                *old(stats),
                worker_id as u64,
                source_id@,
                final(self)@,
                *final(stats),
            ),
    {
        proof {
            self.handle.graph.lemma_vertex_index(source_id@);
        }
        let i = match self.handle.graph.find(source_id) {
            Some(i) => i,
            None => {
                stats.errors_encountered = stats.errors_encountered + 1;
                return;
            },
        };
        if !self.handle.graph.is_live_at(i) || !self.handle.graph.node(i).is_source() {
            stats.errors_encountered = stats.errors_encountered + 1;
            return;
        }
        proof {
            assert(self@.vertices[i as int] == self.handle.graph.vertex(i as int));
        }
        let stop_flag = self.handle.graph.node(i).metadata().get_source_stop_flag();
        let emit_handle = SourceEmitHandle::new(
            source_id.clone(),
            query_id,
            self.source_sender.clone(),
            stop_flag,
        );
        let result = match self.handle.graph.node(i).source_pipeline() {
            Some(source_pipeline) => source_pipeline.start_source(emit_handle),
            None => vstd::pervasive::unreached(),
        };
        self.finish_start_source(worker_id, source_id, result, stats);
    }

    /// Completes the stop of `pipeline_id` with successors `successors`:
    /// emits `PipelineStop`, queues an end-of-stream task for each
    /// successor, removes the node, counts the stop, and queues a shutdown
    /// task if shutdown was requested and no node is left.
    fn complete_stop(
        &mut self,
        worker_id: usize,
        pipeline_id: &PipelineId,
        successors: &Vec<PipelineId>,
        stats: &mut ExecutionStats,
    )
        requires
            old(self).wf(),
            old(stats).pipelines_stopped < usize::MAX,
        ensures
            final(self).wf(),
            final(self)@ == after_removal(
                old(self)@,
                worker_id as u64,
                pipeline_id@,
                id_views(successors@),
            ),
            final(stats).grown(old(stats), 0, 0, 0, 1, 0, 0, 0),
    {
        let ghost names = id_views(successors@);
        let ghost et = eos_tasks(pipeline_id@, names);
        self.stats_sender.pipeline_stop(worker_id as u64, 0, pipeline_id.clone());
        let ghost s1 = self@;
        let mut k: usize = 0;
        proof {
            assert(et.take(0).len() == 0);
            assert(s1.tasks.add(et.take(0).to_multiset()) =~= s1.tasks);
        }
        while k < successors.len()
            invariant
                self.wf(),
                k <= successors@.len(),
                names == id_views(successors@),
                et == eos_tasks(pipeline_id@, names),
                self@ == (ExecView { tasks: s1.tasks.add(et.take(k as int).to_multiset()), ..s1 }),
            decreases successors@.len() - k,
        {
            let t = Task::EndOfStream {
                query_id: 0,
                source_id: pipeline_id.clone(),
                pipeline_id: successors[k].clone(),
            };
            self.handle.task_queue.push(t);
            proof {
                assert(et.take(k as int + 1) =~= et.take(k as int).push(et[k as int]));
                assert(s1.tasks.add(et.take(k as int + 1).to_multiset()) =~= s1.tasks.add(
                    et.take(k as int).to_multiset(),
                ).insert(et[k as int]));
            }
            k = k + 1;
        }
        proof {
            assert(et.take(successors@.len() as int) =~= et);
            self.handle.graph.lemma_vertex_index(pipeline_id@);
        }
        let ghost g0 = self.handle.graph;
        let removed = self.handle.graph.remove_node(pipeline_id);
        proof {
            if removed is Some {
                let i = g0.index_of(pipeline_id@);
                self.handle.graph.lemma_vertices_removed(&g0, i);
                assert(g0.vertices()[i] == g0.vertex(i));
            } else {
                assert(self.handle.graph.vertices() =~= g0.vertices()) by {
                    assert forall|j: int| 0 <= j < g0.n() implies #[trigger] self.handle.graph.vertices()[j]
                        == g0.vertices()[j] by {
                        assert(self.handle.graph.same_vertex(&g0, j));
                    }
                }
            }
            self.handle.graph.lemma_empty();
        }
        stats.pipelines_stopped = stats.pipelines_stopped + 1;
        if self.handle.graph.is_empty() && self.handle.shutting_down {
            self.handle.task_queue.push(Task::Shutdown);
        }
    }

    /// Reports that stopping `pipeline_id` failed with `message`: records
    /// and counts the error, emits `PipelineExecutionError`, and marks the
    /// successors as failed.
    fn stop_failure(
        &mut self,
        worker_id: usize,
        pipeline_id: &PipelineId,
        successors: &Vec<PipelineId>,
        message: String,
        stats: &mut ExecutionStats,
    )
        requires
            old(self).wf(),
            old(stats).errors_encountered < usize::MAX,
        ensures
            final(self).wf(),
            final(self)@ == after_stop_failure(
                old(self)@,
                worker_id as u64,
                pipeline_id@,
                id_views(successors@),
                message@,
            ),
            final(stats).grown(old(stats), 0, 0, 0, 0, 0, 1, 0),
    {
        self.handle.error_state.record_error(
            ExecutionError {
                entity_id: pipeline_id.clone(),
                entity_type: EntityType::Pipeline,
                error: message,
                task_type: TaskType::StopPipeline,
            },
        );
        stats.errors_encountered = stats.errors_encountered + 1;
        self.stats_sender.pipeline_execution_error(worker_id as u64, pipeline_id.clone());
        self.handle.apply_meta_op_all(successors, MetaOp::MarkFailed);
    }

    /// Processes a stop task for `pipeline_id`, as `after_stop` describes:
    /// the pipeline is flushed (when it was set up and has not failed), its
    /// output routed, its source stopped, it is torn down, and it is removed
    /// with end-of-stream signals to its successors. A teardown that asks
    /// for re-execution is repeated (at most `u64::MAX` times).
    pub fn execute_stop_task(
        &mut self,
        worker_id: usize,
        pipeline_id: &PipelineId,
        stats: &mut ExecutionStats,
    )
        requires
            old(self).wf(),
            old(stats).has_room(1),
        ensures
            final(self).wf(),
            stop_step(
                old(self)@,
                *old(stats),
                worker_id as u64,
                pipeline_id@,
                final(self)@,
                *final(stats),
            ),
    {
        let ghost s0 = self@;
        proof {
            self.handle.graph.lemma_vertex_index(pipeline_id@);
        }
        let i = match self.handle.graph.find(pipeline_id) {
            Some(i) => i,
            None => {
                assert(after_stop(s0, worker_id as u64, pipeline_id@, StopOutcome::FlushFailed { message: Seq::empty() }) == s0);
                return;
            },
        };
        if !self.handle.graph.is_live_at(i) {
            assert(after_stop(s0, worker_id as u64, pipeline_id@, StopOutcome::FlushFailed { message: Seq::empty() }) == s0);
            return;
        }
        proof {
            assert(s0.vertices[i as int] == self.handle.graph.vertex(i as int));
            self.handle.graph.lemma_successor_ids(pipeline_id@);
        }
        let successors = self.handle.graph.get_successors(pipeline_id);
        let ghost names = successor_ids(s0.vertices, pipeline_id@);
        assert(id_views(successors@) == names);
        let should_teardown = self.handle.graph.node(i).metadata().is_setup_succeeded();
        let is_failed = self.handle.graph.node(i).metadata().is_failed();
        let is_src = self.handle.graph.is_source_at(i);
        if !should_teardown || is_failed {
            if is_failed && is_src {
                self.handle.apply_meta_op(pipeline_id, MetaOp::RequestSourceStop);
                proof {
                    lemma_op_on_shape(s0.vertices, pipeline_id@, MetaOp::RequestSourceStop);
                    assert(self.handle.graph.vertices()[i as int] == self.handle.graph.vertex(i as int));
                }
                match self.handle.graph.node(i).source_pipeline() {
                    Some(source_pipeline) => {
                        let _ = source_pipeline.stop_source();
                        let _ = source_pipeline.source().teardown();
                    },
                    None => {},
                }
            }
            self.complete_stop(worker_id, pipeline_id, &successors, stats);
            proof {
                let o = StopOutcome::FlushFailed { message: Seq::empty() };
                assert(self@ == after_stop(s0, worker_id as u64, pipeline_id@, o));
            }
            return;
        }
        let mut context = ExecutorContext::new(pipeline_id.clone(), worker_id, self.worker_count);
        let ghost g0 = self.handle.graph;
        proof {
            g0.lemma_node_id(i as int);
        }
        let node = self.handle.graph.node_mut(i);
        let flush_result = node.flush(&mut context);
        proof {
            self.handle.graph.lemma_vertices_meta(&g0, i as int);
            assert(self.handle.graph.vertices() =~= g0.vertices());
            assert(self@ == s0);
        }
        self.finish_stop_task(worker_id, pipeline_id, flush_result, context, stats);
        proof {
            if flush_result is Ok {
                let te = choose|te: Option<Seq<char>>| self@ == #[trigger] after_stop(
                    s0,
                    worker_id as u64,
                    pipeline_id@,
                    StopOutcome::Flushed {
                        buffers: buffer_views(flush_result->Ok_0@) + buffer_views(context.emitted_spec()),
                        teardown_error: te,
                    },
                ) && stats.grown(old(stats), 0, 0, 0, 1, 0, if te is Some { 1 } else { 0 }, 0);
                let o = StopOutcome::Flushed {
                    buffers: buffer_views(flush_result->Ok_0@) + buffer_views(context.emitted_spec()),
                    teardown_error: te,
                };
                assert(stop_errors(s0, pipeline_id@, o) == if te is Some { 1nat } else { 0nat });
            } else {
                let o = StopOutcome::FlushFailed { message: pipeline_error_text(flush_result->Err_0) };
                assert(stop_errors(s0, pipeline_id@, o) == 1);
            }
        }
    }

    /// Finishes the stop of pipeline `pipeline_id`, which is set up and has
    /// not failed, once its `flush` gave `flush_result` and left `context`:
    /// a failed flush is reported and the pipeline removed; otherwise the
    /// buffers flush returned, followed by those it emitted through the
    /// context, are routed to its successors, a source is asked to stop,
    /// the pipeline is torn down (a failed teardown is reported), and it is
    /// removed.
    pub fn finish_stop_task(
        &mut self,
        worker_id: usize,
        pipeline_id: &PipelineId,
        flush_result: Result<Vec<Buffer>, PipelineError>,
        context: ExecutorContext,
        stats: &mut ExecutionStats,
    )
        requires
            old(self).wf(),
            old(stats).has_room(1),
            live_index(old(self)@.vertices, pipeline_id@) is Some,
            old(self)@.vertices[live_index(old(self)@.vertices, pipeline_id@)->0].meta.setup_succeeded,
            !old(self)@.vertices[live_index(old(self)@.vertices, pipeline_id@)->0].meta.failed,
        ensures
            final(self).wf(),
            flush_result is Err ==> final(self)@ == after_stop(
                old(self)@,
                worker_id as u64,
                pipeline_id@,
                StopOutcome::FlushFailed { message: pipeline_error_text(flush_result->Err_0) },
            ) && final(stats).grown(old(stats), 0, 0, 0, 1, 0, 1, 0),
            flush_result is Ok ==> exists|te: Option<Seq<char>>|
                final(self)@ == #[trigger] after_stop(
                    old(self)@,
                    worker_id as u64,
                    pipeline_id@,
                    StopOutcome::Flushed {
                        buffers: buffer_views(flush_result->Ok_0@) + buffer_views(context.emitted_spec()),
                        teardown_error: te,
                    },
                ) && final(stats).grown(old(stats), 0, 0, 0, 1, 0, if te is Some { 1 } else { 0 }, 0),
    {
        let ghost s0 = self@;
        let mut context = context;
        proof {
            self.handle.graph.lemma_vertex_index(pipeline_id@);
        }
        let i = match self.handle.graph.find(pipeline_id) {
            Some(i) => i,
            None => {
                return;
            },
        };
        proof {
            assert(s0.vertices[i as int] == self.handle.graph.vertex(i as int));
            self.handle.graph.lemma_successor_ids(pipeline_id@);
        }
        let successors = self.handle.graph.get_successors(pipeline_id);
        let ghost names = successor_ids(s0.vertices, pipeline_id@);
        assert(id_views(successors@) == names);
        let is_src = self.handle.graph.is_source_at(i);
        let returned = match flush_result {
            Ok(returned) => returned,
            Err(e) => {
                let message = e.to_string();
                self.stop_failure(worker_id, pipeline_id, &successors, message, stats);
                self.complete_stop(worker_id, pipeline_id, &successors, stats);
                proof {
                    let o = StopOutcome::FlushFailed { message: pipeline_error_text(e) };
                    assert(self@ == after_stop(s0, worker_id as u64, pipeline_id@, o));
                    assert(stop_errors(s0, pipeline_id@, o) == 1);
                }
                return;
            },
        };
        let mut all_buffers = returned;
        let mut emitted = context.take_emitted_buffers();
        let ghost out_views = buffer_views(all_buffers@);
        let ghost em_views = buffer_views(emitted@);
        all_buffers.append(&mut emitted);
        let ghost flushed = buffer_views(all_buffers@);
        proof {
            assert(flushed =~= out_views + em_views);
        }
        self.route_buffers(0, pipeline_id, all_buffers);
        let ghost s1 = self@;
        proof {
            lemma_op_on_all_shape(s0.vertices, repeat(names, flushed.len()), MetaOp::CountPending);
            assert(self.handle.graph.vertices()[i as int] == self.handle.graph.vertex(i as int));
        }
        if is_src {
            self.handle.apply_meta_op(pipeline_id, MetaOp::RequestSourceStop);
            proof {
                lemma_op_on_shape(s1.vertices, pipeline_id@, MetaOp::RequestSourceStop);
                assert(self.handle.graph.vertices()[i as int] == self.handle.graph.vertex(i as int));
            }
            match self.handle.graph.node(i).source_pipeline() {
                Some(source_pipeline) => {
                    let _ = source_pipeline.stop_source();
                },
                None => {},
            }
        }
        let ghost s2 = self@;
        proof {
            lemma_op_on_all_shape(s0.vertices, repeat(names, flushed.len()), MetaOp::CountPending);
            lemma_same_shape_index(s1.vertices, s0.vertices);
            lemma_op_on_shape(s1.vertices, pipeline_id@, MetaOp::RequestSourceStop);
            lemma_same_shape_index(s2.vertices, s1.vertices);
            self.handle.graph.lemma_vertex_index(pipeline_id@);
        }
        let mut teardown_error: Option<String> = None;
        let mut attempts: u64 = 0;
        while attempts < u64::MAX
            invariant_except_break
                self.wf(),
                self@ == s2,
                teardown_error is None,
                i < self.handle.graph.n(),
                self.handle.graph.is_live(i as int),
            invariant
                self.wf(),
                self@ == s2,
                i < self.handle.graph.n(),
                self.handle.graph.is_live(i as int),
            ensures
                self.wf(),
                self@ == s2,
            decreases u64::MAX - attempts,
        {
            let mut context = ExecutorContext::new(pipeline_id.clone(), worker_id, self.worker_count);
            let ghost g1 = self.handle.graph;
            proof {
                g1.lemma_node_id(i as int);
            }
            let node = self.handle.graph.node_mut(i);
            let result = node.teardown(&mut context);
            proof {
                self.handle.graph.lemma_vertices_meta(&g1, i as int);
                assert(self.handle.graph.vertices() =~= g1.vertices());
            }
            match result {
                Ok(()) => {
                    if context.take_repeat_buffer().is_none() {
                        break;
                    }
                },
                Err(e) => {
                    teardown_error = Some(e.to_string());
                    break;
                },
            }
            attempts = attempts + 1;
        }
        let ghost te = match &teardown_error {
            Some(m) => Some(m@),
            None => None,
        };
        match teardown_error {
            Some(message) => {
                self.stop_failure(worker_id, pipeline_id, &successors, message, stats);
            },
            None => {},
        }
        proof {
            lemma_op_on_all_shape(s2.vertices, names, MetaOp::MarkFailed);
        }
        self.complete_stop(worker_id, pipeline_id, &successors, stats);
        proof {
            let o = StopOutcome::Flushed { buffers: flushed, teardown_error: te };
            assert(self@ == after_stop(s0, worker_id as u64, pipeline_id@, o));
        }
    }

    /// Deploys `graph` for query `query_id`, as `after_deploy` describes:
    /// merges it into the running graph, sets up its pipelines in vertex
    /// order and starts its sources; when a setup fails, the pipelines set
    /// up so far are torn down (in reverse order), the sources not set up
    /// are torn down, and all of the graph's pipelines are removed.
    pub fn execute_deploy_graph(
        &mut self,
        worker_id: usize,
        query_id: QueryId,
        graph: PipelineGraph,
        stats: &mut ExecutionStats,
    )
        requires
            old(self).wf(),
            graph.wf(),
            old(stats).has_room(live_vertex_ids(graph.vertices()).len()),
            old(stats).has_room(1),
        ensures
            final(self).wf(),
            deploy_step(
                old(self)@,
                *old(stats),
                worker_id as u64,
                query_id,
                graph.vertices(),
                final(self)@,
                *final(stats),
            ),
    {
        let ghost s0 = self@;
        let ghost ws = graph.vertices();
        let pipeline_ids = graph.get_all_pipeline_ids();
        let ghost ids = live_vertex_ids(ws);
        proof {
            graph.lemma_live_ids();
        }
        assert(id_views(pipeline_ids@) == ids);
        self.handle.graph.merge(graph);
        let ghost vs1 = self@.vertices;
        assert(vs1 == merged(s0.vertices, ws));
        let n = pipeline_ids.len();
        let mut failed_at: usize = n;
        let ghost mut message: Seq<char> = Seq::empty();
        let mut p: usize = 0;
        proof {
            assert(ids.take(0) =~= Seq::<Seq<char>>::empty());
            assert(start_events(worker_id as u64, with_node(vs1, ids.take(0))) =~= Seq::<EventView>::empty());
            assert(s0.events + Seq::<EventView>::empty() =~= s0.events);
        }
        while p < n && failed_at == n
            invariant
                self.wf(),
                n == ids.len(),
                id_views(pipeline_ids@) == ids,
                p <= n,
                failed_at == n || failed_at < p,
                old(stats).has_room(n as nat),
                old(stats).has_room(1),
                failed_at == n ==> self@ == (ExecView {
                    vertices: prepared_all(vs1, ids.take(p as int)),
                    events: s0.events + start_events(worker_id as u64, with_node(vs1, ids.take(p as int))),
                    ..s0
                }) && stats.grown(old(stats), 0, 0, with_node(vs1, ids.take(p as int)).len(), 0, 0, 0, 0),
                failed_at < n ==> self@ == (ExecView {
                    vertices: prepared(prepared_all(vs1, ids.take(failed_at as int)), ids[failed_at as int], false),
                    errors: s0.errors.push(
                        ExecutionErrorView {
                            entity_id: ids[failed_at as int],
                            entity_type: EntityType::Pipeline,
                            error: message,
                            task_type: TaskType::DeployGraph,
                        },
                    ),
                    events: s0.events + start_events(worker_id as u64, with_node(vs1, ids.take(failed_at as int)))
                        + seq![EventView::PipelineExecutionError { worker_id: worker_id as u64, pipeline: ids[failed_at as int] }],
                    ..s0
                }) && live_index(vs1, ids[failed_at as int]) is Some
                    && stats.grown(old(stats), 0, 0, with_node(vs1, ids.take(failed_at as int)).len(), 0, 0, 1, 0),
                with_node(vs1, ids.take(p as int)).len() <= p,
            decreases n - p,
        {
            let id = &pipeline_ids[p];
            assert(id@ == ids[p as int]);
            let ghost before = self@;
            proof {
                lemma_prepared_all_shape(vs1, ids.take(p as int));
                lemma_same_shape_index(before.vertices, vs1);
                assert(ids.take(p as int + 1).drop_last() =~= ids.take(p as int));
                assert(ids.take(p as int + 1).last() == ids[p as int]);
            }
            let r = self.handle.set_up_pipeline(id, worker_id, self.worker_count);
            match r {
                None => {},
                Some(Ok(())) => {
                    stats.pipelines_started = stats.pipelines_started + 1;
                    self.stats_sender.pipeline_start(worker_id as u64, 0, id.clone());
                },
                Some(Err(e)) => {
                    proof {
                        message = pipeline_error_text(e);
                    }
                    self.handle.error_state.record_error(
                        ExecutionError {
                            entity_id: id.clone(),
                            entity_type: EntityType::Pipeline,
                            error: e.to_string(),
                            task_type: TaskType::DeployGraph,
                        },
                    );
                    self.stats_sender.pipeline_execution_error(worker_id as u64, id.clone());
                    stats.errors_encountered = stats.errors_encountered + 1;
                    failed_at = p;
                },
            }
            proof {
                let wn0 = with_node(vs1, ids.take(p as int));
                let wn1 = with_node(vs1, ids.take(p as int + 1));
                if live_index(vs1, ids[p as int]) is Some {
                    assert(wn1 == wn0 + seq![ids[p as int]]);
                    assert(start_events(worker_id as u64, wn1) =~= start_events(worker_id as u64, wn0).push(
                        EventView::PipelineStart { worker_id: worker_id as u64, query_id: 0, pipeline: ids[p as int] },
                    ));
                } else {
                    assert(wn1 == wn0 + Seq::<Seq<char>>::empty());
                    assert(wn1 =~= wn0);
                }
                if failed_at == p {
                    assert(s0.events + start_events(worker_id as u64, wn0) + seq![
                        EventView::PipelineExecutionError { worker_id: worker_id as u64, pipeline: ids[p as int] },
                    ] =~= (s0.events + start_events(worker_id as u64, wn0)).push(
                        EventView::PipelineExecutionError { worker_id: worker_id as u64, pipeline: ids[p as int] },
                    ));
                } else {
                    assert(s0.events + start_events(worker_id as u64, wn1) =~= before.events + (
                    start_events(worker_id as u64, wn1).subrange(
                        start_events(worker_id as u64, wn0).len() as int,
                        start_events(worker_id as u64, wn1).len() as int,
                    )));
                }
            }
            p = p + 1;
        }
        if failed_at == n {
            proof {
                assert(ids.take(n as int) =~= ids);
            }
            let ghost sa = self@;
            let ghost vs2 = self@.vertices;
            let ghost t0 = self@.tasks;
            let mut q: usize = 0;
            proof {
                assert(start_source_tasks(vs2, query_id, ids.take(0)) =~= Seq::<TaskView>::empty());
                assert(t0.add(Seq::<TaskView>::empty().to_multiset()) =~= t0);
            }
            while q < n
                invariant
                    self.wf(),
                    n == ids.len(),
                    id_views(pipeline_ids@) == ids,
                    q <= n,
                    vs2 == sa.vertices,
                    t0 == sa.tasks,
                    self@ == (ExecView {
                        tasks: t0.add(start_source_tasks(vs2, query_id, ids.take(q as int)).to_multiset()),
                        ..sa
                    }),
                decreases n - q,
            {
                let id = &pipeline_ids[q];
                proof {
                    self.handle.graph.lemma_vertex_index(id@);
                    assert(id@ == ids[q as int]);
                    assert(ids.take(q as int + 1).drop_last() =~= ids.take(q as int));
                    assert(ids.take(q as int + 1).last() == ids[q as int]);
                }
                if self.handle.graph.is_source(id) {
                    self.handle.task_queue.push(Task::StartSource { query_id, source_id: id.clone() });
                    proof {
                        let a = start_source_tasks(vs2, query_id, ids.take(q as int));
                        let t = TaskView::StartSource { query_id, source: ids[q as int] };
                        assert(start_source_tasks(vs2, query_id, ids.take(q as int + 1)) =~= a.push(t));
                        assert(t0.add(a.push(t).to_multiset()) =~= t0.add(a.to_multiset()).insert(t));
                    }
                } else {
                    proof {
                        assert(start_source_tasks(vs2, query_id, ids.take(q as int + 1)) =~= start_source_tasks(
                            vs2,
                            query_id,
                            ids.take(q as int),
                        ));
                    }
                }
                q = q + 1;
            }
            proof {
                assert(ids.take(n as int) =~= ids);
            }
            stats.graphs_deployed = stats.graphs_deployed + 1;
            proof {
                let none: Option<(int, Seq<char>)> = None;
                assert(self@ == after_deploy(s0, worker_id as u64, query_id, ws, none));
            }
        } else {
            let ghost sf = self@;
            let mut j: usize = failed_at;
            while j > 0
                invariant
                    self.wf(),
                    j <= failed_at,
                    failed_at < n,
                    n == pipeline_ids@.len(),
                    self@ == sf,
                decreases j,
            {
                j = j - 1;
                self.handle.tear_down_pipeline(&pipeline_ids[j], worker_id, self.worker_count);
            }
            let mut q: usize = failed_at;
            while q < n
                invariant
                    self.wf(),
                    n == pipeline_ids@.len(),
                    q <= n,
                    self@ == sf,
                decreases n - q,
            {
                if self.handle.graph.is_source(&pipeline_ids[q]) {
                    match self.handle.graph.get_source_pipeline(&pipeline_ids[q]) {
                        Some(source_pipeline) => {
                            let _ = source_pipeline.source().teardown();
                        },
                        None => {},
                    }
                }
                q = q + 1;
            }
            let mut q: usize = 0;
            proof {
                assert(ids.take(0) =~= Seq::<Seq<char>>::empty());
                assert(sf.events + stop_events(worker_id as u64, ids.take(0)) =~= sf.events);
            }
            while q < n
                invariant
                    self.wf(),
                    n == ids.len(),
                    id_views(pipeline_ids@) == ids,
                    q <= n,
                    self@ == (ExecView {
                        vertices: remove_all(sf.vertices, ids.take(q as int)),
                        events: sf.events + stop_events(worker_id as u64, ids.take(q as int)),
                        ..sf
                    }),
                decreases n - q,
            {
                let id = &pipeline_ids[q];
                proof {
                    assert(id@ == ids[q as int]);
                    assert(ids.take(q as int + 1).drop_last() =~= ids.take(q as int));
                    assert(ids.take(q as int + 1).last() == ids[q as int]);
                    self.handle.graph.lemma_vertex_index(id@);
                }
                let ghost g0 = self.handle.graph;
                let removed = self.handle.graph.remove_node(id);
                proof {
                    if removed is Some {
                        let i = g0.index_of(id@);
                        self.handle.graph.lemma_vertices_removed(&g0, i);
                        assert(g0.vertices()[i] == g0.vertex(i));
                    } else {
                        self.handle.graph.lemma_same_graph_vertices(&g0);
                    }
                }
                self.stats_sender.pipeline_stop(worker_id as u64, 0, id.clone());
                proof {
                    assert(stop_events(worker_id as u64, ids.take(q as int + 1)) =~= stop_events(
                        worker_id as u64,
                        ids.take(q as int),
                    ).push(EventView::PipelineStop { worker_id: worker_id as u64, query_id: 0, pipeline: ids[q as int] }));
                    assert(sf.events + stop_events(worker_id as u64, ids.take(q as int + 1)) =~= (sf.events
                        + stop_events(worker_id as u64, ids.take(q as int))).push(
                        EventView::PipelineStop { worker_id: worker_id as u64, query_id: 0, pipeline: ids[q as int] },
                    ));
                }
                q = q + 1;
            }
            proof {
                assert(ids.take(n as int) =~= ids);
                self.handle.graph.lemma_empty();
            }
            stats.pipelines_stopped = stats.pipelines_stopped + n;
            if self.handle.graph.is_empty() && self.handle.shutting_down {
                self.handle.task_queue.push(Task::Shutdown);
            }
            stats.graphs_deployed = stats.graphs_deployed + 1;
            proof {
                let failure: Option<(int, Seq<char>)> = Some((failed_at as int, message));
                assert(s0.events + start_events(worker_id as u64, with_node(vs1, ids.take(failed_at as int)))
                    + seq![EventView::PipelineExecutionError { worker_id: worker_id as u64, pipeline: ids[failed_at as int] }]
                    + stop_events(worker_id as u64, ids) == sf.events + stop_events(worker_id as u64, ids));
                assert(self@ == after_deploy(s0, worker_id as u64, query_id, ws, failure));
            }
        }
    }

    /// Tears down every pipeline that was set up (on worker 0 of 1),
    /// counting failed teardowns as errors, and counts every pipeline as
    /// stopped. The graph itself is left as it is.
    pub fn stop_all_pipelines(&mut self, stats: &mut ExecutionStats)
        requires
            old(self).wf(),
            old(stats).has_room(live_vertex_ids(old(self)@.vertices).len()),
        ensures
            final(self).wf(),
            final(self)@ == old(self)@,
            exists|k: nat|
                k <= live_vertex_ids(old(self)@.vertices).len() && #[trigger] final(stats).grown(
                    old(stats),
                    0,
                    0,
                    0,
                    live_vertex_ids(old(self)@.vertices).len(),
                    0,
                    k,
                    0,
                ),
    {
        let pipeline_ids = self.handle.graph.get_all_pipeline_ids();
        proof {
            self.handle.graph.lemma_live_ids();
        }
        let ghost n = live_vertex_ids(old(self)@.vertices).len();
        assert(pipeline_ids@.len() == n);
        let mut k: usize = 0;
        let mut failures: usize = 0;
        while k < pipeline_ids.len()
            invariant
                self.wf(),
                self@ == old(self)@,
                pipeline_ids@.len() == n,
                old(stats).has_room(n),
                k <= n,
                failures <= k,
                stats.grown(old(stats), 0, 0, 0, k as nat, 0, failures as nat, 0),
            decreases n - k,
        {
            let id = &pipeline_ids[k];
            let i = self.handle.graph.find(id);
            match i {
                Some(i) => {
                    if self.handle.graph.is_live_at(i) && self.handle.graph.node(
                        i,
                    ).metadata().is_setup_succeeded() {
                        let mut context = ExecutorContext::new(id.clone(), 0, 1);
                        let ghost g0 = self.handle.graph;
                        proof {
                            g0.lemma_node_id(i as int);
                        }
                        let node = self.handle.graph.node_mut(i);
                        let result = node.teardown(&mut context);
                        proof {
                            self.handle.graph.lemma_vertices_meta(&g0, i as int);
                            assert(self.handle.graph.vertices() =~= g0.vertices());
                        }
                        if result.is_err() {
                            stats.errors_encountered = stats.errors_encountered + 1;
                            failures = failures + 1;
                        }
                    }
                },
                None => {},
            }
            stats.pipelines_stopped = stats.pipelines_stopped + 1;
            k = k + 1;
        }
    }

    /// Processes `task`, as `task_step` describes.
    pub fn dispatch_task(&mut self, worker_id: usize, task: Task, stats: &mut ExecutionStats)
        requires
            old(self).wf(),
            old(stats).has_room(task_room(old(self)@, task@)),
            old(stats).has_room(1),
        ensures
            final(self).wf(),
            task_step(old(self)@, *old(stats), worker_id as u64, task@, final(self)@, *final(stats)),
    {
        let ghost t = task@;
        match task {
            Task::WorkTask { query_id, pipeline_id, buffer } => {
                proof {
                    self.handle.graph.lemma_vertex_index(pipeline_id@);
                }
                if self.handle.graph.get_node(&pipeline_id).is_none() {
                    stats.tasks_skipped = stats.tasks_skipped + 1;
                    return;
                }
                let ghost bv = buffer@;
                assert(t == TaskView::Work { query_id, pipeline: pipeline_id@, buffer: bv });
                assert(live_index(old(self)@.vertices, pipeline_id@) is Some);
                self.execute_work_task(worker_id, query_id, &pipeline_id, buffer, stats);
                let ghost mid = *stats;
                stats.tasks_executed = stats.tasks_executed + 1;
                assert(work_step(
                    old(self)@,
                    *old(stats),
                    worker_id as u64,
                    query_id,
                    pipeline_id@,
                    bv,
                    self@,
                    mid,
                ));
                assert(stats.grown(&mid, 1, 0, 0, 0, 0, 0, 0));
                assert(task_step(old(self)@, *old(stats), worker_id as u64, t, self@, *stats));
            },
            Task::DeployGraph { graph, query_id } => {
                assert(t == TaskView::Deploy { graph: graph.graph_spec(), query_id });
                let graph = graph.into_graph();
                self.execute_deploy_graph(worker_id, query_id, graph, stats);
                let ghost mid = *stats;
                stats.tasks_executed = stats.tasks_executed + 1;
                assert(deploy_step(
                    old(self)@,
                    *old(stats),
                    worker_id as u64,
                    query_id,
                    graph.vertices(),
                    self@,
                    mid,
                ));
                assert(stats.grown(&mid, 1, 0, 0, 0, 0, 0, 0));
                assert(task_step(old(self)@, *old(stats), worker_id as u64, t, self@, *stats));
            },
            Task::StartSource { query_id, source_id } => {
                assert(t == TaskView::StartSource { query_id, source: source_id@ });
                proof {
                    self.handle.graph.lemma_vertex_index(source_id@);
                }
                if self.handle.graph.get_node(&source_id).is_none() {
                    stats.tasks_skipped = stats.tasks_skipped + 1;
                    return;
                }
                self.execute_start_source_task(worker_id, query_id, &source_id, stats);
                let ghost mid = *stats;
                stats.tasks_executed = stats.tasks_executed + 1;
                assert(start_source_step(
                    old(self)@,
                    *old(stats),
                    worker_id as u64,
                    source_id@,
                    self@,
                    mid,
                ));
                assert(stats.grown(&mid, 1, 0, 0, 0, 0, 0, 0));
                assert(task_step(old(self)@, *old(stats), worker_id as u64, t, self@, *stats));
            },
            Task::EndOfStream { query_id, source_id, pipeline_id } => {
                assert(t == TaskView::EndOfStream { query_id, source: source_id@, pipeline: pipeline_id@ });
                proof {
                    self.handle.graph.lemma_vertex_index(pipeline_id@);
                }
                if self.handle.graph.get_node(&pipeline_id).is_none() {
                    stats.tasks_skipped = stats.tasks_skipped + 1;
                    return;
                }
                self.execute_eos_task(&source_id, &pipeline_id);
                stats.tasks_executed = stats.tasks_executed + 1;
                assert(task_step(old(self)@, *old(stats), worker_id as u64, t, self@, *stats));
            },
            Task::StopPipelineTask { pipeline_id } => {
                assert(t == TaskView::Stop { pipeline: pipeline_id@ });
                self.execute_stop_task(worker_id, &pipeline_id, stats);
                let ghost mid = *stats;
                stats.tasks_executed = stats.tasks_executed + 1;
                assert(stop_step(old(self)@, *old(stats), worker_id as u64, pipeline_id@, self@, mid));
                assert(stats.grown(&mid, 1, 0, 0, 0, 0, 0, 0));
                assert(task_step(old(self)@, *old(stats), worker_id as u64, t, self@, *stats));
            },
            Task::SourceError { query_id, source_id, error } => {
                assert(t == TaskView::SourceError { query_id, source: source_id@, error: error@ });
                self.execute_source_error_task(worker_id, &source_id, error.as_str(), stats);
                let ghost mid = *stats;
                stats.tasks_executed = stats.tasks_executed + 1;
                assert(source_error_step(
                    old(self)@,
                    *old(stats),
                    worker_id as u64,
                    source_id@,
                    error@,
                    self@,
                    mid,
                ));
                assert(stats.grown(&mid, 1, 0, 0, 0, 0, 0, 0));
                assert(task_step(old(self)@, *old(stats), worker_id as u64, t, self@, *stats));
            },
            Task::Shutdown => {
                assert(t == TaskView::Shutdown);
                self.stop_all_pipelines(stats);
                let ghost n = live_vertex_ids(old(self)@.vertices).len();
                let ghost k = choose|k: nat|
                    k <= n && #[trigger] stats.grown(old(stats), 0, 0, 0, n, 0, k, 0);
                stats.tasks_executed = stats.tasks_executed + 1;
                self.shutdown_complete = true;
                assert(stats.grown(old(stats), 1, 0, 0, n, 0, k, 0));
            },
        }
    }

    /// Takes the next task from the queue, if there is one.
    pub fn pop_task(&mut self) -> (r: Option<Task>)
        requires
            old(self).wf(),
        ensures
            final(self).wf(),
            r is None <==> old(self)@.tasks.len() == 0,
            r is None ==> final(self)@ == old(self)@,
            r is Some ==> old(self)@.tasks.contains(r->0@) && final(self)@ == (ExecView {
                tasks: old(self)@.tasks.remove(r->0@),
                ..old(self)@
            }),
    {
        self.handle.task_queue.pop()
    }

    /// Processes the next task, if there is one, and reports whether there
    /// was one. Statistics are not kept; a shutdown task only tears down the
    /// pipelines that were set up.
    pub fn run_one(&mut self) -> (r: bool)
        requires
            old(self).wf(),
        ensures
            final(self).wf(),
            r <==> old(self)@.tasks.len() > 0,
            !r ==> final(self)@ == old(self)@,
            r ==> exists|t: TaskView|
                {
                    let s = ExecView { tasks: old(self)@.tasks.remove(t), ..old(self)@ };
                    &&& #[trigger] old(self)@.tasks.contains(t)
                    &&& if t is Shutdown {
                        final(self)@ == s
                    } else {
                        exists|st0: ExecutionStats, st1: ExecutionStats|
                            st0.is_zero() && #[trigger] task_step(s, st0, 0, t, final(self)@, st1)
                    }
                },
    {
        let task = match self.pop_task() {
            Some(task) => task,
            None => {
                return false;
            },
        };
        let ghost t = task@;
        let ghost s = self@;
        let mut stats = ExecutionStats::new();
        proof {
            lemma_live_vertex_ids_len(self@.vertices);
            self.handle.graph.lemma_size();
            match t {
                TaskView::Deploy { graph, .. } => {
                    lemma_live_vertex_ids_len(graph.vertices());
                    graph.lemma_size();
                },
                _ => {},
            }
        }
        match task {
            Task::Shutdown => {
                self.stop_all_pipelines(&mut stats);
            },
            _ => {
                let ghost st0 = stats;
                self.dispatch_task(0, task, &mut stats);
                assert(task_step(s, st0, 0, t, self@, stats));
            },
        }
        true
    }

    /// Routes `buffers` from `source_id` without `TaskEmit` events.
    fn route_buffers(&mut self, query_id: QueryId, source_id: &PipelineId, buffers: Vec<Buffer>)
        requires
            old(self).wf(),
        ensures
            final(self).wf(),
            final(self)@ == after_routing(
                old(self)@,
                query_id,
                source_id@,
                buffer_views(buffers@),
                None,
            ),
    {
        self.route_buffers_internal(query_id, source_id, buffers, None);
    }

    /// Routes `buffers` from `source_id`, with a `TaskEmit` event for each
    /// buffer and successor.
    fn route_buffers_with_stats(
        &mut self,
        query_id: QueryId,
        source_id: &PipelineId,
        buffers: Vec<Buffer>,
        task_id: TaskId,
    )
        requires
            old(self).wf(),
        ensures
            final(self).wf(),
            final(self)@ == after_routing(
                old(self)@,
                query_id,
                source_id@,
                buffer_views(buffers@),
                Some(task_id),
            ),
    {
        self.route_buffers_internal(query_id, source_id, buffers, Some(task_id));
    }
}

} // verus!
