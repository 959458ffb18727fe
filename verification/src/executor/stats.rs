//! Statistics events of the executor and the sender that hands them to an
//! optional listener.
//!
//! Events are fire-and-forget: without a listener nothing is sent, and a
//! listener that went away is ignored.

use crate::channel::channel_send;
use crate::executor::QueryId;
use crate::pipeline::PipelineId;
use std::sync::mpsc::Sender;
use vstd::prelude::*;

verus! {

/// Identifier of an executed task.
pub type TaskId = u64;

/// Identifier of a worker.
pub type WorkerId = u64;

/// An observable step of query execution.
#[derive(Debug)]
pub enum StatisticsEvent {
    /// A query was submitted.
    QueryStart { worker_id: WorkerId, query_id: QueryId },
    /// A query finished.
    QueryStop { worker_id: WorkerId, query_id: QueryId },
    /// A pipeline was set up.
    PipelineStart { worker_id: WorkerId, query_id: QueryId, pipeline_id: PipelineId },
    /// A pipeline was stopped and removed.
    PipelineStop { worker_id: WorkerId, query_id: QueryId, pipeline_id: PipelineId },
    /// A pipeline started executing a task.
    TaskExecutionStart {
        worker_id: WorkerId,
        query_id: QueryId,
        pipeline_id: PipelineId,
        task_id: TaskId,
    },
    /// A pipeline finished executing a task.
    TaskExecutionComplete {
        worker_id: WorkerId,
        query_id: QueryId,
        pipeline_id: PipelineId,
        task_id: TaskId,
    },
    /// A task's output was sent from one pipeline to another.
    TaskEmit {
        worker_id: WorkerId,
        query_id: QueryId,
        from_pipeline_id: PipelineId,
        to_pipeline_id: PipelineId,
        task_id: TaskId,
    },
    /// Every source of a query has started.
    QueryRunning { worker_id: WorkerId, query_id: QueryId },
    /// Every pipeline of a query has stopped.
    QueryTerminated { worker_id: WorkerId, query_id: QueryId },
    /// A source started producing data.
    SourceStarted { worker_id: WorkerId, source_id: PipelineId },
    /// A pipeline or source failed.
    PipelineExecutionError { worker_id: WorkerId, pipeline_id: PipelineId },
}

/// The abstract content of a statistics event: ids by their text.
pub ghost enum EventView {
    QueryStart { worker_id: WorkerId, query_id: QueryId },
    QueryStop { worker_id: WorkerId, query_id: QueryId },
    PipelineStart { worker_id: WorkerId, query_id: QueryId, pipeline: Seq<char> },
    PipelineStop { worker_id: WorkerId, query_id: QueryId, pipeline: Seq<char> },
    TaskExecutionStart { worker_id: WorkerId, query_id: QueryId, pipeline: Seq<char>, task_id: TaskId },
    TaskExecutionComplete {
        worker_id: WorkerId,
        query_id: QueryId,
        pipeline: Seq<char>,
        task_id: TaskId,
    },
    TaskEmit {
        worker_id: WorkerId,
        query_id: QueryId,
        from: Seq<char>,
        to: Seq<char>,
        task_id: TaskId,
    },
    QueryRunning { worker_id: WorkerId, query_id: QueryId },
    QueryTerminated { worker_id: WorkerId, query_id: QueryId },
    SourceStarted { worker_id: WorkerId, source: Seq<char> },
    PipelineExecutionError { worker_id: WorkerId, pipeline: Seq<char> },
}

impl View for StatisticsEvent {
    type V = EventView;

    open spec fn view(&self) -> EventView {
        match self {
            StatisticsEvent::QueryStart { worker_id, query_id } => EventView::QueryStart {
                worker_id: *worker_id,
                query_id: *query_id,
            },
            StatisticsEvent::QueryStop { worker_id, query_id } => EventView::QueryStop {
                worker_id: *worker_id,
                query_id: *query_id,
            },
            StatisticsEvent::PipelineStart { worker_id, query_id, pipeline_id } => {
                EventView::PipelineStart {
                    worker_id: *worker_id,
                    query_id: *query_id,
                    pipeline: pipeline_id@,
                }
            },
            StatisticsEvent::PipelineStop { worker_id, query_id, pipeline_id } => {
                EventView::PipelineStop {
                    worker_id: *worker_id,
                    query_id: *query_id,
                    pipeline: pipeline_id@,
                }
            },
            StatisticsEvent::TaskExecutionStart { worker_id, query_id, pipeline_id, task_id } => {
                EventView::TaskExecutionStart {
                    worker_id: *worker_id,
                    query_id: *query_id,
                    pipeline: pipeline_id@,
                    task_id: *task_id,
                }
            },
            StatisticsEvent::TaskExecutionComplete { worker_id, query_id, pipeline_id, task_id } => {
                EventView::TaskExecutionComplete {
                    worker_id: *worker_id,
                    query_id: *query_id,
                    pipeline: pipeline_id@,
                    task_id: *task_id,
                }
            },
            StatisticsEvent::TaskEmit {
                worker_id,
                query_id,
                from_pipeline_id,
                to_pipeline_id,
                task_id,
            } => EventView::TaskEmit {
                worker_id: *worker_id,
                query_id: *query_id,
                from: from_pipeline_id@,
                to: to_pipeline_id@,
                task_id: *task_id,
            },
            StatisticsEvent::QueryRunning { worker_id, query_id } => EventView::QueryRunning {
                worker_id: *worker_id,
                query_id: *query_id,
            },
            StatisticsEvent::QueryTerminated { worker_id, query_id } => EventView::QueryTerminated {
                worker_id: *worker_id,
                query_id: *query_id,
            },
            StatisticsEvent::SourceStarted { worker_id, source_id } => EventView::SourceStarted {
                worker_id: *worker_id,
                source: source_id@,
            },
            StatisticsEvent::PipelineExecutionError { worker_id, pipeline_id } => {
                EventView::PipelineExecutionError { worker_id: *worker_id, pipeline: pipeline_id@ }
            },
        }
    }
}

/// The views of a list of events.
pub open spec fn event_views(s: Seq<StatisticsEvent>) -> Seq<EventView> {
    s.map_values(|e: StatisticsEvent| e@)
}

impl Clone for StatisticsEvent {
    fn clone(&self) -> (r: Self)
        ensures
            r == *self,
    {
        match self {
            StatisticsEvent::QueryStart { worker_id, query_id } => StatisticsEvent::QueryStart {
                worker_id: *worker_id,
                query_id: *query_id,
            },
            StatisticsEvent::QueryStop { worker_id, query_id } => StatisticsEvent::QueryStop {
                worker_id: *worker_id,
                query_id: *query_id,
            },
            StatisticsEvent::PipelineStart { worker_id, query_id, pipeline_id } => {
                StatisticsEvent::PipelineStart {
                    worker_id: *worker_id,
                    query_id: *query_id,
                    pipeline_id: pipeline_id.clone(),
                }
            },
            StatisticsEvent::PipelineStop { worker_id, query_id, pipeline_id } => {
                StatisticsEvent::PipelineStop {
                    worker_id: *worker_id,
                    query_id: *query_id,
                    pipeline_id: pipeline_id.clone(),
                }
            },
            StatisticsEvent::TaskExecutionStart { worker_id, query_id, pipeline_id, task_id } => {
                StatisticsEvent::TaskExecutionStart {
                    worker_id: *worker_id,
                    query_id: *query_id,
                    pipeline_id: pipeline_id.clone(),
                    task_id: *task_id,
                }
            },
            StatisticsEvent::TaskExecutionComplete { worker_id, query_id, pipeline_id, task_id } => {
                StatisticsEvent::TaskExecutionComplete {
                    worker_id: *worker_id,
                    query_id: *query_id,
                    pipeline_id: pipeline_id.clone(),
                    task_id: *task_id,
                }
            },
            StatisticsEvent::TaskEmit {
                worker_id,
                query_id,
                from_pipeline_id,
                to_pipeline_id,
                task_id,
            } => StatisticsEvent::TaskEmit {
                worker_id: *worker_id,
                query_id: *query_id,
                from_pipeline_id: from_pipeline_id.clone(),
                to_pipeline_id: to_pipeline_id.clone(),
                task_id: *task_id,
            },
            StatisticsEvent::QueryRunning { worker_id, query_id } => StatisticsEvent::QueryRunning {
                worker_id: *worker_id,
                query_id: *query_id,
            },
            StatisticsEvent::QueryTerminated { worker_id, query_id } => {
                StatisticsEvent::QueryTerminated { worker_id: *worker_id, query_id: *query_id }
            },
            StatisticsEvent::SourceStarted { worker_id, source_id } => {
                StatisticsEvent::SourceStarted {
                    worker_id: *worker_id,
                    source_id: source_id.clone(),
                }
            },
            StatisticsEvent::PipelineExecutionError { worker_id, pipeline_id } => {
                StatisticsEvent::PipelineExecutionError {
                    worker_id: *worker_id,
                    pipeline_id: pipeline_id.clone(),
                }
            },
        }
    }
}

/// Hands statistics events to an optional listener.
///
/// `emitted` records every event the sender was asked to emit, in order; it
/// exists for the contracts only. The events reach the listener's channel
/// when there is a listener and its receiving end is still alive.
#[derive(Clone)]
pub struct StatisticsSender {
    sender: Option<Sender<StatisticsEvent>>,
    emitted: Ghost<Seq<EventView>>,
}

impl StatisticsSender {
    /// Whether a listener is attached.
    pub closed spec fn listening(&self) -> bool {
        self.sender is Some
    }

    /// The events emitted through this sender so far, in order.
    pub closed spec fn log(&self) -> Seq<EventView> {
        self.emitted@
    }

    /// A sender that hands events to `sender`.
    pub fn new(sender: Sender<StatisticsEvent>) -> (r: Self)
        ensures
            r.listening(),
            r.log().len() == 0,
    {
        StatisticsSender { sender: Some(sender), emitted: Ghost(Seq::empty()) }
    }

    /// A sender without a listener: events are dropped.
    pub fn noop() -> (r: Self)
        ensures
            !r.listening(),
            r.log().len() == 0,
    {
        StatisticsSender { sender: None, emitted: Ghost(Seq::empty()) }
    }

    /// Whether a listener is attached.
    pub fn has_listener(&self) -> (r: bool)
        ensures
            r == self.listening(),
    {
        self.sender.is_some()
    }

    /// Emits `event` to the listener, if there is one; a listener that went
    /// away is ignored.
    pub fn emit(&mut self, event: StatisticsEvent)
        ensures
            final(self).log() == old(self).log().push(event@),
            final(self).listening() == old(self).listening(),
    {
        let ghost e = event@;
        match &self.sender {
            Some(sender) => {
                let _ = channel_send(sender, event);
            },
            None => {},
        }
        self.emitted = Ghost(self.emitted@.push(e));
    }

    /// Emits `QueryStart`.
    pub fn query_start(&mut self, worker_id: WorkerId, query_id: QueryId)
        ensures
            final(self).log() == old(self).log().push(
                (StatisticsEvent::QueryStart { worker_id, query_id })@,
            ),
            final(self).listening() == old(self).listening(),
    {
        self.emit(StatisticsEvent::QueryStart { worker_id, query_id });
    }

    /// Emits `QueryStop`.
    pub fn query_stop(&mut self, worker_id: WorkerId, query_id: QueryId)
        ensures
            final(self).log() == old(self).log().push(
                (StatisticsEvent::QueryStop { worker_id, query_id })@,
            ),
            final(self).listening() == old(self).listening(),
    {
        self.emit(StatisticsEvent::QueryStop { worker_id, query_id });
    }

    /// Emits `PipelineStart`.
    pub fn pipeline_start(&mut self, worker_id: WorkerId, query_id: QueryId, pipeline_id: PipelineId)
        ensures
            final(self).log() == old(self).log().push(
                (StatisticsEvent::PipelineStart { worker_id, query_id, pipeline_id })@,
            ),
            final(self).listening() == old(self).listening(),
    {
        self.emit(StatisticsEvent::PipelineStart { worker_id, query_id, pipeline_id });
    }

    /// Emits `PipelineStop`.
    pub fn pipeline_stop(&mut self, worker_id: WorkerId, query_id: QueryId, pipeline_id: PipelineId)
        ensures
            final(self).log() == old(self).log().push(
                (StatisticsEvent::PipelineStop { worker_id, query_id, pipeline_id })@,
            ),
            final(self).listening() == old(self).listening(),
    {
        self.emit(StatisticsEvent::PipelineStop { worker_id, query_id, pipeline_id });
    }

    /// Emits `TaskExecutionStart`.
    pub fn task_execution_start(
        &mut self,
        worker_id: WorkerId,
        query_id: QueryId,
        pipeline_id: PipelineId,
        task_id: TaskId,
    )
        ensures
            final(self).log() == old(self).log().push(
                (StatisticsEvent::TaskExecutionStart { worker_id, query_id, pipeline_id, task_id })@,
            ),
            final(self).listening() == old(self).listening(),
    {
        self.emit(StatisticsEvent::TaskExecutionStart { worker_id, query_id, pipeline_id, task_id });
    }

    /// Emits `TaskExecutionComplete`.
    pub fn task_execution_complete(
        &mut self,
        worker_id: WorkerId,
        query_id: QueryId,
        pipeline_id: PipelineId,
        task_id: TaskId,
    )
        ensures
            final(self).log() == old(self).log().push(
                (StatisticsEvent::TaskExecutionComplete { worker_id, query_id, pipeline_id, task_id })@,
            ),
            final(self).listening() == old(self).listening(),
    {
        self.emit(
            StatisticsEvent::TaskExecutionComplete { worker_id, query_id, pipeline_id, task_id },
        );
    }

    /// Emits `TaskEmit`.
    pub fn task_emit(
        &mut self,
        worker_id: WorkerId,
        query_id: QueryId,
        from_pipeline_id: PipelineId,
        to_pipeline_id: PipelineId,
        task_id: TaskId,
    )
        ensures
            final(self).log() == old(self).log().push(
                (StatisticsEvent::TaskEmit {
                    worker_id,
                    query_id,
                    from_pipeline_id,
                    to_pipeline_id,
                    task_id,
                })@,
            ),
            final(self).listening() == old(self).listening(),
    {
        self.emit(
            StatisticsEvent::TaskEmit {
                worker_id,
                query_id,
                from_pipeline_id,
                to_pipeline_id,
                task_id,
            },
        );
    }

    /// Emits `QueryRunning`.
    pub fn query_running(&mut self, worker_id: WorkerId, query_id: QueryId)
        ensures
            final(self).log() == old(self).log().push(
                (StatisticsEvent::QueryRunning { worker_id, query_id })@,
            ),
            final(self).listening() == old(self).listening(),
    {
        self.emit(StatisticsEvent::QueryRunning { worker_id, query_id });
    }

    /// Emits `QueryTerminated`.
    pub fn query_terminated(&mut self, worker_id: WorkerId, query_id: QueryId)
        ensures
            final(self).log() == old(self).log().push(
                (StatisticsEvent::QueryTerminated { worker_id, query_id })@,
            ),
            final(self).listening() == old(self).listening(),
    {
        self.emit(StatisticsEvent::QueryTerminated { worker_id, query_id });
    }

    /// Emits `SourceStarted`.
    pub fn source_started(&mut self, worker_id: WorkerId, source_id: PipelineId)
        ensures
            final(self).log() == old(self).log().push(
                (StatisticsEvent::SourceStarted { worker_id, source_id })@,
            ),
            final(self).listening() == old(self).listening(),
    {
        self.emit(StatisticsEvent::SourceStarted { worker_id, source_id });
    }

    /// Emits `PipelineExecutionError`.
    pub fn pipeline_execution_error(&mut self, worker_id: WorkerId, pipeline_id: PipelineId)
        ensures
            final(self).log() == old(self).log().push(
                (StatisticsEvent::PipelineExecutionError { worker_id, pipeline_id })@,
            ),
            final(self).listening() == old(self).listening(),
    {
        self.emit(StatisticsEvent::PipelineExecutionError { worker_id, pipeline_id });
    }
}

impl Default for StatisticsSender {
    fn default() -> (r: Self)
        ensures
            !r.listening(),
            r.log().len() == 0,
    {
        Self::noop()
    }
}

} // verus!
