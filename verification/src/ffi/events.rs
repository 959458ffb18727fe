//! Statistics events flattened into one record type for the native side.

use crate::executor::stats::{EventView, StatisticsEvent};
use vstd::prelude::*;
use vstd::string::*;

verus! {

/// The kind of a flattened statistics event.
#[derive(Debug, Clone, Copy, PartialEq, Eq, Structural)]
pub enum FfiStatisticsEventType {
    Empty,
    QueryStart,
    QueryStop,
    PipelineStart,
    PipelineStop,
    TaskExecutionStart,
    TaskExecutionComplete,
    TaskEmit,
    QueryRunning,
    QueryTerminated,
}

/// The number the native side uses for each kind.
pub open spec fn event_type_code(t: FfiStatisticsEventType) -> u32 {
    match t {
        FfiStatisticsEventType::Empty => 0,
        FfiStatisticsEventType::QueryStart => 1,
        FfiStatisticsEventType::QueryStop => 2,
        FfiStatisticsEventType::PipelineStart => 3,
        FfiStatisticsEventType::PipelineStop => 4,
        FfiStatisticsEventType::TaskExecutionStart => 5,
        FfiStatisticsEventType::TaskExecutionComplete => 6,
        FfiStatisticsEventType::TaskEmit => 7,
        FfiStatisticsEventType::QueryRunning => 8,
        FfiStatisticsEventType::QueryTerminated => 9,
    }
}

impl FfiStatisticsEventType {
    /// The number of this kind.
    pub fn code(self) -> (r: u32)
        ensures
            r == event_type_code(self),
    {
        match self {
            FfiStatisticsEventType::Empty => 0,
            FfiStatisticsEventType::QueryStart => 1,
            FfiStatisticsEventType::QueryStop => 2,
            FfiStatisticsEventType::PipelineStart => 3,
            FfiStatisticsEventType::PipelineStop => 4,
            FfiStatisticsEventType::TaskExecutionStart => 5,
            FfiStatisticsEventType::TaskExecutionComplete => 6,
            FfiStatisticsEventType::TaskEmit => 7,
            FfiStatisticsEventType::QueryRunning => 8,
            FfiStatisticsEventType::QueryTerminated => 9,
        }
    }
}

/// A statistics event as one flat record. Fields that do not apply to the
/// event's kind are 0 or empty.
#[derive(Debug)]
pub struct FfiStatisticsEvent {
    /// The code of the event's kind.
    pub event_type: u32,
    pub worker_id: u64,
    pub query_id: u64,
    /// The pipeline of the event (the sending pipeline of `TaskEmit`).
    pub pipeline_id: String,
    /// The receiving pipeline of `TaskEmit`.
    pub to_pipeline_id: String,
    pub task_id: u64,
}

/// The abstract content of a flat event.
pub ghost struct FlatEventView {
    pub event_type: u32,
    pub worker_id: u64,
    pub query_id: u64,
    pub pipeline_id: Seq<char>,
    pub to_pipeline_id: Seq<char>,
    pub task_id: u64,
}

impl View for FfiStatisticsEvent {
    type V = FlatEventView;

    open spec fn view(&self) -> FlatEventView {
        FlatEventView {
            event_type: self.event_type,
            worker_id: self.worker_id,
            query_id: self.query_id,
            pipeline_id: self.pipeline_id@,
            to_pipeline_id: self.to_pipeline_id@,
            task_id: self.task_id,
        }
    }
}

/// The empty record: kind `Empty`, every other field 0 or empty.
pub open spec fn empty_flat_event() -> FlatEventView {
    FlatEventView {
        event_type: event_type_code(FfiStatisticsEventType::Empty),
        worker_id: 0,
        query_id: 0,
        pipeline_id: Seq::empty(),
        to_pipeline_id: Seq::empty(),
        task_id: 0,
    }
}

/// The flat record of `e`; `None` for the events that the query layer
/// consumes and never hands to consumers (`SourceStarted`,
/// `PipelineExecutionError`).
pub open spec fn flattened(e: EventView) -> Option<FlatEventView> {
    let z = empty_flat_event();
    match e {
        EventView::QueryStart { worker_id, query_id } => Some(
            FlatEventView { event_type: 1, worker_id, query_id, ..z },
        ),
        EventView::QueryStop { worker_id, query_id } => Some(
            FlatEventView { event_type: 2, worker_id, query_id, ..z },
        ),
        EventView::PipelineStart { worker_id, query_id, pipeline } => Some(
            FlatEventView { event_type: 3, worker_id, query_id, pipeline_id: pipeline, ..z },
        ),
        EventView::PipelineStop { worker_id, query_id, pipeline } => Some(
            FlatEventView { event_type: 4, worker_id, query_id, pipeline_id: pipeline, ..z },
        ),
        EventView::TaskExecutionStart { worker_id, query_id, pipeline, task_id } => Some(
            FlatEventView { event_type: 5, worker_id, query_id, pipeline_id: pipeline, task_id, ..z },
        ),
        EventView::TaskExecutionComplete { worker_id, query_id, pipeline, task_id } => Some(
            FlatEventView { event_type: 6, worker_id, query_id, pipeline_id: pipeline, task_id, ..z },
        ),
        EventView::TaskEmit { worker_id, query_id, from, to, task_id } => Some(
            FlatEventView {
                event_type: 7,
                worker_id,
                query_id,
                pipeline_id: from,
                to_pipeline_id: to,
                task_id,
            },
        ),
        EventView::QueryRunning { worker_id, query_id } => Some(
            FlatEventView { event_type: 8, worker_id, query_id, ..z },
        ),
        EventView::QueryTerminated { worker_id, query_id } => Some(
            FlatEventView { event_type: 9, worker_id, query_id, ..z },
        ),
        EventView::SourceStarted { .. } => None,
        EventView::PipelineExecutionError { .. } => None,
    }
}

impl Default for FfiStatisticsEvent {
    /// The empty record.
    fn default() -> (r: Self)
        ensures
            r@ == empty_flat_event(),
    {
        FfiStatisticsEvent {
            event_type: FfiStatisticsEventType::Empty.code(),
            worker_id: 0,
            query_id: 0,
            pipeline_id: String::new(),
            to_pipeline_id: String::new(),
            task_id: 0,
        }
    }
}

impl FfiStatisticsEvent {
    /// The record of kind `kind` with the given fields.
    fn record(
        kind: FfiStatisticsEventType,
        worker_id: u64,
        query_id: u64,
        pipeline_id: String,
        to_pipeline_id: String,
        task_id: u64,
    ) -> (r: Self)
        ensures
            r@ == (FlatEventView {
                event_type: event_type_code(kind),
                worker_id,
                query_id,
                pipeline_id: pipeline_id@,
                to_pipeline_id: to_pipeline_id@,
                task_id,
            }),
    {
        FfiStatisticsEvent {
            event_type: kind.code(),
            worker_id,
            query_id,
            pipeline_id,
            to_pipeline_id,
            task_id,
        }
    }

    /// Flattens `event` for the native side, as `flattened` describes.
    pub fn from_event(event: &StatisticsEvent) -> (r: Option<Self>)
        ensures
            match r {
                Some(f) => flattened(event@) == Some(f@),
                None => flattened(event@) is None,
            },
    {
        let none = String::new();
        match event {
            StatisticsEvent::QueryStart { worker_id, query_id } => Some(
                Self::record(FfiStatisticsEventType::QueryStart, *worker_id, *query_id, none, String::new(), 0),
            ),
            StatisticsEvent::QueryStop { worker_id, query_id } => Some(
                Self::record(FfiStatisticsEventType::QueryStop, *worker_id, *query_id, none, String::new(), 0),
            ),
            StatisticsEvent::PipelineStart { worker_id, query_id, pipeline_id } => Some(
                Self::record(
                    FfiStatisticsEventType::PipelineStart,
                    *worker_id,
                    *query_id,
                    pipeline_id.to_string(),
                    none,
                    0,
                ),
            ),
            StatisticsEvent::PipelineStop { worker_id, query_id, pipeline_id } => Some(
                Self::record(
                    FfiStatisticsEventType::PipelineStop,
                    *worker_id,
                    *query_id,
                    pipeline_id.to_string(),
                    none,
                    0,
                ),
            ),
            StatisticsEvent::TaskExecutionStart { worker_id, query_id, pipeline_id, task_id } => Some(
                Self::record(
                    FfiStatisticsEventType::TaskExecutionStart,
                    *worker_id,
                    *query_id,
                    pipeline_id.to_string(),
                    none,
                    *task_id,
                ),
            ),
            StatisticsEvent::TaskExecutionComplete { worker_id, query_id, pipeline_id, task_id } => Some(
                Self::record(
                    FfiStatisticsEventType::TaskExecutionComplete,
                    *worker_id,
                    *query_id,
                    pipeline_id.to_string(),
                    none,
                    *task_id,
                ),
            ),
            StatisticsEvent::TaskEmit { worker_id, query_id, from_pipeline_id, to_pipeline_id, task_id } => Some(
                Self::record(
                    FfiStatisticsEventType::TaskEmit,
                    *worker_id,
                    *query_id,
                    from_pipeline_id.to_string(),
                    to_pipeline_id.to_string(),
                    *task_id,
                ),
            ),
            StatisticsEvent::QueryRunning { worker_id, query_id } => Some(
                Self::record(FfiStatisticsEventType::QueryRunning, *worker_id, *query_id, none, String::new(), 0),
            ),
            StatisticsEvent::QueryTerminated { worker_id, query_id } => Some(
                Self::record(FfiStatisticsEventType::QueryTerminated, *worker_id, *query_id, none, String::new(), 0),
            ),
            StatisticsEvent::SourceStarted { .. } => None,
            StatisticsEvent::PipelineExecutionError { .. } => None,
        }
    }
}

/// The kind of the same name as the event's variant; `Empty` for the events
/// that have no kind of their own.
pub open spec fn kind_of(e: EventView) -> FfiStatisticsEventType {
    match e {
        EventView::QueryStart { .. } => FfiStatisticsEventType::QueryStart,
        EventView::QueryStop { .. } => FfiStatisticsEventType::QueryStop,
        EventView::PipelineStart { .. } => FfiStatisticsEventType::PipelineStart,
        EventView::PipelineStop { .. } => FfiStatisticsEventType::PipelineStop,
        EventView::TaskExecutionStart { .. } => FfiStatisticsEventType::TaskExecutionStart,
        EventView::TaskExecutionComplete { .. } => FfiStatisticsEventType::TaskExecutionComplete,
        EventView::TaskEmit { .. } => FfiStatisticsEventType::TaskEmit,
        EventView::QueryRunning { .. } => FfiStatisticsEventType::QueryRunning,
        EventView::QueryTerminated { .. } => FfiStatisticsEventType::QueryTerminated,
        EventView::SourceStarted { .. } => FfiStatisticsEventType::Empty,
        EventView::PipelineExecutionError { .. } => FfiStatisticsEventType::Empty,
    }
}

/// A flattened event carries the code of its own kind, no two kinds share
/// a code, and only the events the query layer consumes are not flattened.
pub proof fn lemma_flattened_kind(e: EventView, a: FfiStatisticsEventType, b: FfiStatisticsEventType)
    ensures
        flattened(e) is Some ==> flattened(e)->0.event_type == event_type_code(kind_of(e)),
        flattened(e) is None <==> kind_of(e) == FfiStatisticsEventType::Empty,
        a != b ==> event_type_code(a) != event_type_code(b),
{
}

} // verus!
