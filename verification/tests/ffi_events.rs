use adaptive_engine::executor::StatisticsEvent;
use adaptive_engine::ffi::events::{FfiStatisticsEvent, FfiStatisticsEventType};
use adaptive_engine::pipeline::PipelineId;

#[test]
fn event_type_codes() {
    let kinds = [
        FfiStatisticsEventType::Empty,
        FfiStatisticsEventType::QueryStart,
        FfiStatisticsEventType::QueryStop,
        FfiStatisticsEventType::PipelineStart,
        FfiStatisticsEventType::PipelineStop,
        FfiStatisticsEventType::TaskExecutionStart,
        FfiStatisticsEventType::TaskExecutionComplete,
        FfiStatisticsEventType::TaskEmit,
        FfiStatisticsEventType::QueryRunning,
        FfiStatisticsEventType::QueryTerminated,
    ];
    for (i, k) in kinds.iter().enumerate() {
        assert_eq!(k.code(), i as u32);
    }
}

#[test]
fn default_record_is_empty() {
    let e = FfiStatisticsEvent::default();
    assert_eq!(e.event_type, 0);
    assert_eq!(e.worker_id, 0);
    assert_eq!(e.query_id, 0);
    assert!(e.pipeline_id.is_empty());
    assert!(e.to_pipeline_id.is_empty());
    assert_eq!(e.task_id, 0);
}

#[test]
fn task_emit_is_flattened_with_both_pipelines() {
    let e = FfiStatisticsEvent::from_event(&StatisticsEvent::TaskEmit {
        worker_id: 2,
        query_id: 7,
        from_pipeline_id: PipelineId::new("a"),
        to_pipeline_id: PipelineId::new("b"),
        task_id: 9,
    })
    .unwrap();
    assert_eq!(e.event_type, 7);
    assert_eq!(e.worker_id, 2);
    assert_eq!(e.query_id, 7);
    assert_eq!(e.pipeline_id, "a");
    assert_eq!(e.to_pipeline_id, "b");
    assert_eq!(e.task_id, 9);
}

#[test]
fn pipeline_and_query_events_are_flattened() {
    let e = FfiStatisticsEvent::from_event(&StatisticsEvent::PipelineStop {
        worker_id: 1,
        query_id: 3,
        pipeline_id: PipelineId::new("p"),
    })
    .unwrap();
    assert_eq!((e.event_type, e.worker_id, e.query_id, e.task_id), (4, 1, 3, 0));
    assert_eq!(e.pipeline_id, "p");
    assert!(e.to_pipeline_id.is_empty());

    let r = FfiStatisticsEvent::from_event(&StatisticsEvent::QueryRunning { worker_id: 0, query_id: 5 }).unwrap();
    assert_eq!((r.event_type, r.query_id), (8, 5));
    assert!(r.pipeline_id.is_empty());
}

#[test]
fn internal_events_are_not_flattened() {
    assert!(FfiStatisticsEvent::from_event(&StatisticsEvent::SourceStarted {
        worker_id: 0,
        source_id: PipelineId::new("s"),
    })
    .is_none());
    assert!(FfiStatisticsEvent::from_event(&StatisticsEvent::PipelineExecutionError {
        worker_id: 0,
        pipeline_id: PipelineId::new("s"),
    })
    .is_none());
}
