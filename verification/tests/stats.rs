use adaptive_engine::executor::{StatisticsEvent, StatisticsSender};
use adaptive_engine::pipeline::PipelineId;
use std::sync::mpsc;

#[test]
fn test_noop_sender_does_not_panic() {
    let mut sender = StatisticsSender::noop();
    assert!(!sender.has_listener());

    sender.query_start(0, 1);
    sender.query_stop(0, 1);
    sender.pipeline_start(0, 1, PipelineId::new("test"));
    sender.pipeline_stop(0, 1, PipelineId::new("test"));
    sender.task_execution_start(0, 1, PipelineId::new("test"), 100);
    sender.task_execution_complete(0, 1, PipelineId::new("test"), 100);
    sender.task_emit(0, 1, PipelineId::new("from"), PipelineId::new("to"), 100);
}

#[test]
fn test_sender_with_channel_delivers_events() {
    let (tx, rx) = mpsc::channel();
    let mut sender = StatisticsSender::new(tx);
    assert!(sender.has_listener());

    sender.query_start(0, 42);
    sender.pipeline_start(0, 42, PipelineId::new("pipe1"));
    sender.task_execution_start(0, 42, PipelineId::new("pipe1"), 1);
    sender.task_execution_complete(0, 42, PipelineId::new("pipe1"), 1);
    sender.pipeline_stop(0, 42, PipelineId::new("pipe1"));
    sender.query_stop(0, 42);

    let mut events = Vec::new();
    while let Ok(event) = rx.try_recv() {
        events.push(event);
    }

    assert_eq!(events.len(), 6);
    assert!(matches!(events[0], StatisticsEvent::QueryStart { query_id: 42, .. }));
    assert!(matches!(events[1], StatisticsEvent::PipelineStart { query_id: 42, .. }));
    assert!(matches!(events[2], StatisticsEvent::TaskExecutionStart { task_id: 1, .. }));
    assert!(matches!(events[3], StatisticsEvent::TaskExecutionComplete { task_id: 1, .. }));
    assert!(matches!(events[4], StatisticsEvent::PipelineStop { query_id: 42, .. }));
    assert!(matches!(events[5], StatisticsEvent::QueryStop { query_id: 42, .. }));
}

#[test]
fn test_sender_handles_dropped_receiver() {
    let (tx, rx) = mpsc::channel();
    let mut sender = StatisticsSender::new(tx);
    drop(rx);
    sender.query_start(0, 1);
    sender.query_stop(0, 1);
}

#[test]
fn test_task_emit_event() {
    let (tx, rx) = mpsc::channel();
    let mut sender = StatisticsSender::new(tx);

    sender.task_emit(0, 1, PipelineId::new("source"), PipelineId::new("sink"), 42);

    let event = rx.recv().unwrap();
    match event {
        StatisticsEvent::TaskEmit {
            worker_id,
            query_id,
            from_pipeline_id,
            to_pipeline_id,
            task_id,
        } => {
            assert_eq!(worker_id, 0);
            assert_eq!(query_id, 1);
            assert_eq!(from_pipeline_id.to_string(), "source");
            assert_eq!(to_pipeline_id.to_string(), "sink");
            assert_eq!(task_id, 42);
        }
        _ => panic!("Expected TaskEmit event"),
    }
}

#[test]
fn internal_events_carry_their_fields() {
    let (tx, rx) = mpsc::channel();
    let mut sender = StatisticsSender::new(tx);
    sender.source_started(3, PipelineId::new("src"));
    sender.pipeline_execution_error(4, PipelineId::new("p"));
    sender.query_running(5, 7);
    sender.query_terminated(6, 7);

    match rx.recv().unwrap() {
        StatisticsEvent::SourceStarted { worker_id, source_id } => {
            assert_eq!(worker_id, 3);
            assert_eq!(source_id.as_str(), "src");
        }
        _ => panic!("expected SourceStarted"),
    }
    match rx.recv().unwrap() {
        StatisticsEvent::PipelineExecutionError { worker_id, pipeline_id } => {
            assert_eq!(worker_id, 4);
            assert_eq!(pipeline_id.as_str(), "p");
        }
        _ => panic!("expected PipelineExecutionError"),
    }
    assert!(matches!(rx.recv().unwrap(), StatisticsEvent::QueryRunning { worker_id: 5, query_id: 7 }));
    assert!(matches!(rx.recv().unwrap(), StatisticsEvent::QueryTerminated { worker_id: 6, query_id: 7 }));
}
