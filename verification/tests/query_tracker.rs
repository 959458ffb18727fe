use adaptive_engine::executor::StatisticsEvent;
use adaptive_engine::pipeline::PipelineId;
use adaptive_engine::query_engine::{QueryTracker, Reaction, registration_events};

#[test]
fn test_query_tracker_register_and_lookup() {
    let mut tracker = QueryTracker::new();
    let pid1 = PipelineId::new("p1");
    let pid2 = PipelineId::new("p2");

    tracker.register_query(42, vec![pid1.clone(), pid2.clone()], vec![pid1.clone()]);

    assert_eq!(tracker.lookup_query(&pid1), 42);
    assert_eq!(tracker.lookup_query(&pid2), 42);
    assert_eq!(tracker.lookup_query(&PipelineId::new("unknown")), 0);
}

#[test]
fn test_pipeline_start_rewrite() {
    let mut tracker = QueryTracker::new();
    let pid = PipelineId::new("p1");
    tracker.register_query(5, vec![pid.clone()], vec![]);

    let events = tracker.process(StatisticsEvent::PipelineStart {
        worker_id: 0,
        query_id: 0,
        pipeline_id: pid.clone(),
    });

    assert_eq!(events.len(), 1);
    match &events[0] {
        StatisticsEvent::PipelineStart { query_id, .. } => assert_eq!(*query_id, 5),
        _ => panic!("Expected PipelineStart"),
    }
}

#[test]
fn test_source_started_synthesizes_query_running() {
    let mut tracker = QueryTracker::new();
    let src1 = PipelineId::new("s1");
    let src2 = PipelineId::new("s2");
    let pipe = PipelineId::new("p1");

    tracker.register_query(
        10,
        vec![src1.clone(), src2.clone(), pipe.clone()],
        vec![src1.clone(), src2.clone()],
    );

    let events = tracker.process(StatisticsEvent::SourceStarted { worker_id: 0, source_id: src1 });
    assert!(events.is_empty());

    let events = tracker.process(StatisticsEvent::SourceStarted { worker_id: 0, source_id: src2 });
    assert_eq!(events.len(), 1);
    match &events[0] {
        StatisticsEvent::QueryRunning { query_id, .. } => assert_eq!(*query_id, 10),
        _ => panic!("Expected QueryRunning"),
    }
}

#[test]
fn test_pipeline_stop_synthesizes_query_terminated() {
    let mut tracker = QueryTracker::new();
    let pid1 = PipelineId::new("p1");
    let pid2 = PipelineId::new("p2");

    tracker.register_query(7, vec![pid1.clone(), pid2.clone()], vec![]);

    let events = tracker.process(StatisticsEvent::PipelineStop {
        worker_id: 0,
        query_id: 0,
        pipeline_id: pid1,
    });
    assert_eq!(events.len(), 1);

    let events = tracker.process(StatisticsEvent::PipelineStop {
        worker_id: 0,
        query_id: 0,
        pipeline_id: pid2,
    });
    assert_eq!(events.len(), 3);
    assert!(matches!(events[1], StatisticsEvent::QueryStop { query_id: 7, .. }));
    assert!(matches!(events[2], StatisticsEvent::QueryTerminated { query_id: 7, .. }));
}

#[test]
fn test_terminate_remaining() {
    let mut tracker = QueryTracker::new();
    tracker.register_query(1, vec![PipelineId::new("p1")], vec![]);
    tracker.register_query(2, vec![PipelineId::new("p2")], vec![]);

    let events = tracker.terminate_remaining();
    assert_eq!(events.len(), 4);
}

#[test]
fn query_running_is_reported_once() {
    let mut tracker = QueryTracker::new();
    let src = PipelineId::new("s");
    tracker.register_query(3, vec![src.clone()], vec![src.clone()]);

    let first = tracker.process(StatisticsEvent::SourceStarted { worker_id: 1, source_id: src.clone() });
    assert_eq!(first.len(), 1);
    assert!(matches!(first[0], StatisticsEvent::QueryRunning { worker_id: 1, query_id: 3 }));

    let again = tracker.process(StatisticsEvent::SourceStarted { worker_id: 1, source_id: src });
    assert!(again.is_empty());
}

#[test]
fn query_terminated_is_reported_once() {
    let mut tracker = QueryTracker::new();
    let p = PipelineId::new("p");
    tracker.register_query(4, vec![p.clone()], vec![]);

    let first = tracker.process(StatisticsEvent::PipelineStop { worker_id: 2, query_id: 0, pipeline_id: p.clone() });
    assert_eq!(first.len(), 3);
    assert!(matches!(first[0], StatisticsEvent::PipelineStop { query_id: 4, .. }));

    let again = tracker.process(StatisticsEvent::PipelineStop { worker_id: 2, query_id: 0, pipeline_id: p });
    assert_eq!(again.len(), 1);

    assert!(tracker.terminate_remaining().is_empty());
}

#[test]
fn unknown_pipeline_is_reported_under_query_zero() {
    let mut tracker = QueryTracker::new();
    let events = tracker.process(StatisticsEvent::PipelineStart {
        worker_id: 0,
        query_id: 9,
        pipeline_id: PipelineId::new("nobody"),
    });
    assert_eq!(events.len(), 1);
    assert!(matches!(events[0], StatisticsEvent::PipelineStart { query_id: 0, .. }));
}

#[test]
fn ids_of_a_registered_query() {
    let mut tracker = QueryTracker::new();
    tracker.register_query(8, vec![PipelineId::new("a"), PipelineId::new("b")], vec![PipelineId::new("a")]);
    let sources = tracker.get_source_ids(8);
    assert_eq!(sources.len(), 1);
    assert_eq!(sources[0].as_str(), "a");
    assert_eq!(tracker.get_pipeline_ids(8).len(), 2);
    assert!(tracker.get_source_ids(99).is_empty());
}

#[test]
fn registration_announces_start_and_running_without_sources() {
    let with_sources = registration_events(4, true);
    assert_eq!(with_sources.len(), 1);
    assert!(matches!(with_sources[0], StatisticsEvent::QueryStart { worker_id: 0, query_id: 4 }));

    let without = registration_events(5, false);
    assert_eq!(without.len(), 2);
    assert!(matches!(without[0], StatisticsEvent::QueryStart { worker_id: 0, query_id: 5 }));
    assert!(matches!(without[1], StatisticsEvent::QueryRunning { worker_id: 0, query_id: 5 }));
}

#[test]
fn first_error_terminates_the_query_later_ones_are_dropped() {
    let mut tracker = QueryTracker::new();
    let src = PipelineId::new("s");
    let op = PipelineId::new("op");
    tracker.register_query(11, vec![src.clone(), op.clone()], vec![src.clone()]);

    match tracker.react(StatisticsEvent::PipelineExecutionError { worker_id: 3, pipeline_id: op.clone() }) {
        Reaction::TerminateQuery { pipeline_ids, source_ids } => {
            let names: Vec<&str> = pipeline_ids.iter().map(|p| p.as_str()).collect();
            assert_eq!(names, vec!["s", "op"]);
            assert_eq!(source_ids.len(), 1);
            assert_eq!(source_ids[0].as_str(), "s");
        }
        _ => panic!("expected TerminateQuery"),
    }
    match tracker.react(StatisticsEvent::PipelineExecutionError { worker_id: 3, pipeline_id: op }) {
        Reaction::Forward(events) => assert!(events.is_empty()),
        _ => panic!("expected nothing to forward"),
    }
    match tracker.react(StatisticsEvent::PipelineStart { worker_id: 1, query_id: 0, pipeline_id: src }) {
        Reaction::Forward(events) => {
            assert_eq!(events.len(), 1);
            assert!(matches!(events[0], StatisticsEvent::PipelineStart { query_id: 11, .. }));
        }
        _ => panic!("expected a forwarded event"),
    }
}
