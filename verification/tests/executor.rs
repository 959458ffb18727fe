use adaptive_engine::executor::{ExecutionStats, ExecutorShared, FifoQueue, StatisticsEvent, StatisticsSender};
use adaptive_engine::executor::ExecutorContext;
use adaptive_engine::graph::PipelineGraph;
use adaptive_engine::pipeline::{Buffer, Pipeline, PipelineError, PipelineId};
use adaptive_engine::source::{Source, SourceEmitHandle, SourceError, SourceMessage};
use std::sync::mpsc::{self, Receiver, Sender};
use std::sync::{Arc, Mutex};

/// Doubles every byte.
struct Doubler {
    id: PipelineId,
}

impl Pipeline for Doubler {
    fn execute(&mut self, input: Buffer, _context: &mut ExecutorContext) -> Result<Vec<Buffer>, PipelineError> {
        Ok(vec![Buffer::new(input.data().iter().map(|b| b.wrapping_mul(2)).collect())])
    }

    fn id(&self) -> &PipelineId {
        &self.id
    }
}

/// Records every buffer it receives and whether it was torn down.
struct Collector {
    id: PipelineId,
    seen: Arc<Mutex<Vec<Vec<u8>>>>,
    torn_down: Arc<Mutex<bool>>,
}

impl Pipeline for Collector {
    fn execute(&mut self, input: Buffer, _context: &mut ExecutorContext) -> Result<Vec<Buffer>, PipelineError> {
        self.seen.lock().unwrap().push(input.data().to_vec());
        Ok(vec![])
    }

    fn teardown(&mut self, _context: &mut ExecutorContext) -> Result<(), PipelineError> {
        *self.torn_down.lock().unwrap() = true;
        Ok(())
    }

    fn id(&self) -> &PipelineId {
        &self.id
    }
}

/// Fails on every buffer.
struct Failing {
    id: PipelineId,
}

impl Pipeline for Failing {
    fn execute(&mut self, _input: Buffer, _context: &mut ExecutorContext) -> Result<Vec<Buffer>, PipelineError> {
        Err(PipelineError::ExecutionFailed("boom".to_string()))
    }

    fn id(&self) -> &PipelineId {
        &self.id
    }
}

/// Emits the given buffers as soon as it is started, then ends its stream.
struct Burst {
    id: PipelineId,
    payloads: Vec<Vec<u8>>,
}

impl Source for Burst {
    fn start(&self, emit_handle: SourceEmitHandle) -> Result<(), SourceError> {
        for p in &self.payloads {
            emit_handle.emit(Buffer::new(p.clone()))?;
        }
        emit_handle.end_of_stream()
    }

    fn stop(&self) -> Result<(), SourceError> {
        Ok(())
    }

    fn id(&self) -> &PipelineId {
        &self.id
    }
}

struct Harness {
    shared: ExecutorShared<FifoQueue>,
    messages: Receiver<SourceMessage>,
    events: Receiver<StatisticsEvent>,
}

fn harness() -> Harness {
    let (src_tx, src_rx): (Sender<SourceMessage>, Receiver<SourceMessage>) = mpsc::channel();
    let (ev_tx, ev_rx) = mpsc::channel();
    let shared = ExecutorShared::new(FifoQueue::new(), src_tx, StatisticsSender::new(ev_tx), 1, None);
    Harness { shared, messages: src_rx, events: ev_rx }
}

impl Harness {
    /// Runs tasks and feeds source messages back until nothing is left.
    fn run_to_quiescence(&mut self, stats: &mut ExecutionStats) {
        loop {
            while let Ok(m) = self.messages.try_recv() {
                self.shared.handle_mut().submit_task(m.into_task());
            }
            match self.shared.pop_task() {
                Some(task) => self.shared.dispatch_task(0, task, stats),
                None => {
                    if let Ok(m) = self.messages.try_recv() {
                        self.shared.handle_mut().submit_task(m.into_task());
                    } else {
                        break;
                    }
                }
            }
        }
    }

    fn drain_events(&self) -> Vec<StatisticsEvent> {
        let mut v = Vec::new();
        while let Ok(e) = self.events.try_recv() {
            v.push(e);
        }
        v
    }
}

fn linear_graph(payloads: Vec<Vec<u8>>, seen: Arc<Mutex<Vec<Vec<u8>>>>, torn_down: Arc<Mutex<bool>>) -> PipelineGraph {
    let mut g = PipelineGraph::new();
    let src = PipelineId::new("src");
    let dbl = PipelineId::new("double");
    let sink = PipelineId::new("sink");
    g.add_source(Box::new(Burst { id: src.clone(), payloads })).unwrap();
    g.add_pipeline(Box::new(Doubler { id: dbl.clone() })).unwrap();
    g.add_pipeline(Box::new(Collector { id: sink.clone(), seen, torn_down })).unwrap();
    g.connect(&src, &dbl).unwrap();
    g.connect(&dbl, &sink).unwrap();
    g
}

#[test]
fn buffers_flow_through_the_graph_and_the_query_winds_down() {
    let seen = Arc::new(Mutex::new(Vec::new()));
    let torn_down = Arc::new(Mutex::new(false));
    let mut h = harness();
    h.shared
        .handle_mut()
        .deploy_graph(linear_graph(vec![vec![1, 2], vec![3]], seen.clone(), torn_down.clone()))
        .unwrap();

    let mut stats = ExecutionStats::new();
    h.run_to_quiescence(&mut stats);

    assert_eq!(*seen.lock().unwrap(), vec![vec![2, 4], vec![6]]);
    assert!(*torn_down.lock().unwrap());
    assert_eq!(stats.graphs_deployed, 1);
    assert_eq!(stats.pipelines_started, 3);
    assert_eq!(stats.pipelines_stopped, 3);
    assert_eq!(stats.errors_encountered, 0);
    assert!(h.shared.handle().graph().is_empty());

    let events = h.drain_events();
    let starts = events.iter().filter(|e| matches!(e, StatisticsEvent::PipelineStart { .. })).count();
    let stops = events.iter().filter(|e| matches!(e, StatisticsEvent::PipelineStop { .. })).count();
    assert_eq!(starts, 3);
    assert_eq!(stops, 3);
    assert!(events.iter().any(|e| matches!(e, StatisticsEvent::SourceStarted { .. })));
}

#[test]
fn a_failing_pipeline_is_recorded() {
    let mut h = harness();
    let mut g = PipelineGraph::new();
    let src = PipelineId::new("src");
    let bad = PipelineId::new("bad");
    g.add_source(Box::new(Burst { id: src.clone(), payloads: vec![vec![9]] })).unwrap();
    g.add_pipeline(Box::new(Failing { id: bad.clone() })).unwrap();
    g.connect(&src, &bad).unwrap();
    h.shared.handle_mut().deploy_graph(g).unwrap();

    let mut stats = ExecutionStats::new();
    h.run_to_quiescence(&mut stats);

    assert!(stats.errors_encountered >= 1);
    // The recorded errors reach the statistics only when a run ends.
    assert!(!stats.has_errors());
    assert!(h.shared.handle().error_state().has_error());
    assert_eq!(h.shared.handle().error_state().get_errors().len(), 1);
    let events = h.drain_events();
    assert!(events.iter().any(|e| matches!(e, StatisticsEvent::PipelineExecutionError { .. })));
}

#[test]
fn work_for_an_unknown_pipeline_is_skipped() {
    let mut h = harness();
    h.shared.handle_mut().emit(PipelineId::new("nowhere"), Buffer::new(vec![1])).unwrap();
    let mut stats = ExecutionStats::new();
    h.run_to_quiescence(&mut stats);
    assert_eq!(stats.tasks_skipped, 1);
    assert_eq!(stats.buffers_processed, 0);
}

#[test]
fn shutdown_of_an_empty_executor_completes() {
    let mut h = harness();
    assert!(!h.shared.is_shutdown_complete());
    h.shared.handle_mut().shutdown().unwrap();
    let mut stats = ExecutionStats::new();
    h.run_to_quiescence(&mut stats);
    assert!(h.shared.is_shutdown_complete());
}

#[test]
fn run_one_reports_whether_there_was_a_task() {
    let mut h = harness();
    assert!(!h.shared.run_one());
    h.shared.handle_mut().emit(PipelineId::new("nowhere"), Buffer::new(vec![1])).unwrap();
    assert!(h.shared.run_one());
    assert!(!h.shared.run_one());
}

#[test]
fn stop_pipelines_stops_a_running_query() {
    let seen = Arc::new(Mutex::new(Vec::new()));
    let torn_down = Arc::new(Mutex::new(false));
    let mut h = harness();
    h.shared
        .handle_mut()
        .deploy_graph(linear_graph(vec![], seen.clone(), torn_down.clone()))
        .unwrap();
    // Deploy only: set up the pipelines, do not start the source yet.
    let mut stats = ExecutionStats::new();
    let deploy = h.shared.pop_task().unwrap();
    h.shared.dispatch_task(0, deploy, &mut stats);
    assert_eq!(h.shared.handle().graph().len(), 3);

    h.shared.handle_mut().stop_pipelines(&vec![PipelineId::new("src")]).unwrap();
    h.run_to_quiescence(&mut stats);
    assert!(h.shared.handle().graph().is_empty());
    assert!(*torn_down.lock().unwrap());
}

#[test]
fn clear_graph_drops_every_node() {
    let seen = Arc::new(Mutex::new(Vec::new()));
    let torn_down = Arc::new(Mutex::new(false));
    let mut h = harness();
    h.shared
        .handle_mut()
        .deploy_graph(linear_graph(vec![], seen, torn_down))
        .unwrap();
    let mut stats = ExecutionStats::new();
    let deploy = h.shared.pop_task().unwrap();
    h.shared.dispatch_task(0, deploy, &mut stats);
    assert_eq!(h.shared.handle().graph().len(), 3);
    h.shared.clear_graph();
    assert!(h.shared.handle().graph().is_empty());
}
