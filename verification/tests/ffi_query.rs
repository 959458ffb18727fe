use adaptive_engine::executor::ExecutorContext;
use adaptive_engine::ffi::query::{source_pipeline_id, stage_pipeline_id, wire_query_graph};
use adaptive_engine::graph::{GraphError, PipelineGraph};
use adaptive_engine::pipeline::{Buffer, Pipeline, PipelineError, PipelineId};
use adaptive_engine::source::{Source, SourceEmitHandle, SourceError};

struct Stage {
    id: PipelineId,
}

impl Pipeline for Stage {
    fn execute(&mut self, input: Buffer, _context: &mut ExecutorContext) -> Result<Vec<Buffer>, PipelineError> {
        Ok(vec![input])
    }

    fn id(&self) -> &PipelineId {
        &self.id
    }
}

struct Feed {
    id: PipelineId,
}

impl Source for Feed {
    fn start(&self, _emit_handle: SourceEmitHandle) -> Result<(), SourceError> {
        Ok(())
    }

    fn stop(&self) -> Result<(), SourceError> {
        Ok(())
    }

    fn id(&self) -> &PipelineId {
        &self.id
    }
}

fn query_graph(query_id: u64, stages: u64, sources: u64) -> PipelineGraph {
    let mut g = PipelineGraph::new();
    for i in 0..stages {
        g.add_pipeline(Box::new(Stage { id: stage_pipeline_id(query_id, i) })).unwrap();
    }
    for i in 0..sources {
        g.add_source(Box::new(Feed { id: source_pipeline_id(query_id, i) })).unwrap();
    }
    g
}

#[test]
fn ids_are_named_after_the_query() {
    assert_eq!(stage_pipeline_id(12, 3).as_str(), "query-12-stage-3");
    assert_eq!(source_pipeline_id(7, 0).as_str(), "query-7-source-0");
}

#[test]
fn a_chain_of_stages_fed_by_a_source_is_wired() {
    let g = wire_query_graph(query_graph(5, 2, 1), 5, &vec![(0, 1)], &vec![(0, 0)]).unwrap();
    let succ = g.get_successors(&PipelineId::new("query-5-stage-0"));
    assert_eq!(succ.len(), 1);
    assert_eq!(succ[0].as_str(), "query-5-stage-1");
    let from_source = g.get_successors(&PipelineId::new("query-5-source-0"));
    assert_eq!(from_source[0].as_str(), "query-5-stage-0");
    let order = g.topological_sort().unwrap();
    assert_eq!(order.len(), 3);
}

#[test]
fn an_edge_to_a_missing_stage_is_refused() {
    match wire_query_graph(query_graph(1, 1, 0), 1, &vec![(0, 4)], &vec![]) {
        Err(GraphError::PipelineNotFound(id)) => assert_eq!(id.as_str(), "query-1-stage-4"),
        _ => panic!("expected PipelineNotFound"),
    }
}

#[test]
fn a_cycle_of_stages_is_refused() {
    match wire_query_graph(query_graph(2, 2, 0), 2, &vec![(0, 1), (1, 0)], &vec![]) {
        Err(GraphError::CycleDetected(_)) => {}
        _ => panic!("expected CycleDetected"),
    }
}
