use adaptive_engine::engine::{QueryRegistry, StopPlan, sources_among, submission_ids};
use adaptive_engine::executor::ExecutorContext;
use adaptive_engine::graph::PipelineGraph;
use adaptive_engine::pipeline::{Buffer, Pipeline, PipelineError, PipelineId};
use adaptive_engine::source::{Source, SourceEmitHandle, SourceError};

struct Pass {
    id: PipelineId,
}

impl Pipeline for Pass {
    fn execute(&mut self, input: Buffer, _context: &mut ExecutorContext) -> Result<Vec<Buffer>, PipelineError> {
        Ok(vec![input])
    }

    fn id(&self) -> &PipelineId {
        &self.id
    }
}

struct Src {
    id: PipelineId,
}

impl Source for Src {
    fn start(&self, _emit_handle: SourceEmitHandle) -> Result<(), SourceError> {
        Ok(())
    }

    fn stop(&self) -> Result<(), SourceError> {
        Ok(())
    }

    fn id(&self) -> &PipelineId {
        &self.id
    }
}

fn query_graph(prefix: &str) -> PipelineGraph {
    let mut g = PipelineGraph::new();
    let src = PipelineId::new(&format!("{}-src", prefix));
    let op = PipelineId::new(&format!("{}-op", prefix));
    g.add_source(Box::new(Src { id: src.clone() })).unwrap();
    g.add_pipeline(Box::new(Pass { id: op.clone() })).unwrap();
    g.connect(&src, &op).unwrap();
    g
}

fn names(ids: &[PipelineId]) -> Vec<String> {
    ids.iter().map(|id| id.as_str().to_string()).collect()
}

#[test]
fn query_ids_start_at_one_and_increase() {
    let mut registry = QueryRegistry::new();
    assert_eq!(registry.next_query_id(), 1);
    assert_eq!(registry.next_query_id(), 2);
    assert_eq!(registry.next_query_id(), 3);
}

#[test]
fn submission_ids_lists_pipelines_and_sources() {
    let g = query_graph("a");
    let (all, sources) = submission_ids(&g);
    assert_eq!(names(&all), vec!["a-src", "a-op"]);
    assert_eq!(names(&sources), vec!["a-src"]);
}

#[test]
fn sources_among_keeps_order_and_skips_others() {
    let g = query_graph("b");
    let ids = vec![PipelineId::new("b-op"), PipelineId::new("b-src"), PipelineId::new("zzz")];
    assert_eq!(names(&sources_among(&g, &ids)), vec!["b-src"]);
}

#[test]
fn record_then_lookup() {
    let mut registry = QueryRegistry::new();
    let q = registry.next_query_id();
    registry.record(q, vec![PipelineId::new("x"), PipelineId::new("y")]);
    let ids = registry.pipelines_of(q).unwrap();
    assert_eq!(names(&ids), vec!["x", "y"]);
    assert!(registry.pipelines_of(q + 1).is_none());

    registry.record(q, vec![PipelineId::new("z")]);
    assert_eq!(names(&registry.pipelines_of(q).unwrap()), vec!["z"]);
}

#[test]
fn stop_plans() {
    let g = query_graph("c");
    let mut registry = QueryRegistry::new();
    let q = registry.next_query_id();
    let (all, _) = submission_ids(&g);
    registry.record(q, all);

    match registry.plan_stop(q, &g) {
        StopPlan::StopSources(ids) => assert_eq!(names(&ids), vec!["c-src"]),
        _ => panic!("expected StopSources"),
    }
    // The query stays recorded while it has sources.
    assert!(registry.pipelines_of(q).is_some());

    assert!(matches!(registry.plan_stop(99, &g), StopPlan::UnknownQuery));

    // A query whose pipelines are no sources of the running graph is forgotten.
    let other = PipelineGraph::new();
    assert!(matches!(registry.plan_stop(q, &other), StopPlan::NothingToStop));
    assert!(registry.pipelines_of(q).is_none());
    assert!(matches!(registry.plan_stop(q, &g), StopPlan::UnknownQuery));
}

#[test]
fn forget_leaves_other_queries() {
    let mut registry = QueryRegistry::new();
    registry.record(1, vec![PipelineId::new("a")]);
    registry.record(2, vec![PipelineId::new("b")]);
    registry.record(3, vec![PipelineId::new("c")]);
    registry.forget(2);
    assert!(registry.pipelines_of(2).is_none());
    assert_eq!(names(&registry.pipelines_of(1).unwrap()), vec!["a"]);
    assert_eq!(names(&registry.pipelines_of(3).unwrap()), vec!["c"]);
}
