use adaptive_engine::executor::ExecutorContext;
use adaptive_engine::graph::{GraphError, PipelineGraph};
use adaptive_engine::pipeline::{Buffer, Pipeline, PipelineError, PipelineId};
use adaptive_engine::source::{Source, SourceEmitHandle, SourceError};

struct TestPipeline {
    id: PipelineId,
}

impl Pipeline for TestPipeline {
    fn execute(
        &mut self,
        input: Buffer,
        _context: &mut ExecutorContext,
    ) -> Result<Vec<Buffer>, PipelineError> {
        Ok(vec![input])
    }

    fn id(&self) -> &PipelineId {
        &self.id
    }
}

struct TestSource {
    id: PipelineId,
}

impl Source for TestSource {
    fn start(&self, _emit_handle: SourceEmitHandle) -> Result<(), SourceError> {
        Ok(())
    }

    fn stop(&self) -> Result<(), SourceError> {
        Ok(())
    }

    fn id(&self) -> &PipelineId {
        &self.id
    }
}

fn pipeline(id: &str) -> Box<dyn Pipeline> {
    Box::new(TestPipeline { id: PipelineId::new(id) })
}

#[test]
fn test_add_pipeline() {
    let mut graph = PipelineGraph::new();
    let pipeline = Box::new(TestPipeline { id: PipelineId::new("test") });

    assert!(graph.add_pipeline(pipeline).is_ok());
    assert_eq!(graph.len(), 1);
}

#[test]
fn test_duplicate_pipeline_id() {
    let mut graph = PipelineGraph::new();
    let p1 = Box::new(TestPipeline { id: PipelineId::new("test") });
    let p2 = Box::new(TestPipeline { id: PipelineId::new("test") });

    graph.add_pipeline(p1).unwrap();
    assert!(matches!(graph.add_pipeline(p2), Err(GraphError::DuplicateId(_))));
}

#[test]
fn test_connect_pipelines() {
    let mut graph = PipelineGraph::new();
    graph.add_pipeline(Box::new(TestPipeline { id: PipelineId::new("p1") })).unwrap();
    graph.add_pipeline(Box::new(TestPipeline { id: PipelineId::new("p2") })).unwrap();

    assert!(graph.connect(&PipelineId::new("p1"), &PipelineId::new("p2")).is_ok());

    let successors = graph.get_successors(&PipelineId::new("p1"));
    assert_eq!(successors.len(), 1);
    assert_eq!(successors[0], PipelineId::new("p2"));
}

#[test]
fn test_connect_nonexistent_pipeline() {
    let mut graph = PipelineGraph::new();
    graph.add_pipeline(Box::new(TestPipeline { id: PipelineId::new("p1") })).unwrap();

    assert!(matches!(
        graph.connect(&PipelineId::new("p1"), &PipelineId::new("p2")),
        Err(GraphError::PipelineNotFound(_))
    ));
}

#[test]
fn test_validate_acyclic_graph() {
    let mut graph = PipelineGraph::new();
    graph.add_pipeline(Box::new(TestPipeline { id: PipelineId::new("p1") })).unwrap();
    graph.add_pipeline(Box::new(TestPipeline { id: PipelineId::new("p2") })).unwrap();
    graph.connect(&PipelineId::new("p1"), &PipelineId::new("p2")).unwrap();

    assert!(graph.validate().is_ok());
}

#[test]
fn test_detect_cycle() {
    let mut graph = PipelineGraph::new();
    graph.add_pipeline(Box::new(TestPipeline { id: PipelineId::new("p1") })).unwrap();
    graph.add_pipeline(Box::new(TestPipeline { id: PipelineId::new("p2") })).unwrap();

    graph.connect(&PipelineId::new("p1"), &PipelineId::new("p2")).unwrap();
    graph.connect(&PipelineId::new("p2"), &PipelineId::new("p1")).unwrap();

    assert!(matches!(graph.validate(), Err(GraphError::CycleDetected(_))));
}

#[test]
fn test_topological_sort() {
    let mut graph = PipelineGraph::new();
    graph.add_pipeline(Box::new(TestPipeline { id: PipelineId::new("p1") })).unwrap();
    graph.add_pipeline(Box::new(TestPipeline { id: PipelineId::new("p2") })).unwrap();
    graph.add_pipeline(Box::new(TestPipeline { id: PipelineId::new("p3") })).unwrap();

    graph.connect(&PipelineId::new("p1"), &PipelineId::new("p2")).unwrap();
    graph.connect(&PipelineId::new("p2"), &PipelineId::new("p3")).unwrap();

    let sorted = graph.topological_sort().unwrap();
    assert_eq!(sorted.len(), 3);

    let p1_pos = sorted.iter().position(|id| id == &PipelineId::new("p1")).unwrap();
    let p2_pos = sorted.iter().position(|id| id == &PipelineId::new("p2")).unwrap();
    let p3_pos = sorted.iter().position(|id| id == &PipelineId::new("p3")).unwrap();

    assert!(p1_pos < p2_pos);
    assert!(p2_pos < p3_pos);
}

#[test]
fn test_get_pipeline() {
    let mut graph = PipelineGraph::new();
    let id = PipelineId::new("test");
    graph.add_pipeline(Box::new(TestPipeline { id: id.clone() })).unwrap();

    assert!(graph.get_pipeline(&id).is_some());
    assert!(graph.get_pipeline(&PipelineId::new("nonexistent")).is_none());
}

#[test]
fn graph_cycle_error_names_a_pipeline_on_the_cycle() {
    let mut graph = PipelineGraph::new();
    for id in ["a", "b", "c"] {
        graph.add_pipeline(pipeline(id)).unwrap();
    }
    graph.connect(&PipelineId::new("a"), &PipelineId::new("b")).unwrap();
    graph.connect(&PipelineId::new("b"), &PipelineId::new("c")).unwrap();
    graph.connect(&PipelineId::new("c"), &PipelineId::new("b")).unwrap();
    match graph.validate() {
        Err(GraphError::CycleDetected(id)) => assert!(id.as_str() == "b" || id.as_str() == "c"),
        _ => panic!("expected a cycle"),
    }
    assert!(matches!(graph.topological_sort(), Err(GraphError::CycleDetected(_))));
}

#[test]
fn graph_source_with_predecessor_is_invalid_structure() {
    let mut graph = PipelineGraph::new();
    graph.add_pipeline(pipeline("p")).unwrap();
    graph.add_source(Box::new(TestSource { id: PipelineId::new("src") })).unwrap();
    graph.connect(&PipelineId::new("p"), &PipelineId::new("src")).unwrap();
    match graph.validate() {
        Err(GraphError::InvalidStructure(message)) => {
            assert_eq!(message, "Source 'src' has 1 predecessor(s), but sources must have no predecessors")
        }
        _ => panic!("expected an invalid structure"),
    }
}

#[test]
fn graph_removed_node_keeps_successors() {
    let mut graph = PipelineGraph::new();
    graph.add_pipeline(pipeline("a")).unwrap();
    graph.add_pipeline(pipeline("b")).unwrap();
    graph.connect(&PipelineId::new("a"), &PipelineId::new("b")).unwrap();
    assert!(graph.remove_node(&PipelineId::new("a")).is_some());
    assert!(graph.remove_node(&PipelineId::new("a")).is_none());
    assert_eq!(graph.len(), 1);
    assert!(graph.get_node(&PipelineId::new("a")).is_none());
    assert_eq!(graph.get_successors(&PipelineId::new("a")).len(), 1);
    assert!(matches!(graph.topological_sort(), Err(GraphError::CycleDetected(id)) if id.as_str() == "unknown"));
}

#[test]
fn graph_sources_sinks_and_predecessors() {
    let mut graph = PipelineGraph::new();
    graph.add_source(Box::new(TestSource { id: PipelineId::new("src") })).unwrap();
    graph.add_pipeline(pipeline("mid")).unwrap();
    graph.add_pipeline(pipeline("sink")).unwrap();
    graph.connect(&PipelineId::new("src"), &PipelineId::new("mid")).unwrap();
    graph.connect(&PipelineId::new("mid"), &PipelineId::new("sink")).unwrap();
    assert!(graph.is_source(&PipelineId::new("src")));
    assert!(!graph.is_source(&PipelineId::new("mid")));
    assert!(graph.get_source_pipeline(&PipelineId::new("src")).is_some());
    assert!(graph.get_source_pipeline(&PipelineId::new("mid")).is_none());
    assert_eq!(graph.get_sources(), vec![PipelineId::new("src")]);
    assert_eq!(graph.get_sinks(), vec![PipelineId::new("sink")]);
    assert_eq!(graph.get_predecessors(&PipelineId::new("sink")), vec![PipelineId::new("mid")]);
    assert_eq!(graph.count_predecessors(&PipelineId::new("mid")), 1);
    assert_eq!(
        graph.get_all_pipeline_ids(),
        vec![PipelineId::new("src"), PipelineId::new("mid"), PipelineId::new("sink")]
    );
    assert!(graph.validate().is_ok());
    assert_eq!(
        graph.topological_sort().unwrap(),
        vec![PipelineId::new("src"), PipelineId::new("mid"), PipelineId::new("sink")]
    );
}

#[test]
fn graph_merge_adds_nodes_and_edges() {
    let mut running = PipelineGraph::new();
    running.add_pipeline(pipeline("x")).unwrap();
    let mut other = PipelineGraph::new();
    other.add_pipeline(pipeline("a")).unwrap();
    other.add_pipeline(pipeline("b")).unwrap();
    other.connect(&PipelineId::new("a"), &PipelineId::new("b")).unwrap();
    running.merge(other);
    assert_eq!(running.len(), 3);
    assert_eq!(running.get_successors(&PipelineId::new("a")), vec![PipelineId::new("b")]);
    assert_eq!(running.count_predecessors(&PipelineId::new("b")), 1);
}

#[test]
fn graph_error_texts() {
    assert_eq!(
        GraphError::DuplicateId(PipelineId::new("p")).to_string(),
        "Pipeline ID already exists: p"
    );
    assert_eq!(
        GraphError::PipelineNotFound(PipelineId::new("p")).to_string(),
        "Pipeline not found: p"
    );
    assert_eq!(
        GraphError::CycleDetected(PipelineId::new("p")).to_string(),
        "Graph contains a cycle involving pipeline: p"
    );
    assert_eq!(
        GraphError::InvalidStructure("bad".to_string()).to_string(),
        "Invalid graph structure: bad"
    );
}

#[test]
fn node_pipeline_reports_the_node_id() {
    let mut graph = PipelineGraph::new();
    graph.add_source(Box::new(TestSource { id: PipelineId::new("s") })).unwrap();
    graph.add_pipeline(Box::new(TestPipeline { id: PipelineId::new("p") })).unwrap();
    let s = graph.get_node(&PipelineId::new("s")).unwrap();
    let p = graph.get_node(&PipelineId::new("p")).unwrap();
    assert_eq!(s.pipeline().id().as_str(), "s");
    assert_eq!(p.pipeline().id().as_str(), "p");
    assert!(s.is_source());
    assert!(!p.is_source());
}
