use adaptive_engine::builder::PipelineGraphBuilder;
use adaptive_engine::graph::GraphError;
use adaptive_engine::pipeline::mocks::{FilterPipeline, MultibufferPipeline, OccasionalEmissionPipeline};
use adaptive_engine::pipeline::PipelineId;

#[test]
fn test_builder_empty_graph() {
    let graph = PipelineGraphBuilder::new().build().unwrap();
    assert_eq!(graph.len(), 0);
}

#[test]
fn test_builder_single_pipeline() {
    let graph = PipelineGraphBuilder::new()
        .add_pipeline(Box::new(FilterPipeline::new(PipelineId::new("filter"), |_| true)))
        .build()
        .unwrap();

    assert_eq!(graph.len(), 1);
}

#[test]
fn test_builder_multiple_pipelines() {
    let graph = PipelineGraphBuilder::new()
        .add_pipeline(Box::new(FilterPipeline::new(PipelineId::new("p1"), |_| true)))
        .add_pipeline(Box::new(MultibufferPipeline::new(PipelineId::new("p2"), 3)))
        .add_pipeline(Box::new(OccasionalEmissionPipeline::new(PipelineId::new("p3"), 5)))
        .build()
        .unwrap();

    assert_eq!(graph.len(), 3);
}

#[test]
fn test_builder_with_connections() {
    let graph = PipelineGraphBuilder::new()
        .add_pipeline(Box::new(FilterPipeline::new(PipelineId::new("filter"), |b| {
            b.data().len() > 5
        })))
        .add_pipeline(Box::new(MultibufferPipeline::new(PipelineId::new("fanout"), 3)))
        .connect(PipelineId::new("filter"), PipelineId::new("fanout"))
        .build()
        .unwrap();

    assert_eq!(graph.len(), 2);

    let successors = graph.get_successors(&PipelineId::new("filter"));
    assert_eq!(successors.len(), 1);
    assert_eq!(successors[0], PipelineId::new("fanout"));
}

#[test]
fn test_builder_complex_graph() {
    // p1 -> p2 -> p4
    //   \-> p3 -/
    let graph = PipelineGraphBuilder::new()
        .add_pipeline(Box::new(FilterPipeline::new(PipelineId::new("p1"), |_| true)))
        .add_pipeline(Box::new(MultibufferPipeline::new(PipelineId::new("p2"), 2)))
        .add_pipeline(Box::new(MultibufferPipeline::new(PipelineId::new("p3"), 2)))
        .add_pipeline(Box::new(FilterPipeline::new(PipelineId::new("p4"), |_| true)))
        .connect(PipelineId::new("p1"), PipelineId::new("p2"))
        .connect(PipelineId::new("p1"), PipelineId::new("p3"))
        .connect(PipelineId::new("p2"), PipelineId::new("p4"))
        .connect(PipelineId::new("p3"), PipelineId::new("p4"))
        .build()
        .unwrap();

    assert_eq!(graph.len(), 4);

    let p1_successors = graph.get_successors(&PipelineId::new("p1"));
    assert_eq!(p1_successors.len(), 2);

    let p4_successors = graph.get_successors(&PipelineId::new("p4"));
    assert_eq!(p4_successors.len(), 0);
}

#[test]
fn test_builder_invalid_connection() {
    let result = PipelineGraphBuilder::new()
        .add_pipeline(Box::new(FilterPipeline::new(PipelineId::new("p1"), |_| true)))
        .connect(PipelineId::new("p1"), PipelineId::new("nonexistent"))
        .build();

    assert!(matches!(result, Err(GraphError::PipelineNotFound(_))));
}

#[test]
fn test_builder_cycle_detection() {
    let result = PipelineGraphBuilder::new()
        .add_pipeline(Box::new(FilterPipeline::new(PipelineId::new("p1"), |_| true)))
        .add_pipeline(Box::new(FilterPipeline::new(PipelineId::new("p2"), |_| true)))
        .connect(PipelineId::new("p1"), PipelineId::new("p2"))
        .connect(PipelineId::new("p2"), PipelineId::new("p1"))
        .build();

    assert!(matches!(result, Err(GraphError::CycleDetected(_))));
}

#[test]
fn test_builder_topological_sort() {
    let graph = PipelineGraphBuilder::new()
        .add_pipeline(Box::new(FilterPipeline::new(PipelineId::new("p1"), |_| true)))
        .add_pipeline(Box::new(MultibufferPipeline::new(PipelineId::new("p2"), 2)))
        .add_pipeline(Box::new(FilterPipeline::new(PipelineId::new("p3"), |_| true)))
        .connect(PipelineId::new("p1"), PipelineId::new("p2"))
        .connect(PipelineId::new("p2"), PipelineId::new("p3"))
        .build()
        .unwrap();

    let sorted = graph.topological_sort().unwrap();
    assert_eq!(sorted.len(), 3);

    let p1_pos = sorted.iter().position(|id| id == &PipelineId::new("p1")).unwrap();
    let p2_pos = sorted.iter().position(|id| id == &PipelineId::new("p2")).unwrap();
    let p3_pos = sorted.iter().position(|id| id == &PipelineId::new("p3")).unwrap();

    assert!(p1_pos < p2_pos);
    assert!(p2_pos < p3_pos);
}

#[test]
fn builder_missing_source_is_reported_before_sink() {
    let result = PipelineGraphBuilder::new()
        .connect(PipelineId::new("a"), PipelineId::new("b"))
        .build();
    match result {
        Err(GraphError::PipelineNotFound(id)) => assert_eq!(id.as_str(), "a"),
        _ => panic!("expected PipelineNotFound"),
    }
}

#[test]
fn builder_duplicate_pipeline_is_dropped() {
    let graph = PipelineGraphBuilder::new()
        .add_pipeline(Box::new(FilterPipeline::new(PipelineId::new("p1"), |_| true)))
        .add_pipeline(Box::new(MultibufferPipeline::new(PipelineId::new("p1"), 2)))
        .build()
        .unwrap();
    assert_eq!(graph.len(), 1);
}

#[test]
fn builder_repeated_connection_makes_parallel_edges() {
    let result = PipelineGraphBuilder::new()
        .add_pipeline(Box::new(FilterPipeline::new(PipelineId::new("p1"), |_| true)))
        .add_pipeline(Box::new(FilterPipeline::new(PipelineId::new("p2"), |_| true)))
        .connect(PipelineId::new("p1"), PipelineId::new("p2"))
        .connect(PipelineId::new("p1"), PipelineId::new("p2"))
        .build()
        .unwrap();
    assert_eq!(result.get_successors(&PipelineId::new("p1")).len(), 2);
    assert_eq!(result.count_predecessors(&PipelineId::new("p2")), 2);
}
