use adaptive_engine::executor::ExecutorContext;
use adaptive_engine::pipeline::mocks::{
    FilterPipeline, MultibufferPipeline, OccasionalEmissionPipeline, SinkPipeline, StatefulPipeline,
};
use adaptive_engine::pipeline::{Buffer, Pipeline, PipelineId};

fn create_test_context() -> ExecutorContext {
    ExecutorContext::new(PipelineId::new("test"), 0, 1)
}

#[test]
fn test_filter_pipeline_pass() {
    let mut filter = FilterPipeline::new(PipelineId::new("filter"), |b| b.data().len() > 5);
    let mut context = create_test_context();

    let input = Buffer::new(vec![1, 2, 3, 4, 5, 6]);
    let output = filter.execute(input, &mut context).unwrap();

    assert_eq!(output.len(), 1);
}

#[test]
fn test_filter_pipeline_block() {
    let mut filter = FilterPipeline::new(PipelineId::new("filter"), |b| b.data().len() > 5);
    let mut context = create_test_context();

    let input = Buffer::new(vec![1, 2]);
    let output = filter.execute(input, &mut context).unwrap();

    assert_eq!(output.len(), 0);
}

#[test]
fn test_multibuffer_pipeline() {
    let mut fanout = MultibufferPipeline::new(PipelineId::new("fanout"), 3);
    let mut context = create_test_context();

    let input = Buffer::new(vec![1, 2, 3]);
    let outputs = fanout.execute(input, &mut context).unwrap();

    assert_eq!(outputs.len(), 3);

    for output in &outputs {
        assert_eq!(output.data(), &[1, 2, 3]);
    }
}

#[test]
fn test_occasional_emission_pipeline() {
    let mut windowing = OccasionalEmissionPipeline::new(PipelineId::new("window"), 3);
    let mut context = create_test_context();

    let b1 = Buffer::new(vec![1]);
    let b2 = Buffer::new(vec![2]);
    let b3 = Buffer::new(vec![3]);
    let b4 = Buffer::new(vec![4]);

    assert_eq!(windowing.execute(b1, &mut context).unwrap().len(), 0);
    assert_eq!(windowing.execute(b2, &mut context).unwrap().len(), 0);
    assert_eq!(windowing.execute(b3, &mut context).unwrap().len(), 1);
    assert_eq!(windowing.execute(b4, &mut context).unwrap().len(), 0);
}

#[test]
fn test_occasional_emission_reset() {
    let mut windowing = OccasionalEmissionPipeline::new(PipelineId::new("window"), 2);
    let mut context = create_test_context();

    let b1 = Buffer::new(vec![1]);
    let b2 = Buffer::new(vec![2]);

    assert_eq!(windowing.execute(b1, &mut context).unwrap().len(), 0);
    assert_eq!(windowing.counter(), 1);

    windowing.reset_counter();
    assert_eq!(windowing.counter(), 0);

    assert_eq!(windowing.execute(b2, &mut context).unwrap().len(), 0);
    assert_eq!(windowing.counter(), 1);
}

#[test]
fn test_stateful_pipeline() {
    let mut stateful = StatefulPipeline::new(PipelineId::new("state"));
    let mut context = create_test_context();

    stateful.set_state("count".to_string(), vec![0, 0, 0, 5]);
    let value = stateful.get_state("count").unwrap();
    assert_eq!(value, vec![0, 0, 0, 5]);

    let input = Buffer::new(vec![1, 2, 3]);
    let output = stateful.execute(input, &mut context).unwrap();
    assert_eq!(output.len(), 1);
    assert_eq!(output[0].data(), &[1, 2, 3]);

    assert_eq!(stateful.state_len(), 1);

    stateful.clear_state();
    assert!(stateful.get_state("count").is_none());
    assert_eq!(stateful.state_len(), 0);
}

#[test]
fn mocks_stateful_set_overwrites() {
    let mut stateful = StatefulPipeline::new(PipelineId::new("state"));
    stateful.set_state("k".to_string(), vec![1]);
    stateful.set_state("k".to_string(), vec![2]);
    assert_eq!(stateful.state_len(), 1);
    assert_eq!(stateful.get_state("k"), Some(vec![2]));
}

#[test]
fn mocks_occasional_emission_every_interval() {
    let mut windowing = OccasionalEmissionPipeline::new(PipelineId::new("w"), 2);
    let mut context = create_test_context();
    let mut emitted = 0;
    for i in 0..6u8 {
        emitted += windowing.execute(Buffer::new(vec![i]), &mut context).unwrap().len();
    }
    assert_eq!(emitted, 3);
    assert_eq!(windowing.emission_interval(), 2);
}

#[test]
fn mocks_sink_counts_and_consumes() {
    let mut sink = SinkPipeline::new("sink");
    let mut context = create_test_context();
    assert!(sink.execute(Buffer::new(vec![1]), &mut context).unwrap().is_empty());
    assert!(sink.execute(Buffer::new(vec![2]), &mut context).unwrap().is_empty());
    assert_eq!(sink.buffer_count(), 2);
    sink.reset_counter();
    assert_eq!(sink.buffer_count(), 0);
    assert_eq!(sink.id().as_str(), "sink");
}

#[test]
fn mocks_multibuffer_fanout_zero() {
    let mut fanout = MultibufferPipeline::new(PipelineId::new("f"), 0);
    let mut context = create_test_context();
    assert_eq!(fanout.fanout(), 0);
    assert!(fanout.execute(Buffer::new(vec![1]), &mut context).unwrap().is_empty());
}
