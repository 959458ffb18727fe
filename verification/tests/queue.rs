use adaptive_engine::executor::task::Task;
use adaptive_engine::executor::{FifoQueue, LifoQueue, PriorityQueue, RandomQueue, TaskQueue};
use adaptive_engine::pipeline::{Buffer, PipelineId};

fn end_of_stream() -> Task {
    Task::EndOfStream {
        query_id: 0,
        source_id: PipelineId::new("src"),
        pipeline_id: PipelineId::new("p1"),
    }
}

fn work(name: &str, byte: u8) -> Task {
    Task::WorkTask {
        query_id: 0,
        pipeline_id: PipelineId::new(name),
        buffer: Buffer::new(vec![byte]),
    }
}

#[test]
fn test_fifo_queue_ordering() {
    let mut queue = FifoQueue::new();

    queue.push(Task::Shutdown);
    queue.push(end_of_stream());

    assert!(matches!(queue.pop(), Some(Task::Shutdown)));
    assert!(matches!(queue.pop(), Some(Task::EndOfStream { .. })));
    assert!(queue.pop().is_none());
}

#[test]
fn test_lifo_queue_ordering() {
    let mut queue = LifoQueue::new();

    queue.push(Task::Shutdown);
    queue.push(end_of_stream());

    assert!(matches!(queue.pop(), Some(Task::EndOfStream { .. })));
    assert!(matches!(queue.pop(), Some(Task::Shutdown)));
    assert!(queue.pop().is_none());
}

#[test]
fn test_priority_queue_ordering() {
    let mut queue = PriorityQueue::new();

    queue.push(work("p1", 1));
    queue.push(Task::Shutdown);
    queue.push(end_of_stream());

    assert!(matches!(queue.pop(), Some(Task::EndOfStream { .. })));
    assert!(matches!(queue.pop(), Some(Task::WorkTask { .. })));
    assert!(matches!(queue.pop(), Some(Task::Shutdown)));
}

#[test]
fn test_random_queue_processes_all() {
    let mut queue = RandomQueue::new();

    for i in 0..10 {
        queue.push(work(&format!("p{}", i), i as u8));
    }

    assert_eq!(queue.len(), 10);

    let mut count = 0;
    while queue.pop().is_some() {
        count += 1;
    }

    assert_eq!(count, 10);
    assert!(queue.is_empty());
}

#[test]
fn fifo_keeps_push_order_of_many() {
    let mut queue = FifoQueue::new();
    for i in 0..5u8 {
        queue.push(work(&format!("p{}", i), i));
    }
    for i in 0..5u8 {
        match queue.pop() {
            Some(Task::WorkTask { pipeline_id, buffer, .. }) => {
                assert_eq!(pipeline_id.as_str(), format!("p{}", i));
                assert_eq!(buffer.data(), &[i]);
            }
            _ => panic!("expected a work task"),
        }
    }
    assert!(queue.is_empty());
}

#[test]
fn priority_queue_takes_first_lowest_and_fills_the_gap_with_the_last() {
    let mut queue = PriorityQueue::new();
    queue.push(work("a", 1));
    queue.push(work("b", 2));
    queue.push(Task::StopPipelineTask { pipeline_id: PipelineId::new("s") });
    queue.push(work("c", 3));

    assert!(matches!(queue.pop(), Some(Task::StopPipelineTask { .. })));
    for name in ["a", "c", "b"] {
        match queue.pop() {
            Some(Task::WorkTask { pipeline_id, .. }) => assert_eq!(pipeline_id.as_str(), name),
            _ => panic!("expected a work task"),
        }
    }
    assert!(queue.pop().is_none());
}

#[test]
fn random_queue_hands_out_each_task_once() {
    let mut queue = RandomQueue::new();
    for i in 0..8u8 {
        queue.push(work(&format!("p{}", i), i));
    }
    let mut seen = [false; 8];
    while let Some(task) = queue.pop() {
        match task {
            Task::WorkTask { buffer, .. } => {
                let b = buffer.data()[0] as usize;
                assert!(!seen[b]);
                seen[b] = true;
            }
            _ => panic!("expected a work task"),
        }
    }
    assert!(seen.iter().all(|s| *s));
}
