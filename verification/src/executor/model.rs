//! The abstract model of the executor's state that its contracts speak of:
//! metadata changes applied by pipeline id, the tasks and events that
//! routing produces, and lemmas relating them.

use crate::executor::{ExecView, QueryId};
use crate::executor::error::{EntityType, ExecutionErrorView, ExecutionStats, TaskType};
use crate::executor::metadata::{MetadataView, sources_finished};
use crate::executor::stats::{EventView, TaskId};
use crate::executor::task::TaskView;
use crate::graph::{
    VertexView, live_index, live_vertex_ids, merged, no_live, successor_ids, vertex_ids,
    vertex_index,
};
use crate::executor::context::ExecutorContext;
use crate::pipeline::{Buffer, BufferView, PipelineError, pipeline_error_text};
use crate::source::{SourceError, source_error_text};
use vstd::prelude::*;

verus! {

/// `m` with one more pending task (saturating).
pub open spec fn with_pending_task(m: MetadataView) -> MetadataView {
    MetadataView {
        pending_tasks: if m.pending_tasks < usize::MAX {
            m.pending_tasks + 1
        } else {
            m.pending_tasks
        },
        ..m
    }
}

/// A change to a node's metadata that the executor applies by id.
#[derive(Debug, Clone, Copy, PartialEq, Eq, Structural)]
pub enum MetaOp {
    /// One more pending task (saturating).
    CountPending,
    /// Ask the source to stop.
    RequestSourceStop,
    /// Mark the pipeline as failed.
    MarkFailed,
    /// Record that the source started.
    MarkSourceStarted,
    /// Record that the pipeline was set up.
    MarkSetupSucceeded,
}

/// The metadata `m` after `op`.
pub open spec fn apply_op(op: MetaOp, m: MetadataView) -> MetadataView {
    match op {
        MetaOp::CountPending => with_pending_task(m),
        MetaOp::RequestSourceStop => MetadataView { source_stop_requested: true, ..m },
        MetaOp::MarkFailed => MetadataView { failed: true, ..m },
        MetaOp::MarkSourceStarted => MetadataView { source_started: true, ..m },
        MetaOp::MarkSetupSucceeded => MetadataView { setup_succeeded: true, ..m },
    }
}

/// `vs` after `op` on the node with id `v`, if there is one.
pub open spec fn op_on(vs: Seq<VertexView>, v: Seq<char>, op: MetaOp) -> Seq<VertexView> {
    match live_index(vs, v) {
        Some(i) => vs.update(i, vs[i].with_meta(apply_op(op, vs[i].meta))),
        None => vs,
    }
}

/// `vs` after `op` on the node of each id of `ids` in turn.
pub open spec fn op_on_all(vs: Seq<VertexView>, ids: Seq<Seq<char>>, op: MetaOp) -> Seq<
    VertexView,
>
    decreases ids.len(),
{
    if ids.len() == 0 {
        vs
    } else {
        op_on(op_on_all(vs, ids.drop_last(), op), ids.last(), op)
    }
}

/// Stop tasks for each id of `ids`.
pub open spec fn stop_tasks(ids: Seq<Seq<char>>) -> Seq<TaskView> {
    ids.map_values(|v: Seq<char>| TaskView::Stop { pipeline: v })
}


/// `m` with one pending task done (the count stays at zero).
pub open spec fn with_task_done(m: MetadataView) -> MetadataView {
    MetadataView {
        pending_tasks: if m.pending_tasks == 0 {
            0
        } else {
            (m.pending_tasks - 1) as nat
        },
        ..m
    }
}

/// Whether `m` asks for the pipeline to be stopped now: termination was
/// requested, no work is pending, and no stop task was queued yet.
pub open spec fn stop_due(m: MetadataView) -> bool {
    m.requires_termination && m.pending_tasks == 0 && !m.stop_task_enqueued
}

/// `m` after the executor checked it for a due stop: a pipeline whose
/// termination was requested and that has no pending work is marked as
/// having its stop task queued.
pub open spec fn with_stop_checked(m: MetadataView) -> MetadataView {
    if m.requires_termination && m.pending_tasks == 0 {
        MetadataView { stop_task_enqueued: true, ..m }
    } else {
        m
    }
}

/// Every vertex of `a` is the vertex of `b` at the same position, up to its
/// metadata.
pub open spec fn same_shape(a: Seq<VertexView>, b: Seq<VertexView>) -> bool {
    &&& a.len() == b.len()
    &&& forall|i: int| 0 <= i < a.len() ==> #[trigger] a[i] == b[i].with_meta(a[i].meta)
}

/// Vertices of the same shape find every id at the same live vertex.
pub proof fn lemma_same_shape_index(a: Seq<VertexView>, b: Seq<VertexView>)
    requires
        same_shape(a, b),
    ensures
        vertex_ids(a) == vertex_ids(b),
        forall|v: Seq<char>| #[trigger] vertex_index(a, v) == vertex_index(b, v),
        forall|v: Seq<char>| #[trigger] live_index(a, v) == live_index(b, v),
{
    assert forall|i: int| 0 <= i < a.len() implies #[trigger] vertex_ids(a)[i] == vertex_ids(b)[i] by {
        assert(a[i] == b[i].with_meta(a[i].meta));
    }
    assert(vertex_ids(a) =~= vertex_ids(b));
    assert forall|v: Seq<char>| #[trigger] live_index(a, v) == live_index(b, v) by {
        let i = vertex_index(a, v);
        if 0 <= i < a.len() {
            assert(a[i] == b[i].with_meta(a[i].meta));
        }
    }
}

/// `same_shape` is an equivalence.
pub proof fn lemma_same_shape_trans(a: Seq<VertexView>, b: Seq<VertexView>, c: Seq<VertexView>)
    requires
        same_shape(a, b),
        same_shape(b, c),
    ensures
        same_shape(a, c),
        same_shape(c, a),
{
    assert forall|i: int| 0 <= i < a.len() implies #[trigger] a[i] == c[i].with_meta(a[i].meta) by {
        assert(a[i] == b[i].with_meta(a[i].meta));
        assert(b[i] == c[i].with_meta(b[i].meta));
    }
    assert forall|i: int| 0 <= i < a.len() implies #[trigger] c[i] == a[i].with_meta(c[i].meta) by {
        assert(a[i] == b[i].with_meta(a[i].meta));
        assert(b[i] == c[i].with_meta(b[i].meta));
    }
}

/// Every vertex sequence has its own shape.
pub proof fn lemma_same_shape_refl(a: Seq<VertexView>)
    ensures
        same_shape(a, a),
{
    assert forall|i: int| 0 <= i < a.len() implies #[trigger] a[i] == a[i].with_meta(a[i].meta) by {}
}

/// Metadata operations keep the shape of the vertices.
pub proof fn lemma_op_on_shape(vs: Seq<VertexView>, v: Seq<char>, op: MetaOp)
    ensures
        same_shape(op_on(vs, v, op), vs),
{
    let r = op_on(vs, v, op);
    assert forall|i: int| 0 <= i < r.len() implies #[trigger] r[i] == vs[i].with_meta(r[i].meta) by {}
}

/// Metadata operations keep the shape of the vertices.
pub proof fn lemma_op_on_all_shape(vs: Seq<VertexView>, ids: Seq<Seq<char>>, op: MetaOp)
    ensures
        same_shape(op_on_all(vs, ids, op), vs),
    decreases ids.len(),
{
    if ids.len() == 0 {
        lemma_same_shape_refl(vs);
    } else {
        lemma_op_on_all_shape(vs, ids.drop_last(), op);
        lemma_op_on_shape(op_on_all(vs, ids.drop_last(), op), ids.last(), op);
        lemma_same_shape_trans(
            op_on_all(vs, ids, op),
            op_on_all(vs, ids.drop_last(), op),
            vs,
        );
    }
}

/// Applying operations for `a` and then for `b` applies them for `a + b`.
pub proof fn lemma_op_on_all_append(vs: Seq<VertexView>, a: Seq<Seq<char>>, b: Seq<Seq<char>>, op: MetaOp)
    ensures
        op_on_all(op_on_all(vs, a, op), b, op) == op_on_all(vs, a + b, op),
    decreases b.len(),
{
    if b.len() == 0 {
        assert(a + b =~= a);
    } else {
        lemma_op_on_all_append(vs, a, b.drop_last(), op);
        assert((a + b).drop_last() =~= a + b.drop_last());
        assert((a + b).last() == b.last());
    }
}

/// `s` repeated `n` times.
pub open spec fn repeat<A>(s: Seq<A>, n: nat) -> Seq<A>
    decreases n,
{
    if n == 0 {
        Seq::empty()
    } else {
        repeat(s, (n - 1) as nat) + s
    }
}

/// The contents of a list of buffers.
pub open spec fn buffer_views(s: Seq<Buffer>) -> Seq<BufferView> {
    s.map_values(|b: Buffer| b@)
}

/// Work tasks carrying `b` for those of `names` that have a node in `vs`.
pub open spec fn work_for(
    vs: Seq<VertexView>,
    query_id: QueryId,
    names: Seq<Seq<char>>,
    b: BufferView,
) -> Seq<TaskView>
    decreases names.len(),
{
    if names.len() == 0 {
        Seq::empty()
    } else {
        let prev = work_for(vs, query_id, names.drop_last(), b);
        if live_index(vs, names.last()) is Some {
            prev.push(TaskView::Work { query_id, pipeline: names.last(), buffer: b })
        } else {
            prev
        }
    }
}

/// The work tasks that routing `bufs` to `names` queues: for each buffer in
/// turn, a task for each of `names` that has a node.
pub open spec fn routed(
    vs: Seq<VertexView>,
    query_id: QueryId,
    names: Seq<Seq<char>>,
    bufs: Seq<BufferView>,
) -> Seq<TaskView>
    decreases bufs.len(),
{
    if bufs.len() == 0 {
        Seq::empty()
    } else {
        routed(vs, query_id, names, bufs.drop_last()) + work_for(vs, query_id, names, bufs.last())
    }
}

/// The `TaskEmit` events of one routed buffer, one for each of `names`.
pub open spec fn emit_events(
    query_id: QueryId,
    from: Seq<char>,
    names: Seq<Seq<char>>,
    task_id: TaskId,
) -> Seq<EventView> {
    names.map_values(
        |to: Seq<char>| EventView::TaskEmit { worker_id: 0, query_id, from, to, task_id },
    )
}

/// The state after one pending task of `pid` is done: its count drops,
/// and when its termination was requested and no work is left, its stop
/// task is queued (at most once).
pub open spec fn after_done(s: ExecView, pid: Seq<char>) -> ExecView {
    match live_index(s.vertices, pid) {
        None => s,
        Some(i) => {
            let m = with_task_done(s.vertices[i].meta);
            ExecView {
                vertices: s.vertices.update(i, s.vertices[i].with_meta(with_stop_checked(m))),
                tasks: if stop_due(m) {
                    s.tasks.insert(TaskView::Stop { pipeline: pid })
                } else {
                    s.tasks
                },
                ..s
            }
        },
    }
}

/// `m` after one more end-of-stream signal (saturating); once every
/// expected source has signalled, termination is requested.
pub open spec fn with_eos(m: MetadataView) -> MetadataView {
    let m1 = MetadataView {
        eos_received: if m.eos_received < usize::MAX {
            m.eos_received + 1
        } else {
            m.eos_received
        },
        ..m
    };
    if sources_finished(m1) {
        MetadataView { requires_termination: true, ..m1 }
    } else {
        m1
    }
}

/// The state after an end-of-stream signal for `pid`: the signal is
/// counted; once every expected source has signalled, termination is
/// requested, and the pipeline's stop task is queued (at most once) if no
/// work is pending.
pub open spec fn after_eos(s: ExecView, pid: Seq<char>) -> ExecView {
    match live_index(s.vertices, pid) {
        None => s,
        Some(i) => {
            let m = with_eos(s.vertices[i].meta);
            if sources_finished(m) {
                ExecView {
                    vertices: s.vertices.update(i, s.vertices[i].with_meta(with_stop_checked(m))),
                    tasks: if stop_due(m) {
                        s.tasks.insert(TaskView::Stop { pipeline: pid })
                    } else {
                        s.tasks
                    },
                    ..s
                }
            } else {
                ExecView { vertices: s.vertices.update(i, s.vertices[i].with_meta(m)), ..s }
            }
        },
    }
}

/// The state after pipeline or source `pid` failed with `message` during a
/// task of type `task_type`: the error is recorded, the node is marked as
/// failed and `PipelineExecutionError` is emitted.
pub open spec fn after_failure(
    s: ExecView,
    worker_id: u64,
    pid: Seq<char>,
    entity_type: EntityType,
    task_type: TaskType,
    message: Seq<char>,
) -> ExecView {
    ExecView {
        errors: s.errors.push(
            ExecutionErrorView { entity_id: pid, entity_type, error: message, task_type },
        ),
        vertices: op_on(s.vertices, pid, MetaOp::MarkFailed),
        events: s.events.push(EventView::PipelineExecutionError { worker_id, pipeline: pid }),
        ..s
    }
}

/// End-of-stream tasks from `from` to each of `names`, in order.
pub open spec fn eos_tasks(from: Seq<char>, names: Seq<Seq<char>>) -> Seq<TaskView> {
    names.map_values(
        |to: Seq<char>| TaskView::EndOfStream { query_id: 0, source: from, pipeline: to },
    )
}

/// `vs` with the node of `pid` removed, if there is one.
pub open spec fn remove_from(vs: Seq<VertexView>, pid: Seq<char>) -> Seq<VertexView> {
    match live_index(vs, pid) {
        Some(i) => vs.update(i, vs[i].without_node()),
        None => vs,
    }
}

/// The state after pipeline `pid` stopped: `PipelineStop` is emitted, an
/// end-of-stream task is queued for each of `names` (its successors), its
/// node is removed, and a shutdown task is queued if shutdown was
/// requested and no node is left.
pub open spec fn after_removal(
    s: ExecView,
    worker_id: u64,
    pid: Seq<char>,
    names: Seq<Seq<char>>,
) -> ExecView {
    let vs = remove_from(s.vertices, pid);
    let tasks = s.tasks.add(eos_tasks(pid, names).to_multiset());
    ExecView {
        vertices: vs,
        tasks: if no_live(vs) && s.shutting_down {
            tasks.insert(TaskView::Shutdown)
        } else {
            tasks
        },
        events: s.events.push(EventView::PipelineStop { worker_id, query_id: 0, pipeline: pid }),
        ..s
    }
}

/// The state after stopping pipeline `pid` failed with `message`: the
/// error is recorded, `PipelineExecutionError` is emitted, and its
/// successors `names` are marked as failed.
pub open spec fn after_stop_failure(
    s: ExecView,
    worker_id: u64,
    pid: Seq<char>,
    names: Seq<Seq<char>>,
    message: Seq<char>,
) -> ExecView {
    ExecView {
        errors: s.errors.push(
            ExecutionErrorView {
                entity_id: pid,
                entity_type: EntityType::Pipeline,
                error: message,
                task_type: TaskType::StopPipeline,
            },
        ),
        events: s.events.push(EventView::PipelineExecutionError { worker_id, pipeline: pid }),
        vertices: op_on_all(s.vertices, names, MetaOp::MarkFailed),
        ..s
    }
}

/// What stopping a pipeline that was set up produced: a failed flush, or
/// the flushed buffers (returned, then emitted) and the error of its
/// teardown, if any.
pub ghost enum StopOutcome {
    FlushFailed { message: Seq<char> },
    Flushed { buffers: Seq<BufferView>, teardown_error: Option<Seq<char>> },
}

/// The state after a stop task for `pid`.
///
/// A pipeline that is not in the graph is left alone. A pipeline that was
/// never set up, or that failed, is removed at once (a failed source is
/// first asked to stop). Otherwise the pipeline is flushed: a failed flush
/// is reported and the pipeline removed; flushed buffers are routed to its
/// successors, a source is asked to stop, the pipeline is torn down (a
/// failed teardown is reported), and the pipeline is removed.
pub open spec fn after_stop(s: ExecView, worker_id: u64, pid: Seq<char>, outcome: StopOutcome) -> ExecView {
    match live_index(s.vertices, pid) {
        None => s,
        Some(i) => {
            let v = s.vertices[i];
            let names = successor_ids(s.vertices, pid);
            if !v.meta.setup_succeeded || v.meta.failed {
                let s1 = if v.meta.failed && v.src {
                    ExecView { vertices: op_on(s.vertices, pid, MetaOp::RequestSourceStop), ..s }
                } else {
                    s
                };
                after_removal(s1, worker_id, pid, names)
            } else {
                match outcome {
                    StopOutcome::FlushFailed { message } => after_removal(
                        after_stop_failure(s, worker_id, pid, names, message),
                        worker_id,
                        pid,
                        names,
                    ),
                    StopOutcome::Flushed { buffers, teardown_error } => {
                        let s1 = after_routing(s, 0, pid, buffers, None);
                        let s2 = if v.src {
                            ExecView {
                                vertices: op_on(s1.vertices, pid, MetaOp::RequestSourceStop),
                                ..s1
                            }
                        } else {
                            s1
                        };
                        let s3 = match teardown_error {
                            Some(message) => after_stop_failure(s2, worker_id, pid, names, message),
                            None => s2,
                        };
                        after_removal(s3, worker_id, pid, names)
                    },
                }
            }
        },
    }
}

/// The errors a stop task for `pid` counts.
pub open spec fn stop_errors(s: ExecView, pid: Seq<char>, outcome: StopOutcome) -> nat {
    match live_index(s.vertices, pid) {
        None => 0,
        Some(i) => {
            let m = s.vertices[i].meta;
            if !m.setup_succeeded || m.failed {
                0
            } else {
                match outcome {
                    StopOutcome::FlushFailed { .. } => 1,
                    StopOutcome::Flushed { teardown_error, .. } => if teardown_error is Some {
                        1
                    } else {
                        0
                    },
                }
            }
        },
    }
}

/// `vs` after preparing the node with id `id` to run: its expected number
/// of sources becomes its number of predecessors, and it is marked as set
/// up when `ok`.
pub open spec fn prepared(vs: Seq<VertexView>, id: Seq<char>, ok: bool) -> Seq<VertexView> {
    match live_index(vs, id) {
        Some(i) => vs.update(
            i,
            vs[i].with_meta(
                MetadataView {
                    expected_sources: vs[i].pred.len(),
                    setup_succeeded: ok || vs[i].meta.setup_succeeded,
                    ..vs[i].meta
                },
            ),
        ),
        None => vs,
    }
}

/// `vs` after successfully preparing the nodes of `ids` in order.
pub open spec fn prepared_all(vs: Seq<VertexView>, ids: Seq<Seq<char>>) -> Seq<VertexView>
    decreases ids.len(),
{
    if ids.len() == 0 {
        vs
    } else {
        prepared(prepared_all(vs, ids.drop_last()), ids.last(), true)
    }
}

/// Those of `ids` that have a node in `vs`, in order.
pub open spec fn with_node(vs: Seq<VertexView>, ids: Seq<Seq<char>>) -> Seq<Seq<char>>
    decreases ids.len(),
{
    if ids.len() == 0 {
        Seq::empty()
    } else {
        with_node(vs, ids.drop_last()) + if live_index(vs, ids.last()) is Some {
            seq![ids.last()]
        } else {
            Seq::empty()
        }
    }
}

/// `PipelineStart` events for `ids`, in order.
pub open spec fn start_events(worker_id: u64, ids: Seq<Seq<char>>) -> Seq<EventView> {
    ids.map_values(
        |id: Seq<char>| EventView::PipelineStart { worker_id, query_id: 0, pipeline: id },
    )
}

/// `PipelineStop` events for `ids`, in order.
pub open spec fn stop_events(worker_id: u64, ids: Seq<Seq<char>>) -> Seq<EventView> {
    ids.map_values(
        |id: Seq<char>| EventView::PipelineStop { worker_id, query_id: 0, pipeline: id },
    )
}

/// Start tasks of query `query_id` for those of `ids` marked as sources in
/// `vs`, in order.
pub open spec fn start_source_tasks(vs: Seq<VertexView>, query_id: QueryId, ids: Seq<Seq<char>>) -> Seq<
    TaskView,
>
    decreases ids.len(),
{
    if ids.len() == 0 {
        Seq::empty()
    } else {
        let i = vertex_index(vs, ids.last());
        start_source_tasks(vs, query_id, ids.drop_last()) + if i >= 0 && vs[i].src {
            seq![TaskView::StartSource { query_id, source: ids.last() }]
        } else {
            Seq::empty()
        }
    }
}

/// `vs` with the nodes of `ids` removed in order.
pub open spec fn remove_all(vs: Seq<VertexView>, ids: Seq<Seq<char>>) -> Seq<VertexView>
    decreases ids.len(),
{
    if ids.len() == 0 {
        vs
    } else {
        remove_from(remove_all(vs, ids.drop_last()), ids.last())
    }
}

/// The state after deploying a graph with vertices `ws` for query
/// `query_id`.
///
/// The graph is merged into the running graph. Its nodes (the ids
/// `live_vertex_ids(ws)`) are then prepared in vertex order, each set up
/// and announced by `PipelineStart`, until a setup fails (`failure` gives
/// the position in that list and the error text). Without a failure, a
/// start task is queued for each of them marked as a source. After a
/// failure, the error is recorded and `PipelineExecutionError` emitted, all
/// of the graph's nodes are removed with a `PipelineStop` each, and a
/// shutdown task is queued if shutdown was requested and no node is left.
pub open spec fn after_deploy(
    s: ExecView,
    worker_id: u64,
    query_id: QueryId,
    ws: Seq<VertexView>,
    failure: Option<(int, Seq<char>)>,
) -> ExecView {
    let ids = live_vertex_ids(ws);
    let vs1 = merged(s.vertices, ws);
    match failure {
        None => {
            let vs2 = prepared_all(vs1, ids);
            ExecView {
                vertices: vs2,
                events: s.events + start_events(worker_id, with_node(vs1, ids)),
                tasks: s.tasks.add(start_source_tasks(vs2, query_id, ids).to_multiset()),
                ..s
            }
        },
        Some((f, message)) => {
            let vs2 = prepared(prepared_all(vs1, ids.take(f)), ids[f], false);
            let vs3 = remove_all(vs2, ids);
            ExecView {
                vertices: vs3,
                errors: s.errors.push(
                    ExecutionErrorView {
                        entity_id: ids[f],
                        entity_type: EntityType::Pipeline,
                        error: message,
                        task_type: TaskType::DeployGraph,
                    },
                ),
                events: s.events + start_events(worker_id, with_node(vs1, ids.take(f))) + seq![
                    EventView::PipelineExecutionError { worker_id, pipeline: ids[f] },
                ] + stop_events(worker_id, ids),
                tasks: if no_live(vs3) && s.shutting_down {
                    s.tasks.insert(TaskView::Shutdown)
                } else {
                    s.tasks
                },
                ..s
            }
        },
    }
}

/// Preparing nodes keeps the shape of the vertices.
pub proof fn lemma_prepared_shape(vs: Seq<VertexView>, id: Seq<char>, ok: bool)
    ensures
        same_shape(prepared(vs, id, ok), vs),
{
    let r = prepared(vs, id, ok);
    assert forall|i: int| 0 <= i < r.len() implies #[trigger] r[i] == vs[i].with_meta(r[i].meta) by {}
}

/// Preparing nodes keeps the shape of the vertices.
pub proof fn lemma_prepared_all_shape(vs: Seq<VertexView>, ids: Seq<Seq<char>>)
    ensures
        same_shape(prepared_all(vs, ids), vs),
    decreases ids.len(),
{
    if ids.len() == 0 {
        lemma_same_shape_refl(vs);
    } else {
        lemma_prepared_all_shape(vs, ids.drop_last());
        lemma_prepared_shape(prepared_all(vs, ids.drop_last()), ids.last(), true);
        lemma_same_shape_trans(prepared_all(vs, ids), prepared_all(vs, ids.drop_last()), vs);
    }
}

/// The state after routing `bufs` from `from` to its successors; with a
/// task id, a `TaskEmit` event precedes each routed copy.
pub open spec fn after_routing(
    s: ExecView,
    query_id: QueryId,
    from: Seq<char>,
    bufs: Seq<BufferView>,
    task_id: Option<TaskId>,
) -> ExecView {
    let names = successor_ids(s.vertices, from);
    ExecView {
        vertices: op_on_all(s.vertices, repeat(names, bufs.len()), MetaOp::CountPending),
        tasks: s.tasks.add(routed(s.vertices, query_id, names, bufs).to_multiset()),
        events: match task_id {
            Some(t) => s.events + repeat(emit_events(query_id, from, names, t), bufs.len()),
            None => s.events,
        },
        ..s
    }
}

/// What a pipeline's `execute` produced: its output buffers, the buffers
/// it emitted through the context and its re-execution request (buffer and
/// delay); or the text of its error.
pub ghost enum WorkOutcome {
    Done { outputs: Seq<BufferView>, emitted: Seq<BufferView>, repeat: Option<(BufferView, u64)> },
    Failed { message: Seq<char> },
}

/// What the executor learns from running a pipeline: its result and what
/// it left in the context.
pub open spec fn outcome_of(
    result: Result<Vec<Buffer>, PipelineError>,
    context: ExecutorContext,
) -> WorkOutcome {
    match result {
        Ok(outputs) => WorkOutcome::Done {
            outputs: buffer_views(outputs@),
            emitted: buffer_views(context.emitted_spec()),
            repeat: match context.repeat_spec() {
                Some(b) => Some((b@, context.repeat_delay_spec())),
                None => None,
            },
        },
        Err(e) => WorkOutcome::Failed { message: pipeline_error_text(e) },
    }
}

/// The task id that follows `t` (wrapping around).
pub open spec fn next_id(t: u64) -> u64 {
    if t == u64::MAX {
        0
    } else {
        (t + 1) as u64
    }
}

/// The state after a pipeline's re-execution request: the buffer counts as
/// pending on the pipeline and is queued at once without delay, handed to
/// the delayed submitter (if any) otherwise.
pub open spec fn after_repeat(
    s: ExecView,
    query_id: QueryId,
    pid: Seq<char>,
    repeat: Option<(BufferView, u64)>,
) -> ExecView {
    match repeat {
        None => s,
        Some((b, delay)) => {
            let t = TaskView::Work { query_id, pipeline: pid, buffer: b };
            ExecView {
                vertices: op_on(s.vertices, pid, MetaOp::CountPending),
                tasks: if delay == 0 {
                    s.tasks.insert(t)
                } else {
                    s.tasks
                },
                delayed: if delay == 0 {
                    s.delayed
                } else {
                    match s.delayed {
                        Some(l) => Some(l.push((t, delay))),
                        None => None,
                    }
                },
                ..s
            }
        },
    }
}

/// The state after the executor handled the outcome of running pipeline
/// `pid` on a work task: `TaskExecutionComplete` is emitted; a success
/// acts on the re-execution request, routes the output and then the emitted
/// buffers, and counts the task as done; a failure records the error, marks
/// the pipeline as failed, emits `PipelineExecutionError`, and counts the
/// task as done.
pub open spec fn after_work(
    s: ExecView,
    worker_id: u64,
    query_id: QueryId,
    pid: Seq<char>,
    task_id: TaskId,
    outcome: WorkOutcome,
) -> ExecView {
    let s1 = ExecView {
        events: s.events.push(
            EventView::TaskExecutionComplete { worker_id, query_id, pipeline: pid, task_id },
        ),
        ..s
    };
    match outcome {
        WorkOutcome::Done { outputs, emitted, repeat } => after_done(
            after_routing(
                after_repeat(s1, query_id, pid, repeat),
                query_id,
                pid,
                outputs + emitted,
                Some(task_id),
            ),
            pid,
        ),
        WorkOutcome::Failed { message } => after_done(
            ExecView {
                errors: s1.errors.push(
                    ExecutionErrorView {
                        entity_id: pid,
                        entity_type: EntityType::Pipeline,
                        error: message,
                        task_type: TaskType::WorkTask,
                    },
                ),
                vertices: op_on(s1.vertices, pid, MetaOp::MarkFailed),
                events: s1.events.push(EventView::PipelineExecutionError { worker_id, pipeline: pid }),
                ..s1
            },
            pid,
        ),
    }
}

/// A work task for live pipeline `pid` may take the executor from `s`
/// with statistics `st` to `s1` with statistics `st1`.
///
/// A failed pipeline skips the buffer (which counts as done); a pipeline
/// that was not set up skips it; a source passes it on to its successors.
/// Any other pipeline runs on the buffer under a fresh task id, announced
/// by `TaskExecutionStart`, and its outcome is handled as `after_work`
/// describes.
pub open spec fn work_step(
    s: ExecView,
    st: ExecutionStats,
    worker_id: u64,
    query_id: QueryId,
    pid: Seq<char>,
    buffer: BufferView,
    s1: ExecView,
    st1: ExecutionStats,
) -> bool {
    let i = live_index(s.vertices, pid)->0;
    let m = s.vertices[i].meta;
    if m.failed {
        &&& st1.grown(&st, 0, 0, 0, 0, 0, 0, 1)
        &&& s1 == after_done(s, pid)
    } else if !m.setup_succeeded {
        &&& st1.grown(&st, 0, 0, 0, 0, 0, 0, 1)
        &&& s1 == s
    } else if s.vertices[i].src {
        &&& st1.grown(&st, 0, 1, 0, 0, 0, 0, 0)
        &&& s1 == after_routing(s, query_id, pid, seq![buffer], None)
    } else {
        let started = ExecView {
            next_task_id: next_id(s.next_task_id),
            events: s.events.push(
                EventView::TaskExecutionStart { worker_id, query_id, pipeline: pid, task_id: s.next_task_id },
            ),
            ..s
        };
        exists|o: WorkOutcome|
            {
                &&& s1 == #[trigger] after_work(started, worker_id, query_id, pid, s.next_task_id, o)
                &&& (o is Done ==> st1.grown(&st, 0, 1, 0, 0, 0, 0, 0))
                &&& (o is Failed ==> st1.grown(&st, 0, 0, 0, 0, 0, 1, 0))
            }
    }
}

/// A start task for `sid` may take the executor from `s` with statistics
/// `st` to `s1` with statistics `st1`: an id without a source node counts
/// as an error; otherwise the source is started, and either is marked as
/// started with `SourceStarted` emitted, or its failure is reported.
pub open spec fn start_source_step(
    s: ExecView,
    st: ExecutionStats,
    worker_id: u64,
    sid: Seq<char>,
    s1: ExecView,
    st1: ExecutionStats,
) -> bool {
    let i = live_index(s.vertices, sid);
    if i is None || !s.vertices[i->0].source_node {
        s1 == s && st1.grown(&st, 0, 0, 0, 0, 0, 1, 0)
    } else {
        ||| (s1 == (ExecView {
            vertices: op_on(s.vertices, sid, MetaOp::MarkSourceStarted),
            events: s.events.push(EventView::SourceStarted { worker_id, source: sid }),
            ..s
        }) && st1.grown(&st, 0, 0, 0, 0, 0, 0, 0))
        ||| exists|e: SourceError|
            s1 == #[trigger] after_failure(
                s,
                worker_id,
                sid,
                EntityType::Source,
                TaskType::StartSource,
                source_error_text(e),
            ) && st1.grown(&st, 0, 0, 0, 0, 0, 1, 0)
    }
}

/// A source-error task may take the executor from `s` with statistics `st`
/// to `s1` with statistics `st1`: the failure of a source in the graph is
/// reported; others are ignored.
pub open spec fn source_error_step(
    s: ExecView,
    st: ExecutionStats,
    worker_id: u64,
    sid: Seq<char>,
    message: Seq<char>,
    s1: ExecView,
    st1: ExecutionStats,
) -> bool {
    if (live_index(s.vertices, sid) is None) {
        s1 == s && st1.grown(&st, 0, 0, 0, 0, 0, 0, 0)
    } else {
        s1 == after_failure(s, worker_id, sid, EntityType::Source, TaskType::StartSource, message)
            && st1.grown(&st, 0, 0, 0, 0, 0, 1, 0)
    }
}

/// A stop task for `pid` may take the executor from `s` with statistics
/// `st` to `s1` with statistics `st1`, as `after_stop` describes.
pub open spec fn stop_step(
    s: ExecView,
    st: ExecutionStats,
    worker_id: u64,
    pid: Seq<char>,
    s1: ExecView,
    st1: ExecutionStats,
) -> bool {
    exists|o: StopOutcome|
        {
            &&& s1 == #[trigger] after_stop(s, worker_id, pid, o)
            &&& st1.grown(
                &st,
                0,
                0,
                0,
                if live_index(s.vertices, pid) is Some {
                    1
                } else {
                    0
                },
                0,
                stop_errors(s, pid, o),
                0,
            )
        }
}

/// A deploy task for a graph with vertices `ws` may take the executor from
/// `s` with statistics `st` to `s1` with statistics `st1`, as
/// `after_deploy` describes.
pub open spec fn deploy_step(
    s: ExecView,
    st: ExecutionStats,
    worker_id: u64,
    query_id: QueryId,
    ws: Seq<VertexView>,
    s1: ExecView,
    st1: ExecutionStats,
) -> bool {
    let ids = live_vertex_ids(ws);
    let vs1 = merged(s.vertices, ws);
    exists|failure: Option<(int, Seq<char>)>|
        {
            &&& s1 == #[trigger] after_deploy(s, worker_id, query_id, ws, failure)
            &&& match failure {
                None => st1.grown(&st, 0, 0, with_node(vs1, ids).len(), 0, 1, 0, 0),
                Some((f, _)) => {
                    &&& 0 <= f < ids.len()
                    &&& live_index(vs1, ids[f]) is Some
                    &&& st1.grown(&st, 0, 0, with_node(vs1, ids.take(f)).len(), ids.len(), 1, 1, 0)
                },
            }
        }
}

/// Every vertex of `vs` has at least as many entries as the ids of its
/// nodes.
pub proof fn lemma_live_vertex_ids_len(vs: Seq<VertexView>)
    ensures
        live_vertex_ids(vs).len() <= vs.len(),
    decreases vs.len(),
{
    if vs.len() > 0 {
        lemma_live_vertex_ids_len(vs.drop_last());
    }
}

/// Processing task `t` (as a worker does) may take the executor from `s`
/// with statistics `st` to `s1` with statistics `st1`.
///
/// A work, start or end-of-stream task whose pipeline has no node is
/// skipped. Every other task runs its handler and counts as executed; a
/// shutdown task tears down every pipeline that was set up (counting the
/// failed teardowns as errors), counts every pipeline as stopped, and marks
/// the shutdown as complete.
pub open spec fn task_step(
    s: ExecView,
    st: ExecutionStats,
    worker_id: u64,
    t: TaskView,
    s1: ExecView,
    st1: ExecutionStats,
) -> bool {
    match t {
        TaskView::Work { query_id, pipeline, buffer } => if (live_index(s.vertices, pipeline) is None) {
            s1 == s && st1.grown(&st, 0, 0, 0, 0, 0, 0, 1)
        } else {
            exists|mid: ExecutionStats|
                work_step(s, st, worker_id, query_id, pipeline, buffer, s1, mid)
                    && #[trigger] st1.grown(&mid, 1, 0, 0, 0, 0, 0, 0)
        },
        TaskView::Deploy { graph, query_id } => exists|mid: ExecutionStats|
            deploy_step(s, st, worker_id, query_id, graph.vertices(), s1, mid)
                && #[trigger] st1.grown(&mid, 1, 0, 0, 0, 0, 0, 0),
        TaskView::StartSource { query_id, source } => if (live_index(s.vertices, source) is None) {
            s1 == s && st1.grown(&st, 0, 0, 0, 0, 0, 0, 1)
        } else {
            exists|mid: ExecutionStats|
                start_source_step(s, st, worker_id, source, s1, mid) && #[trigger] st1.grown(
                    &mid,
                    1,
                    0,
                    0,
                    0,
                    0,
                    0,
                    0,
                )
        },
        TaskView::EndOfStream { query_id, source, pipeline } => if (live_index(
            s.vertices,
            pipeline,
        ) is None) {
            s1 == s && st1.grown(&st, 0, 0, 0, 0, 0, 0, 1)
        } else {
            s1 == after_eos(s, pipeline) && st1.grown(&st, 1, 0, 0, 0, 0, 0, 0)
        },
        TaskView::Stop { pipeline } => exists|mid: ExecutionStats|
            stop_step(s, st, worker_id, pipeline, s1, mid) && #[trigger] st1.grown(
                &mid,
                1,
                0,
                0,
                0,
                0,
                0,
                0,
            ),
        TaskView::SourceError { query_id, source, error } => exists|mid: ExecutionStats|
            source_error_step(s, st, worker_id, source, error, s1, mid) && #[trigger] st1.grown(
                &mid,
                1,
                0,
                0,
                0,
                0,
                0,
                0,
            ),
        TaskView::Shutdown => {
            let n = live_vertex_ids(s.vertices).len();
            exists|k: nat|
                k <= n && s1 == (ExecView { shutdown_complete: true, ..s }) && #[trigger] st1.grown(
                    &st,
                    1,
                    0,
                    0,
                    n,
                    0,
                    k,
                    0,
                )
        },
    }
}

/// The statistics room that processing task `t` in state `s` needs.
pub open spec fn task_room(s: ExecView, t: TaskView) -> nat {
    match t {
        TaskView::Deploy { graph, .. } => live_vertex_ids(graph.vertices()).len(),
        TaskView::Shutdown => live_vertex_ids(s.vertices).len(),
        _ => 1,
    }
}

} // verus!

verus! {

/// A pipeline's stop task is queued at most once: once it is queued,
/// neither a finished task nor an end-of-stream signal queues another, and
/// the mark stays.
pub proof fn lemma_stop_queued_once(s: ExecView, pid: Seq<char>)
    requires
        live_index(s.vertices, pid) is Some,
        s.vertices[live_index(s.vertices, pid)->0].meta.stop_task_enqueued,
    ensures
        after_done(s, pid).tasks == s.tasks,
        after_eos(s, pid).tasks == s.tasks,
        after_done(s, pid).vertices[live_index(s.vertices, pid)->0].meta.stop_task_enqueued,
        after_eos(s, pid).vertices[live_index(s.vertices, pid)->0].meta.stop_task_enqueued,
{
}

/// Checking a pipeline for a due stop queues its stop task exactly when
/// termination was requested, no work is pending and none was queued
/// before; afterwards the pipeline is marked as having its stop queued.
pub proof fn lemma_stop_due_marks(m: MetadataView)
    ensures
        stop_due(m) ==> with_stop_checked(m).stop_task_enqueued,
        !stop_due(with_stop_checked(m)),
{
}

/// A pipeline runs on a buffer only once its setup succeeded, only while it
/// has not failed, and never when it is a source (a source passes the
/// buffer on): otherwise the work step starts no task, emits no event and
/// records no error.
pub proof fn lemma_runs_only_when_set_up(
    s: ExecView,
    st: ExecutionStats,
    worker_id: u64,
    query_id: QueryId,
    pid: Seq<char>,
    buffer: BufferView,
    s1: ExecView,
    st1: ExecutionStats,
)
    requires
        live_index(s.vertices, pid) is Some,
        work_step(s, st, worker_id, query_id, pid, buffer, s1, st1),
        ({
            let v = s.vertices[live_index(s.vertices, pid)->0];
            v.meta.failed || !v.meta.setup_succeeded || v.src
        }),
    ensures
        s1.events == s.events,
        s1.next_task_id == s.next_task_id,
        s1.errors == s.errors,
{
}

/// A pipeline whose execution fails is marked as failed, its error is
/// recorded and `PipelineExecutionError` is reported; a buffer that then
/// arrives for it is skipped, and every other pipeline is left as it was.
pub proof fn lemma_failure_isolates_pipeline(
    s: ExecView,
    worker_id: u64,
    query_id: QueryId,
    pid: Seq<char>,
    task_id: TaskId,
    message: Seq<char>,
    st: ExecutionStats,
    next_worker: u64,
    next_query: QueryId,
    buffer: BufferView,
    s2: ExecView,
    st2: ExecutionStats,
)
    requires
        live_index(s.vertices, pid) is Some,
    ensures
        ({
            let s1 = after_work(s, worker_id, query_id, pid, task_id, WorkOutcome::Failed { message });
            let i = live_index(s.vertices, pid)->0;
            &&& live_index(s1.vertices, pid) == Some(i)
            &&& s1.vertices[i].meta.failed
            &&& s1.vertices.len() == s.vertices.len()
            &&& forall|j: int| 0 <= j < s.vertices.len() && j != i ==> #[trigger] s1.vertices[j] == s.vertices[j]
            &&& s1.errors == s.errors.push(
                ExecutionErrorView {
                    entity_id: pid,
                    entity_type: EntityType::Pipeline,
                    error: message,
                    task_type: TaskType::WorkTask,
                },
            )
            &&& s1.events.last() == EventView::PipelineExecutionError { worker_id, pipeline: pid }
            &&& (work_step(s1, st, next_worker, next_query, pid, buffer, s2, st2) ==> s2 == after_done(
                s1,
                pid,
            ))
        }),
{
    let i = live_index(s.vertices, pid)->0;
    let s0 = ExecView {
        events: s.events.push(
            EventView::TaskExecutionComplete { worker_id, query_id, pipeline: pid, task_id },
        ),
        ..s
    };
    let marked = op_on(s0.vertices, pid, MetaOp::MarkFailed);
    lemma_op_on_shape(s0.vertices, pid, MetaOp::MarkFailed);
    lemma_same_shape_index(marked, s0.vertices);
    let s1 = after_work(s, worker_id, query_id, pid, task_id, WorkOutcome::Failed { message });
    let m = with_task_done(marked[i].meta);
    assert(s1.vertices == marked.update(i, marked[i].with_meta(with_stop_checked(m))));
    assert(same_shape(s1.vertices, marked)) by {
        assert forall|j: int| 0 <= j < s1.vertices.len() implies #[trigger] s1.vertices[j]
            == marked[j].with_meta(s1.vertices[j].meta) by {}
    }
    lemma_same_shape_index(s1.vertices, marked);
}

/// Routing buffers keeps the shape of the vertices.
proof fn lemma_after_routing_shape(
    s: ExecView,
    query_id: QueryId,
    from: Seq<char>,
    bufs: Seq<BufferView>,
    task_id: Option<TaskId>,
)
    ensures
        same_shape(after_routing(s, query_id, from, bufs, task_id).vertices, s.vertices),
{
    let names = successor_ids(s.vertices, from);
    lemma_op_on_all_shape(s.vertices, repeat(names, bufs.len()), MetaOp::CountPending);
}

/// A stop task for a pipeline in the graph removes it, whatever its flush
/// and teardown gave: `PipelineStop` is reported last, and every successor
/// is sent an end-of-stream task.
pub proof fn lemma_stop_removes_pipeline(s: ExecView, worker_id: u64, pid: Seq<char>, outcome: StopOutcome)
    requires
        live_index(s.vertices, pid) is Some,
    ensures
        ({
            let s1 = after_stop(s, worker_id, pid, outcome);
            &&& live_index(s1.vertices, pid) is None
            &&& s1.events.last() == EventView::PipelineStop { worker_id, query_id: 0, pipeline: pid }
            &&& forall|t: TaskView| #[trigger]
                eos_tasks(pid, successor_ids(s.vertices, pid)).to_multiset().count(t) <= s1.tasks.count(t)
        }),
{
    let i = live_index(s.vertices, pid)->0;
    let v = s.vertices[i];
    let names = successor_ids(s.vertices, pid);
    // The state just before the node is removed.
    let pre: ExecView = if !v.meta.setup_succeeded || v.meta.failed {
        if v.meta.failed && v.src {
            ExecView { vertices: op_on(s.vertices, pid, MetaOp::RequestSourceStop), ..s }
        } else {
            s
        }
    } else {
        match outcome {
            StopOutcome::FlushFailed { message } => after_stop_failure(s, worker_id, pid, names, message),
            StopOutcome::Flushed { buffers, teardown_error } => {
                let s1 = after_routing(s, 0, pid, buffers, None);
                let s2 = if v.src {
                    ExecView { vertices: op_on(s1.vertices, pid, MetaOp::RequestSourceStop), ..s1 }
                } else {
                    s1
                };
                match teardown_error {
                    Some(message) => after_stop_failure(s2, worker_id, pid, names, message),
                    None => s2,
                }
            },
        }
    };
    assert(after_stop(s, worker_id, pid, outcome) == after_removal(pre, worker_id, pid, names));
    // Every step before the removal keeps the shape.
    assert(same_shape(pre.vertices, s.vertices)) by {
        lemma_same_shape_refl(s.vertices);
        lemma_op_on_shape(s.vertices, pid, MetaOp::RequestSourceStop);
        lemma_op_on_all_shape(s.vertices, names, MetaOp::MarkFailed);
        if v.meta.setup_succeeded && !v.meta.failed {
            match outcome {
                StopOutcome::FlushFailed { .. } => {},
                StopOutcome::Flushed { buffers, teardown_error } => {
                    let s1 = after_routing(s, 0, pid, buffers, None);
                    lemma_after_routing_shape(s, 0, pid, buffers, None);
                    lemma_op_on_shape(s1.vertices, pid, MetaOp::RequestSourceStop);
                    let s2 = if v.src {
                        ExecView { vertices: op_on(s1.vertices, pid, MetaOp::RequestSourceStop), ..s1 }
                    } else {
                        s1
                    };
                    lemma_same_shape_trans(s2.vertices, s1.vertices, s.vertices);
                    lemma_op_on_all_shape(s2.vertices, names, MetaOp::MarkFailed);
                    lemma_same_shape_trans(op_on_all(s2.vertices, names, MetaOp::MarkFailed), s2.vertices, s.vertices);
                },
            }
        }
    }
    lemma_same_shape_index(pre.vertices, s.vertices);
    let vs = remove_from(pre.vertices, pid);
    assert(vs == pre.vertices.update(i, pre.vertices[i].without_node()));
    assert(vertex_ids(vs) =~= vertex_ids(pre.vertices)) by {
        assert forall|j: int| 0 <= j < vs.len() implies vertex_ids(vs)[j] == vertex_ids(pre.vertices)[j] by {}
    }
    assert(vertex_index(vs, pid) == vertex_index(pre.vertices, pid));
    assert(!vs[i].live);
    let tasks = pre.tasks.add(eos_tasks(pid, names).to_multiset());
    assert forall|t: TaskView| #[trigger] eos_tasks(pid, names).to_multiset().count(t)
        <= after_removal(pre, worker_id, pid, names).tasks.count(t) by {
        assert(tasks.count(t) == pre.tasks.count(t) + eos_tasks(pid, names).to_multiset().count(t));
    }
}

/// A pipeline counts as finished only once it has received an end-of-stream
/// signal from each of its expected sources (and it expects at least one).
pub proof fn lemma_finished_needs_every_source(m: MetadataView)
    ensures
        sources_finished(m) ==> m.expected_sources > 0 && m.eos_received >= m.expected_sources,
        m.expected_sources > 0 && m.eos_received >= m.expected_sources ==> sources_finished(m),
{
}

/// An end-of-stream signal that leaves some expected source still running
/// only counts the signal: the pipeline is not asked to terminate, and no
/// task is queued. (Counts are machine-sized.)
pub proof fn lemma_early_end_of_stream_keeps_pipeline(s: ExecView, pid: Seq<char>)
    requires
        live_index(s.vertices, pid) is Some,
        s.vertices[live_index(s.vertices, pid)->0].meta.expected_sources <= usize::MAX,
        !s.vertices[live_index(s.vertices, pid)->0].meta.requires_termination,
        s.vertices[live_index(s.vertices, pid)->0].meta.eos_received + 1
            < s.vertices[live_index(s.vertices, pid)->0].meta.expected_sources,
    ensures
        ({
            let i = live_index(s.vertices, pid)->0;
            let m = s.vertices[i].meta;
            let s1 = after_eos(s, pid);
            &&& s1.tasks == s.tasks
            &&& s1.vertices == s.vertices.update(
                i,
                s.vertices[i].with_meta(MetadataView { eos_received: m.eos_received + 1, ..m }),
            )
            &&& !s1.vertices[i].meta.requires_termination
        }),
{
}

/// The end-of-stream signal of the last expected source asks the pipeline
/// to terminate; its stop task is queued when no work is pending (and none
/// was queued before). (Counts are machine-sized.)
pub proof fn lemma_last_end_of_stream_terminates(s: ExecView, pid: Seq<char>)
    requires
        live_index(s.vertices, pid) is Some,
        s.vertices[live_index(s.vertices, pid)->0].meta.expected_sources <= usize::MAX,
        s.vertices[live_index(s.vertices, pid)->0].meta.eos_received + 1
            == s.vertices[live_index(s.vertices, pid)->0].meta.expected_sources,
    ensures
        ({
            let i = live_index(s.vertices, pid)->0;
            let m = s.vertices[i].meta;
            let s1 = after_eos(s, pid);
            &&& s1.vertices[i].meta.requires_termination
            &&& s1.vertices[i].meta.eos_received == m.eos_received + 1
            &&& (m.pending_tasks == 0 && !m.stop_task_enqueued ==> s1.tasks == s.tasks.insert(
                TaskView::Stop { pipeline: pid },
            ))
        }),
{
}

/// Stopping a pipeline that is set up and has not failed, after its flush
/// gave `buffers`, sends each of those buffers, in order, to each of its
/// successors that has a node: every such work task is queued.
pub proof fn lemma_stop_routes_flushed_buffers(
    s: ExecView,
    worker_id: u64,
    pid: Seq<char>,
    buffers: Seq<BufferView>,
    teardown_error: Option<Seq<char>>,
)
    requires
        live_index(s.vertices, pid) is Some,
        s.vertices[live_index(s.vertices, pid)->0].meta.setup_succeeded,
        !s.vertices[live_index(s.vertices, pid)->0].meta.failed,
    ensures
        forall|t: TaskView| #[trigger]
            routed(s.vertices, 0, successor_ids(s.vertices, pid), buffers).to_multiset().count(t)
                <= after_stop(s, worker_id, pid, StopOutcome::Flushed { buffers, teardown_error }).tasks.count(t),
{
    let names = successor_ids(s.vertices, pid);
    let v = s.vertices[live_index(s.vertices, pid)->0];
    let s1 = after_routing(s, 0, pid, buffers, None);
    let s2 = if v.src {
        ExecView { vertices: op_on(s1.vertices, pid, MetaOp::RequestSourceStop), ..s1 }
    } else {
        s1
    };
    let s3 = match teardown_error {
        Some(message) => after_stop_failure(s2, worker_id, pid, names, message),
        None => s2,
    };
    assert(after_stop(s, worker_id, pid, StopOutcome::Flushed { buffers, teardown_error })
        == after_removal(s3, worker_id, pid, names));
    assert(s3.tasks == s1.tasks);
    let r = after_removal(s3, worker_id, pid, names);
    assert forall|t: TaskView| #[trigger]
        routed(s.vertices, 0, names, buffers).to_multiset().count(t) <= r.tasks.count(t) by {
        assert(s1.tasks.count(t) == s.tasks.count(t) + routed(s.vertices, 0, names, buffers).to_multiset().count(t));
        let tasks = s3.tasks.add(eos_tasks(pid, names).to_multiset());
        assert(tasks.count(t) >= s3.tasks.count(t));
    }
}

} // verus!
