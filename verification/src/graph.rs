//! Pipeline graphs: directed graphs of pipelines and sources, their
//! validation as DAGs and their topological order.
//!
//! Every id ever added keeps a vertex, in the order of first addition.
//! A vertex is *live* while its node is in the graph; removing a node keeps
//! its vertex and its edges, as the executor relies on the successors of a
//! stopped pipeline. Re-adding a removed id revives its vertex with fresh
//! (empty) edge lists.

use crate::executor::context::ExecutorContext;
use crate::executor::metadata::{MetadataView, PipelineMetadata, initial_metadata};
use crate::pipeline::{Buffer, Pipeline, PipelineError, PipelineId, id_views};
use crate::pipeline::BufferView;
use crate::source::wrapper::source_execute_message;
use crate::source::{Source, SourcePipeline};
use crate::text::{decimal, u64_to_decimal};
use vstd::prelude::*;
use vstd::string::*;

verus! {

/// Errors of graph operations.
#[derive(Debug)]
pub enum GraphError {
    /// A pipeline with this id is already in the graph.
    DuplicateId(PipelineId),
    /// No pipeline with this id is in the graph.
    PipelineNotFound(PipelineId),
    /// The graph has a cycle through this pipeline.
    CycleDetected(PipelineId),
    /// The graph is not well structured.
    InvalidStructure(String),
}

/// The display text of a graph error.
pub open spec fn graph_error_text(e: GraphError) -> Seq<char> {
    match e {
        GraphError::DuplicateId(id) => "Pipeline ID already exists: "@ + id@,
        GraphError::PipelineNotFound(id) => "Pipeline not found: "@ + id@,
        GraphError::CycleDetected(id) => "Graph contains a cycle involving pipeline: "@ + id@,
        GraphError::InvalidStructure(m) => "Invalid graph structure: "@ + m@,
    }
}

fn prefixed(prefix: &str, text: &str) -> (r: String)
    ensures
        r@ == prefix@ + text@,
{
    let mut s = String::from_str(prefix);
    s.append(text);
    s
}

impl GraphError {
    /// The display text of this error.
    pub fn to_string(&self) -> (r: String)
        ensures
            r@ == graph_error_text(*self),
    {
        match self {
            GraphError::DuplicateId(id) => prefixed("Pipeline ID already exists: ", id.as_str()),
            GraphError::PipelineNotFound(id) => prefixed("Pipeline not found: ", id.as_str()),
            GraphError::CycleDetected(id) => prefixed(
                "Graph contains a cycle involving pipeline: ",
                id.as_str(),
            ),
            GraphError::InvalidStructure(m) => prefixed("Invalid graph structure: ", m.as_str()),
        }
    }
}

/// What a node runs: an ordinary pipeline or a source.
enum NodeKind {
    Pipeline(Box<dyn Pipeline>),
    Source(SourcePipeline),
}

/// A lifecycle call made on a node's pipeline.
pub ghost enum LifecycleCall {
    Setup,
    Execute(BufferView),
    Flush,
    Teardown,
}

/// A pipeline (or source) together with its runtime metadata.
///
/// `calls` records the lifecycle calls made on the pipeline, in order; it
/// exists for the contracts only.
pub struct PipelineNode {
    id: PipelineId,
    kind: NodeKind,
    metadata: PipelineMetadata,
    calls: Ghost<Seq<LifecycleCall>>,
}

impl PipelineNode {
    /// The id under which the node is stored.
    pub closed spec fn id_spec(&self) -> PipelineId {
        self.id
    }

    /// Whether the node wraps a source.
    pub closed spec fn is_source_spec(&self) -> bool {
        self.kind is Source
    }

    /// The node's metadata.
    pub closed spec fn metadata_spec(&self) -> MetadataView {
        self.metadata@
    }

    /// The lifecycle calls made on the node's pipeline so far, in order.
    pub closed spec fn calls(&self) -> Seq<LifecycleCall> {
        self.calls@
    }

    /// The part of a node that its pipeline's lifecycle calls leave alone.
    pub open spec fn same_frame(&self, other: &PipelineNode) -> bool {
        &&& self.id_spec() == other.id_spec()
        &&& self.is_source_spec() == other.is_source_spec()
        &&& self.metadata_spec() == other.metadata_spec()
    }

    /// A node for `pipeline` with fresh metadata, stored under the id the
    /// pipeline reports.
    pub fn new(pipeline: Box<dyn Pipeline>) -> (r: Self)
        ensures
            r.metadata_spec() == initial_metadata(),
            !r.is_source_spec(),
            r.calls().len() == 0,
    {
        let id = pipeline.id().clone();
        PipelineNode {
            id,
            kind: NodeKind::Pipeline(pipeline),
            metadata: PipelineMetadata::new(),
            calls: Ghost(Seq::empty()),
        }
    }

    /// A node for `source` with fresh metadata, stored under the id the
    /// source reports.
    pub fn from_source(source: Box<dyn Source>) -> (r: Self)
        ensures
            r.metadata_spec() == initial_metadata(),
            r.is_source_spec(),
            r.calls().len() == 0,
    {
        let id = source.id().clone();
        PipelineNode {
            id,
            kind: NodeKind::Source(SourcePipeline::new(source)),
            metadata: PipelineMetadata::new(),
            calls: Ghost(Seq::empty()),
        }
    }

    /// The id of this node.
    pub fn id(&self) -> (r: &PipelineId)
        ensures
            *r == self.id_spec(),
    {
        &self.id
    }

    /// The metadata of this node.
    pub fn metadata(&self) -> (r: &PipelineMetadata)
        ensures
            r@ == self.metadata_spec(),
    {
        &self.metadata
    }

    /// Mutable access to the metadata of this node.
    pub fn metadata_mut(&mut self) -> (r: &mut PipelineMetadata)
        ensures
            (*r)@ == old(self).metadata_spec(),
            final(self).metadata_spec() == (*final(r))@,
            final(self).id_spec() == old(self).id_spec(),
            final(self).is_source_spec() == old(self).is_source_spec(),
    {
        &mut self.metadata
    }

    /// Whether the node wraps a source.
    pub fn is_source(&self) -> (r: bool)
        ensures
            r == self.is_source_spec(),
    {
        match &self.kind {
            NodeKind::Source(_) => true,
            NodeKind::Pipeline(_) => false,
        }
    }

    /// The node's pipeline; a source node answers with its source wrapper.
    pub fn pipeline(&self) -> &dyn Pipeline {
        match &self.kind {
            NodeKind::Pipeline(p) => &**p,
            NodeKind::Source(s) => s,
        }
    }

    /// The source wrapper of a source node.
    pub fn source_pipeline(&self) -> (r: Option<&SourcePipeline>)
        ensures
            r is Some == self.is_source_spec(),
    {
        match &self.kind {
            NodeKind::Source(s) => Some(s),
            NodeKind::Pipeline(_) => None,
        }
    }

    /// Runs the node's `setup`; a source node's setup fails only with
    /// `ExecutionFailed`.
    pub fn setup(&mut self, context: &mut ExecutorContext) -> (r: Result<(), PipelineError>)
        ensures
            final(self).same_frame(old(self)),
            final(self).calls() == old(self).calls().push(LifecycleCall::Setup),
            old(self).is_source_spec() ==> (r matches Err(e) ==> e is ExecutionFailed),
    {
        let r = match &mut self.kind {
            NodeKind::Pipeline(p) => p.setup(context),
            NodeKind::Source(s) => s.setup(context),
        };
        self.calls = Ghost(self.calls@.push(LifecycleCall::Setup));
        r
    }

    /// Runs the node's `execute` on `input`; a source node refuses the
    /// buffer with `ExecutionFailed`.
    pub fn execute(&mut self, input: Buffer, context: &mut ExecutorContext) -> (r: Result<
        Vec<Buffer>,
        PipelineError,
    >)
        ensures
            final(self).same_frame(old(self)),
            final(self).calls() == old(self).calls().push(LifecycleCall::Execute(input@)),
            old(self).is_source_spec() ==> (r matches Err(PipelineError::ExecutionFailed(m))
                && m@ == source_execute_message(old(context).pipeline_id_spec()@)),
    {
        let ghost b = input@;
        let r = match &mut self.kind {
            NodeKind::Pipeline(p) => p.execute(input, context),
            NodeKind::Source(s) => s.execute(input, context),
        };
        self.calls = Ghost(self.calls@.push(LifecycleCall::Execute(b)));
        r
    }

    /// Runs the node's `flush`; a source node holds nothing to flush.
    pub fn flush(&mut self, context: &mut ExecutorContext) -> (r: Result<
        Vec<Buffer>,
        PipelineError,
    >)
        ensures
            final(self).same_frame(old(self)),
            final(self).calls() == old(self).calls().push(LifecycleCall::Flush),
            old(self).is_source_spec() ==> (r is Ok && r->Ok_0@.len() == 0),
    {
        let r = match &mut self.kind {
            NodeKind::Pipeline(p) => p.flush(context),
            NodeKind::Source(s) => s.flush(context),
        };
        self.calls = Ghost(self.calls@.push(LifecycleCall::Flush));
        r
    }

    /// Runs the node's `teardown`; a source node's teardown fails only with
    /// `ExecutionFailed`.
    pub fn teardown(&mut self, context: &mut ExecutorContext) -> (r: Result<(), PipelineError>)
        ensures
            final(self).same_frame(old(self)),
            final(self).calls() == old(self).calls().push(LifecycleCall::Teardown),
            old(self).is_source_spec() ==> (r matches Err(e) ==> e is ExecutionFailed),
    {
        let r = match &mut self.kind {
            NodeKind::Pipeline(p) => p.teardown(context),
            NodeKind::Source(s) => s.teardown(context),
        };
        self.calls = Ghost(self.calls@.push(LifecycleCall::Teardown));
        r
    }
}

/// The number of present nodes in a node list.
pub open spec fn count_live(s: Seq<Option<PipelineNode>>) -> nat
    decreases s.len(),
{
    if s.len() == 0 {
        0
    } else {
        count_live(s.drop_last()) + if s.last() is Some { 1nat } else { 0nat }
    }
}

proof fn lemma_count_live_bound(s: Seq<Option<PipelineNode>>)
    ensures
        count_live(s) <= s.len(),
    decreases s.len(),
{
    if s.len() > 0 {
        lemma_count_live_bound(s.drop_last());
    }
}

proof fn lemma_count_live_update(s: Seq<Option<PipelineNode>>, i: int, x: Option<PipelineNode>)
    requires
        0 <= i < s.len(),
    ensures
        count_live(s.update(i, x)) + (if s[i] is Some { 1nat } else { 0nat }) == count_live(s)
            + (if x is Some { 1nat } else { 0nat }),
    decreases s.len(),
{
    let t = s.update(i, x);
    if i < s.len() - 1 {
        assert(t.drop_last() =~= s.drop_last().update(i, x));
        lemma_count_live_update(s.drop_last(), i, x);
    } else {
        assert(t.drop_last() =~= s.drop_last());
    }
}

proof fn lemma_count_live_zero(s: Seq<Option<PipelineNode>>)
    ensures
        count_live(s) == 0 <==> forall|i: int| 0 <= i < s.len() ==> #[trigger] s[i] is None,
    decreases s.len(),
{
    if s.len() > 0 {
        lemma_count_live_zero(s.drop_last());
        if count_live(s) == 0 {
            assert forall|i: int| 0 <= i < s.len() implies #[trigger] s[i] is None by {
                if i < s.len() - 1 {
                    assert(s.drop_last()[i] == s[i]);
                }
            }
        } else {
            if s.last() is None {
                let t = s.drop_last();
                let j = choose|j: int| 0 <= j < t.len() && !(#[trigger] t[j] is None);
                assert(s[j] == t[j]);
            }
        }
    }
}

proof fn lemma_count_live_push(s: Seq<Option<PipelineNode>>, x: Option<PipelineNode>)
    ensures
        count_live(s.push(x)) == count_live(s) + (if x is Some { 1nat } else { 0nat }),
{
    assert(s.push(x).drop_last() =~= s);
}

/// The ids of the vertices below `k` that satisfy `keep`, in vertex order.
pub open spec fn select_ids(
    ids: Seq<Seq<char>>,
    k: int,
    keep: spec_fn(int) -> bool,
) -> Seq<Seq<char>>
    decreases k,
{
    if k <= 0 {
        Seq::empty()
    } else {
        select_ids(ids, k - 1, keep) + if keep(k - 1) {
            seq![ids[k - 1]]
        } else {
            Seq::empty()
        }
    }
}

/// The message for a source vertex `id` that has `count` predecessors.
pub open spec fn source_predecessor_message(id: Seq<char>, count: nat) -> Seq<char> {
    "Source '"@ + id + "' has "@ + decimal(count) + " predecessor(s), but sources must have no predecessors"@
}

fn source_predecessor_text(id: &PipelineId, count: usize) -> (r: String)
    ensures
        r@ == source_predecessor_message(id@, count as nat),
{
    let mut s = String::from_str("Source '");
    s.append(id.as_str());
    s.append("' has ");
    let c = u64_to_decimal(count as u64);
    s.append(c.as_str());
    s.append(" predecessor(s), but sources must have no predecessors");
    s
}

proof fn lemma_seen_distinct(w: Seq<int>, seen: Seq<usize>, u: int, n: int)
    requires
        0 <= n,
        seen.len() == n,
        0 <= u < n,
        seen[u] == 0,
        forall|k: int| 0 <= k < w.len() ==> 0 <= #[trigger] w[k] < n && seen[w[k]] == k + 1,
    ensures
        w.len() + 1 <= n,
{
    let w2 = w.push(u);
    assert forall|a: int, b: int|
        0 <= a < w2.len() && 0 <= b < w2.len() && a != b implies w2[a] != w2[b] by {
        if a < w.len() && b < w.len() {
            assert(seen[w[a]] == a + 1);
            assert(seen[w[b]] == b + 1);
        } else if a == w.len() {
            assert(seen[w[b]] == b + 1);
        } else {
            assert(seen[w[a]] == a + 1);
        }
    }
    assert forall|k: int| 0 <= k < w2.len() implies 0 <= #[trigger] w2[k] < n by {
        if k < w.len() {
            assert(w2[k] == w[k]);
        }
    }
    lemma_distinct_bounded(w2, n);
}

/// A list of integers containing every value of `[0, n)` has at least `n`
/// elements.
proof fn lemma_cover_bounded(s: Seq<int>, n: int)
    requires
        0 <= n,
        forall|v: int| 0 <= v < n ==> #[trigger] s.contains(v),
    ensures
        s.len() >= n,
{
    vstd::set_lib::lemma_int_range(0, n);
    assert(vstd::set_lib::set_int_range(0, n).subset_of(s.to_set()));
    s.lemma_cardinality_of_set();
    vstd::set_lib::lemma_len_subset(vstd::set_lib::set_int_range(0, n), s.to_set());
}

spec fn old_order_at(order: Seq<usize>, j: int) -> usize {
    order[j]
}

/// A list of distinct integers from `[0, n)` has at most `n` elements.
proof fn lemma_distinct_bounded(s: Seq<int>, n: int)
    requires
        0 <= n,
        s.no_duplicates(),
        forall|k: int| 0 <= k < s.len() ==> 0 <= #[trigger] s[k] < n,
    ensures
        s.len() <= n,
{
    s.unique_seq_to_set();
    vstd::set_lib::lemma_int_range(0, n);
    assert(s.to_set().subset_of(vstd::set_lib::set_int_range(0, n)));
    vstd::set_lib::lemma_len_subset(s.to_set(), vstd::set_lib::set_int_range(0, n));
}

proof fn lemma_select_ext(
    ids: Seq<Seq<char>>,
    k: int,
    a: spec_fn(int) -> bool,
    b: spec_fn(int) -> bool,
)
    requires
        forall|i: int| 0 <= i < k ==> #[trigger] a(i) == b(i),
    ensures
        select_ids(ids, k, a) == select_ids(ids, k, b),
    decreases k,
{
    if k > 0 {
        lemma_select_ext(ids, k - 1, a, b);
    }
}

/// The abstract content of a vertex: its id, whether it holds a node and,
/// for a node, whether it wraps a source and its metadata (fresh metadata
/// for a vertex without a node), its edges, and whether it was added as a
/// source.
pub ghost struct VertexView {
    pub id: Seq<char>,
    pub live: bool,
    pub source_node: bool,
    pub meta: MetadataView,
    pub succ: Seq<usize>,
    pub pred: Seq<usize>,
    pub src: bool,
}

impl VertexView {
    /// This vertex with its metadata replaced by `m`.
    pub open spec fn with_meta(self, m: MetadataView) -> VertexView {
        VertexView { meta: m, ..self }
    }

    /// This vertex with its node removed.
    pub open spec fn without_node(self) -> VertexView {
        VertexView { live: false, source_node: false, meta: initial_metadata(), ..self }
    }
}

/// No vertex of `vs` holds a node.
pub open spec fn no_live(vs: Seq<VertexView>) -> bool {
    forall|i: int| 0 <= i < vs.len() ==> !(#[trigger] vs[i]).live
}

/// The ids of `vs`, in order.
pub open spec fn vertex_ids(vs: Seq<VertexView>) -> Seq<Seq<char>> {
    vs.map_values(|x: VertexView| x.id)
}

/// A position of `v` in `ids`, or -1.
pub open spec fn id_index(ids: Seq<Seq<char>>, v: Seq<char>) -> int {
    if exists|i: int| 0 <= i < ids.len() && ids[i] == v {
        choose|i: int| 0 <= i < ids.len() && ids[i] == v
    } else {
        -1
    }
}

/// The position of the vertex with id `v` in `vs`, or -1.
pub open spec fn vertex_index(vs: Seq<VertexView>, v: Seq<char>) -> int {
    id_index(vertex_ids(vs), v)
}

/// The ids of the successors of the vertex with id `v` (none for an
/// unknown id), in connection order.
pub open spec fn successor_ids(vs: Seq<VertexView>, v: Seq<char>) -> Seq<Seq<char>> {
    let i = vertex_index(vs, v);
    if i >= 0 {
        vs[i].succ.map_values(|k: usize| vs[k as int].id)
    } else {
        Seq::empty()
    }
}

/// The position of the vertex with id `v` in `vs` if it holds a node.
pub open spec fn live_index(vs: Seq<VertexView>, v: Seq<char>) -> Option<int> {
    let i = vertex_index(vs, v);
    if i >= 0 && vs[i].live {
        Some(i)
    } else {
        None
    }
}

/// `vs` with the node of vertex view `w` added, unless a node with its id
/// is already there: a vertex of that id is revived, otherwise a vertex is
/// appended; the vertex gets empty edge lists and is a source vertex when
/// the node is a source or the vertex already was one.
pub open spec fn add_vertex(vs: Seq<VertexView>, w: VertexView) -> Seq<VertexView> {
    let i = vertex_index(vs, w.id);
    if live_index(vs, w.id) is Some {
        vs
    } else {
        let nv = VertexView {
            id: w.id,
            live: true,
            source_node: w.source_node,
            meta: w.meta,
            succ: Seq::empty(),
            pred: Seq::empty(),
            src: w.source_node || (i >= 0 && vs[i].src),
        };
        if i >= 0 {
            vs.update(i, nv)
        } else {
            vs.push(nv)
        }
    }
}

/// `vs` with the nodes of the live vertices of `ws` added in order.
pub open spec fn add_vertices(vs: Seq<VertexView>, ws: Seq<VertexView>) -> Seq<VertexView>
    decreases ws.len(),
{
    if ws.len() == 0 {
        vs
    } else {
        let prev = add_vertices(vs, ws.drop_last());
        if ws.last().live {
            add_vertex(prev, ws.last())
        } else {
            prev
        }
    }
}

/// `vs` with an edge from the node with id `a` to the node with id `b`,
/// when both are there.
pub open spec fn connect_ids(vs: Seq<VertexView>, a: Seq<char>, b: Seq<char>) -> Seq<VertexView> {
    match (live_index(vs, a), live_index(vs, b)) {
        (Some(s), Some(t)) => {
            let vs1 = vs.update(s, VertexView { succ: vs[s].succ.push(t as usize), ..vs[s] });
            vs1.update(t, VertexView { pred: vs1[t].pred.push(s as usize), ..vs1[t] })
        },
        _ => vs,
    }
}

/// `vs` with the edges `conns` made in order.
pub open spec fn connect_all(vs: Seq<VertexView>, conns: Seq<(Seq<char>, Seq<char>)>) -> Seq<
    VertexView,
>
    decreases conns.len(),
{
    if conns.len() == 0 {
        vs
    } else {
        let prev = connect_all(vs, conns.drop_last());
        connect_ids(prev, conns.last().0, conns.last().1)
    }
}

/// The edges among the first `t` successor entries of vertex `u` of `ws`
/// that lead to live vertices, as id pairs, in connection order.
pub open spec fn edges_upto(ws: Seq<VertexView>, u: int, t: int) -> Seq<(Seq<char>, Seq<char>)>
    decreases t,
{
    if t <= 0 {
        Seq::empty()
    } else {
        let k = ws[u].succ[t - 1] as int;
        edges_upto(ws, u, t - 1) + if 0 <= k < ws.len() && ws[k].live {
            seq![(ws[u].id, ws[k].id)]
        } else {
            Seq::empty()
        }
    }
}

/// The edges of vertex `u` of `ws` to live vertices, as id pairs, in
/// connection order (none when `u` has no node).
pub open spec fn edges_from(ws: Seq<VertexView>, u: int) -> Seq<(Seq<char>, Seq<char>)> {
    if ws[u].live {
        edges_upto(ws, u, ws[u].succ.len() as int)
    } else {
        Seq::empty()
    }
}

/// The edges between nodes of `ws`, as id pairs: those of each vertex in
/// vertex order.
pub open spec fn node_edges(ws: Seq<VertexView>, k: int) -> Seq<(Seq<char>, Seq<char>)>
    decreases k,
{
    if k <= 0 {
        Seq::empty()
    } else {
        node_edges(ws, k - 1) + edges_from(ws, k - 1)
    }
}

/// `vs` after merging the graph with vertices `ws` into it: the nodes of
/// `ws` are added (a node whose id is already in the graph is dropped),
/// then the edges between the nodes of `ws` are made by id.
pub open spec fn merged(vs: Seq<VertexView>, ws: Seq<VertexView>) -> Seq<VertexView> {
    connect_all(add_vertices(vs, ws), node_edges(ws, ws.len() as int))
}

/// A well-formed graph, ready to be handed to the executor for deployment.
pub struct GraphToDeploy {
    graph: PipelineGraph,
}

impl GraphToDeploy {
    #[verifier::type_invariant]
    spec fn inv(self) -> bool {
        self.graph.wf()
    }

    /// The graph.
    pub closed spec fn graph_spec(self) -> PipelineGraph {
        self.graph
    }

    /// Wraps a well-formed graph.
    pub fn new(graph: PipelineGraph) -> (r: Self)
        requires
            graph.wf(),
        ensures
            r.graph_spec() == graph,
    {
        GraphToDeploy { graph }
    }

    /// The graph, which is well formed.
    pub fn into_graph(self) -> (r: PipelineGraph)
        ensures
            r == self.graph_spec(),
            r.wf(),
    {
        proof {
            use_type_invariant(&self);
        }
        self.graph
    }
}

/// The ids of the vertices of `ws` that hold a node, in vertex order.
pub open spec fn live_vertex_ids(ws: Seq<VertexView>) -> Seq<Seq<char>>
    decreases ws.len(),
{
    if ws.len() == 0 {
        Seq::empty()
    } else {
        live_vertex_ids(ws.drop_last()) + if ws.last().live {
            seq![ws.last().id]
        } else {
            Seq::empty()
        }
    }
}

/// A directed graph of pipelines. See the module documentation for the
/// vertex model.
pub struct PipelineGraph {
    ids: Vec<PipelineId>,
    nodes: Vec<Option<PipelineNode>>,
    edges: Vec<Vec<usize>>,
    reverse_edges: Vec<Vec<usize>>,
    sources: Vec<bool>,
    live: usize,
}

impl PipelineGraph {
    /// The number of vertices.
    pub closed spec fn n(&self) -> nat {
        self.ids@.len()
    }

    /// The id of vertex `i`.
    pub closed spec fn vid(&self, i: int) -> Seq<char> {
        self.ids@[i]@
    }

    /// The ids of all vertices, in vertex order.
    pub open spec fn vids(&self) -> Seq<Seq<char>> {
        Seq::new(self.n(), |i: int| self.vid(i))
    }

    /// Whether vertex `i` holds a node.
    pub closed spec fn is_live(&self, i: int) -> bool {
        self.nodes@[i] is Some
    }

    /// The node of live vertex `i`.
    pub closed spec fn node_at(&self, i: int) -> PipelineNode {
        self.nodes@[i]->0
    }

    /// The successors of vertex `i`, in connection order (with repetitions).
    pub closed spec fn succ(&self, i: int) -> Seq<usize> {
        self.edges@[i]@
    }

    /// The predecessors of vertex `i`, in connection order (with repetitions).
    pub closed spec fn pred(&self, i: int) -> Seq<usize> {
        self.reverse_edges@[i]@
    }

    /// Whether vertex `i` was added as a source.
    pub closed spec fn src(&self, i: int) -> bool {
        self.sources@[i]
    }

    /// The number of live vertices.
    pub closed spec fn live_count(&self) -> nat {
        self.live as nat
    }

    /// The structural invariant of the graph.
    pub closed spec fn wf(&self) -> bool {
        let n = self.ids@.len();
        &&& self.nodes@.len() == n
        &&& self.edges@.len() == n
        &&& self.reverse_edges@.len() == n
        &&& self.sources@.len() == n
        &&& forall|i: int, j: int| 0 <= i < j < n ==> self.ids@[i]@ != self.ids@[j]@
        &&& forall|i: int, k: int|
            0 <= i < n && 0 <= k < self.edges@[i]@.len() ==> self.edges@[i]@[k] < n
        &&& forall|i: int, k: int|
            0 <= i < n && 0 <= k < self.reverse_edges@[i]@.len() ==> self.reverse_edges@[i]@[k]
                < n
        &&& forall|i: int|
            0 <= i < n && (#[trigger] self.nodes@[i]) is Some ==> self.nodes@[i]->0.id_spec()@
                == self.ids@[i]@
        &&& self.live as nat == count_live(self.nodes@)
    }

    /// The vertex with id `v`, or -1.
    pub open spec fn index_of(&self, v: Seq<char>) -> int {
        if exists|i: int| 0 <= i < self.n() && self.vid(i) == v {
            choose|i: int| 0 <= i < self.n() && self.vid(i) == v
        } else {
            -1
        }
    }

    /// A node with id `v` is in the graph.
    pub open spec fn has_live(&self, v: Seq<char>) -> bool {
        self.index_of(v) >= 0 && self.is_live(self.index_of(v))
    }

    /// An edge from vertex `u` to vertex `v`.
    pub open spec fn edge(&self, u: int, v: int) -> bool {
        0 <= u < self.n() && self.succ(u).contains(v as usize) && 0 <= v < self.n()
    }

    /// The ids of the live vertices, in vertex order.
    pub open spec fn live_ids(&self) -> Seq<Seq<char>> {
        select_ids(self.vids(), self.n() as int, |i: int| self.is_live(i))
    }

    /// The ids of the live vertices without predecessors.
    pub open spec fn source_ids(&self) -> Seq<Seq<char>> {
        select_ids(self.vids(), self.n() as int, |i: int| self.is_live(i) && self.pred(i).len() == 0)
    }

    /// The ids of the live vertices without successors.
    pub open spec fn sink_ids(&self) -> Seq<Seq<char>> {
        select_ids(self.vids(), self.n() as int, |i: int| self.is_live(i) && self.succ(i).len() == 0)
    }

    /// Vertex `j` is the same in both graphs.
    pub open spec fn same_vertex(&self, other: &PipelineGraph, j: int) -> bool {
        &&& self.vid(j) == other.vid(j)
        &&& self.is_live(j) == other.is_live(j)
        &&& (self.is_live(j) ==> self.node_at(j) == other.node_at(j))
        &&& self.succ(j) == other.succ(j)
        &&& self.pred(j) == other.pred(j)
        &&& self.src(j) == other.src(j)
    }

    /// The two graphs agree on every vertex except possibly `i`.
    pub open spec fn same_except(&self, other: &PipelineGraph, i: int) -> bool {
        &&& self.n() == other.n()
        &&& forall|j: int| 0 <= j < self.n() && j != i ==> #[trigger] self.same_vertex(other, j)
    }

    /// The two graphs are the same.
    pub open spec fn same_graph(&self, other: &PipelineGraph) -> bool {
        &&& self.n() == other.n()
        &&& forall|j: int| 0 <= j < self.n() ==> #[trigger] self.same_vertex(other, j)
        &&& self.live_count() == other.live_count()
    }

    /// `self` is `old` with a node of id `v` added (a source when `source`),
    /// with fresh metadata and empty edge lists; a vertex of that id is
    /// revived, otherwise a vertex is appended.
    pub open spec fn added(&self, old: &PipelineGraph, v: Seq<char>, source: bool) -> bool {
        let i = if old.index_of(v) >= 0 { old.index_of(v) } else { old.n() as int };
        &&& self.wf()
        &&& i < self.n()
        &&& (old.index_of(v) >= 0 ==> self.n() == old.n())
        &&& (old.index_of(v) < 0 ==> self.n() == old.n() + 1)
        &&& forall|j: int| 0 <= j < old.n() && j != i ==> #[trigger] self.same_vertex(old, j)
        &&& self.vid(i) == v
        &&& self.index_of(v) == i
        &&& self.is_live(i)
        &&& self.node_at(i).id_spec()@ == v
        &&& self.succ(i).len() == 0
        &&& self.pred(i).len() == 0
        &&& self.src(i) == (source || (old.index_of(v) >= 0 && old.src(i)))
        &&& self.live_count() == old.live_count() + 1
    }

    /// `added`, where the new node is fresh: initial metadata, and a source
    /// node exactly when `source`.
    pub open spec fn added_fresh(&self, old: &PipelineGraph, v: Seq<char>, source: bool) -> bool {
        &&& self.added(old, v, source)
        &&& self.node_at(self.index_of(v)).metadata_spec() == initial_metadata()
        &&& self.node_at(self.index_of(v)).is_source_spec() == source
    }

    proof fn lemma_index_of(&self, i: int)
        requires
            self.wf(),
            0 <= i < self.n(),
        ensures
            self.index_of(self.vid(i)) == i,
    {
    }

    /// Two well-formed graphs with the same vertex ids find every id at the
    /// same vertex.
    pub proof fn lemma_index_of_same_ids(&self, other: &PipelineGraph)
        requires
            self.wf(),
            other.wf(),
            self.n() == other.n(),
            forall|j: int| 0 <= j < self.n() ==> #[trigger] self.vid(j) == other.vid(j),
        ensures
            forall|v: Seq<char>| #[trigger] self.index_of(v) == other.index_of(v),
    {
        assert forall|v: Seq<char>| #[trigger] self.index_of(v) == other.index_of(v) by {
            if exists|i: int| 0 <= i < self.n() && self.vid(i) == v {
                let i = choose|i: int| 0 <= i < self.n() && self.vid(i) == v;
                self.lemma_index_of(i);
                other.lemma_index_of(i);
            } else if exists|i: int| 0 <= i < other.n() && other.vid(i) == v {
                let i = choose|i: int| 0 <= i < other.n() && other.vid(i) == v;
                assert(self.vid(i) == v);
            }
        }
    }

    /// An empty graph.
    pub fn new() -> (r: Self)
        ensures
            r.wf(),
            r.n() == 0,
            r.live_count() == 0,
    {
        PipelineGraph {
            ids: Vec::new(),
            nodes: Vec::new(),
            edges: Vec::new(),
            reverse_edges: Vec::new(),
            sources: Vec::new(),
            live: 0,
        }
    }

    /// The vertex of `id`, if any.
    pub fn find(&self, id: &PipelineId) -> (r: Option<usize>)
        requires
            self.wf(),
        ensures
            match r {
                Some(i) => i < self.n() && self.vid(i as int) == id@ && self.index_of(id@)
                    == i,
                None => self.index_of(id@) == -1,
            },
    {
        let mut i: usize = 0;
        while i < self.ids.len()
            invariant
                self.wf(),
                i <= self.n(),
                forall|j: int| 0 <= j < i ==> self.vid(j) != id@,
            decreases self.n() - i,
        {
            if self.ids[i].same(id) {
                proof {
                    self.lemma_index_of(i as int);
                }
                return Some(i);
            }
            i = i + 1;
        }
        None
    }

    /// Whether vertex `i` holds a node.
    pub fn is_live_at(&self, i: usize) -> (r: bool)
        requires
            self.wf(),
            i < self.n(),
        ensures
            r == self.is_live(i as int),
    {
        self.nodes[i].is_some()
    }

    /// The id of vertex `i`.
    pub fn id_at(&self, i: usize) -> (r: &PipelineId)
        requires
            self.wf(),
            i < self.n(),
        ensures
            r@ == self.vid(i as int),
    {
        &self.ids[i]
    }

    /// The number of vertices.
    pub fn vertex_count(&self) -> (r: usize)
        requires
            self.wf(),
        ensures
            r == self.n(),
    {
        self.ids.len()
    }

    /// Adds `node`, unless a node with its id is already in the graph.
    pub fn add_node(&mut self, node: PipelineNode) -> (r: Result<(), GraphError>)
        requires
            old(self).wf(),
        ensures
            match r {
                Ok(()) => !old(self).has_live(node.id_spec()@) && final(self).added(
                    old(self),
                    node.id_spec()@,
                    node.is_source_spec(),
                ) && final(self).node_at(final(self).index_of(node.id_spec()@)) == node,
                Err(GraphError::DuplicateId(id)) => old(self).has_live(node.id_spec()@) && id@
                    == node.id_spec()@ && final(self).same_graph(old(self)) && final(self).wf(),
                Err(_) => false,
            },
    {
        let ghost v = node.id_spec()@;
        let is_src = node.is_source();
        match self.find(&node.id) {
            Some(i) => {
                if self.nodes[i].is_some() {
                    let id = node.id.clone();
                    return Err(GraphError::DuplicateId(id));
                }
                proof {
                    lemma_count_live_update(self.nodes@, i as int, Some(node));
                    lemma_count_live_bound(self.nodes@.update(i as int, Some(node)));
                }
                self.nodes.set(i, Some(node));
                let nlen = self.nodes.len();
                assert(self.live + 1 == count_live(self.nodes@));
                assert(count_live(self.nodes@) <= nlen);
                self.edges.set(i, Vec::new());
                self.reverse_edges.set(i, Vec::new());
                if is_src {
                    self.sources.set(i, true);
                }
                self.live = self.live + 1;
                proof {
                    self.lemma_index_of(i as int);
                }
                Ok(())
            },
            None => {
                proof {
                    lemma_count_live_push(self.nodes@, Some(node));
                }
                let id = node.id.clone();
                self.ids.push(id);
                self.nodes.push(Some(node));
                let nlen = self.nodes.len();
                proof {
                    lemma_count_live_bound(self.nodes@);
                }
                assert(self.live + 1 == count_live(self.nodes@));
                self.edges.push(Vec::new());
                self.reverse_edges.push(Vec::new());
                self.sources.push(is_src);
                self.live = self.live + 1;
                proof {
                    let i = self.n() - 1;
                    assert(self.vid(i) == v);
                    assert forall|a: int, b: int| 0 <= a < b < self.n() implies self.ids@[a]@
                        != self.ids@[b]@ by {
                        if b == i {
                            assert(old(self).vid(a) != v);
                        } else {
                            assert(old(self).ids@[a]@ != old(self).ids@[b]@);
                        }
                    }
                    self.lemma_index_of(i);
                }
                Ok(())
            },
        }
    }

    /// Adds a pipeline under the id it reports; fails with `DuplicateId` when
    /// a node with that id is already in the graph.
    pub fn add_pipeline(&mut self, pipeline: Box<dyn Pipeline>) -> (r: Result<(), GraphError>)
        requires
            old(self).wf(),
        ensures
            final(self).wf(),
            match r {
                Ok(()) => exists|v: Seq<char>|
                    !old(self).has_live(v) && #[trigger] final(self).added_fresh(old(self), v, false),
                Err(GraphError::DuplicateId(id)) => old(self).has_live(id@) && final(self).same_graph(old(self)),
                Err(_) => false,
            },
    {
        let node = PipelineNode::new(pipeline);
        let ghost v = node.id_spec()@;
        let r = self.add_node(node);
        proof {
            if r is Ok {
                assert(self.added_fresh(old(self), v, false));
            }
        }
        r
    }

    /// Adds a source under the id it reports, marking its vertex as a
    /// source; fails with `DuplicateId` when a node with that id is already
    /// in the graph (the graph is then unchanged).
    pub fn add_source(&mut self, source: Box<dyn Source>) -> (r: Result<(), GraphError>)
        requires
            old(self).wf(),
        ensures
            final(self).wf(),
            match r {
                Ok(()) => exists|v: Seq<char>|
                    !old(self).has_live(v) && #[trigger] final(self).added_fresh(old(self), v, true),
                Err(GraphError::DuplicateId(id)) => old(self).has_live(id@) && final(self).same_graph(old(self)),
                Err(_) => false,
            },
    {
        let node = PipelineNode::from_source(source);
        let ghost v = node.id_spec()@;
        let r = self.add_node(node);
        proof {
            if r is Ok {
                assert(self.added_fresh(old(self), v, true));
            }
        }
        r
    }

    /// Adds an edge from `source` to `sink`; fails with `PipelineNotFound`
    /// (naming `source` first) when either has no node in the graph.
    pub fn connect(&mut self, source: &PipelineId, sink: &PipelineId) -> (r: Result<
        (),
        GraphError,
    >)
        requires
            old(self).wf(),
        ensures
            final(self).wf(),
            !old(self).has_live(source@) ==> (r matches Err(GraphError::PipelineNotFound(id))
                && id@ == source@),
            old(self).has_live(source@) && !old(self).has_live(sink@) ==> (r matches Err(
                GraphError::PipelineNotFound(id),
            ) && id@ == sink@),
            r is Err ==> final(self).same_graph(old(self)),
            r is Ok <==> old(self).has_live(source@) && old(self).has_live(sink@),
            r is Ok ==> final(self).vertices() == connect_ids(old(self).vertices(), source@, sink@),
            r is Err ==> final(self).vertices() == old(self).vertices(),
            r is Ok ==> {
                let s = old(self).index_of(source@);
                let t = old(self).index_of(sink@);
                &&& final(self).n() == old(self).n()
                &&& final(self).live_count() == old(self).live_count()
                &&& forall|j: int|
                    0 <= j < old(self).n() ==> {
                        &&& final(self).vid(j) == old(self).vid(j)
                        &&& final(self).is_live(j) == old(self).is_live(j)
                        &&& (final(self).is_live(j) ==> final(self).node_at(j) == old(self).node_at(j))
                        &&& final(self).src(j) == old(self).src(j)
                        &&& #[trigger] final(self).succ(j) == if j == s {
                            old(self).succ(j).push(t as usize)
                        } else {
                            old(self).succ(j)
                        }
                        &&& final(self).pred(j) == if j == t {
                            old(self).pred(j).push(s as usize)
                        } else {
                            old(self).pred(j)
                        }
                    }
            },
    {
        let s = match self.find(source) {
            Some(i) => i,
            None => {
                return Err(GraphError::PipelineNotFound(source.clone()));
            },
        };
        if self.nodes[s].is_none() {
            return Err(GraphError::PipelineNotFound(source.clone()));
        }
        let t = match self.find(sink) {
            Some(i) => i,
            None => {
                return Err(GraphError::PipelineNotFound(sink.clone()));
            },
        };
        if self.nodes[t].is_none() {
            return Err(GraphError::PipelineNotFound(sink.clone()));
        }
        let mut out = Vec::new();
        self.edges.set_and_swap(s, &mut out);
        out.push(t);
        self.edges.set_and_swap(s, &mut out);
        let mut inc = Vec::new();
        self.reverse_edges.set_and_swap(t, &mut inc);
        inc.push(s);
        self.reverse_edges.set_and_swap(t, &mut inc);
        proof {
            self.lemma_vertices_connected(old(self), source@, sink@);
        }
        Ok(())
    }

    /// The ids of a list of vertices.
    pub open spec fn ids_of(&self, s: Seq<usize>) -> Seq<Seq<char>> {
        s.map_values(|k: usize| self.vid(k as int))
    }

    fn ids_at(&self, s: &Vec<usize>) -> (r: Vec<PipelineId>)
        requires
            self.wf(),
            forall|k: int| 0 <= k < s@.len() ==> s@[k] < self.n(),
        ensures
            id_views(r@) == self.ids_of(s@),
    {
        let mut out: Vec<PipelineId> = Vec::new();
        let mut k: usize = 0;
        while k < s.len()
            invariant
                self.wf(),
                forall|j: int| 0 <= j < s@.len() ==> s@[j] < self.n(),
                k <= s@.len(),
                id_views(out@) == self.ids_of(s@.subrange(0, k as int)),
            decreases s@.len() - k,
        {
            let id = self.ids[s[k]].clone();
            let ghost prev = out@;
            out.push(id);
            proof {
                assert(out@ == prev.push(id));
                assert(id_views(out@) =~= id_views(prev).push(id@));
                assert(s@.subrange(0, k as int + 1) =~= s@.subrange(0, k as int).push(s@[k as int]));
                assert(id_views(out@) =~= self.ids_of(
                    s@.subrange(0, k as int + 1),
                ));
            }
            k = k + 1;
        }
        assert(s@.subrange(0, s@.len() as int) =~= s@);
        out
    }

    /// The node with id `id`, if it is in the graph.
    pub fn get_node(&self, id: &PipelineId) -> (r: Option<&PipelineNode>)
        requires
            self.wf(),
        ensures
            r is Some == self.has_live(id@),
            r is Some ==> *r->0 == self.node_at(self.index_of(id@)),
    {
        match self.find(id) {
            Some(i) => self.nodes[i].as_ref(),
            None => None,
        }
    }

    /// The node with id `id`, if it is in the graph (the node exposes the
    /// pipeline's lifecycle).
    pub fn get_pipeline(&self, id: &PipelineId) -> (r: Option<&PipelineNode>)
        requires
            self.wf(),
        ensures
            r is Some == self.has_live(id@),
            r is Some ==> *r->0 == self.node_at(self.index_of(id@)),
    {
        self.get_node(id)
    }

    /// The node of live vertex `i`.
    pub fn node(&self, i: usize) -> (r: &PipelineNode)
        requires
            self.wf(),
            i < self.n(),
            self.is_live(i as int),
        ensures
            *r == self.node_at(i as int),
    {
        self.nodes[i].as_ref().unwrap()
    }

    /// The metadata of the node of vertex `i`.
    pub open spec fn meta(&self, i: int) -> MetadataView {
        self.node_at(i).metadata_spec()
    }

    /// The abstract content of vertex `i`.
    pub open spec fn vertex(&self, i: int) -> VertexView {
        VertexView {
            id: self.vid(i),
            live: self.is_live(i),
            source_node: self.is_live(i) && self.node_at(i).is_source_spec(),
            meta: if self.is_live(i) {
                self.meta(i)
            } else {
                initial_metadata()
            },
            succ: self.succ(i),
            pred: self.pred(i),
            src: self.src(i),
        }
    }

    /// The abstract content of every vertex, in vertex order.
    pub open spec fn vertices(&self) -> Seq<VertexView> {
        Seq::new(self.n(), |i: int| self.vertex(i))
    }

    /// `self` is `old` with the node of live vertex `i` replaced by `node`.
    pub open spec fn replaced(&self, old: &PipelineGraph, i: int, node: PipelineNode) -> bool {
        &&& self.same_except(old, i)
        &&& self.vid(i) == old.vid(i)
        &&& self.is_live(i)
        &&& self.node_at(i) == node
        &&& self.succ(i) == old.succ(i)
        &&& self.pred(i) == old.pred(i)
        &&& self.src(i) == old.src(i)
        &&& self.live_count() == old.live_count()
        &&& (node.id_spec()@ == old.vid(i) ==> self.wf())
    }

    /// The vertex of an id is found at the same position in the vertices.
    pub proof fn lemma_vertex_index(&self, v: Seq<char>)
        requires
            self.wf(),
        ensures
            vertex_index(self.vertices(), v) == self.index_of(v),
            self.index_of(v) >= 0 ==> self.vertices()[self.index_of(v)] == self.vertex(
                self.index_of(v),
            ),
    {
        let vs = self.vertices();
        let ids = vertex_ids(vs);
        if exists|i: int| 0 <= i < self.n() && self.vid(i) == v {
            let i = choose|i: int| 0 <= i < self.n() && self.vid(i) == v;
            assert(ids[i] == v);
            let k = vertex_index(vs, v);
            assert(0 <= k < ids.len() && ids[k] == v);
            assert(self.vid(k) == v);
        } else {
            assert forall|i: int| 0 <= i < ids.len() implies ids[i] != v by {
                assert(ids[i] == self.vid(i));
            }
        }
    }

    /// `get_successors` gives the successor ids of the vertices.
    pub proof fn lemma_successor_ids(&self, v: Seq<char>)
        requires
            self.wf(),
        ensures
            self.index_of(v) >= 0 ==> self.ids_of(self.succ(self.index_of(v))) == successor_ids(
                self.vertices(),
                v,
            ),
            self.index_of(v) < 0 ==> successor_ids(self.vertices(), v).len() == 0,
    {
        self.lemma_vertex_index(v);
        let i = self.index_of(v);
        if i >= 0 {
            let vs = self.vertices();
            assert(self.ids_of(self.succ(i)) =~= successor_ids(vs, v));
        }
    }

    /// The graph has no node exactly when no vertex is live.
    pub proof fn lemma_empty(&self)
        requires
            self.wf(),
        ensures
            (self.live_count() == 0) == no_live(self.vertices()),
    {
        lemma_count_live_zero(self.nodes@);
        if self.live_count() == 0 {
            assert forall|i: int| 0 <= i < self.vertices().len() implies !(
            #[trigger] self.vertices()[i]).live by {
                assert(self.nodes@[i] is None);
            }
        } else {
            let j = choose|j: int| 0 <= j < self.nodes@.len() && !(#[trigger] self.nodes@[j] is None);
            assert(self.vertices()[j].live);
        }
    }

    /// A graph that is `old` with the node of live vertex `i` removed has
    /// the vertices of `old` with that vertex's node removed.
    pub proof fn lemma_vertices_removed(&self, old: &PipelineGraph, i: int)
        requires
            0 <= i < old.n(),
            self.same_except(old, i),
            self.vid(i) == old.vid(i),
            !self.is_live(i),
            self.succ(i) == old.succ(i),
            self.pred(i) == old.pred(i),
            self.src(i) == old.src(i),
        ensures
            self.vertices() == old.vertices().update(i, old.vertex(i).without_node()),
    {
        assert forall|j: int| 0 <= j < old.n() implies #[trigger] self.vertices()[j] == old.vertices().update(
            i,
            old.vertex(i).without_node(),
        )[j] by {
            if j != i {
                assert(self.same_vertex(old, j));
            }
        }
        assert(self.vertices() =~= old.vertices().update(i, old.vertex(i).without_node()));
    }

    /// The ids of the nodes are those of the live vertices.
    pub proof fn lemma_live_ids(&self)
        ensures
            self.live_ids() == live_vertex_ids(self.vertices()),
    {
        self.lemma_live_ids_upto(self.n() as int);
        assert(self.vertices().take(self.n() as int) =~= self.vertices());
    }

    proof fn lemma_live_ids_upto(&self, k: int)
        requires
            0 <= k <= self.n(),
        ensures
            select_ids(self.vids(), k, |i: int| self.is_live(i)) == live_vertex_ids(
                self.vertices().take(k),
            ),
        decreases k,
    {
        if k > 0 {
            self.lemma_live_ids_upto(k - 1);
            assert(self.vertices().take(k).drop_last() =~= self.vertices().take(k - 1));
        } else {
            assert(self.vertices().take(0) =~= Seq::<VertexView>::empty());
        }
    }

    /// The number of vertices fits in a `usize`.
    pub proof fn lemma_size(&self)
        ensures
            self.vertices().len() == self.n(),
            self.n() <= usize::MAX,
    {
        assert(self.ids@.len() == self.ids.len());
    }

    /// Two graphs that are the same have the same vertices.
    pub proof fn lemma_same_graph_vertices(&self, other: &PipelineGraph)
        requires
            self.same_graph(other),
        ensures
            self.vertices() == other.vertices(),
    {
        assert forall|j: int| 0 <= j < self.n() implies #[trigger] self.vertices()[j]
            == other.vertices()[j] by {
            assert(self.same_vertex(other, j));
        }
        assert(self.vertices() =~= other.vertices());
    }

    /// Adding `node` (whose id has no node in `old`) adds its vertex view.
    pub proof fn lemma_vertices_added(&self, old: &PipelineGraph, node: PipelineNode, w: VertexView)
        requires
            old.wf(),
            !old.has_live(node.id_spec()@),
            self.added(old, node.id_spec()@, node.is_source_spec()),
            self.node_at(self.index_of(node.id_spec()@)) == node,
            w.id == node.id_spec()@,
            w.source_node == node.is_source_spec(),
            w.meta == node.metadata_spec(),
        ensures
            self.vertices() == add_vertex(old.vertices(), w),
    {
        let v = w.id;
        old.lemma_vertex_index(v);
        let vs = old.vertices();
        let i = old.index_of(v);
        let j = if i >= 0 { i } else { old.n() as int };
        let r = add_vertex(vs, w);
        assert(live_index(vs, v) is None);
        assert(self.succ(j) =~= Seq::<usize>::empty());
        assert(self.pred(j) =~= Seq::<usize>::empty());
        assert forall|k: int| 0 <= k < self.n() implies #[trigger] self.vertices()[k] == r[k] by {
            if k != j {
                assert(self.same_vertex(old, k));
            }
        }
        assert(self.vertices() =~= r);
    }

    /// Connecting the nodes `a` and `b` (both in `old`) adds the edge to
    /// the vertex views.
    pub proof fn lemma_vertices_connected(&self, old: &PipelineGraph, a: Seq<char>, b: Seq<char>)
        requires
            old.wf(),
            old.has_live(a),
            old.has_live(b),
            self.n() == old.n(),
            forall|j: int|
                0 <= j < old.n() ==> {
                    &&& self.vid(j) == old.vid(j)
                    &&& self.is_live(j) == old.is_live(j)
                    &&& (self.is_live(j) ==> self.node_at(j) == old.node_at(j))
                    &&& self.src(j) == old.src(j)
                    &&& #[trigger] self.succ(j) == if j == old.index_of(a) {
                        old.succ(j).push(old.index_of(b) as usize)
                    } else {
                        old.succ(j)
                    }
                    &&& self.pred(j) == if j == old.index_of(b) {
                        old.pred(j).push(old.index_of(a) as usize)
                    } else {
                        old.pred(j)
                    }
                },
        ensures
            self.vertices() == connect_ids(old.vertices(), a, b),
    {
        old.lemma_vertex_index(a);
        old.lemma_vertex_index(b);
        let r = connect_ids(old.vertices(), a, b);
        assert forall|k: int| 0 <= k < self.n() implies #[trigger] self.vertices()[k] == r[k] by {
            assert(self.succ(k) == if k == old.index_of(a) {
                old.succ(k).push(old.index_of(b) as usize)
            } else {
                old.succ(k)
            });
        }
        assert(self.vertices() =~= r);
    }

    /// Merges `other` into this graph, as `merged` describes: the nodes of
    /// `other` are added in vertex order (a node whose id already has a
    /// node here is dropped), then the edges between the nodes of `other`
    /// are made by id, vertex by vertex in connection order.
    pub fn merge(&mut self, other: PipelineGraph)
        requires
            old(self).wf(),
            other.wf(),
        ensures
            final(self).wf(),
            final(self).vertices() == merged(old(self).vertices(), other.vertices()),
    {
        let ghost vs0 = self.vertices();
        let ghost ws = other.vertices();
        let mut other = other;
        assert forall|j: int| 0 <= j < other.n() implies #[trigger] other.vertex(j) == ws[j] by {}
        let n = other.vertex_count();
        let mut live: Vec<bool> = Vec::new();
        let mut k: usize = 0;
        while k < n
            invariant
                other.wf(),
                n == other.n(),
                ws == other.vertices(),
                k <= n,
                live@.len() == k,
                forall|j: int| 0 <= j < k ==> live@[j] == ws[j].live,
            decreases n - k,
        {
            live.push(other.is_live_at(k));
            k = k + 1;
        }
        k = 0;
        proof {
            assert(ws.take(0) =~= Seq::<VertexView>::empty());
        }
        while k < n
            invariant
                self.wf(),
                other.wf(),
                n == other.n(),
                n == ws.len(),
                k <= n,
                live@.len() == n,
                forall|j: int| 0 <= j < n ==> live@[j] == ws[j].live,
                forall|j: int| 0 <= j < n ==> #[trigger] other.vid(j) == ws[j].id,
                forall|j: int| 0 <= j < n ==> #[trigger] other.succ(j) == ws[j].succ,
                forall|j: int| k <= j < n ==> #[trigger] other.vertex(j) == ws[j],
                self.vertices() == add_vertices(vs0, ws.take(k as int)),
            decreases n - k,
        {
            let ghost before = self.vertices();
            proof {
                assert(ws.take(k as int + 1).drop_last() =~= ws.take(k as int));
                assert(ws.take(k as int + 1).last() == ws[k as int]);
            }
            if live[k] {
                proof {
                    assert(other.vertex(k as int) == ws[k as int]);
                    other.lemma_node_id(k as int);
                }
                let ghost o0 = other;
                let node = other.take_node(k);
                proof {
                    assert(o0.vertex(k as int) == ws[k as int]);
                    assert forall|j: int| 0 <= j < n implies #[trigger] other.vid(j) == ws[j].id by {
                        if j != k {
                            assert(other.same_vertex(&o0, j));
                        }
                    }
                    assert forall|j: int| 0 <= j < n implies #[trigger] other.succ(j) == ws[j].succ by {
                        if j != k {
                            assert(other.same_vertex(&o0, j));
                        }
                    }
                    assert forall|j: int| k + 1 <= j < n implies #[trigger] other.vertex(j) == ws[j] by {
                        assert(other.same_vertex(&o0, j));
                        assert(o0.vertex(j) == ws[j]);
                    }
                }
                let ghost g0 = *self;
                let r = self.add_node(node);
                proof {
                    match r {
                        Ok(()) => {
                            self.lemma_vertices_added(&g0, node, ws[k as int]);
                        },
                        Err(_) => {
                            self.lemma_same_graph_vertices(&g0);
                            g0.lemma_vertex_index(ws[k as int].id);
                            assert(live_index(before, ws[k as int].id) is Some);
                        },
                    }
                }
            }
            k = k + 1;
        }
        proof {
            assert(ws.take(n as int) =~= ws);
        }
        let ghost added = self.vertices();
        let mut u: usize = 0;
        while u < n
            invariant
                self.wf(),
                other.wf(),
                n == other.n(),
                n == ws.len(),
                u <= n,
                live@.len() == n,
                forall|j: int| 0 <= j < n ==> live@[j] == ws[j].live,
                forall|j: int| 0 <= j < n ==> #[trigger] other.vid(j) == ws[j].id,
                forall|j: int| 0 <= j < n ==> #[trigger] other.succ(j) == ws[j].succ,
                self.vertices() == connect_all(added, node_edges(ws, u as int)),
            decreases n - u,
        {
            proof {
                assert(node_edges(ws, u as int + 1) == node_edges(ws, u as int) + edges_from(
                    ws,
                    u as int,
                ));
            }
            if live[u] {
                let succs = other.successors_at(u);
                let mut t: usize = 0;
                proof {
                    assert(node_edges(ws, u as int) + edges_upto(ws, u as int, 0) =~= node_edges(
                        ws,
                        u as int,
                    ));
                }
                while t < succs.len()
                    invariant
                        self.wf(),
                        other.wf(),
                        n == other.n(),
                        n == ws.len(),
                        u < n,
                        ws[u as int].live,
                        t <= succs@.len(),
                        succs@ == ws[u as int].succ,
                        live@.len() == n,
                        forall|j: int| 0 <= j < n ==> live@[j] == ws[j].live,
                        forall|j: int| 0 <= j < n ==> #[trigger] other.vid(j) == ws[j].id,
                        forall|j: int| 0 <= j < succs@.len() ==> succs@[j] < n,
                        self.vertices() == connect_all(
                            added,
                            node_edges(ws, u as int) + edges_upto(ws, u as int, t as int),
                        ),
                    decreases succs@.len() - t,
                {
                    let target = succs[t];
                    let ghost pre = node_edges(ws, u as int) + edges_upto(ws, u as int, t as int);
                    if live[target] {
                        let ghost g0 = *self;
                        let a = other.id_at(u);
                        let b = other.id_at(target);
                        let r = self.connect(a, b);
                        proof {
                            let e = (ws[u as int].id, ws[target as int].id);
                            assert(pre + seq![e] =~= pre.push(e));
                            assert((pre.push(e)).drop_last() =~= pre);
                            assert(node_edges(ws, u as int) + edges_upto(ws, u as int, t as int + 1)
                                =~= pre.push(e));
                            if r is Ok {
                            } else {
                                g0.lemma_vertex_index(a@);
                                g0.lemma_vertex_index(b@);
                            }
                        }
                    } else {
                        proof {
                            assert(node_edges(ws, u as int) + edges_upto(ws, u as int, t as int + 1)
                                =~= pre);
                        }
                    }
                    t = t + 1;
                }
            } else {
                proof {
                    assert(node_edges(ws, u as int) + edges_from(ws, u as int) =~= node_edges(
                        ws,
                        u as int,
                    ));
                }
            }
            u = u + 1;
        }
    }

    /// The node of a live vertex is stored under the vertex's id.
    pub proof fn lemma_node_id(&self, i: int)
        requires
            self.wf(),
            0 <= i < self.n(),
            self.is_live(i),
        ensures
            self.node_at(i).id_spec()@ == self.vid(i),
    {
    }

    /// A graph that differs from `old` only in the metadata of the node of
    /// live vertex `i` has the vertices of `old` with that metadata updated.
    pub proof fn lemma_vertices_meta(&self, old: &PipelineGraph, i: int)
        requires
            0 <= i < old.n(),
            old.is_live(i),
            self.same_except(old, i),
            self.vid(i) == old.vid(i),
            self.is_live(i),
            self.succ(i) == old.succ(i),
            self.pred(i) == old.pred(i),
            self.src(i) == old.src(i),
            self.node_at(i).is_source_spec() == old.node_at(i).is_source_spec(),
        ensures
            self.vertices() == old.vertices().update(i, old.vertex(i).with_meta(self.meta(i))),
    {
        assert forall|j: int| 0 <= j < old.n() implies #[trigger] self.vertices()[j] == old.vertices().update(
            i,
            old.vertex(i).with_meta(self.meta(i)),
        )[j] by {
            if j != i {
                assert(self.same_vertex(old, j));
            }
        }
        assert(self.vertices() =~= old.vertices().update(i, old.vertex(i).with_meta(self.meta(i))));
    }

    /// Mutable access to the node of live vertex `i`; the graph stays well
    /// formed as long as the node keeps its id.
    pub fn node_mut(&mut self, i: usize) -> (r: &mut PipelineNode)
        requires
            old(self).wf(),
            i < old(self).n(),
            old(self).is_live(i as int),
        ensures
            *r == old(self).node_at(i as int),
            final(self).replaced(old(self), i as int, *final(r)),
    {
        proof {
            lemma_count_live_update(self.nodes@, i as int, Some(self.nodes@[i as int]->0));
        }
        let node = match self.nodes[i].as_mut() {
            Some(node) => node,
            None => vstd::pervasive::unreached(),
        };
        proof {
            lemma_count_live_update(old(self).nodes@, i as int, Some(*final(node)));
            assert(old(self).nodes@.update(i as int, Some(*final(node))) == after_borrow(self).nodes@);
        }
        node
    }

    /// Takes the node out of vertex `i`, which stays as a vertex without a
    /// node (with its edges).
    pub fn take_node(&mut self, i: usize) -> (r: PipelineNode)
        requires
            old(self).wf(),
            i < old(self).n(),
            old(self).is_live(i as int),
        ensures
            r == old(self).node_at(i as int),
            final(self).wf(),
            final(self).same_except(old(self), i as int),
            final(self).vid(i as int) == old(self).vid(i as int),
            !final(self).is_live(i as int),
            final(self).succ(i as int) == old(self).succ(i as int),
            final(self).pred(i as int) == old(self).pred(i as int),
            final(self).src(i as int) == old(self).src(i as int),
            final(self).live_count() + 1 == old(self).live_count(),
    {
        proof {
            lemma_count_live_update(self.nodes@, i as int, None);
        }
        let mut slot: Option<PipelineNode> = None;
        self.nodes.set_and_swap(i, &mut slot);
        self.live = self.live - 1;
        slot.unwrap()
    }

    /// Puts a node with the vertex's id back into vertex `i`.
    pub fn put_node(&mut self, i: usize, node: PipelineNode)
        requires
            old(self).wf(),
            i < old(self).n(),
            !old(self).is_live(i as int),
            node.id_spec()@ == old(self).vid(i as int),
        ensures
            final(self).wf(),
            final(self).same_except(old(self), i as int),
            final(self).vid(i as int) == old(self).vid(i as int),
            final(self).is_live(i as int),
            final(self).node_at(i as int) == node,
            final(self).succ(i as int) == old(self).succ(i as int),
            final(self).pred(i as int) == old(self).pred(i as int),
            final(self).src(i as int) == old(self).src(i as int),
            final(self).live_count() == old(self).live_count() + 1,
    {
        proof {
            lemma_count_live_update(self.nodes@, i as int, Some(node));
            lemma_count_live_bound(self.nodes@.update(i as int, Some(node)));
        }
        self.nodes.set(i, Some(node));
        let nlen = self.nodes.len();
        assert(count_live(self.nodes@) <= nlen);
        self.live = self.live + 1;
    }

    /// Removes the node with id `id` and returns it; its vertex and edges
    /// stay. `None` (graph unchanged) when no such node is in the graph.
    pub fn remove_node(&mut self, id: &PipelineId) -> (r: Option<PipelineNode>)
        requires
            old(self).wf(),
        ensures
            final(self).wf(),
            r is Some == old(self).has_live(id@),
            r is None ==> final(self).same_graph(old(self)),
            r is Some ==> {
                let i = old(self).index_of(id@);
                &&& r->0 == old(self).node_at(i)
                &&& final(self).same_except(old(self), i)
                &&& final(self).vid(i) == old(self).vid(i)
                &&& !final(self).is_live(i)
                &&& final(self).succ(i) == old(self).succ(i)
                &&& final(self).pred(i) == old(self).pred(i)
                &&& final(self).src(i) == old(self).src(i)
                &&& final(self).live_count() + 1 == old(self).live_count()
            },
    {
        match self.find(id) {
            Some(i) => {
                if self.nodes[i].is_some() {
                    Some(self.take_node(i))
                } else {
                    None
                }
            },
            None => None,
        }
    }

    /// The successors of `id` (also of a removed node), in connection order;
    /// empty for an unknown id.
    pub fn get_successors(&self, id: &PipelineId) -> (r: Vec<PipelineId>)
        requires
            self.wf(),
        ensures
            self.index_of(id@) >= 0 ==> id_views(r@) == self.ids_of(
                self.succ(self.index_of(id@)),
            ),
            self.index_of(id@) < 0 ==> r@.len() == 0,
    {
        match self.find(id) {
            Some(i) => self.ids_at(&self.edges[i]),
            None => Vec::new(),
        }
    }

    /// The successor vertices of vertex `i`, in connection order.
    pub fn successors_at(&self, i: usize) -> (r: Vec<usize>)
        requires
            self.wf(),
            i < self.n(),
        ensures
            r@ == self.succ(i as int),
            forall|k: int| 0 <= k < r@.len() ==> r@[k] < self.n(),
    {
        let r = self.edges[i].clone();
        assert(r@ =~= self.succ(i as int));
        r
    }

    /// The predecessors of `id` (also of a removed node), in connection
    /// order; empty for an unknown id.
    pub fn get_predecessors(&self, id: &PipelineId) -> (r: Vec<PipelineId>)
        requires
            self.wf(),
        ensures
            self.index_of(id@) >= 0 ==> id_views(r@) == self.ids_of(
                self.pred(self.index_of(id@)),
            ),
            self.index_of(id@) < 0 ==> r@.len() == 0,
    {
        match self.find(id) {
            Some(i) => self.ids_at(&self.reverse_edges[i]),
            None => Vec::new(),
        }
    }

    /// The number of predecessors of `id` (0 for an unknown id).
    pub fn count_predecessors(&self, id: &PipelineId) -> (r: usize)
        requires
            self.wf(),
        ensures
            r == if self.index_of(id@) >= 0 {
                self.pred(self.index_of(id@)).len()
            } else {
                0
            },
    {
        match self.find(id) {
            Some(i) => self.reverse_edges[i].len(),
            None => 0,
        }
    }

    /// The number of predecessors of vertex `i`.
    pub fn count_predecessors_at(&self, i: usize) -> (r: usize)
        requires
            self.wf(),
            i < self.n(),
        ensures
            r == self.pred(i as int).len(),
    {
        self.reverse_edges[i].len()
    }

    /// The number of nodes in the graph.
    pub fn len(&self) -> (r: usize)
        requires
            self.wf(),
        ensures
            r == self.live_count(),
    {
        self.live
    }

    /// Whether the graph holds no node.
    pub fn is_empty(&self) -> (r: bool)
        requires
            self.wf(),
        ensures
            r == (self.live_count() == 0),
    {
        self.live == 0
    }

    /// Whether `id` was added as a source (the mark outlives the node).
    pub fn is_source(&self, id: &PipelineId) -> (r: bool)
        requires
            self.wf(),
        ensures
            r == (self.index_of(id@) >= 0 && self.src(self.index_of(id@))),
    {
        match self.find(id) {
            Some(i) => self.sources[i],
            None => false,
        }
    }

    /// Whether vertex `i` was added as a source.
    pub fn is_source_at(&self, i: usize) -> (r: bool)
        requires
            self.wf(),
            i < self.n(),
        ensures
            r == self.src(i as int),
    {
        self.sources[i]
    }

    /// The source wrapper of the node `id`, when that node is a source.
    pub fn get_source_pipeline(&self, id: &PipelineId) -> (r: Option<&SourcePipeline>)
        requires
            self.wf(),
        ensures
            r is Some == (self.has_live(id@) && self.node_at(self.index_of(id@)).is_source_spec()),
    {
        match self.get_node(id) {
            Some(node) => node.source_pipeline(),
            None => None,
        }
    }

    /// The vertices kept by `select(which)`: live ones (0), live ones
    /// without predecessors (1), live ones without successors (2).
    pub open spec fn keep_pred(&self, which: u8) -> spec_fn(int) -> bool {
        |i: int|
            self.is_live(i) && (which == 0 || (which == 1 && self.pred(i).len() == 0) || (which
                == 2 && self.succ(i).len() == 0))
    }

    fn select(&self, which: u8) -> (r: Vec<PipelineId>)
        requires
            self.wf(),
            which < 3,
        ensures
            id_views(r@) == select_ids(self.vids(), self.n() as int, self.keep_pred(which)),
    {
        let mut out: Vec<PipelineId> = Vec::new();
        let mut i: usize = 0;
        while i < self.ids.len()
            invariant
                self.wf(),
                i <= self.n(),
                id_views(out@) == select_ids(self.vids(), i as int, self.keep_pred(which)),
            decreases self.n() - i,
        {
            let take = self.nodes[i].is_some() && (which == 0 || (which == 1
                && self.reverse_edges[i].len() == 0) || (which == 2 && self.edges[i].len() == 0));
            assert(take == self.keep_pred(which)(i as int));
            let ghost prev = out@;
            if take {
                let id = self.ids[i].clone();
                out.push(id);
                assert(id_views(out@) =~= id_views(prev).push(id@));
            }
            proof {
                assert(self.vids()[i as int] == self.vid(i as int));
                assert(id_views(out@) =~= select_ids(
                    self.vids(),
                    i as int + 1,
                    self.keep_pred(which),
                ));
            }
            i = i + 1;
        }
        out
    }

    /// The ids of all nodes in the graph, in vertex order.
    pub fn get_all_pipeline_ids(&self) -> (r: Vec<PipelineId>)
        requires
            self.wf(),
        ensures
            id_views(r@) == self.live_ids(),
    {
        let r = self.select(0);
        assert(id_views(r@) =~= self.live_ids()) by {
            lemma_select_ext(self.vids(), self.n() as int, self.keep_pred(0u8), |i: int| self.is_live(i));
        }
        r
    }

    /// The nodes without predecessors, in vertex order.
    pub fn get_sources(&self) -> (r: Vec<PipelineId>)
        requires
            self.wf(),
        ensures
            id_views(r@) == self.source_ids(),
    {
        let r = self.select(1);
        assert(id_views(r@) =~= self.source_ids()) by {
            lemma_select_ext(self.vids(), self.n() as int, self.keep_pred(1u8), |i: int| self.is_live(i) && self.pred(i).len() == 0);
        }
        r
    }

    /// The nodes without successors, in vertex order.
    pub fn get_sinks(&self) -> (r: Vec<PipelineId>)
        requires
            self.wf(),
        ensures
            id_views(r@) == self.sink_ids(),
    {
        let r = self.select(2);
        assert(id_views(r@) =~= self.sink_ids()) by {
            lemma_select_ext(self.vids(), self.n() as int, self.keep_pred(2u8), |i: int| self.is_live(i) && self.succ(i).len() == 0);
        }
        r
    }

    /// Step `k` of `p` follows an edge.
    pub open spec fn step(&self, p: Seq<int>, k: int) -> bool {
        self.edge(p[k], p[k + 1])
    }

    /// `p` is a walk: a non-empty list of vertices, each consecutive pair
    /// joined by an edge.
    pub open spec fn is_walk(&self, p: Seq<int>) -> bool {
        &&& p.len() >= 1
        &&& forall|k: int| 0 <= k < p.len() ==> 0 <= #[trigger] p[k] < self.n()
        &&& forall|k: int| 0 <= k < p.len() - 1 ==> #[trigger] self.step(p, k)
    }

    /// Vertex `x` lies on a cycle: a walk of at least one edge from `x` back
    /// to `x`.
    pub open spec fn on_cycle(&self, x: int) -> bool {
        exists|p: Seq<int>| #[trigger] self.is_walk(p) && p.len() >= 2 && p[0] == x && p.last() == x
    }

    /// The graph has a cycle.
    pub open spec fn has_cycle(&self) -> bool {
        exists|x: int| 0 <= x < self.n() && #[trigger] self.on_cycle(x)
    }

    /// The state of the peeling of `universe`: the vertices of `order` are
    /// taken, in order (`rank` gives each its position), and each was taken
    /// only after all its predecessors.
    pub open spec fn peel_inv(
        &self,
        universe: Seq<bool>,
        taken: Seq<bool>,
        rank: Seq<usize>,
        order: Seq<usize>,
    ) -> bool {
        &&& universe.len() == self.n()
        &&& taken.len() == self.n()
        &&& rank.len() == self.n()
        &&& order.len() <= self.n()
        &&& forall|v: int| 0 <= v < self.n() && #[trigger] taken[v] ==> universe[v]
        &&& forall|v: int|
            0 <= v < self.n() && #[trigger] taken[v] ==> rank[v] < order.len() && order[rank[v]
                as int] == v
        &&& forall|k: int|
            0 <= k < order.len() ==> #[trigger] order[k] < self.n() && taken[order[k] as int]
                && rank[order[k] as int] == k
        &&& forall|u: int, v: int|
            #![trigger self.edge(u, v), taken[v]]
            self.edge(u, v) && taken[v] ==> taken[u] && rank[u] < rank[v]
    }

    proof fn lemma_walk_taken(
        &self,
        universe: Seq<bool>,
        taken: Seq<bool>,
        rank: Seq<usize>,
        order: Seq<usize>,
        p: Seq<int>,
    )
        requires
            self.peel_inv(universe, taken, rank, order),
            self.is_walk(p),
            taken[p.last()],
        ensures
            taken[p[0]],
            rank[p[0]] <= rank[p.last()],
            p.len() >= 2 ==> rank[p[0]] < rank[p.last()],
        decreases p.len(),
    {
        if p.len() >= 2 {
            let q = p.subrange(1, p.len() as int);
            assert forall|k: int| 0 <= k < q.len() - 1 implies #[trigger] self.step(q, k) by {
                assert(self.step(p, k + 1));
            }
            assert(q[0] == p[1]);
            self.lemma_walk_taken(universe, taken, rank, order, q);
            assert(self.step(p, 0));
            assert(self.edge(p[0], p[1]));
        }
    }

    /// No vertex on a cycle is ever peeled.
    proof fn lemma_cycle_untaken(
        &self,
        universe: Seq<bool>,
        taken: Seq<bool>,
        rank: Seq<usize>,
        order: Seq<usize>,
        x: int,
    )
        requires
            self.peel_inv(universe, taken, rank, order),
            0 <= x < self.n(),
            self.on_cycle(x),
        ensures
            !taken[x],
    {
        let p = choose|p: Seq<int>| #[trigger] self.is_walk(p) && p.len() >= 2 && p[0] == x && p.last() == x;
        if taken[x] {
            self.lemma_walk_taken(universe, taken, rank, order, p);
        }
    }

    /// Whether vertex list `l` contains `v`.
    fn list_contains(l: &Vec<usize>, v: usize) -> (r: bool)
        ensures
            r == l@.contains(v),
    {
        let mut k: usize = 0;
        while k < l.len()
            invariant
                k <= l@.len(),
                forall|j: int| 0 <= j < k ==> l@[j] != v,
            decreases l@.len() - k,
        {
            if l[k] == v {
                return true;
            }
            k = k + 1;
        }
        false
    }

    /// A vertex `u` not yet taken with an edge to `v`, if any.
    fn untaken_pred(&self, taken: &Vec<bool>, v: usize) -> (r: Option<usize>)
        requires
            self.wf(),
            taken@.len() == self.n(),
            v < self.n(),
        ensures
            match r {
                Some(u) => u < self.n() && !taken@[u as int] && self.edge(u as int, v as int),
                None => forall|u: int| 0 <= u < self.n() && #[trigger] self.edge(u, v as int) ==> taken@[u],
            },
    {
        let mut u: usize = 0;
        while u < self.edges.len()
            invariant
                self.wf(),
                taken@.len() == self.n(),
                v < self.n(),
                u <= self.n(),
                forall|w: int| 0 <= w < u && #[trigger] self.edge(w, v as int) ==> taken@[w],
            decreases self.n() - u,
        {
            if !taken[u] && Self::list_contains(&self.edges[u], v) {
                return Some(u);
            }
            u = u + 1;
        }
        None
    }

    /// A vertex of `universe` not yet taken all of whose predecessors are
    /// taken, if any.
    fn removable(&self, universe: &Vec<bool>, taken: &Vec<bool>) -> (r: Option<usize>)
        requires
            self.wf(),
            universe@.len() == self.n(),
            taken@.len() == self.n(),
        ensures
            match r {
                Some(v) => v < self.n() && universe@[v as int] && !taken@[v as int] && forall|u: int|
                    0 <= u < self.n() && #[trigger] self.edge(u, v as int) ==> taken@[u],
                None => forall|v: int|
                    0 <= v < self.n() && universe@[v] && !taken@[v] ==> exists|u: int|
                        0 <= u < self.n() && !taken@[u] && #[trigger] self.edge(u, v),
            },
    {
        let mut v: usize = 0;
        while v < self.ids.len()
            invariant
                self.wf(),
                universe@.len() == self.n(),
                taken@.len() == self.n(),
                v <= self.n(),
                forall|w: int|
                    0 <= w < v && universe@[w] && !taken@[w] ==> exists|u: int|
                        0 <= u < self.n() && !taken@[u] && #[trigger] self.edge(u, w),
            decreases self.n() - v,
        {
            if universe[v] && !taken[v] {
                match self.untaken_pred(taken, v) {
                    None => {
                        return Some(v);
                    },
                    Some(u) => {
                        assert(self.edge(u as int, v as int));
                    },
                }
            }
            v = v + 1;
        }
        None
    }

    /// Takes vertices of `universe` whose predecessors are all taken, one at
    /// a time (lowest vertex first), until none is left: the taken vertices in
    /// the order taken, each one's position, and the taken flags.
    fn peel(&self, universe: &Vec<bool>) -> (r: (Vec<usize>, Vec<usize>, Vec<bool>))
        requires
            self.wf(),
            universe@.len() == self.n(),
        ensures
            self.peel_inv(universe@, r.2@, r.1@, r.0@),
            forall|v: int|
                0 <= v < self.n() && universe@[v] && !r.2@[v] ==> exists|u: int|
                    0 <= u < self.n() && !r.2@[u] && #[trigger] self.edge(u, v),
    {
        let n = self.ids.len();
        let mut taken: Vec<bool> = Vec::new();
        let mut rank: Vec<usize> = Vec::new();
        let mut i: usize = 0;
        while i < n
            invariant
                n == self.n(),
                i <= n,
                taken@.len() == i,
                rank@.len() == i,
                forall|j: int| 0 <= j < i ==> !taken@[j],
            decreases n - i,
        {
            taken.push(false);
            rank.push(0);
            i = i + 1;
        }
        let mut order: Vec<usize> = Vec::new();
        loop
            invariant
                self.wf(),
                n == self.n(),
                universe@.len() == n,
                self.peel_inv(universe@, taken@, rank@, order@),
            decreases n - order@.len(),
        {
            match self.removable(universe, &taken) {
                None => {
                    return (order, rank, taken);
                },
                Some(v) => {
                    proof {
                        // `v` is not yet in `order`, so `order` has room.
                        if order@.len() == n {
                            self.lemma_order_full(universe@, taken@, rank@, order@, v as int);
                        }
                    }
                    let k = order.len();
                    let ghost t0 = taken@;
                    let ghost r0 = rank@;
                    taken.set(v, true);
                    rank.set(v, k);
                    order.push(v);
                    proof {
                        assert forall|u: int, w: int|
                            #![trigger self.edge(u, w), taken@[w]]
                            self.edge(u, w) && taken@[w] implies taken@[u] && rank@[u] < rank@[w] by {
                            if w == v {
                                assert(t0[u]);
                                assert(r0[u] < k);
                            } else {
                                assert(t0[w]);
                            }
                        }
                        assert forall|j: int| 0 <= j < order@.len() implies #[trigger] order@[j]
                            < self.n() && taken@[order@[j] as int] && rank@[order@[j] as int] == j by {
                            if j < k {
                                assert(order@[j] == old_order_at(order@, j));
                                assert(t0[order@[j] as int]);
                                assert(order@[j] != v);
                            }
                        }
                    }
                },
            }
        }
    }

    /// A full peeling order leaves no vertex untaken.
    proof fn lemma_order_full(
        &self,
        universe: Seq<bool>,
        taken: Seq<bool>,
        rank: Seq<usize>,
        order: Seq<usize>,
        v: int,
    )
        requires
            self.peel_inv(universe, taken, rank, order),
            order.len() == self.n(),
            0 <= v < self.n(),
        ensures
            taken[v],
    {
        let s = order.map_values(|x: usize| x as int);
        assert forall|a: int, b: int| 0 <= a < s.len() && 0 <= b < s.len() && a != b implies s[a]
            != s[b] by {
            assert(rank[order[a] as int] == a);
            assert(rank[order[b] as int] == b);
        }
        if !taken[v] {
            let s2 = s.push(v);
            assert forall|a: int, b: int|
                0 <= a < s2.len() && 0 <= b < s2.len() && a != b implies s2[a] != s2[b] by {
                if a < s.len() && b < s.len() {
                } else if a == s.len() {
                    assert(taken[order[b] as int]);
                } else {
                    assert(taken[order[a] as int]);
                }
            }
            lemma_distinct_bounded(s2, self.n() as int);
        }
    }

    /// A vertex of `universe` not yet taken with an edge to `v`, if any.
    fn untaken_pred_within(&self, universe: &Vec<bool>, taken: &Vec<bool>, v: usize) -> (r: Option<
        usize,
    >)
        requires
            self.wf(),
            universe@.len() == self.n(),
            taken@.len() == self.n(),
            v < self.n(),
        ensures
            match r {
                Some(u) => u < self.n() && universe@[u as int] && !taken@[u as int] && self.edge(
                    u as int,
                    v as int,
                ),
                None => forall|u: int|
                    0 <= u < self.n() && universe@[u] && #[trigger] self.edge(u, v as int)
                        ==> taken@[u],
            },
    {
        let mut u: usize = 0;
        while u < self.edges.len()
            invariant
                self.wf(),
                universe@.len() == self.n(),
                taken@.len() == self.n(),
                v < self.n(),
                u <= self.n(),
                forall|w: int|
                    0 <= w < u && universe@[w] && #[trigger] self.edge(w, v as int) ==> taken@[w],
            decreases self.n() - u,
        {
            if universe[u] && !taken[u] && Self::list_contains(&self.edges[u], v) {
                return Some(u);
            }
            u = u + 1;
        }
        None
    }

    /// Step `k` of `w` follows an edge backwards.
    pub open spec fn back_step(&self, w: Seq<int>, k: int) -> bool {
        self.edge(w[k + 1], w[k])
    }

    proof fn lemma_back_walk_cycle(&self, w: Seq<int>, j: int, u: int)
        requires
            1 <= w.len(),
            0 <= j < w.len(),
            w[j] == u,
            forall|k: int| 0 <= k < w.len() ==> 0 <= #[trigger] w[k] < self.n(),
            forall|k: int| 0 <= k < w.len() - 1 ==> #[trigger] self.back_step(w, k),
            self.edge(u, w.last()),
        ensures
            self.on_cycle(u),
    {
        let m = w.len() - 1;
        let p = seq![u] + Seq::new((m - j + 1) as nat, |t: int| w[m - t]);
        assert(p[0] == u);
        assert(p.last() == w[j]);
        assert forall|k: int| 0 <= k < p.len() implies 0 <= #[trigger] p[k] < self.n() by {
            if k > 0 {
                assert(p[k] == w[m - (k - 1)]);
            }
        }
        assert forall|k: int| 0 <= k < p.len() - 1 implies #[trigger] self.step(p, k) by {
            if k == 0 {
                assert(p[1] == w[m]);
            } else {
                assert(p[k] == w[m - (k - 1)]);
                assert(p[k + 1] == w[m - k]);
                assert(self.back_step(w, m - k));
            }
        }
        assert(self.is_walk(p));
    }

    /// Walks backwards from `start` through untaken vertices of `universe`
    /// (each of which has an untaken predecessor in `universe`) until a
    /// vertex repeats; that vertex lies on a cycle.
    /// Every untaken vertex of `universe` has an untaken predecessor in
    /// `universe`.
    pub open spec fn untaken_have_preds(&self, universe: Seq<bool>, taken: Seq<bool>) -> bool {
        forall|v: int|
            0 <= v < self.n() && universe[v] && !taken[v] ==> exists|u: int|
                0 <= u < self.n() && universe[u] && !taken[u] && #[trigger] self.edge(u, v)
    }

    fn find_cycle_vertex(&self, universe: &Vec<bool>, taken: &Vec<bool>, start: usize) -> (x: usize)
        requires
            self.wf(),
            universe@.len() == self.n(),
            taken@.len() == self.n(),
            start < self.n(),
            universe@[start as int],
            !taken@[start as int],
            self.untaken_have_preds(universe@, taken@),
        ensures
            x < self.n(),
            self.on_cycle(x as int),
    {
        let n = self.ids.len();
        let mut seen: Vec<usize> = Vec::new();
        let mut i: usize = 0;
        while i < n
            invariant
                n == self.n(),
                i <= n,
                seen@.len() == i,
                forall|j: int| 0 <= j < i ==> seen@[j] == 0,
            decreases n - i,
        {
            seen.push(0);
            i = i + 1;
        }
        seen.set(start, 1);
        let ghost mut w: Seq<int> = seq![start as int];
        let mut cur = start;
        let mut len: usize = 1;
        loop
            invariant
                self.wf(),
                n == self.n(),
                universe@.len() == n,
                taken@.len() == n,
                seen@.len() == n,
                self.untaken_have_preds(universe@, taken@),
                1 <= w.len() <= n,
                len == w.len(),
                cur == w.last(),
                forall|k: int|
                    0 <= k < w.len() ==> 0 <= #[trigger] w[k] < n && universe@[w[k]] && !taken@[w[k]]
                        && seen@[w[k]] == k + 1,
                forall|k: int| 0 <= k < w.len() - 1 ==> #[trigger] self.back_step(w, k),
                forall|v: int| 0 <= v < n && seen@[v] != 0 ==> seen@[v] <= w.len() && w[seen@[v] - 1] == v,
            decreases n - w.len(),
        {
            let u = match self.untaken_pred_within(universe, taken, cur) {
                Some(u) => u,
                None => {
                    proof {
                        assert(universe@[cur as int] && !taken@[cur as int]);
                        let u = choose|u: int|
                            0 <= u < self.n() && universe@[u] && !taken@[u] && #[trigger] self.edge(
                                u,
                                cur as int,
                            );
                        assert(taken@[u]);
                    }
                    return cur;
                },
            };
            if seen[u] != 0 {
                let j = seen[u] - 1;
                proof {
                    self.lemma_back_walk_cycle(w, j as int, u as int);
                }
                return u;
            }
            proof {
                lemma_seen_distinct(w, seen@, u as int, n as int);
            }
            let ghost w_old = w;
            proof {
                w = w.push(u as int);
            }
            len = len + 1;
            seen.set(u, len);
            cur = u;
            proof {
                assert forall|k: int| 0 <= k < w.len() - 1 implies #[trigger] self.back_step(w, k) by {
                    if k < w.len() - 2 {
                        assert(self.back_step(w_old, k));
                    }
                }
            }
        }
    }

    /// Validates that the graph is a DAG whose sources have no predecessors.
    ///
    /// `CycleDetected` names a vertex on a cycle; otherwise
    /// `InvalidStructure` reports a source vertex (also one whose node was
    /// removed) that has predecessors.
    pub fn validate(&self) -> (r: Result<(), GraphError>)
        requires
            self.wf(),
        ensures
            match r {
                Ok(()) => !self.has_cycle() && forall|i: int|
                    0 <= i < self.n() && #[trigger] self.src(i) ==> self.pred(i).len() == 0,
                Err(GraphError::CycleDetected(id)) => exists|x: int|
                    0 <= x < self.n() && #[trigger] self.on_cycle(x) && self.vid(x) == id@,
                Err(GraphError::InvalidStructure(m)) => !self.has_cycle() && exists|i: int|
                    0 <= i < self.n() && #[trigger] self.src(i) && self.pred(i).len() > 0 && m@
                        == source_predecessor_message(self.vid(i), self.pred(i).len()),
                Err(_) => false,
            },
    {
        let n = self.ids.len();
        let mut universe: Vec<bool> = Vec::new();
        let mut i: usize = 0;
        while i < n
            invariant
                n == self.n(),
                i <= n,
                universe@.len() == i,
                forall|j: int| 0 <= j < i ==> universe@[j],
            decreases n - i,
        {
            universe.push(true);
            i = i + 1;
        }
        let (order, rank, taken) = self.peel(&universe);
        if order.len() < n {
            let mut start: usize = 0;
            while start < n && taken[start]
                invariant
                    n == self.n(),
                    taken@.len() == n,
                    start <= n,
                    forall|j: int| 0 <= j < start ==> taken@[j],
                decreases n - start,
            {
                start = start + 1;
            }
            if start == n {
                proof {
                    assert forall|k: int| 0 <= k < order@.len() implies #[trigger] order@[k] < n by {}
                    let s = order@.map_values(|x: usize| x as int);
                    assert forall|a: int, b: int| 0 <= a < s.len() && 0 <= b < s.len() && a != b
                        implies s[a] != s[b] by {
                        assert(rank@[order@[a] as int] == a);
                        assert(rank@[order@[b] as int] == b);
                    }
                    // every vertex is taken, so the order holds them all
                    let all = Seq::new(n as nat, |v: int| v);
                    assert forall|v: int| 0 <= v < n implies #[trigger] s.contains(v) by {
                        assert(taken@[v]);
                        assert(s[rank@[v] as int] == v);
                    }
                    lemma_cover_bounded(s, n as int);
                }
                return Ok(());
            }
            let x = self.find_cycle_vertex(&universe, &taken, start);
            return Err(GraphError::CycleDetected(self.ids[x].clone()));
        }
        proof {
            assert forall|x: int| 0 <= x < self.n() && #[trigger] self.on_cycle(x) implies false by {
                self.lemma_order_full(universe@, taken@, rank@, order@, x);
                self.lemma_cycle_untaken(universe@, taken@, rank@, order@, x);
            }
        }
        self.validate_sources()
    }

    fn validate_sources(&self) -> (r: Result<(), GraphError>)
        requires
            self.wf(),
        ensures
            match r {
                Ok(()) => forall|i: int|
                    0 <= i < self.n() && #[trigger] self.src(i) ==> self.pred(i).len() == 0,
                Err(GraphError::InvalidStructure(m)) => exists|i: int|
                    0 <= i < self.n() && #[trigger] self.src(i) && self.pred(i).len() > 0 && m@
                        == source_predecessor_message(self.vid(i), self.pred(i).len()),
                Err(_) => false,
            },
    {
        let mut i: usize = 0;
        while i < self.sources.len()
            invariant
                self.wf(),
                i <= self.n(),
                forall|j: int| 0 <= j < i && #[trigger] self.src(j) ==> self.pred(j).len() == 0,
            decreases self.n() - i,
        {
            let count = self.reverse_edges[i].len();
            if self.sources[i] && count > 0 {
                let msg = source_predecessor_text(&self.ids[i], count);
                assert(self.src(i as int));
                return Err(GraphError::InvalidStructure(msg));
            }
            i = i + 1;
        }
        Ok(())
    }

    /// The graph passes `validate`: no cycle, and no source vertex has a
    /// predecessor.
    pub open spec fn is_valid(&self) -> bool {
        &&& !self.has_cycle()
        &&& forall|i: int| 0 <= i < self.n() && #[trigger] self.src(i) ==> self.pred(i).len() == 0
    }

    /// No removed node has successors.
    pub open spec fn removed_nodes_silent(&self) -> bool {
        forall|i: int| 0 <= i < self.n() && !self.is_live(i) ==> #[trigger] self.succ(i).len() == 0
    }

    /// Every edge ends at a node of the graph.
    pub open spec fn edges_end_live(&self) -> bool {
        forall|u: int, v: int| #[trigger] self.edge(u, v) ==> self.is_live(v)
    }

    /// `ord` lists every node of the graph exactly once, and every edge
    /// between nodes goes forward in `ord`.
    pub open spec fn is_topological_order(&self, ord: Seq<Seq<char>>) -> bool {
        &&& ord.no_duplicates()
        &&& forall|k: int| 0 <= k < ord.len() ==> #[trigger] self.has_live(ord[k])
        &&& forall|i: int| 0 <= i < self.n() && #[trigger] self.is_live(i) ==> ord.contains(self.vid(i))
        &&& forall|a: int, b: int|
            0 <= a < ord.len() && 0 <= b < ord.len() && #[trigger] self.edge(
                self.index_of(ord[a]),
                self.index_of(ord[b]),
            ) ==> a < b
    }

    proof fn lemma_live_untaken_have_preds(&self, universe: Seq<bool>, taken: Seq<bool>)
        requires
            self.removed_nodes_silent(),
            universe.len() == self.n(),
            taken.len() == self.n(),
            forall|j: int| 0 <= j < self.n() ==> universe[j] == self.is_live(j),
            forall|v: int|
                0 <= v < self.n() && universe[v] && !taken[v] ==> exists|u: int|
                    0 <= u < self.n() && !taken[u] && #[trigger] self.edge(u, v),
        ensures
            self.untaken_have_preds(universe, taken),
    {
        assert forall|v: int|
            0 <= v < self.n() && universe[v] && !taken[v] implies exists|u: int|
                0 <= u < self.n() && universe[u] && !taken[u] && #[trigger] self.edge(u, v) by {
            let u = choose|u: int| 0 <= u < self.n() && !taken[u] && #[trigger] self.edge(u, v);
            assert(self.succ(u).len() > 0);
            assert(universe[u]);
        }
    }

    proof fn lemma_topological(
        &self,
        universe: Seq<bool>,
        taken: Seq<bool>,
        rank: Seq<usize>,
        order: Seq<usize>,
        ord: Seq<Seq<char>>,
    )
        requires
            self.wf(),
            self.peel_inv(universe, taken, rank, order),
            forall|j: int| 0 <= j < self.n() ==> universe[j] == self.is_live(j),
            forall|j: int| 0 <= j < self.n() && #[trigger] universe[j] ==> taken[j],
            ord.len() == order.len(),
            forall|j: int| 0 <= j < ord.len() ==> ord[j] == self.vid(order[j] as int),
        ensures
            self.is_topological_order(ord),
    {
        assert forall|a: int, b: int| 0 <= a < ord.len() && 0 <= b < ord.len() && a != b implies ord[a]
            != ord[b] by {
            assert(rank[order[a] as int] == a);
            assert(rank[order[b] as int] == b);
            assert(ord[a] == self.vid(order[a] as int));
            assert(ord[b] == self.vid(order[b] as int));
        }
        assert forall|j: int| 0 <= j < ord.len() implies #[trigger] self.has_live(ord[j]) by {
            assert(ord[j] == self.vid(order[j] as int));
            self.lemma_index_of(order[j] as int);
            assert(taken[order[j] as int]);
        }
        assert forall|v: int| 0 <= v < self.n() && #[trigger] self.is_live(v) implies ord.contains(
            self.vid(v),
        ) by {
            assert(universe[v]);
            assert(taken[v]);
            assert(ord[rank[v] as int] == self.vid(v));
        }
        assert forall|a: int, b: int|
            0 <= a < ord.len() && 0 <= b < ord.len() && #[trigger] self.edge(
                self.index_of(ord[a]),
                self.index_of(ord[b]),
            ) implies a < b by {
            assert(ord[a] == self.vid(order[a] as int));
            assert(ord[b] == self.vid(order[b] as int));
            self.lemma_index_of(order[a] as int);
            self.lemma_index_of(order[b] as int);
            assert(taken[order[b] as int]);
            assert(self.edge(order[a] as int, order[b] as int));
        }
    }

    fn removed_nodes_are_silent(&self) -> (r: bool)
        requires
            self.wf(),
        ensures
            r == self.removed_nodes_silent(),
    {
        let mut i: usize = 0;
        while i < self.nodes.len()
            invariant
                self.wf(),
                i <= self.n(),
                forall|j: int| 0 <= j < i && !self.is_live(j) ==> #[trigger] self.succ(j).len() == 0,
            decreases self.n() - i,
        {
            if self.nodes[i].is_none() && self.edges[i].len() > 0 {
                assert(!self.is_live(i as int) && self.succ(i as int).len() > 0);
                return false;
            }
            i = i + 1;
        }
        true
    }

    /// A topological order of the graph's nodes.
    ///
    /// Fails as `validate` does; fails with `CycleDetected("unknown")` when
    /// the graph is valid but a removed node still has successors (which
    /// then can never be ordered).
    pub fn topological_sort(&self) -> (r: Result<Vec<PipelineId>, GraphError>)
        requires
            self.wf(),
            self.edges_end_live(),
        ensures
            self.is_valid() && self.removed_nodes_silent() ==> r is Ok
                && self.is_topological_order(id_views(r->Ok_0@)),
            self.is_valid() && !self.removed_nodes_silent() ==> (r matches Err(
                GraphError::CycleDetected(id),
            ) && id@ == "unknown"@),
            !self.is_valid() ==> match r {
                Err(GraphError::CycleDetected(id)) => exists|x: int|
                    0 <= x < self.n() && #[trigger] self.on_cycle(x) && self.vid(x) == id@,
                Err(GraphError::InvalidStructure(m)) => !self.has_cycle() && exists|i: int|
                    0 <= i < self.n() && #[trigger] self.src(i) && self.pred(i).len() > 0 && m@
                        == source_predecessor_message(self.vid(i), self.pred(i).len()),
                _ => false,
            },
    {
        match self.validate() {
            Ok(()) => {},
            Err(e) => {
                return Err(e);
            },
        }
        let n = self.ids.len();
        let mut universe: Vec<bool> = Vec::new();
        let mut i: usize = 0;
        while i < n
            invariant
                self.wf(),
                n == self.n(),
                i <= n,
                universe@.len() == i,
                forall|j: int| 0 <= j < i ==> universe@[j] == self.is_live(j),
            decreases n - i,
        {
            universe.push(self.nodes[i].is_some());
            i = i + 1;
        }
        let (order, rank, taken) = self.peel(&universe);
        let mut start: usize = 0;
        while start < n && (!universe[start] || taken[start])
            invariant
                n == self.n(),
                taken@.len() == n,
                universe@.len() == n,
                start <= n,
                forall|j: int| 0 <= j < start && #[trigger] universe@[j] ==> taken@[j],
            decreases n - start,
        {
            start = start + 1;
        }
        proof {
            if !self.removed_nodes_silent() {
                // A removed vertex with a successor keeps that successor from
                // ever being peeled.
                let u = choose|u: int| 0 <= u < self.n() && !self.is_live(u) && #[trigger] self.succ(u).len() != 0;
                let v = self.succ(u)[0] as int;
                assert(self.succ(u).contains(v as usize));
                assert(self.edge(u, v));
                assert(!taken@[v]);
                assert(universe@[v]);
                assert(start < n);
            }
        }
        if start < n {
            if !self.removed_nodes_are_silent() {
                return Err(GraphError::CycleDetected(PipelineId::new("unknown")));
            }
            proof {
                self.lemma_live_untaken_have_preds(universe@, taken@);
            }
            // Unreachable for a valid graph: the untaken nodes would contain a
            // cycle.
            let x = self.find_cycle_vertex(&universe, &taken, start);
            return Err(GraphError::CycleDetected(self.ids[x].clone()));
        }
        let mut out: Vec<PipelineId> = Vec::new();
        let mut k: usize = 0;
        while k < order.len()
            invariant
                self.wf(),
                self.peel_inv(universe@, taken@, rank@, order@),
                k <= order@.len(),
                out@.len() == k,
                forall|j: int| 0 <= j < k ==> #[trigger] out@[j]@ == self.vid(order@[j] as int),
            decreases order@.len() - k,
        {
            out.push(self.ids[order[k]].clone());
            k = k + 1;
        }
        proof {
            let ord = id_views(out@);
            assert forall|j: int| 0 <= j < ord.len() implies ord[j] == self.vid(order@[j] as int) by {
                assert(out@[j]@ == self.vid(order@[j] as int));
            }
            self.lemma_topological(universe@, taken@, rank@, order@, ord);
        }
        Ok(out)
    }
}

} // verus!
