//! Fluent construction of pipeline graphs: pipelines are added at once,
//! connections are recorded and applied, in order, when the graph is built,
//! and the built graph is validated.

use crate::graph::{GraphError, PipelineGraph};
use crate::pipeline::{Pipeline, PipelineId};
use vstd::prelude::*;

verus! {

/// The texts of a list of recorded connections.
pub open spec fn connection_views(s: Seq<(PipelineId, PipelineId)>) -> Seq<(Seq<char>, Seq<char>)> {
    s.map_values(|c: (PipelineId, PipelineId)| (c.0@, c.1@))
}

/// The successors that the connections `conns` add to vertex `j` of `g`, in
/// connection order.
pub open spec fn added_succ(g: PipelineGraph, conns: Seq<(Seq<char>, Seq<char>)>, j: int) -> Seq<
    usize,
>
    decreases conns.len(),
{
    if conns.len() == 0 {
        Seq::empty()
    } else {
        let prev = added_succ(g, conns.drop_last(), j);
        if g.index_of(conns.last().0) == j {
            prev.push(g.index_of(conns.last().1) as usize)
        } else {
            prev
        }
    }
}

/// The predecessors that the connections `conns` add to vertex `j` of `g`,
/// in connection order.
pub open spec fn added_pred(g: PipelineGraph, conns: Seq<(Seq<char>, Seq<char>)>, j: int) -> Seq<
    usize,
>
    decreases conns.len(),
{
    if conns.len() == 0 {
        Seq::empty()
    } else {
        let prev = added_pred(g, conns.drop_last(), j);
        if g.index_of(conns.last().1) == j {
            prev.push(g.index_of(conns.last().0) as usize)
        } else {
            prev
        }
    }
}

/// Both ends of connection `k` name nodes of `g`.
pub open spec fn resolvable(g: PipelineGraph, conns: Seq<(Seq<char>, Seq<char>)>, k: int) -> bool {
    g.has_live(conns[k].0) && g.has_live(conns[k].1)
}

/// Both ends of every connection name nodes of `g`.
pub open spec fn all_resolvable(g: PipelineGraph, conns: Seq<(Seq<char>, Seq<char>)>) -> bool {
    forall|k: int| 0 <= k < conns.len() ==> #[trigger] resolvable(g, conns, k)
}

/// `g` is `g0` with the edges of `conns` appended, in order, to the edge
/// lists of their ends; nothing else differs.
pub open spec fn connected(
    g0: PipelineGraph,
    conns: Seq<(Seq<char>, Seq<char>)>,
    g: PipelineGraph,
) -> bool {
    &&& g.wf()
    &&& g.n() == g0.n()
    &&& g.live_count() == g0.live_count()
    &&& forall|j: int|
        0 <= j < g0.n() ==> {
            &&& #[trigger] g.vid(j) == g0.vid(j)
            &&& g.is_live(j) == g0.is_live(j)
            &&& (g.is_live(j) ==> g.node_at(j) == g0.node_at(j))
            &&& g.src(j) == g0.src(j)
            &&& g.succ(j) == g0.succ(j) + added_succ(g0, conns, j)
            &&& g.pred(j) == g0.pred(j) + added_pred(g0, conns, j)
        }
}

/// The error that `PipelineGraph::validate` gives on `g`.
pub open spec fn validation_error(g: PipelineGraph, e: GraphError) -> bool {
    match e {
        GraphError::CycleDetected(id) => exists|x: int|
            0 <= x < g.n() && #[trigger] g.on_cycle(x) && g.vid(x) == id@,
        GraphError::InvalidStructure(m) => !g.has_cycle() && exists|i: int|
            0 <= i < g.n() && #[trigger] g.src(i) && g.pred(i).len() > 0 && m@
                == crate::graph::source_predecessor_message(g.vid(i), g.pred(i).len()),
        _ => false,
    }
}

/// Collects pipelines and connections and builds a validated graph.
pub struct PipelineGraphBuilder {
    graph: PipelineGraph,
    connections: Vec<(PipelineId, PipelineId)>,
}

impl PipelineGraphBuilder {
    #[verifier::type_invariant]
    spec fn inv(self) -> bool {
        self.graph.wf()
    }

    /// The graph of the pipelines added so far.
    pub closed spec fn graph_spec(self) -> PipelineGraph {
        self.graph
    }

    /// The connections recorded so far, in order.
    pub closed spec fn pending(self) -> Seq<(Seq<char>, Seq<char>)> {
        connection_views(self.connections@)
    }

    /// A builder with no pipelines and no connections.
    pub fn new() -> (r: Self)
        ensures
            r.graph_spec().wf(),
            r.graph_spec().n() == 0,
            r.graph_spec().live_count() == 0,
            r.pending().len() == 0,
    {
        PipelineGraphBuilder { graph: PipelineGraph::new(), connections: Vec::new() }
    }

    /// Adds a pipeline; one whose id is already taken is dropped, and the
    /// build goes on without it.
    pub fn add_pipeline(self, pipeline: Box<dyn Pipeline>) -> (r: Self)
        ensures
            r.graph_spec().wf(),
            r.pending() == self.pending(),
            r.graph_spec().same_graph(&self.graph_spec()) || exists|v: Seq<char>|
                !self.graph_spec().has_live(v) && #[trigger] r.graph_spec().added_fresh(
                    &self.graph_spec(),
                    v,
                    false,
                ),
    {
        proof {
            use_type_invariant(&self);
        }
        let PipelineGraphBuilder { mut graph, connections } = self;
        let _ = graph.add_pipeline(pipeline);
        PipelineGraphBuilder { graph, connections }
    }

    /// Records a connection from `source` to `sink`, to be made at build
    /// time.
    pub fn connect(self, source: PipelineId, sink: PipelineId) -> (r: Self)
        ensures
            r.graph_spec() == self.graph_spec(),
            r.pending() == self.pending().push((source@, sink@)),
    {
        proof {
            use_type_invariant(&self);
        }
        let PipelineGraphBuilder { graph, mut connections } = self;
        let ghost prev = connections@;
        connections.push((source, sink));
        proof {
            assert(connection_views(connections@) =~= connection_views(prev).push((source@, sink@)));
        }
        PipelineGraphBuilder { graph, connections }
    }

    /// Makes the recorded connections in order and validates the result,
    /// as `connect_and_validate` describes.
    pub fn build(self) -> (r: Result<PipelineGraph, GraphError>)
        ensures
            built(self.graph_spec(), self.pending(), r),
    {
        proof {
            use_type_invariant(&self);
        }
        let PipelineGraphBuilder { graph, connections } = self;
        connect_and_validate(graph, connections)
    }
}

/// What making the connections `c` in order on `g0` and validating gives.
///
/// The first connection with an end that names no node fails with
/// `PipelineNotFound` (naming its source if that is missing, else its
/// sink); otherwise the graph with all connections made is returned when it
/// validates, and the validation error when it does not.
pub open spec fn built(
    g0: PipelineGraph,
    c: Seq<(Seq<char>, Seq<char>)>,
    r: Result<PipelineGraph, GraphError>,
) -> bool {
    match r {
        Ok(g) => all_resolvable(g0, c) && connected(g0, c, g) && g.is_valid(),
        Err(GraphError::PipelineNotFound(id)) => exists|k: int|
            0 <= k < c.len() && all_resolvable(g0, c.take(k)) && !#[trigger] resolvable(g0, c, k)
                && id@ == (if !g0.has_live(c[k].0) {
                c[k].0
            } else {
                c[k].1
            }),
        Err(e) => all_resolvable(g0, c) && exists|g: PipelineGraph|
            connected(g0, c, g) && !g.is_valid() && #[trigger] validation_error(g, e),
    }
}

/// Makes `connections` in `graph`, in order, and validates the result, as
/// `built` describes.
pub fn connect_and_validate(initial: PipelineGraph, connections: Vec<(PipelineId, PipelineId)>) -> (r: Result<
    PipelineGraph,
    GraphError,
>)
    requires
        initial.wf(),
    ensures
        built(initial, connection_views(connections@), r),
{
    let mut graph = initial;
    let ghost g0 = graph;
    let ghost c = connection_views(connections@);
    let mut k: usize = 0;
    proof {
        assert(c.take(0).len() == 0);
        assert(connected(g0, c.take(0), graph)) by {
            assert forall|j: int| 0 <= j < g0.n() implies graph.succ(j) == g0.succ(j)
                + added_succ(g0, c.take(0), j) && graph.pred(j) == g0.pred(j) + added_pred(
                g0,
                c.take(0),
                j,
            ) by {
                assert(g0.succ(j) + Seq::<usize>::empty() =~= g0.succ(j));
                assert(g0.pred(j) + Seq::<usize>::empty() =~= g0.pred(j));
            }
        }
    }
    while k < connections.len()
        invariant
            g0.wf(),
            g0 == initial,
            c == connection_views(connections@),
            k <= connections@.len(),
            all_resolvable(g0, c.take(k as int)),
            connected(g0, c.take(k as int), graph),
        decreases connections@.len() - k,
    {
        let ghost before = graph;
        proof {
            graph.lemma_index_of_same_ids(&g0);
            assert(c[k as int] == (connections@[k as int].0@, connections@[k as int].1@));
        }
        let source = &connections[k].0;
        let sink = &connections[k].1;
        match graph.connect(source, sink) {
            Ok(()) => {},
            Err(e) => {
                proof {
                    assert(before.has_live(c[k as int].0) == g0.has_live(c[k as int].0)) by {
                        let i = g0.index_of(c[k as int].0);
                        if i >= 0 {
                            assert(before.vid(i) == g0.vid(i));
                        }
                    }
                    assert(before.has_live(c[k as int].1) == g0.has_live(c[k as int].1)) by {
                        let i = g0.index_of(c[k as int].1);
                        if i >= 0 {
                            assert(before.vid(i) == g0.vid(i));
                        }
                    }
                    assert(!resolvable(g0, c, k as int));
                    assert(source@ == c[k as int].0);
                    assert(sink@ == c[k as int].1);
                    assert(e matches GraphError::PipelineNotFound(id) && id@ == (if !g0.has_live(
                        c[k as int].0,
                    ) {
                        c[k as int].0
                    } else {
                        c[k as int].1
                    }));
                    assert(built(g0, c, Err(e)));
                }
                return Err(e);
            },
        }
        proof {
            let ck = c.take(k as int);
            let ck1 = c.take(k as int + 1);
            assert(ck1.drop_last() =~= ck);
            assert(ck1.last() == c[k as int]);
            assert(resolvable(g0, c, k as int));
            assert forall|i: int| 0 <= i < ck1.len() implies #[trigger] resolvable(g0, ck1, i) by {
                if i < k {
                    assert(resolvable(g0, ck, i));
                }
            }
            let s = g0.index_of(c[k as int].0);
            let t = g0.index_of(c[k as int].1);
            assert(0 <= s < g0.n() && 0 <= t < g0.n());
            assert forall|j: int| 0 <= j < g0.n() implies {
                &&& #[trigger] graph.vid(j) == g0.vid(j)
                &&& graph.is_live(j) == g0.is_live(j)
                &&& (graph.is_live(j) ==> graph.node_at(j) == g0.node_at(j))
                &&& graph.src(j) == g0.src(j)
                &&& graph.succ(j) == g0.succ(j) + added_succ(g0, ck1, j)
                &&& graph.pred(j) == g0.pred(j) + added_pred(g0, ck1, j)
            } by {
                assert(before.vid(j) == g0.vid(j));
                assert(graph.succ(j) == if j == s {
                    before.succ(j).push(t as usize)
                } else {
                    before.succ(j)
                });
                assert(before.succ(j) == g0.succ(j) + added_succ(g0, ck, j));
                assert(before.pred(j) == g0.pred(j) + added_pred(g0, ck, j));
                assert((g0.succ(j) + added_succ(g0, ck, j)).push(t as usize) =~= g0.succ(j)
                    + added_succ(g0, ck, j).push(t as usize));
                assert((g0.pred(j) + added_pred(g0, ck, j)).push(s as usize) =~= g0.pred(j)
                    + added_pred(g0, ck, j).push(s as usize));
            }
        }
        k = k + 1;
    }
    proof {
        assert(c.take(k as int) =~= c);
    }
    match graph.validate() {
        Ok(()) => Ok(graph),
        Err(e) => {
            proof {
                assert(validation_error(graph, e));
            }
            Err(e)
        },
    }
}

impl Default for PipelineGraphBuilder {
    fn default() -> (r: Self)
        ensures
            r.graph_spec().wf(),
            r.graph_spec().n() == 0,
            r.pending().len() == 0,
    {
        Self::new()
    }
}

} // verus!
