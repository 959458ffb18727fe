//! The query bookkeeping of an engine.
//!
//! The executor runs a single pipeline graph and knows nothing of queries.
//! The engine hands out query ids, records the pipelines of each submitted
//! query, and turns a request to stop a query into a request to stop those
//! of its pipelines that are sources of the running graph.

use crate::executor::QueryId;
use crate::graph::PipelineGraph;
use crate::pipeline::{PipelineId, id_views};
use crate::query_engine::{clone_ids, key_index, key_set, keys_unique, lemma_key_index, lemma_key_set_unique};
use vstd::prelude::*;

verus! {

/// Whether `v` was added to `g` as a source (the mark outlives the node).
pub open spec fn marked_source(g: PipelineGraph, v: Seq<char>) -> bool {
    g.index_of(v) >= 0 && g.src(g.index_of(v))
}

/// The ids of `ids` that were added to `g` as sources, in order.
pub open spec fn marked_sources(g: PipelineGraph, ids: Seq<Seq<char>>) -> Seq<Seq<char>>
    decreases ids.len(),
{
    if ids.len() == 0 {
        Seq::empty()
    } else {
        let rest = marked_sources(g, ids.drop_last());
        if marked_source(g, ids.last()) {
            rest.push(ids.last())
        } else {
            rest
        }
    }
}

/// `s` without the entry of key `k`.
pub open spec fn key_removed<K, V>(s: Seq<(K, V)>, k: K) -> Seq<(K, V)> {
    let i = key_index(s, k);
    if i >= 0 {
        s.remove(i)
    } else {
        s
    }
}

/// The ids of `ids` that were added to `graph` as sources, in order.
pub fn sources_among(graph: &PipelineGraph, ids: &Vec<PipelineId>) -> (r: Vec<PipelineId>)
    requires
        graph.wf(),
    ensures
        id_views(r@) == marked_sources(*graph, id_views(ids@)),
{
    let mut out: Vec<PipelineId> = Vec::new();
    let mut k: usize = 0;
    proof {
        assert(id_views(ids@).take(0) =~= Seq::<Seq<char>>::empty());
    }
    while k < ids.len()
        invariant
            graph.wf(),
            k <= ids@.len(),
            id_views(out@) == marked_sources(*graph, id_views(ids@).take(k as int)),
        decreases ids@.len() - k,
    {
        let ghost prev = out@;
        let ghost v = id_views(ids@);
        proof {
            assert(v.take(k as int + 1).drop_last() =~= v.take(k as int));
            assert(v.take(k as int + 1).last() == ids@[k as int]@);
        }
        if graph.is_source(&ids[k]) {
            out.push(ids[k].clone());
            proof {
                assert(id_views(out@) =~= id_views(prev).push(ids@[k as int]@));
            }
        }
        k = k + 1;
    }
    proof {
        assert(id_views(ids@).take(ids@.len() as int) =~= id_views(ids@));
    }
    out
}

/// The ids a query is registered under when `graph` is submitted: all its
/// pipelines, in vertex order, and those of them that are sources.
pub fn submission_ids(graph: &PipelineGraph) -> (r: (Vec<PipelineId>, Vec<PipelineId>))
    requires
        graph.wf(),
    ensures
        id_views(r.0@) == graph.live_ids(),
        id_views(r.1@) == marked_sources(*graph, graph.live_ids()),
{
    let all = graph.get_all_pipeline_ids();
    let sources = sources_among(graph, &all);
    (all, sources)
}

/// How a request to stop a query is carried out.
pub enum StopPlan {
    /// No query with that id was submitted (or it was forgotten).
    UnknownQuery,
    /// None of the query's pipelines is a source of the running graph any
    /// more; the query has been forgotten.
    NothingToStop,
    /// Stop these sources; the stop cascades to the rest of the query.
    StopSources(Vec<PipelineId>),
}

/// The query ids handed out so far and the pipelines of each query.
pub struct QueryRegistry {
    next_query_id: QueryId,
    queries: Vec<(QueryId, Vec<PipelineId>)>,
}

/// The abstract state of a registry.
pub ghost struct RegistryView {
    /// The id the next query gets.
    pub next_query_id: QueryId,
    /// The pipelines of each recorded query (each query once).
    pub queries: Seq<(QueryId, Seq<Seq<char>>)>,
}

impl RegistryView {
    /// The recorded pipelines of query `q`.
    pub open spec fn pipelines(self, q: QueryId) -> Option<Seq<Seq<char>>> {
        let i = key_index(self.queries, q);
        if i >= 0 {
            Some(self.queries[i].1)
        } else {
            None
        }
    }
}

impl View for QueryRegistry {
    type V = RegistryView;

    closed spec fn view(&self) -> RegistryView {
        RegistryView {
            next_query_id: self.next_query_id,
            queries: self.queries@.map_values(|e: (QueryId, Vec<PipelineId>)| (e.0, id_views(e.1@))),
        }
    }
}

/// The id after `q`, wrapping around as an atomic counter does.
pub open spec fn following_id(q: QueryId) -> QueryId {
    if q == u64::MAX {
        0
    } else {
        (q + 1) as QueryId
    }
}

impl QueryRegistry {
    /// No query is recorded twice.
    pub open spec fn wf(&self) -> bool {
        keys_unique(self@.queries)
    }

    /// A registry whose first query gets id 1.
    pub fn new() -> (r: Self)
        ensures
            r.wf(),
            r@.next_query_id == 1,
            r@.queries.len() == 0,
    {
        let r = QueryRegistry { next_query_id: 1, queries: Vec::new() };
        assert(r@.queries =~= Seq::<(QueryId, Seq<Seq<char>>)>::empty());
        r
    }

    /// Hands out the next query id.
    pub fn next_query_id(&mut self) -> (q: QueryId)
        requires
            old(self).wf(),
        ensures
            final(self).wf(),
            q == old(self)@.next_query_id,
            final(self)@ == (RegistryView { next_query_id: following_id(q), ..old(self)@ }),
    {
        let q = self.next_query_id;
        self.next_query_id = if q == u64::MAX {
            0
        } else {
            q + 1
        };
        q
    }

    /// Records `pipeline_ids` as the pipelines of query `q`, replacing an
    /// earlier record of `q`.
    pub fn record(&mut self, q: QueryId, pipeline_ids: Vec<PipelineId>)
        requires
            old(self).wf(),
        ensures
            final(self).wf(),
            final(self)@ == (RegistryView {
                queries: key_set(old(self)@.queries, q, id_views(pipeline_ids@)),
                ..old(self)@
            }),
    {
        let ghost old_view = self@;
        let ghost ids = id_views(pipeline_ids@);
        match self.position(q) {
            Some(i) => {
                self.queries.set(i, (q, pipeline_ids));
                proof {
                    lemma_key_index(old_view.queries, i as int);
                    assert(self@.queries =~= old_view.queries.update(i as int, (q, ids)));
                }
            },
            None => {
                self.queries.push((q, pipeline_ids));
                proof {
                    assert(self@.queries =~= old_view.queries.push((q, ids)));
                }
            },
        }
        proof {
            lemma_key_set_unique(old_view.queries, q, ids);
        }
    }

    /// The recorded pipelines of query `q`.
    pub fn pipelines_of(&self, q: QueryId) -> (r: Option<Vec<PipelineId>>)
        requires
            self.wf(),
        ensures
            match r {
                Some(ids) => self@.pipelines(q) == Some(id_views(ids@)),
                None => self@.pipelines(q) is None,
            },
    {
        match self.position(q) {
            Some(i) => {
                proof {
                    lemma_key_index(self@.queries, i as int);
                }
                Some(clone_ids(&self.queries[i].1))
            },
            None => None,
        }
    }

    /// Forgets query `q`.
    pub fn forget(&mut self, q: QueryId)
        requires
            old(self).wf(),
        ensures
            final(self).wf(),
            final(self)@ == (RegistryView {
                queries: key_removed(old(self)@.queries, q),
                ..old(self)@
            }),
    {
        let ghost old_view = self@;
        match self.position(q) {
            Some(i) => {
                let _ = self.queries.remove(i);
                proof {
                    lemma_key_index(old_view.queries, i as int);
                    assert(self@.queries =~= old_view.queries.remove(i as int));
                    let s = self@.queries;
                    assert forall|a: int, b: int| 0 <= a < b < s.len() implies s[a].0 != s[b].0 by {
                        let a0 = if a < i { a } else { a + 1 };
                        let b0 = if b < i { b } else { b + 1 };
                        assert(s[a] == old_view.queries[a0]);
                        assert(s[b] == old_view.queries[b0]);
                    }
                }
            },
            None => {},
        }
    }

    /// Decides how to stop query `q` while `graph` runs: an unknown query
    /// gives `UnknownQuery`; a query none of whose pipelines is a source of
    /// `graph` is forgotten and gives `NothingToStop`; otherwise the sources
    /// among its pipelines are to be stopped, and the query stays recorded.
    pub fn plan_stop(&mut self, q: QueryId, graph: &PipelineGraph) -> (r: StopPlan)
        requires
            old(self).wf(),
            graph.wf(),
        ensures
            final(self).wf(),
            match old(self)@.pipelines(q) {
                None => r is UnknownQuery && final(self)@ == old(self)@,
                Some(ids) => if marked_sources(*graph, ids).len() == 0 {
                    r is NothingToStop && final(self)@ == (RegistryView {
                        queries: key_removed(old(self)@.queries, q),
                        ..old(self)@
                    })
                } else {
                    r matches StopPlan::StopSources(s) && id_views(s@) == marked_sources(*graph, ids)
                        && final(self)@ == old(self)@
                },
            },
    {
        match self.pipelines_of(q) {
            None => StopPlan::UnknownQuery,
            Some(ids) => {
                let sources = sources_among(graph, &ids);
                if sources.len() == 0 {
                    self.forget(q);
                    StopPlan::NothingToStop
                } else {
                    StopPlan::StopSources(sources)
                }
            },
        }
    }

    /// The position of the entry of query `q`.
    fn position(&self, q: QueryId) -> (r: Option<usize>)
        ensures
            match r {
                Some(i) => i < self@.queries.len() && self@.queries[i as int].0 == q,
                None => key_index(self@.queries, q) == -1,
            },
    {
        let mut k: usize = 0;
        while k < self.queries.len()
            invariant
                k <= self.queries@.len(),
                forall|j: int| 0 <= j < k ==> self.queries@[j].0 != q,
            decreases self.queries@.len() - k,
        {
            if self.queries[k].0 == q {
                return Some(k);
            }
            k = k + 1;
        }
        proof {
            assert(!exists|j: int| 0 <= j < self@.queries.len() && self@.queries[j].0 == q) by {
                assert forall|j: int| 0 <= j < self@.queries.len() implies self@.queries[j].0 != q by {
                    assert(self@.queries[j].0 == self.queries@[j].0);
                }
            }
        }
        None
    }
}

/// The id handed out after `k` calls of `next_query_id`, starting from
/// `q`.
pub open spec fn after_calls(q: QueryId, k: nat) -> QueryId
    decreases k,
{
    if k == 0 {
        q
    } else {
        following_id(after_calls(q, (k - 1) as nat))
    }
}

/// Query ids handed out by successive calls differ from each other, as long
/// as the counter does not wrap around.
pub proof fn lemma_query_ids_distinct(q: QueryId, i: nat, j: nat)
    requires
        i < j,
        q + j <= u64::MAX,
    ensures
        after_calls(q, i) != after_calls(q, j),
{
    lemma_after_calls(q, i);
    lemma_after_calls(q, j);
}

proof fn lemma_after_calls(q: QueryId, k: nat)
    requires
        q + k <= u64::MAX,
    ensures
        after_calls(q, k) == q + k,
    decreases k,
{
    if k > 0 {
        lemma_after_calls(q, (k - 1) as nat);
    }
}

/// After recording the pipelines of a query, looking the query up gives
/// exactly those pipelines.
pub proof fn lemma_record_then_lookup(r: RegistryView, q: QueryId, ids: Seq<Seq<char>>)
    requires
        keys_unique(r.queries),
    ensures
        (RegistryView { queries: key_set(r.queries, q, ids), ..r }).pipelines(q) == Some(ids),
{
    lemma_key_set_unique(r.queries, q, ids);
    let s = key_set(r.queries, q, ids);
    lemma_key_index(s, key_index(s, q));
}

/// Recording one query leaves the record of every other query unchanged.
pub proof fn lemma_record_keeps_others(r: RegistryView, q: QueryId, ids: Seq<Seq<char>>, other: QueryId)
    requires
        keys_unique(r.queries),
        other != q,
    ensures
        (RegistryView { queries: key_set(r.queries, q, ids), ..r }).pipelines(other) == r.pipelines(other),
{
    let s = key_set(r.queries, q, ids);
    lemma_key_set_unique(r.queries, q, ids);
    let i = key_index(r.queries, other);
    if i >= 0 {
        lemma_key_index(r.queries, i);
        assert(s[i] == r.queries[i]);
        lemma_key_index(s, i);
    } else if key_index(s, other) >= 0 {
        let k = key_index(s, other);
        assert(k < r.queries.len() ==> s[k] == r.queries[k]);
    }
}

/// A forgotten query is unknown: a stop request for it gives
/// `UnknownQuery`.
pub proof fn lemma_forget_then_unknown(r: RegistryView, q: QueryId)
    requires
        keys_unique(r.queries),
    ensures
        (RegistryView { queries: key_removed(r.queries, q), ..r }).pipelines(q) is None,
{
    let i = key_index(r.queries, q);
    let s = key_removed(r.queries, q);
    if i >= 0 {
        lemma_key_index(r.queries, i);
        if key_index(s, q) >= 0 {
            let k = key_index(s, q);
            let k0 = if k < i { k } else { k + 1 };
            assert(s[k] == r.queries[k0]);
        }
    }
}

} // verus!
