//! The assembly of a query that the native side submits as numbered stages
//! and sources: their ids are named after the query, and the graph is wired
//! from pairs of numbers.

use crate::builder::{built, connect_and_validate, connection_views};
use crate::executor::QueryId;
use crate::graph::{GraphError, PipelineGraph};
use crate::pipeline::PipelineId;
use crate::text::{decimal, u64_to_decimal};
use vstd::prelude::*;
use vstd::string::*;

verus! {

/// The id of stage `i` of query `q`: `query-<q>-stage-<i>`.
pub open spec fn stage_name(q: QueryId, i: u64) -> Seq<char> {
    "query-"@ + decimal(q as nat) + "-stage-"@ + decimal(i as nat)
}

/// The id of source `i` of query `q`: `query-<q>-source-<i>`.
pub open spec fn source_name(q: QueryId, i: u64) -> Seq<char> {
    "query-"@ + decimal(q as nat) + "-source-"@ + decimal(i as nat)
}

/// The connections of query `q`: stage to stage for each edge, then source
/// to stage for each source link, in order.
pub open spec fn query_connections(
    q: QueryId,
    edges: Seq<(u64, u64)>,
    source_to_stage: Seq<(u64, u64)>,
) -> Seq<(Seq<char>, Seq<char>)> {
    edges.map_values(|e: (u64, u64)| (stage_name(q, e.0), stage_name(q, e.1)))
        + source_to_stage.map_values(|l: (u64, u64)| (source_name(q, l.0), stage_name(q, l.1)))
}

fn numbered_id(query_id: QueryId, kind: &str, index: u64) -> (r: PipelineId)
    ensures
        r@ == "query-"@ + decimal(query_id as nat) + kind@ + decimal(index as nat),
{
    let mut s = String::from_str("query-");
    let q = u64_to_decimal(query_id);
    s.append(q.as_str());
    s.append(kind);
    let i = u64_to_decimal(index);
    s.append(i.as_str());
    PipelineId::from_string(s)
}

/// The id of stage `index` of query `query_id`.
pub fn stage_pipeline_id(query_id: QueryId, index: u64) -> (r: PipelineId)
    ensures
        r@ == stage_name(query_id, index),
{
    numbered_id(query_id, "-stage-", index)
}

/// The id of source `index` of query `query_id`.
pub fn source_pipeline_id(query_id: QueryId, index: u64) -> (r: PipelineId)
    ensures
        r@ == source_name(query_id, index),
{
    numbered_id(query_id, "-source-", index)
}

/// Wires the graph of query `query_id`, whose stages and sources were added
/// under the ids `stage_pipeline_id` and `source_pipeline_id` give: stage
/// `a` is connected to stage `b` for each edge `(a, b)`, then source `s` to
/// stage `t` for each link `(s, t)`, and the graph is validated, as `built`
/// describes.
pub fn wire_query_graph(
    graph: PipelineGraph,
    query_id: QueryId,
    edges: &Vec<(u64, u64)>,
    source_to_stage: &Vec<(u64, u64)>,
) -> (r: Result<PipelineGraph, GraphError>)
    requires
        graph.wf(),
    ensures
        built(graph, query_connections(query_id, edges@, source_to_stage@), r),
{
    let ghost stage_pairs = edges@.map_values(
        |e: (u64, u64)| (stage_name(query_id, e.0), stage_name(query_id, e.1)),
    );
    let ghost source_pairs = source_to_stage@.map_values(
        |l: (u64, u64)| (source_name(query_id, l.0), stage_name(query_id, l.1)),
    );
    let mut connections: Vec<(PipelineId, PipelineId)> = Vec::new();
    let mut k: usize = 0;
    while k < edges.len()
        invariant
            k <= edges@.len(),
            stage_pairs == edges@.map_values(
                |e: (u64, u64)| (stage_name(query_id, e.0), stage_name(query_id, e.1)),
            ),
            connection_views(connections@) == stage_pairs.take(k as int),
        decreases edges@.len() - k,
    {
        let (a, b) = edges[k];
        let ghost prev = connections@;
        connections.push((stage_pipeline_id(query_id, a), stage_pipeline_id(query_id, b)));
        proof {
            assert(stage_pairs.take(k as int + 1) =~= stage_pairs.take(k as int).push(stage_pairs[k as int]));
            assert(connection_views(connections@) =~= connection_views(prev).push(stage_pairs[k as int]));
        }
        k = k + 1;
    }
    let mut m: usize = 0;
    proof {
        assert(stage_pairs.take(edges@.len() as int) =~= stage_pairs);
        assert(source_pairs.take(0) =~= Seq::<(Seq<char>, Seq<char>)>::empty());
        assert(stage_pairs + source_pairs.take(0) =~= stage_pairs);
    }
    while m < source_to_stage.len()
        invariant
            m <= source_to_stage@.len(),
            source_pairs == source_to_stage@.map_values(
                |l: (u64, u64)| (source_name(query_id, l.0), stage_name(query_id, l.1)),
            ),
            connection_views(connections@) == stage_pairs + source_pairs.take(m as int),
        decreases source_to_stage@.len() - m,
    {
        let (s, t) = source_to_stage[m];
        let ghost prev = connections@;
        connections.push((source_pipeline_id(query_id, s), stage_pipeline_id(query_id, t)));
        proof {
            assert(source_pairs.take(m as int + 1) =~= source_pairs.take(m as int).push(source_pairs[m as int]));
            assert(connection_views(connections@) =~= connection_views(prev).push(source_pairs[m as int]));
        }
        m = m + 1;
    }
    proof {
        assert(source_pairs.take(source_to_stage@.len() as int) =~= source_pairs);
    }
    connect_and_validate(graph, connections)
}

} // verus!
