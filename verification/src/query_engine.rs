//! Query-level event mapping.
//!
//! The executor runs one pipeline graph and knows nothing of queries. The
//! query tracker sits between the executor's raw events and their
//! consumers: it maps each pipeline id to the query that registered it,
//! rewrites the query id of pipeline-level events, and synthesizes the
//! query-level events: `QueryRunning` once every source of a query has
//! started, `QueryStop` and `QueryTerminated` once every pipeline of a query
//! has stopped.

use crate::executor::QueryId;
use crate::executor::stats::{EventView, StatisticsEvent, event_views};
use crate::pipeline::{PipelineId, id_views};
use vstd::prelude::*;

verus! {

/// `s` with `x` added, unless it is already there.
pub open spec fn set_insert(s: Seq<Seq<char>>, x: Seq<char>) -> Seq<Seq<char>> {
    if s.contains(x) {
        s
    } else {
        s.push(x)
    }
}

/// The distinct elements of `s`, in order of first occurrence.
pub open spec fn distinct(s: Seq<Seq<char>>) -> Seq<Seq<char>>
    decreases s.len(),
{
    if s.len() == 0 {
        Seq::empty()
    } else {
        set_insert(distinct(s.drop_last()), s.last())
    }
}

/// The abstract state of a query.
pub ghost struct QueryStateView {
    /// The query's pipelines (without repetitions).
    pub pipelines: Seq<Seq<char>>,
    /// The query's sources (without repetitions).
    pub sources: Seq<Seq<char>>,
    /// The sources that have started.
    pub started: Seq<Seq<char>>,
    /// The pipelines that have stopped.
    pub stopped: Seq<Seq<char>>,
    /// Whether `QueryRunning` was emitted.
    pub is_running: bool,
    /// Whether `QueryTerminated` was emitted.
    pub is_terminated: bool,
    /// Whether a stop was issued after an error.
    pub stop_issued: bool,
}

/// The state of a freshly registered query.
pub open spec fn fresh_state(pipelines: Seq<Seq<char>>, sources: Seq<Seq<char>>) -> QueryStateView {
    QueryStateView {
        pipelines: distinct(pipelines),
        sources: distinct(sources),
        started: Seq::empty(),
        stopped: Seq::empty(),
        is_running: false,
        is_terminated: false,
        stop_issued: false,
    }
}

/// A position of key `k` in `s`, or -1.
pub open spec fn key_index<K, V>(s: Seq<(K, V)>, k: K) -> int {
    if exists|i: int| 0 <= i < s.len() && s[i].0 == k {
        choose|i: int| 0 <= i < s.len() && s[i].0 == k
    } else {
        -1
    }
}

/// No key occurs twice in `s`.
pub open spec fn keys_unique<K, V>(s: Seq<(K, V)>) -> bool {
    forall|i: int, j: int| 0 <= i < j < s.len() ==> s[i].0 != s[j].0
}

/// `s` with key `k` mapped to `v`: the entry of `k` is replaced, or one is
/// appended.
pub open spec fn key_set<K, V>(s: Seq<(K, V)>, k: K, v: V) -> Seq<(K, V)> {
    let i = key_index(s, k);
    if i >= 0 {
        s.update(i, (k, v))
    } else {
        s.push((k, v))
    }
}

/// `s` with each id of `ids` mapped to `q`, in order.
pub open spec fn assign_all(s: Seq<(Seq<char>, QueryId)>, ids: Seq<Seq<char>>, q: QueryId) -> Seq<
    (Seq<char>, QueryId),
>
    decreases ids.len(),
{
    if ids.len() == 0 {
        s
    } else {
        key_set(assign_all(s, ids.drop_last(), q), ids.last(), q)
    }
}

/// The state of one query.
struct QueryState {
    pipeline_ids: Vec<PipelineId>,
    source_ids: Vec<PipelineId>,
    sources_started: Vec<PipelineId>,
    pipelines_stopped: Vec<PipelineId>,
    is_running: bool,
    is_terminated: bool,
    stop_issued: bool,
}

impl QueryState {
    spec fn view(&self) -> QueryStateView {
        QueryStateView {
            pipelines: id_views(self.pipeline_ids@),
            sources: id_views(self.source_ids@),
            started: id_views(self.sources_started@),
            stopped: id_views(self.pipelines_stopped@),
            is_running: self.is_running,
            is_terminated: self.is_terminated,
            stop_issued: self.stop_issued,
        }
    }
}

/// The position of the id `x` in `ids`, if it is there.
fn position(ids: &Vec<PipelineId>, x: &PipelineId) -> (r: Option<usize>)
    ensures
        match r {
            Some(i) => i < ids@.len() && ids@[i as int]@ == x@,
            None => !id_views(ids@).contains(x@),
        },
{
    let mut k: usize = 0;
    while k < ids.len()
        invariant
            k <= ids@.len(),
            forall|j: int| 0 <= j < k ==> ids@[j]@ != x@,
        decreases ids@.len() - k,
    {
        if ids[k].same(x) {
            return Some(k);
        }
        k = k + 1;
    }
    proof {
        assert forall|j: int| 0 <= j < id_views(ids@).len() implies id_views(ids@)[j] != x@ by {
            assert(id_views(ids@)[j] == ids@[j]@);
        }
    }
    None
}

/// Adds the id `x` to `ids` unless it is already there.
fn insert_id(ids: &mut Vec<PipelineId>, x: PipelineId)
    ensures
        id_views(final(ids)@) == set_insert(id_views(old(ids)@), x@),
{
    match position(ids, &x) {
        Some(i) => {
            assert(id_views(old(ids)@)[i as int] == x@);
        },
        None => {
            let ghost prev = ids@;
            ids.push(x);
            proof {
                assert(id_views(ids@) =~= id_views(prev).push(x@));
            }
        },
    }
}

/// The distinct ids of `ids`, in order of first occurrence.
fn distinct_ids(ids: Vec<PipelineId>) -> (r: Vec<PipelineId>)
    ensures
        id_views(r@) == distinct(id_views(ids@)),
{
    let mut out: Vec<PipelineId> = Vec::new();
    let mut k: usize = 0;
    proof {
        assert(id_views(ids@).take(0) =~= Seq::<Seq<char>>::empty());
        assert(id_views(out@) =~= Seq::<Seq<char>>::empty());
    }
    while k < ids.len()
        invariant
            k <= ids@.len(),
            id_views(out@) == distinct(id_views(ids@).take(k as int)),
        decreases ids@.len() - k,
    {
        let x = ids[k].clone();
        insert_id(&mut out, x);
        proof {
            let v = id_views(ids@);
            assert(v.take(k as int + 1).drop_last() =~= v.take(k as int));
            assert(v.take(k as int + 1).last() == ids@[k as int]@);
        }
        k = k + 1;
    }
    proof {
        assert(id_views(ids@).take(ids@.len() as int) =~= id_views(ids@));
    }
    out
}

/// Copies of `ids`, in order.
pub(crate) fn clone_ids(ids: &Vec<PipelineId>) -> (r: Vec<PipelineId>)
    ensures
        id_views(r@) == id_views(ids@),
{
    let mut out: Vec<PipelineId> = Vec::new();
    let mut k: usize = 0;
    while k < ids.len()
        invariant
            k <= ids@.len(),
            id_views(out@) == id_views(ids@.take(k as int)),
        decreases ids@.len() - k,
    {
        let ghost prev = out@;
        out.push(ids[k].clone());
        proof {
            assert(ids@.take(k as int + 1) =~= ids@.take(k as int).push(ids@[k as int]));
            assert(id_views(out@) =~= id_views(prev).push(ids@[k as int]@));
            assert(id_views(ids@.take(k as int + 1)) =~= id_views(ids@.take(k as int)).push(
                ids@[k as int]@,
            ));
        }
        k = k + 1;
    }
    proof {
        assert(ids@.take(ids@.len() as int) =~= ids@);
    }
    out
}

/// Maps pipelines to queries and tracks each query's progress.
pub struct QueryTracker {
    pipeline_to_query: Vec<(PipelineId, QueryId)>,
    queries: Vec<(QueryId, QueryState)>,
}

/// The abstract state of a query tracker.
pub ghost struct TrackerView {
    /// The query of each registered pipeline (each pipeline once).
    pub owners: Seq<(Seq<char>, QueryId)>,
    /// The state of each registered query (each query once), in order of
    /// first registration.
    pub queries: Seq<(QueryId, QueryStateView)>,
}

impl TrackerView {
    /// The query of pipeline `pid`; 0 for an unknown pipeline.
    pub open spec fn lookup(self, pid: Seq<char>) -> QueryId {
        let i = key_index(self.owners, pid);
        if i >= 0 {
            self.owners[i].1
        } else {
            0
        }
    }

    /// The state of query `q`, if it is registered.
    pub open spec fn state(self, q: QueryId) -> Option<QueryStateView> {
        let i = key_index(self.queries, q);
        if i >= 0 {
            Some(self.queries[i].1)
        } else {
            None
        }
    }

    /// The tracker with the state of registered query `q` replaced.
    pub open spec fn with_state(self, q: QueryId, st: QueryStateView) -> TrackerView {
        TrackerView { queries: key_set(self.queries, q, st), ..self }
    }
}

impl View for QueryTracker {
    type V = TrackerView;

    closed spec fn view(&self) -> TrackerView {
        TrackerView {
            owners: self.pipeline_to_query@.map_values(|e: (PipelineId, QueryId)| (e.0@, e.1)),
            queries: self.queries@.map_values(|e: (QueryId, QueryState)| (e.0, e.1.view())),
        }
    }
}

/// What processing `event` with the tracker in state `t` gives: the
/// tracker's next state and the events to forward.
///
/// Pipeline-level events get the query id of their pipeline (of the sending
/// pipeline for `TaskEmit`). A `PipelineStop` also records the stop; when
/// every pipeline of the query has stopped, `QueryStop` and
/// `QueryTerminated` follow (once). A `SourceStarted` is consumed; it
/// records the start, and when every source of the query has started,
/// `QueryRunning` is emitted (once). The first `PipelineExecutionError` of a
/// query is forwarded (from worker 0), later ones are dropped. Query-level
/// events pass through unchanged.
pub open spec fn processed(t: TrackerView, event: EventView) -> (TrackerView, Seq<EventView>) {
    match event {
        EventView::PipelineStart { worker_id, pipeline, .. } => (
            t,
            seq![EventView::PipelineStart { worker_id, query_id: t.lookup(pipeline), pipeline }],
        ),
        EventView::PipelineStop { worker_id, pipeline, .. } => {
            let q = t.lookup(pipeline);
            let stop = EventView::PipelineStop { worker_id, query_id: q, pipeline };
            match t.state(q) {
                None => (t, seq![stop]),
                Some(st) => {
                    let stopped = set_insert(st.stopped, pipeline);
                    if !st.is_terminated && stopped.len() == st.pipelines.len() {
                        (
                            t.with_state(
                                q,
                                QueryStateView { stopped, is_terminated: true, ..st },
                            ),
                            seq![
                                stop,
                                EventView::QueryStop { worker_id, query_id: q },
                                EventView::QueryTerminated { worker_id, query_id: q },
                            ],
                        )
                    } else {
                        (t.with_state(q, QueryStateView { stopped, ..st }), seq![stop])
                    }
                },
            }
        },
        EventView::SourceStarted { worker_id, source } => {
            let q = t.lookup(source);
            match t.state(q) {
                None => (t, Seq::empty()),
                Some(st) => {
                    let started = set_insert(st.started, source);
                    if !st.is_running && started.len() == st.sources.len() {
                        (
                            t.with_state(q, QueryStateView { started, is_running: true, ..st }),
                            seq![EventView::QueryRunning { worker_id, query_id: q }],
                        )
                    } else {
                        (t.with_state(q, QueryStateView { started, ..st }), Seq::empty())
                    }
                },
            }
        },
        EventView::TaskExecutionStart { worker_id, pipeline, task_id, .. } => (
            t,
            seq![
                EventView::TaskExecutionStart {
                    worker_id,
                    query_id: t.lookup(pipeline),
                    pipeline,
                    task_id,
                },
            ],
        ),
        EventView::TaskExecutionComplete { worker_id, pipeline, task_id, .. } => (
            t,
            seq![
                EventView::TaskExecutionComplete {
                    worker_id,
                    query_id: t.lookup(pipeline),
                    pipeline,
                    task_id,
                },
            ],
        ),
        EventView::TaskEmit { worker_id, from, to, task_id, .. } => (
            t,
            seq![EventView::TaskEmit { worker_id, query_id: t.lookup(from), from, to, task_id }],
        ),
        EventView::PipelineExecutionError { pipeline, .. } => {
            let q = t.lookup(pipeline);
            match t.state(q) {
                Some(st) => if !st.stop_issued {
                    (
                        t.with_state(q, QueryStateView { stop_issued: true, ..st }),
                        seq![EventView::PipelineExecutionError { worker_id: 0, pipeline }],
                    )
                } else {
                    (t, Seq::empty())
                },
                None => (t, Seq::empty()),
            }
        },
        other => (t, seq![other]),
    }
}

/// In a sequence without repeated keys, the entry of a key is found at its
/// position.
pub proof fn lemma_key_index<K, V>(s: Seq<(K, V)>, i: int)
    requires
        keys_unique(s),
        0 <= i < s.len(),
    ensures
        key_index(s, s[i].0) == i,
{
    let k = key_index(s, s[i].0);
    assert(0 <= k < s.len() && s[k].0 == s[i].0);
}

/// Setting a key keeps the keys unique.
pub proof fn lemma_key_set_unique<K, V>(s: Seq<(K, V)>, k: K, v: V)
    requires
        keys_unique(s),
    ensures
        keys_unique(key_set(s, k, v)),
        key_index(key_set(s, k, v), k) >= 0,
        key_set(s, k, v)[key_index(key_set(s, k, v), k)] == (k, v),
{
    let r = key_set(s, k, v);
    let i = key_index(s, k);
    if i >= 0 {
        assert forall|a: int, b: int| 0 <= a < b < r.len() implies r[a].0 != r[b].0 by {
            if a != i && b != i {
                assert(s[a].0 != s[b].0);
            } else if a == i {
                assert(s[a].0 != s[b].0);
            } else {
                assert(s[a].0 != s[b].0);
            }
        }
        lemma_key_index(r, i);
    } else {
        assert forall|a: int, b: int| 0 <= a < b < r.len() implies r[a].0 != r[b].0 by {
            if b == s.len() {
                assert(s[a].0 != k);
            }
        }
        lemma_key_index(r, s.len() as int);
    }
}

impl QueryTracker {
    /// No pipeline is registered twice and no query twice.
    pub open spec fn wf(&self) -> bool {
        keys_unique(self@.owners) && keys_unique(self@.queries)
    }

    /// A tracker with no queries.
    pub fn new() -> (r: Self)
        ensures
            r.wf(),
            r@.owners.len() == 0,
            r@.queries.len() == 0,
    {
        let r = QueryTracker { pipeline_to_query: Vec::new(), queries: Vec::new() };
        assert(r@.owners =~= Seq::<(Seq<char>, QueryId)>::empty());
        assert(r@.queries =~= Seq::<(QueryId, QueryStateView)>::empty());
        r
    }

    fn owner_position(&self, pid: &PipelineId) -> (r: Option<usize>)
        requires
            self.wf(),
        ensures
            match r {
                Some(i) => i < self@.owners.len() && key_index(self@.owners, pid@) == i,
                None => key_index(self@.owners, pid@) == -1,
            },
    {
        let mut k: usize = 0;
        while k < self.pipeline_to_query.len()
            invariant
                self.wf(),
                k <= self@.owners.len(),
                self@.owners.len() == self.pipeline_to_query@.len(),
                forall|j: int| 0 <= j < k ==> self@.owners[j].0 != pid@,
            decreases self.pipeline_to_query@.len() - k,
        {
            if self.pipeline_to_query[k].0.same(pid) {
                proof {
                    assert(self@.owners[k as int].0 == pid@);
                    lemma_key_index(self@.owners, k as int);
                }
                return Some(k);
            }
            assert(self@.owners[k as int].0 == self.pipeline_to_query@[k as int].0@);
            k = k + 1;
        }
        None
    }

    fn query_position(&self, query_id: QueryId) -> (r: Option<usize>)
        requires
            self.wf(),
        ensures
            match r {
                Some(i) => i < self@.queries.len() && key_index(self@.queries, query_id) == i,
                None => key_index(self@.queries, query_id) == -1,
            },
    {
        let mut k: usize = 0;
        while k < self.queries.len()
            invariant
                self.wf(),
                k <= self@.queries.len(),
                self@.queries.len() == self.queries@.len(),
                forall|j: int| 0 <= j < k ==> self@.queries[j].0 != query_id,
            decreases self.queries@.len() - k,
        {
            if self.queries[k].0 == query_id {
                proof {
                    assert(self@.queries[k as int].0 == query_id);
                    lemma_key_index(self@.queries, k as int);
                }
                return Some(k);
            }
            assert(self@.queries[k as int].0 == self.queries@[k as int].0);
            k = k + 1;
        }
        None
    }

    /// Maps pipeline `pid` to query `query_id`.
    fn assign(&mut self, pid: PipelineId, query_id: QueryId)
        requires
            old(self).wf(),
        ensures
            final(self).wf(),
            final(self)@ == (TrackerView {
                owners: key_set(old(self)@.owners, pid@, query_id),
                ..old(self)@
            }),
    {
        let ghost v = pid@;
        match self.owner_position(&pid) {
            Some(i) => {
                self.pipeline_to_query.set(i, (pid, query_id));
            },
            None => {
                self.pipeline_to_query.push((pid, query_id));
            },
        }
        proof {
            assert(self@.owners =~= key_set(old(self)@.owners, v, query_id));
            assert(self@.queries =~= old(self)@.queries);
            lemma_key_set_unique(old(self)@.owners, v, query_id);
        }
    }

    /// Sets the state of query `query_id`.
    fn put_state(&mut self, query_id: QueryId, state: QueryState)
        requires
            old(self).wf(),
        ensures
            final(self).wf(),
            final(self)@ == old(self)@.with_state(query_id, state.view()),
    {
        let ghost sv = state.view();
        match self.query_position(query_id) {
            Some(i) => {
                self.queries.set(i, (query_id, state));
            },
            None => {
                self.queries.push((query_id, state));
            },
        }
        proof {
            assert(self@.queries =~= key_set(old(self)@.queries, query_id, sv));
            assert(self@.owners =~= old(self)@.owners);
            lemma_key_set_unique(old(self)@.queries, query_id, sv);
        }
    }

    /// Takes the state of the query at position `i` out, leaving an empty
    /// state in its place (to be put back with `put_state`).
    fn take_state(&mut self, i: usize) -> (r: QueryState)
        requires
            old(self).wf(),
            i < old(self)@.queries.len(),
        ensures
            r.view() == old(self)@.queries[i as int].1,
            final(self)@.owners == old(self)@.owners,
            final(self)@.queries.len() == old(self)@.queries.len(),
            forall|j: int| 0 <= j < final(self)@.queries.len() ==> (#[trigger] final(self)@.queries[j]).0
                == old(self)@.queries[j].0,
            forall|j: int|
                0 <= j < final(self)@.queries.len() && j != i ==> #[trigger] final(self)@.queries[j]
                    == old(self)@.queries[j],
            final(self).wf(),
    {
        let q = self.queries[i].0;
        let mut slot = (
            q,
            QueryState {
                pipeline_ids: Vec::new(),
                source_ids: Vec::new(),
                sources_started: Vec::new(),
                pipelines_stopped: Vec::new(),
                is_running: false,
                is_terminated: false,
                stop_issued: false,
            },
        );
        self.queries.set_and_swap(i, &mut slot);
        proof {
            assert forall|a: int, b: int| 0 <= a < b < self@.queries.len() implies self@.queries[a].0
                != self@.queries[b].0 by {
                assert(old(self)@.queries[a].0 != old(self)@.queries[b].0);
            }
        }
        slot.1
    }

    /// Puts `state` back at position `i`, under the query id stored there.
    fn replace_state(&mut self, i: usize, state: QueryState)
        requires
            old(self).wf(),
            i < old(self)@.queries.len(),
        ensures
            final(self).wf(),
            final(self)@ == old(self)@.with_state(old(self)@.queries[i as int].0, state.view()),
    {
        let q = self.queries[i].0;
        let ghost sv = state.view();
        proof {
            assert(old(self)@.queries[i as int].0 == q);
            lemma_key_index(old(self)@.queries, i as int);
        }
        self.queries.set(i, (q, state));
        proof {
            assert(self@.queries =~= key_set(old(self)@.queries, q, sv));
            assert(self@.owners =~= old(self)@.owners);
            lemma_key_set_unique(old(self)@.queries, q, sv);
        }
    }

    /// Registers query `query_id` with its pipelines and sources: each
    /// pipeline is mapped to the query, and the query starts afresh (a query
    /// registered again is reset).
    pub fn register_query(
        &mut self,
        query_id: QueryId,
        pipeline_ids: Vec<PipelineId>,
        source_ids: Vec<PipelineId>,
    )
        requires
            old(self).wf(),
        ensures
            final(self).wf(),
            final(self)@ == (TrackerView {
                owners: assign_all(old(self)@.owners, id_views(pipeline_ids@), query_id),
                queries: key_set(
                    old(self)@.queries,
                    query_id,
                    fresh_state(id_views(pipeline_ids@), id_views(source_ids@)),
                ),
            }),
    {
        let ghost pv = id_views(pipeline_ids@);
        let mut k: usize = 0;
        while k < pipeline_ids.len()
            invariant
                self.wf(),
                k <= pipeline_ids@.len(),
                pv == id_views(pipeline_ids@),
                self@ == (TrackerView {
                    owners: assign_all(old(self)@.owners, pv.take(k as int), query_id),
                    ..old(self)@
                }),
            decreases pipeline_ids@.len() - k,
        {
            let pid = pipeline_ids[k].clone();
            self.assign(pid, query_id);
            proof {
                assert(pv.take(k as int + 1).drop_last() =~= pv.take(k as int));
                assert(pv.take(k as int + 1).last() == pipeline_ids@[k as int]@);
            }
            k = k + 1;
        }
        proof {
            assert(pv.take(pipeline_ids@.len() as int) =~= pv);
        }
        let state = QueryState {
            pipeline_ids: distinct_ids(pipeline_ids),
            source_ids: distinct_ids(source_ids),
            sources_started: Vec::new(),
            pipelines_stopped: Vec::new(),
            is_running: false,
            is_terminated: false,
            stop_issued: false,
        };
        proof {
            assert(id_views(state.sources_started@) =~= Seq::<Seq<char>>::empty());
            assert(id_views(state.pipelines_stopped@) =~= Seq::<Seq<char>>::empty());
        }
        self.put_state(query_id, state);
    }

    /// The query of pipeline `pipeline_id`; 0 for an unknown pipeline.
    pub fn lookup_query(&self, pipeline_id: &PipelineId) -> (r: QueryId)
        requires
            self.wf(),
        ensures
            r == self@.lookup(pipeline_id@),
    {
        match self.owner_position(pipeline_id) {
            Some(i) => {
                assert(self@.owners[i as int].1 == self.pipeline_to_query@[i as int].1);
                self.pipeline_to_query[i].1
            },
            None => 0,
        }
    }

    /// The sources of query `query_id` (none for an unknown query).
    pub fn get_source_ids(&self, query_id: QueryId) -> (r: Vec<PipelineId>)
        requires
            self.wf(),
        ensures
            id_views(r@) == match self@.state(query_id) {
                Some(st) => st.sources,
                None => Seq::empty(),
            },
    {
        match self.query_position(query_id) {
            Some(i) => {
                assert(self@.queries[i as int].1 == self.queries@[i as int].1.view());
                clone_ids(&self.queries[i].1.source_ids)
            },
            None => {
                let r = Vec::new();
                assert(id_views(r@) =~= Seq::<Seq<char>>::empty());
                r
            },
        }
    }

    /// The pipelines of query `query_id` (none for an unknown query).
    pub fn get_pipeline_ids(&self, query_id: QueryId) -> (r: Vec<PipelineId>)
        requires
            self.wf(),
        ensures
            id_views(r@) == match self@.state(query_id) {
                Some(st) => st.pipelines,
                None => Seq::empty(),
            },
    {
        match self.query_position(query_id) {
            Some(i) => {
                assert(self@.queries[i as int].1 == self.queries@[i as int].1.view());
                clone_ids(&self.queries[i].1.pipeline_ids)
            },
            None => {
                let r = Vec::new();
                assert(id_views(r@) =~= Seq::<Seq<char>>::empty());
                r
            },
        }
    }
}

/// The pipelines and sources of query `q` in tracker state `t` (none for an
/// unknown query).
pub open spec fn query_members(t: TrackerView, q: QueryId) -> (Seq<Seq<char>>, Seq<Seq<char>>) {
    match t.state(q) {
        Some(st) => (st.pipelines, st.sources),
        None => (Seq::empty(), Seq::empty()),
    }
}

/// What the query engine does with one raw event.
pub enum Reaction {
    /// Forward these events to the consumers.
    Forward(Vec<StatisticsEvent>),
    /// A pipeline of a query failed: mark these pipelines of the query as
    /// failed and stop these sources; nothing is forwarded.
    TerminateQuery { pipeline_ids: Vec<PipelineId>, source_ids: Vec<PipelineId> },
}

impl QueryTracker {
    /// Processes a raw event and returns the events to forward, as
    /// `processed` describes.
    pub fn process(&mut self, event: StatisticsEvent) -> (r: Vec<StatisticsEvent>)
        requires
            old(self).wf(),
        ensures
            final(self).wf(),
            (final(self)@, event_views(r@)) == processed(old(self)@, event@),
    {
        let ghost t0 = self@;
        let ghost ev = event@;
        let mut result: Vec<StatisticsEvent> = Vec::new();
        match event {
            StatisticsEvent::PipelineStart { worker_id, pipeline_id, .. } => {
                let q = self.lookup_query(&pipeline_id);
                result.push(StatisticsEvent::PipelineStart { worker_id, query_id: q, pipeline_id });
            },
            StatisticsEvent::PipelineStop { worker_id, pipeline_id, .. } => {
                let q = self.lookup_query(&pipeline_id);
                result.push(
                    StatisticsEvent::PipelineStop {
                        worker_id,
                        query_id: q,
                        pipeline_id: pipeline_id.clone(),
                    },
                );
                match self.query_position(q) {
                    Some(i) => {
                        let mut st = self.take_state(i);
                        insert_id(&mut st.pipelines_stopped, pipeline_id);
                        if !st.is_terminated && st.pipelines_stopped.len()
                            == st.pipeline_ids.len() {
                            st.is_terminated = true;
                            result.push(StatisticsEvent::QueryStop { worker_id, query_id: q });
                            result.push(StatisticsEvent::QueryTerminated { worker_id, query_id: q });
                        }
                        let ghost mid = self@;
                        self.replace_state(i, st);
                        proof {
                            assert(mid.queries.update(i as int, (q, st.view())) =~= t0.queries.update(
                                i as int,
                                (q, st.view()),
                            ));
                            lemma_key_index(t0.queries, i as int);
                            lemma_key_index(mid.queries, i as int);
                        }
                    },
                    None => {},
                }
            },
            StatisticsEvent::SourceStarted { worker_id, source_id } => {
                let q = self.lookup_query(&source_id);
                match self.query_position(q) {
                    Some(i) => {
                        let mut st = self.take_state(i);
                        insert_id(&mut st.sources_started, source_id);
                        if !st.is_running && st.sources_started.len() == st.source_ids.len() {
                            st.is_running = true;
                            result.push(StatisticsEvent::QueryRunning { worker_id, query_id: q });
                        }
                        let ghost mid = self@;
                        self.replace_state(i, st);
                        proof {
                            assert(mid.queries.update(i as int, (q, st.view())) =~= t0.queries.update(
                                i as int,
                                (q, st.view()),
                            ));
                            lemma_key_index(t0.queries, i as int);
                            lemma_key_index(mid.queries, i as int);
                        }
                    },
                    None => {},
                }
            },
            StatisticsEvent::TaskExecutionStart { worker_id, pipeline_id, task_id, .. } => {
                let q = self.lookup_query(&pipeline_id);
                result.push(
                    StatisticsEvent::TaskExecutionStart { worker_id, query_id: q, pipeline_id, task_id },
                );
            },
            StatisticsEvent::TaskExecutionComplete { worker_id, pipeline_id, task_id, .. } => {
                let q = self.lookup_query(&pipeline_id);
                result.push(
                    StatisticsEvent::TaskExecutionComplete {
                        worker_id,
                        query_id: q,
                        pipeline_id,
                        task_id,
                    },
                );
            },
            StatisticsEvent::TaskEmit {
                worker_id,
                from_pipeline_id,
                to_pipeline_id,
                task_id,
                ..
            } => {
                let q = self.lookup_query(&from_pipeline_id);
                result.push(
                    StatisticsEvent::TaskEmit {
                        worker_id,
                        query_id: q,
                        from_pipeline_id,
                        to_pipeline_id,
                        task_id,
                    },
                );
            },
            StatisticsEvent::PipelineExecutionError { pipeline_id, .. } => {
                let q = self.lookup_query(&pipeline_id);
                match self.query_position(q) {
                    Some(i) => {
                        if !self.queries[i].1.stop_issued {
                            let mut st = self.take_state(i);
                            st.stop_issued = true;
                            let ghost mid = self@;
                            self.replace_state(i, st);
                            proof {
                                assert(mid.queries.update(i as int, (q, st.view()))
                                    =~= t0.queries.update(i as int, (q, st.view())));
                                lemma_key_index(t0.queries, i as int);
                                lemma_key_index(mid.queries, i as int);
                            }
                            result.push(
                                StatisticsEvent::PipelineExecutionError { worker_id: 0, pipeline_id },
                            );
                        } else {
                            assert(t0.queries[i as int].1 == self.queries@[i as int].1.view());
                        }
                    },
                    None => {},
                }
            },
            other => {
                result.push(other);
            },
        }
        proof {
            assert(event_views(result@) =~= processed(t0, ev).1);
        }
        result
    }

    /// Marks every query that has not terminated as terminated and returns
    /// `QueryStop` and `QueryTerminated` for each of them, in order of
    /// registration.
    pub fn terminate_remaining(&mut self) -> (r: Vec<StatisticsEvent>)
        requires
            old(self).wf(),
        ensures
            final(self).wf(),
            final(self)@.owners == old(self)@.owners,
            final(self)@.queries.len() == old(self)@.queries.len(),
            forall|j: int|
                0 <= j < old(self)@.queries.len() ==> #[trigger] final(self)@.queries[j] == (
                old(self)@.queries[j].0,
                QueryStateView { is_terminated: true, ..old(self)@.queries[j].1 },
            ),
            event_views(r@) == termination_events(old(self)@.queries),
    {
        let ghost t0 = self@;
        let mut result: Vec<StatisticsEvent> = Vec::new();
        let mut i: usize = 0;
        proof {
            assert(t0.queries.take(0) =~= Seq::<(QueryId, QueryStateView)>::empty());
            assert(event_views(result@) =~= Seq::<EventView>::empty());
        }
        while i < self.queries.len()
            invariant
                self.wf(),
                self@.owners == t0.owners,
                self@.queries.len() == t0.queries.len(),
                self.queries@.len() == t0.queries.len(),
                i <= t0.queries.len(),
                forall|j: int|
                    0 <= j < i ==> #[trigger] self@.queries[j] == (
                        t0.queries[j].0,
                        QueryStateView { is_terminated: true, ..t0.queries[j].1 },
                    ),
                forall|j: int| i <= j < t0.queries.len() ==> #[trigger] self@.queries[j] == t0.queries[j],
                event_views(result@) == termination_events(t0.queries.take(i as int)),
            decreases t0.queries.len() - i,
        {
            let q = self.queries[i].0;
            let ghost before = self@;
            assert(before.queries[i as int] == (q, self.queries@[i as int].1.view()));
            let terminated = self.queries[i].1.is_terminated;
            let ghost ev0 = event_views(result@);
            if !terminated {
                let mut st = self.take_state(i);
                st.is_terminated = true;
                let ghost mid = self@;
                self.replace_state(i, st);
                proof {
                    lemma_key_index(mid.queries, i as int);
                    assert(self@.queries =~= before.queries.update(i as int, (q, st.view())));
                }
                result.push(StatisticsEvent::QueryStop { worker_id: 0, query_id: q });
                result.push(StatisticsEvent::QueryTerminated { worker_id: 0, query_id: q });
                proof {
                    assert(event_views(result@) =~= ev0 + seq![
                        EventView::QueryStop { worker_id: 0, query_id: q },
                        EventView::QueryTerminated { worker_id: 0, query_id: q },
                    ]);
                }
            } else {
                proof {
                    assert(t0.queries[i as int].1 == QueryStateView {
                        is_terminated: true,
                        ..t0.queries[i as int].1
                    });
                    assert(ev0 + Seq::<EventView>::empty() =~= ev0);
                }
            }
            proof {
                assert(t0.queries.take(i as int + 1).drop_last() =~= t0.queries.take(i as int));
                assert(t0.queries.take(i as int + 1).last() == t0.queries[i as int]);
            }
            i = i + 1;
        }
        proof {
            assert(t0.queries.take(t0.queries.len() as int) =~= t0.queries);
        }
        result
    }
}

/// `QueryStop` and `QueryTerminated` (from worker 0) for each query of
/// `qs` that has not terminated, in order.
pub open spec fn termination_events(qs: Seq<(QueryId, QueryStateView)>) -> Seq<EventView>
    decreases qs.len(),
{
    if qs.len() == 0 {
        Seq::empty()
    } else {
        termination_events(qs.drop_last()) + if !qs.last().1.is_terminated {
            seq![
                EventView::QueryStop { worker_id: 0, query_id: qs.last().0 },
                EventView::QueryTerminated { worker_id: 0, query_id: qs.last().0 },
            ]
        } else {
            Seq::empty()
        }
    }
}

} // verus!

verus! {

/// The tracker after registering query `q` with pipelines `pids` and
/// sources `srcs`.
pub open spec fn registered(
    t: TrackerView,
    q: QueryId,
    pids: Seq<Seq<char>>,
    srcs: Seq<Seq<char>>,
) -> TrackerView {
    TrackerView {
        owners: assign_all(t.owners, pids, q),
        queries: key_set(t.queries, q, fresh_state(pids, srcs)),
    }
}

proof fn lemma_assign_all_lookup(s: Seq<(Seq<char>, QueryId)>, ids: Seq<Seq<char>>, q: QueryId, k: int)
    requires
        keys_unique(s),
        0 <= k < ids.len(),
    ensures
        keys_unique(assign_all(s, ids, q)),
        ({
            let r = assign_all(s, ids, q);
            let i = key_index(r, ids[k]);
            i >= 0 && r[i].1 == q
        }),
    decreases ids.len(),
{
    let prev = assign_all(s, ids.drop_last(), q);
    if k < ids.len() - 1 {
        lemma_assign_all_lookup(s, ids.drop_last(), q, k);
        lemma_key_set_unique(prev, ids.last(), q);
        let r = key_set(prev, ids.last(), q);
        let i0 = key_index(prev, ids[k]);
        if ids[k] == ids.last() {
        } else {
            let j = key_index(prev, ids.last());
            if j >= 0 {
                assert(r[i0] == prev[i0]);
                lemma_key_index(r, i0);
            } else {
                assert(r[i0] == prev[i0]);
                lemma_key_index(r, i0);
            }
        }
    } else {
        if ids.len() > 1 {
            lemma_assign_all_lookup(s, ids.drop_last(), q, 0);
        } else {
            assert(ids.drop_last().len() == 0);
        }
        lemma_key_set_unique(prev, ids.last(), q);
    }
}

/// The events announcing a newly registered query: `QueryStart`, followed
/// by `QueryRunning` when the query has no source to wait for.
pub fn registration_events(query_id: QueryId, has_sources: bool) -> (r: Vec<StatisticsEvent>)
    ensures
        event_views(r@) == if has_sources {
            seq![EventView::QueryStart { worker_id: 0, query_id }]
        } else {
            seq![
                EventView::QueryStart { worker_id: 0, query_id },
                EventView::QueryRunning { worker_id: 0, query_id },
            ]
        },
{
    let mut r: Vec<StatisticsEvent> = Vec::new();
    r.push(StatisticsEvent::QueryStart { worker_id: 0, query_id });
    if !has_sources {
        r.push(StatisticsEvent::QueryRunning { worker_id: 0, query_id });
    }
    assert(event_views(r@) =~= if has_sources {
        seq![EventView::QueryStart { worker_id: 0, query_id }]
    } else {
        seq![
            EventView::QueryStart { worker_id: 0, query_id },
            EventView::QueryRunning { worker_id: 0, query_id },
        ]
    });
    r
}

impl QueryTracker {
    /// Processes a raw event as `process` does and decides what follows.
    /// The first error of a query is not forwarded: the query is to be
    /// terminated, its pipelines marked as failed and its sources stopped.
    /// Every other outcome is forwarded.
    pub fn react(&mut self, event: StatisticsEvent) -> (r: Reaction)
        requires
            old(self).wf(),
        ensures
            final(self).wf(),
            final(self)@ == processed(old(self)@, event@).0,
            match r {
                Reaction::Forward(events) => event_views(events@) == processed(old(self)@, event@).1
                    && !(event@ is PipelineExecutionError && processed(old(self)@, event@).1.len() > 0),
                Reaction::TerminateQuery { pipeline_ids, source_ids } => event@ matches EventView::PipelineExecutionError { pipeline, .. }
                    && processed(old(self)@, event@).1.len() > 0
                    && (id_views(pipeline_ids@), id_views(source_ids@))
                        == query_members(final(self)@, final(self)@.lookup(pipeline)),
            },
    {
        let failed: Option<PipelineId> = match &event {
            StatisticsEvent::PipelineExecutionError { pipeline_id, .. } => Some(pipeline_id.clone()),
            _ => None,
        };
        let events = self.process(event);
        match failed {
            Some(pid) => {
                if events.len() > 0 {
                    let q = self.lookup_query(&pid);
                    let pipeline_ids = self.get_pipeline_ids(q);
                    let source_ids = self.get_source_ids(q);
                    Reaction::TerminateQuery { pipeline_ids, source_ids }
                } else {
                    Reaction::Forward(events)
                }
            },
            None => Reaction::Forward(events),
        }
    }
}

/// After a query is registered, every one of its pipelines maps to it.
pub proof fn lemma_register_then_lookup(
    t: TrackerView,
    q: QueryId,
    pids: Seq<Seq<char>>,
    srcs: Seq<Seq<char>>,
    k: int,
)
    requires
        keys_unique(t.owners),
        keys_unique(t.queries),
        0 <= k < pids.len(),
    ensures
        registered(t, q, pids, srcs).lookup(pids[k]) == q,
        registered(t, q, pids, srcs).state(q) == Some(fresh_state(pids, srcs)),
{
    lemma_assign_all_lookup(t.owners, pids, q, k);
    lemma_key_set_unique(t.queries, q, fresh_state(pids, srcs));
}

/// `QueryRunning` comes out of a `SourceStarted` event only for a query
/// that was not running yet and is running afterwards; once a query runs,
/// no `SourceStarted` event brings another `QueryRunning` for it.
pub proof fn lemma_query_running_once(t: TrackerView, worker_id: u64, source: Seq<char>, q: QueryId)
    requires
        keys_unique(t.queries),
    ensures
        ({
            let (t1, out) = processed(t, EventView::SourceStarted { worker_id, source });
            (exists|w: u64| out.contains(EventView::QueryRunning { worker_id: w, query_id: q }))
                ==> (t.state(q) is Some && !t.state(q)->0.is_running && t1.state(q) is Some
                && t1.state(q)->0.is_running)
        }),
        (t.state(q) is Some && t.state(q)->0.is_running) ==> !(exists|w: u64|
            processed(t, EventView::SourceStarted { worker_id, source }).1.contains(
                EventView::QueryRunning { worker_id: w, query_id: q },
            )),
{
    let p = t.lookup(source);
    let (t1, out) = processed(t, EventView::SourceStarted { worker_id, source });
    if let Some(st) = t.state(p) {
        let started = set_insert(st.started, source);
        let st1 = QueryStateView { started, is_running: true, ..st };
        lemma_key_set_unique(t.queries, p, st1);
    }
    if exists|w: u64| out.contains(EventView::QueryRunning { worker_id: w, query_id: q }) {
        let w = choose|w: u64| out.contains(EventView::QueryRunning { worker_id: w, query_id: q });
        assert(out.len() == 1 && out[0] == EventView::QueryRunning { worker_id: w, query_id: q });
    }
}

/// `QueryStop` and `QueryTerminated` come out of a `PipelineStop` event
/// only for a query that had not terminated and has terminated afterwards.
pub proof fn lemma_query_terminated_once(t: TrackerView, worker_id: u64, query_id: QueryId, pipeline: Seq<char>, q: QueryId)
    requires
        keys_unique(t.queries),
    ensures
        ({
            let (t1, out) = processed(t, EventView::PipelineStop { worker_id, query_id, pipeline });
            (exists|w: u64| out.contains(EventView::QueryTerminated { worker_id: w, query_id: q }))
                ==> (t.state(q) is Some && !t.state(q)->0.is_terminated && t1.state(q) is Some
                && t1.state(q)->0.is_terminated)
        }),
{
    let p = t.lookup(pipeline);
    let (t1, out) = processed(t, EventView::PipelineStop { worker_id, query_id, pipeline });
    if let Some(st) = t.state(p) {
        let stopped = set_insert(st.stopped, pipeline);
        let st1 = QueryStateView { stopped, is_terminated: true, ..st };
        lemma_key_set_unique(t.queries, p, st1);
    }
    if exists|w: u64| out.contains(EventView::QueryTerminated { worker_id: w, query_id: q }) {
        let w = choose|w: u64| out.contains(EventView::QueryTerminated { worker_id: w, query_id: q });
        let k = choose|k: int| 0 <= k < out.len() && out[k] == EventView::QueryTerminated { worker_id: w, query_id: q };
        assert(out.len() == 3);
    }
}

/// A pipeline-level event names the query of its pipeline in tracker state
/// `t` (of the sending pipeline for `TaskEmit`); other events name no
/// pipeline's query.
pub open spec fn names_query_of_pipeline(t: TrackerView, e: EventView) -> bool {
    match e {
        EventView::PipelineStart { query_id, pipeline, .. } => query_id == t.lookup(pipeline),
        EventView::PipelineStop { query_id, pipeline, .. } => query_id == t.lookup(pipeline),
        EventView::TaskExecutionStart { query_id, pipeline, .. } => query_id == t.lookup(pipeline),
        EventView::TaskExecutionComplete { query_id, pipeline, .. } => query_id == t.lookup(pipeline),
        EventView::TaskEmit { query_id, from, .. } => query_id == t.lookup(from),
        _ => true,
    }
}

/// Every pipeline-level event the tracker forwards carries the query that
/// its pipeline was registered under (0 for an unknown pipeline), whatever
/// query id the executor put in it; the other fields of a pipeline-level
/// event pass through unchanged.
pub proof fn lemma_forwarded_events_carry_query(t: TrackerView, e: EventView)
    ensures
        forall|k: int|
            0 <= k < processed(t, e).1.len() ==> #[trigger] names_query_of_pipeline(
                t,
                processed(t, e).1[k],
            ),
        match e {
            EventView::PipelineStart { worker_id, pipeline, .. } => processed(t, e).1[0]
                == EventView::PipelineStart { worker_id, query_id: t.lookup(pipeline), pipeline },
            EventView::PipelineStop { worker_id, pipeline, .. } => processed(t, e).1[0]
                == EventView::PipelineStop { worker_id, query_id: t.lookup(pipeline), pipeline },
            EventView::TaskExecutionStart { worker_id, pipeline, task_id, .. } => processed(t, e).1
                == seq![EventView::TaskExecutionStart { worker_id, query_id: t.lookup(pipeline), pipeline, task_id }],
            EventView::TaskExecutionComplete { worker_id, pipeline, task_id, .. } => processed(t, e).1
                == seq![EventView::TaskExecutionComplete { worker_id, query_id: t.lookup(pipeline), pipeline, task_id }],
            EventView::TaskEmit { worker_id, from, to, task_id, .. } => processed(t, e).1
                == seq![EventView::TaskEmit { worker_id, query_id: t.lookup(from), from, to, task_id }],
            _ => true,
        },
{
}

} // verus!
