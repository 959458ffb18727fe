//! Ready-made pipelines: a predicate filter, a fan-out, a windowing-style
//! occasional emitter, a key-value stateful pass-through and a counting sink.

use crate::executor::context::ExecutorContext;
use crate::pipeline::{Buffer, BufferView, Pipeline, PipelineError, PipelineId};
use vstd::prelude::*;
use vstd::string::*;

verus! {

/// The counter value after one more input: counters wrap around at the
/// maximum instead of overflowing.
pub open spec fn next_count(c: usize) -> usize {
    if c == usize::MAX { 0 } else { (c + 1) as usize }
}

fn increment_wrapping(c: usize) -> (r: usize)
    ensures
        r == next_count(c),
{
    if c == usize::MAX { 0 } else { c + 1 }
}

/// Passes a buffer through when the predicate holds, drops it otherwise.
pub struct FilterPipeline<F: Fn(&Buffer) -> bool + Send> {
    id: PipelineId,
    predicate: F,
}

impl<F: Fn(&Buffer) -> bool + Send> FilterPipeline<F> {
    /// The predicate accepts every buffer.
    #[verifier::type_invariant]
    spec fn predicate_total(self) -> bool {
        forall|b: &Buffer| call_requires(self.predicate, (b,))
    }

    pub closed spec fn predicate_spec(&self) -> F {
        self.predicate
    }

    pub closed spec fn id_spec(&self) -> PipelineId {
        self.id
    }

    /// A filter with id `id` passing the buffers on which `predicate` holds.
    pub fn new(id: PipelineId, predicate: F) -> (r: Self)
        requires
            forall|b: &Buffer| call_requires(predicate, (b,)),
        ensures
            r.id_spec() == id,
            r.predicate_spec() == predicate,
    {
        FilterPipeline { id, predicate }
    }
}

impl<F: Fn(&Buffer) -> bool + Send> Pipeline for FilterPipeline<F> {
    /// One output, the input itself, when the predicate holds; none
    /// otherwise.
    fn execute(&mut self, input: Buffer, context: &mut ExecutorContext) -> (r: Result<
        Vec<Buffer>,
        PipelineError,
    >)
        ensures
            r is Ok,
            r->Ok_0@ == seq![input] || r->Ok_0@.len() == 0,
            r->Ok_0@.len() > 0 ==> call_ensures(old(self).predicate_spec(), (&input,), true),
            r->Ok_0@.len() == 0 ==> call_ensures(old(self).predicate_spec(), (&input,), false),
            *final(self) == *old(self),
    {
        proof {
            use_type_invariant(&*self);
        }
        let pass = (self.predicate)(&input);
        if pass {
            let mut out = Vec::new();
            out.push(input);
            Ok(out)
        } else {
            Ok(Vec::new())
        }
    }

    fn id(&self) -> (r: &PipelineId)
        ensures
            *r == self.id_spec(),
    {
        &self.id
    }
}

/// Emits `fanout` copies of the bytes of each input buffer.
pub struct MultibufferPipeline {
    id: PipelineId,
    fanout: usize,
}

impl MultibufferPipeline {
    pub closed spec fn id_spec(&self) -> PipelineId {
        self.id
    }

    pub closed spec fn fanout_spec(&self) -> usize {
        self.fanout
    }

    /// A fan-out pipeline emitting `fanout` buffers per input.
    pub fn new(id: PipelineId, fanout: usize) -> (r: Self)
        ensures
            r.id_spec() == id,
            r.fanout_spec() == fanout,
    {
        Self { id, fanout }
    }

    /// The fan-out factor.
    pub fn fanout(&self) -> (r: usize)
        ensures
            r == self.fanout_spec(),
    {
        self.fanout
    }
}

impl Pipeline for MultibufferPipeline {
    /// `fanout` owned buffers, each holding the input's bytes.
    fn execute(&mut self, input: Buffer, context: &mut ExecutorContext) -> (r: Result<
        Vec<Buffer>,
        PipelineError,
    >)
        ensures
            r is Ok,
            r->Ok_0@.len() == old(self).fanout_spec(),
            forall|i: int|
                0 <= i < r->Ok_0@.len() ==> #[trigger] r->Ok_0@[i]@ == BufferView::Owned(
                    input@.bytes(),
                ),
            *final(self) == *old(self),
    {
        let mut outputs: Vec<Buffer> = Vec::new();
        let mut i: usize = 0;
        while i < self.fanout
            invariant
                i <= self.fanout,
                outputs@.len() == i,
                forall|j: int|
                    0 <= j < i ==> #[trigger] outputs@[j]@ == BufferView::Owned(input@.bytes()),
            decreases self.fanout - i,
        {
            let child = Buffer::new(input.to_vec());
            outputs.push(child);
            i = i + 1;
        }
        Ok(outputs)
    }

    fn id(&self) -> (r: &PipelineId)
        ensures
            *r == self.id_spec(),
    {
        &self.id
    }
}

/// Whether the `count`-th input is emitted by an occasional emitter with
/// interval `interval`: when `count` is a multiple of `interval` (for a zero
/// interval, only a count of zero is its multiple).
pub open spec fn emits_at(count: usize, interval: usize) -> bool {
    if interval == 0 { count == 0 } else { count % interval == 0 }
}

/// Emits only every `emission_interval`-th input, like a window.
pub struct OccasionalEmissionPipeline {
    id: PipelineId,
    emission_interval: usize,
    counter: usize,
}

impl OccasionalEmissionPipeline {
    pub closed spec fn id_spec(&self) -> PipelineId {
        self.id
    }

    pub closed spec fn interval_spec(&self) -> usize {
        self.emission_interval
    }

    /// The number of inputs seen since creation or the last reset.
    pub closed spec fn counter_spec(&self) -> usize {
        self.counter
    }

    /// An emitter with the given interval and a zero counter.
    pub fn new(id: PipelineId, emission_interval: usize) -> (r: Self)
        ensures
            r.id_spec() == id,
            r.interval_spec() == emission_interval,
            r.counter_spec() == 0,
    {
        Self { id, emission_interval, counter: 0 }
    }

    /// The emission interval.
    pub fn emission_interval(&self) -> (r: usize)
        ensures
            r == self.interval_spec(),
    {
        self.emission_interval
    }

    /// Resets the counter to zero.
    pub fn reset_counter(&mut self)
        ensures
            final(self).counter_spec() == 0,
            final(self).interval_spec() == old(self).interval_spec(),
            final(self).id_spec() == old(self).id_spec(),
    {
        self.counter = 0;
    }

    /// The current counter value.
    pub fn counter(&self) -> (r: usize)
        ensures
            r == self.counter_spec(),
    {
        self.counter
    }
}

impl Pipeline for OccasionalEmissionPipeline {
    /// Counts the input; passes it through when the new count is a multiple
    /// of the interval, emits nothing otherwise.
    fn execute(&mut self, input: Buffer, context: &mut ExecutorContext) -> (r: Result<
        Vec<Buffer>,
        PipelineError,
    >)
        ensures
            r is Ok,
            final(self).counter_spec() == next_count(old(self).counter_spec()),
            final(self).interval_spec() == old(self).interval_spec(),
            final(self).id_spec() == old(self).id_spec(),
            emits_at(final(self).counter_spec(), old(self).interval_spec()) ==> r->Ok_0@ == seq![
                input,
            ],
            !emits_at(final(self).counter_spec(), old(self).interval_spec()) ==> r->Ok_0@.len()
                == 0,
    {
        let count = increment_wrapping(self.counter);
        self.counter = count;
        let emit = if self.emission_interval == 0 {
            count == 0
        } else {
            count % self.emission_interval == 0
        };
        if emit {
            let mut out = Vec::new();
            out.push(input);
            Ok(out)
        } else {
            Ok(Vec::new())
        }
    }

    fn id(&self) -> (r: &PipelineId)
        ensures
            *r == self.id_spec(),
    {
        &self.id
    }
}

/// The key-value state described by an association list (later entries win).
pub open spec fn state_map(s: Seq<(String, Vec<u8>)>) -> Map<Seq<char>, Seq<u8>>
    decreases s.len(),
{
    if s.len() == 0 {
        Map::empty()
    } else {
        state_map(s.drop_last()).insert(s.last().0@, s.last().1@)
    }
}

/// No key occurs twice in the association list.
pub open spec fn keys_unique(s: Seq<(String, Vec<u8>)>) -> bool {
    forall|i: int, j: int| 0 <= i < j < s.len() ==> s[i].0@ != s[j].0@
}

proof fn lemma_state_map_dom(s: Seq<(String, Vec<u8>)>, k: Seq<char>)
    ensures
        state_map(s).dom().contains(k) <==> exists|i: int| 0 <= i < s.len() && s[i].0@ == k,
    decreases s.len(),
{
    if s.len() > 0 {
        lemma_state_map_dom(s.drop_last(), k);
        if state_map(s).dom().contains(k) && s.last().0@ != k {
            let i = choose|i: int| 0 <= i < s.drop_last().len() && s.drop_last()[i].0@ == k;
            assert(s[i].0@ == k);
        }
        if exists|i: int| 0 <= i < s.len() && s[i].0@ == k {
            let i = choose|i: int| 0 <= i < s.len() && s[i].0@ == k;
            if i < s.len() - 1 {
                assert(s.drop_last()[i].0@ == k);
            }
        }
    }
}

proof fn lemma_state_map_at(s: Seq<(String, Vec<u8>)>, i: int)
    requires
        keys_unique(s),
        0 <= i < s.len(),
    ensures
        state_map(s).dom().contains(s[i].0@),
        state_map(s)[s[i].0@] == s[i].1@,
    decreases s.len(),
{
    if i < s.len() - 1 {
        lemma_state_map_at(s.drop_last(), i);
    }
}

proof fn lemma_state_map_update(s: Seq<(String, Vec<u8>)>, i: int, k: String, v: Vec<u8>)
    requires
        keys_unique(s),
        0 <= i < s.len(),
        s[i].0@ == k@,
    ensures
        state_map(s.update(i, (k, v))) == state_map(s).insert(k@, v@),
        keys_unique(s.update(i, (k, v))),
    decreases s.len(),
{
    let t = s.update(i, (k, v));
    if i == s.len() - 1 {
        assert(t.drop_last() =~= s.drop_last());
        lemma_state_map_dom(s.drop_last(), k@);
        assert(state_map(t) =~= state_map(s).insert(k@, v@));
    } else {
        lemma_state_map_update(s.drop_last(), i, k, v);
        assert(t.drop_last() =~= s.drop_last().update(i, (k, v)));
        assert(s.last().0@ != k@);
        assert(state_map(t) =~= state_map(s).insert(k@, v@));
    }
}

proof fn lemma_state_map_len(s: Seq<(String, Vec<u8>)>)
    requires
        keys_unique(s),
    ensures
        state_map(s).dom().finite(),
        state_map(s).len() == s.len(),
    decreases s.len(),
{
    if s.len() > 0 {
        lemma_state_map_len(s.drop_last());
        lemma_state_map_dom(s.drop_last(), s.last().0@);
    }
}

/// A pass-through pipeline holding key-value state.
pub struct StatefulPipeline {
    id: PipelineId,
    state: Vec<(String, Vec<u8>)>,
}

impl StatefulPipeline {
    /// Each key is stored once.
    #[verifier::type_invariant]
    spec fn unique_keys(self) -> bool {
        keys_unique(self.state@)
    }

    pub closed spec fn id_spec(&self) -> PipelineId {
        self.id
    }

    /// The stored state.
    pub closed spec fn state_spec(&self) -> Map<Seq<char>, Seq<u8>> {
        state_map(self.state@)
    }

    /// A stateful pipeline with empty state.
    pub fn new(id: PipelineId) -> (r: Self)
        ensures
            r.id_spec() == id,
            r.state_spec() == Map::<Seq<char>, Seq<u8>>::empty(),
    {
        Self { id, state: Vec::new() }
    }

    /// Stores `value` under `key`, replacing an earlier value.
    pub fn set_state(&mut self, key: String, value: Vec<u8>)
        ensures
            final(self).state_spec() == old(self).state_spec().insert(key@, value@),
            final(self).id_spec() == old(self).id_spec(),
    {
        proof {
            use_type_invariant(&*self);
        }
        let mut i: usize = 0;
        while i < self.state.len()
            invariant
                i <= self.state@.len(),
                keys_unique(self.state@),
                *self == *old(self),
                forall|j: int| 0 <= j < i ==> self.state@[j].0@ != key@,
            decreases self.state@.len() - i,
        {
            if self.state[i].0 == key {
                proof {
                    lemma_state_map_update(self.state@, i as int, key, value);
                }
                let mut state = Vec::new();
                std::mem::swap(&mut state, &mut self.state);
                state.set(i, (key, value));
                std::mem::swap(&mut state, &mut self.state);
                return;
            }
            i = i + 1;
        }
        let mut state = Vec::new();
        std::mem::swap(&mut state, &mut self.state);
        state.push((key, value));
        proof {
            assert(state@.drop_last() =~= old(self).state@);
        }
        std::mem::swap(&mut state, &mut self.state);
    }

    /// The value stored under `key`, if any.
    pub fn get_state(&self, key: &str) -> (r: Option<Vec<u8>>)
        ensures
            match r {
                Some(v) => self.state_spec().dom().contains(key@) && v@ == self.state_spec()[key@],
                None => !self.state_spec().dom().contains(key@),
            },
    {
        proof {
            use_type_invariant(self);
        }
        let wanted = String::from_str(key);
        let mut i: usize = 0;
        while i < self.state.len()
            invariant
                i <= self.state@.len(),
                keys_unique(self.state@),
                wanted@ == key@,
                forall|j: int| 0 <= j < i ==> self.state@[j].0@ != key@,
            decreases self.state@.len() - i,
        {
            if self.state[i].0 == wanted {
                proof {
                    lemma_state_map_at(self.state@, i as int);
                }
                let v = self.state[i].1.clone();
                assert(v@ =~= self.state@[i as int].1@);
                return Some(v);
            }
            i = i + 1;
        }
        proof {
            lemma_state_map_dom(self.state@, key@);
        }
        None
    }

    /// Removes all state.
    pub fn clear_state(&mut self)
        ensures
            final(self).state_spec() == Map::<Seq<char>, Seq<u8>>::empty(),
            final(self).id_spec() == old(self).id_spec(),
    {
        self.state = Vec::new();
    }

    /// The number of stored keys.
    pub fn state_len(&self) -> (r: usize)
        ensures
            r == self.state_spec().len(),
    {
        proof {
            use_type_invariant(self);
            lemma_state_map_len(self.state@);
        }
        self.state.len()
    }
}

impl Pipeline for StatefulPipeline {
    /// Passes the input through unchanged.
    fn execute(&mut self, input: Buffer, context: &mut ExecutorContext) -> (r: Result<
        Vec<Buffer>,
        PipelineError,
    >)
        ensures
            r is Ok && r->Ok_0@ == seq![input],
            final(self).state_spec() == old(self).state_spec(),
            final(self).id_spec() == old(self).id_spec(),
    {
        let mut out = Vec::new();
        out.push(input);
        Ok(out)
    }

    fn id(&self) -> (r: &PipelineId)
        ensures
            *r == self.id_spec(),
    {
        &self.id
    }
}

/// A terminal pipeline that counts its inputs and emits nothing.
pub struct SinkPipeline {
    id: PipelineId,
    received_buffers: usize,
}

impl SinkPipeline {
    pub closed spec fn id_spec(&self) -> PipelineId {
        self.id
    }

    pub closed spec fn count_spec(&self) -> usize {
        self.received_buffers
    }

    /// A sink with id `id` and a zero count.
    pub fn new(id: &str) -> (r: Self)
        ensures
            r.id_spec()@ == id@,
            r.count_spec() == 0,
    {
        Self { id: PipelineId::new(id), received_buffers: 0 }
    }

    /// The number of buffers received.
    pub fn buffer_count(&self) -> (r: usize)
        ensures
            r == self.count_spec(),
    {
        self.received_buffers
    }

    /// Resets the count to zero.
    pub fn reset_counter(&mut self)
        ensures
            final(self).count_spec() == 0,
            final(self).id_spec() == old(self).id_spec(),
    {
        self.received_buffers = 0;
    }
}

impl Pipeline for SinkPipeline {
    /// Counts the input and emits nothing.
    fn execute(&mut self, input: Buffer, context: &mut ExecutorContext) -> (r: Result<
        Vec<Buffer>,
        PipelineError,
    >)
        ensures
            r is Ok && r->Ok_0@.len() == 0,
            final(self).count_spec() == next_count(old(self).count_spec()),
            final(self).id_spec() == old(self).id_spec(),
    {
        self.received_buffers = increment_wrapping(self.received_buffers);
        Ok(Vec::new())
    }

    fn id(&self) -> (r: &PipelineId)
        ensures
            *r == self.id_spec(),
    {
        &self.id
    }
}

} // verus!
