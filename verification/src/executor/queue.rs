//! Task queues with interchangeable scheduling strategies: first-in
//! first-out, last-in first-out, by task priority, and in random order.

use crate::executor::task::{Task, TaskView, task_views};
use rand::Rng;
use std::collections::VecDeque;
use vstd::multiset::Multiset;
use vstd::prelude::*;

verus! {

broadcast use vstd::seq_lib::group_to_multiset_ensures;

/// A queue of tasks. Every strategy hands out each pushed task exactly once;
/// they differ in which task comes next.
pub trait TaskQueue: Send {
    /// The tasks in the queue.
    spec fn tasks(&self) -> Multiset<TaskView>;

    /// Adds a task.
    fn push(&mut self, task: Task)
        ensures
            final(self).tasks() == old(self).tasks().insert(task@),
    ;

    /// Removes and returns the next task; `None` when the queue is empty.
    fn pop(&mut self) -> (r: Option<Task>)
        ensures
            r is None <==> old(self).tasks().len() == 0,
            r is None ==> final(self).tasks() == old(self).tasks(),
            r is Some ==> old(self).tasks().contains(r->0@) && final(self).tasks()
                == old(self).tasks().remove(r->0@),
    ;

    /// The number of queued tasks.
    fn len(&self) -> (r: usize)
        ensures
            r == self.tasks().len(),
    ;

    /// Whether no task is queued.
    fn is_empty(&self) -> (r: bool)
        ensures
            r == (self.tasks().len() == 0),
    {
        self.len() == 0
    }
}

/// Tasks are handed out in the order they were pushed.
pub struct FifoQueue {
    inner: VecDeque<Task>,
}

impl View for FifoQueue {
    type V = Seq<TaskView>;

    /// The queued tasks, oldest first.
    closed spec fn view(&self) -> Seq<TaskView> {
        task_views(self.inner@)
    }
}

impl FifoQueue {
    /// An empty queue.
    pub fn new() -> (r: Self)
        ensures
            r@ == Seq::<TaskView>::empty(),
    {
        FifoQueue { inner: VecDeque::new() }
    }
}

impl Default for FifoQueue {
    fn default() -> (r: Self)
        ensures
            r@ == Seq::<TaskView>::empty(),
    {
        Self::new()
    }
}

impl TaskQueue for FifoQueue {
    open spec fn tasks(&self) -> Multiset<TaskView> {
        self@.to_multiset()
    }

    /// Appends the task at the back.
    fn push(&mut self, task: Task)
        ensures
            final(self)@ == old(self)@.push(task@),
    {
        self.inner.push_back(task);
        proof {
            assert(self@ =~= old(self)@.push(task@));
        }
    }

    /// Removes the oldest task.
    fn pop(&mut self) -> (r: Option<Task>)
        ensures
            old(self)@.len() > 0 ==> r is Some && r->0@ == old(self)@[0] && final(self)@ == old(
                self,
            )@.subrange(1, old(self)@.len() as int),
    {
        let r = self.inner.pop_front();
        proof {
            if r is Some {
                assert(self@ =~= old(self)@.subrange(1, old(self)@.len() as int));
                assert(old(self)@.subrange(1, old(self)@.len() as int) =~= old(self)@.remove(0));
                assert(old(self)@.contains(old(self)@[0]));
            }
        }
        r
    }

    fn len(&self) -> (r: usize) {
        self.inner.len()
    }
}

/// Tasks are handed out newest first.
pub struct LifoQueue {
    inner: Vec<Task>,
}

impl View for LifoQueue {
    type V = Seq<TaskView>;

    /// The queued tasks, oldest first.
    closed spec fn view(&self) -> Seq<TaskView> {
        task_views(self.inner@)
    }
}

impl LifoQueue {
    /// An empty queue.
    pub fn new() -> (r: Self)
        ensures
            r@ == Seq::<TaskView>::empty(),
    {
        LifoQueue { inner: Vec::new() }
    }
}

impl Default for LifoQueue {
    fn default() -> (r: Self)
        ensures
            r@ == Seq::<TaskView>::empty(),
    {
        Self::new()
    }
}

impl TaskQueue for LifoQueue {
    open spec fn tasks(&self) -> Multiset<TaskView> {
        self@.to_multiset()
    }

    /// Pushes the task on top.
    fn push(&mut self, task: Task)
        ensures
            final(self)@ == old(self)@.push(task@),
    {
        self.inner.push(task);
        proof {
            assert(self@ =~= old(self)@.push(task@));
        }
    }

    /// Removes the newest task.
    fn pop(&mut self) -> (r: Option<Task>)
        ensures
            old(self)@.len() > 0 ==> r is Some && r->0@ == old(self)@.last() && final(self)@
                == old(self)@.drop_last(),
    {
        let r = self.inner.pop();
        proof {
            if r is Some {
                assert(self@ =~= old(self)@.drop_last());
                assert(old(self)@.drop_last() =~= old(self)@.remove(old(self)@.len() - 1));
                assert(old(self)@.contains(old(self)@[old(self)@.len() - 1]));
            }
        }
        r
    }

    fn len(&self) -> (r: usize) {
        self.inner.len()
    }
}

/// The scheduling priority of a task; lower runs first.
pub open spec fn priority_of(t: TaskView) -> u8 {
    match t {
        TaskView::Deploy { .. } => 0,
        TaskView::StartSource { .. } => 1,
        TaskView::SourceError { .. } => 2,
        TaskView::Stop { .. } => 2,
        TaskView::EndOfStream { .. } => 3,
        TaskView::Work { .. } => 4,
        TaskView::Shutdown => 5,
    }
}

/// `i` is the first position of `s` whose task has the lowest priority.
pub open spec fn is_first_min(s: Seq<TaskView>, i: int) -> bool {
    &&& 0 <= i < s.len()
    &&& forall|j: int| 0 <= j < s.len() ==> priority_of(s[i]) <= priority_of(#[trigger] s[j])
    &&& forall|j: int| 0 <= j < i ==> priority_of(s[i]) < priority_of(#[trigger] s[j])
}

/// `s` without position `i`, the last task taking its place.
pub open spec fn swap_removed(s: Seq<TaskView>, i: int) -> Seq<TaskView> {
    s.update(i, s.last()).drop_last()
}

proof fn lemma_swap_removed_multiset(s: Seq<TaskView>, i: int)
    requires
        0 <= i < s.len(),
    ensures
        swap_removed(s, i).to_multiset() == s.to_multiset().remove(s[i]),
{
    broadcast use vstd::seq_lib::to_multiset_update;

    let u = s.update(i, s.last());
    assert(u.last() == s.last());
    assert(u.drop_last() =~= u.remove(u.len() - 1));
    assert(u.to_multiset() == s.to_multiset().insert(s.last()).remove(s[i]));
    assert(s.to_multiset().insert(s.last()).remove(s[i]).remove(s.last()) =~= s.to_multiset().remove(
        s[i],
    ));
}

/// Tasks are handed out by priority: graph deployment first, then source
/// starts, then source errors and stops, then end-of-stream signals, then
/// work, and shutdown last; among tasks of equal priority the first queued
/// comes out, and the last queued takes its place.
pub struct PriorityQueue {
    inner: Vec<Task>,
}

impl View for PriorityQueue {
    type V = Seq<TaskView>;

    /// The queued tasks in storage order.
    closed spec fn view(&self) -> Seq<TaskView> {
        task_views(self.inner@)
    }
}

impl PriorityQueue {
    /// An empty queue.
    pub fn new() -> (r: Self)
        ensures
            r@ == Seq::<TaskView>::empty(),
    {
        PriorityQueue { inner: Vec::new() }
    }

    fn priority(task: &Task) -> (r: u8)
        ensures
            r == priority_of(task@),
    {
        match task {
            Task::DeployGraph { .. } => 0,
            Task::StartSource { .. } => 1,
            Task::SourceError { .. } => 2,
            Task::StopPipelineTask { .. } => 2,
            Task::EndOfStream { .. } => 3,
            Task::WorkTask { .. } => 4,
            Task::Shutdown => 5,
        }
    }
}

impl Default for PriorityQueue {
    fn default() -> (r: Self)
        ensures
            r@ == Seq::<TaskView>::empty(),
    {
        Self::new()
    }
}

impl TaskQueue for PriorityQueue {
    open spec fn tasks(&self) -> Multiset<TaskView> {
        self@.to_multiset()
    }

    /// Appends the task.
    fn push(&mut self, task: Task)
        ensures
            final(self)@ == old(self)@.push(task@),
    {
        self.inner.push(task);
        proof {
            assert(self@ =~= old(self)@.push(task@));
        }
    }

    /// Removes the first task of the lowest priority; the last task takes
    /// its place.
    fn pop(&mut self) -> (r: Option<Task>)
        ensures
            r is Some ==> exists|i: int|
                is_first_min(old(self)@, i) && r->0@ == old(self)@[i] && final(self)@
                    == swap_removed(old(self)@, i),
    {
        if self.inner.len() == 0 {
            return None;
        }
        let mut best: usize = 0;
        let mut best_priority: u8 = Self::priority(&self.inner[0]);
        let mut k: usize = 1;
        while k < self.inner.len()
            invariant
                self@ == old(self)@,
                self@ == task_views(self.inner@),
                self.inner@.len() > 0,
                1 <= k <= self.inner@.len(),
                best < k,
                best_priority == priority_of(self@[best as int]),
                forall|j: int| 0 <= j < k ==> best_priority <= priority_of(#[trigger] self@[j]),
                forall|j: int| 0 <= j < best ==> best_priority < priority_of(#[trigger] self@[j]),
            decreases self.inner@.len() - k,
        {
            let p = Self::priority(&self.inner[k]);
            if p < best_priority {
                best = k;
                best_priority = p;
            }
            k = k + 1;
        }
        let ghost s = self@;
        let task = self.inner.swap_remove(best);
        proof {
            assert(self@ =~= swap_removed(s, best as int));
            lemma_swap_removed_multiset(s, best as int);
            assert(s.contains(s[best as int]));
            assert(is_first_min(s, best as int));
        }
        Some(task)
    }

    fn len(&self) -> (r: usize) {
        self.inner.len()
    }
}

/// A position below `len`, drawn at random.
///
/// Calls `rand::Rng::gen_range` on the thread-local generator with the range
/// `0..len`, which is not empty; the contract claims only that the result
/// lies in that range.
#[verifier::external_body]
fn random_index(len: usize) -> (r: usize)
    requires
        len > 0,
    ensures
        r < len,
{
    rand::thread_rng().gen_range(0..len)
}

/// Tasks are handed out in random order: a task drawn at random leaves, and
/// the last task takes its place.
pub struct RandomQueue {
    inner: Vec<Task>,
}

impl View for RandomQueue {
    type V = Seq<TaskView>;

    /// The queued tasks in storage order.
    closed spec fn view(&self) -> Seq<TaskView> {
        task_views(self.inner@)
    }
}

impl RandomQueue {
    /// An empty queue.
    pub fn new() -> (r: Self)
        ensures
            r@ == Seq::<TaskView>::empty(),
    {
        RandomQueue { inner: Vec::new() }
    }
}

impl Default for RandomQueue {
    fn default() -> (r: Self)
        ensures
            r@ == Seq::<TaskView>::empty(),
    {
        Self::new()
    }
}

impl TaskQueue for RandomQueue {
    open spec fn tasks(&self) -> Multiset<TaskView> {
        self@.to_multiset()
    }

    /// Appends the task.
    fn push(&mut self, task: Task)
        ensures
            final(self)@ == old(self)@.push(task@),
    {
        self.inner.push(task);
        proof {
            assert(self@ =~= old(self)@.push(task@));
        }
    }

    /// Removes a task drawn at random; the last task takes its place.
    fn pop(&mut self) -> (r: Option<Task>)
        ensures
            r is Some ==> exists|i: int|
                0 <= i < old(self)@.len() && r->0@ == old(self)@[i] && final(self)@
                    == swap_removed(old(self)@, i),
    {
        if self.inner.len() == 0 {
            return None;
        }
        let idx = random_index(self.inner.len());
        let ghost s = self@;
        let task = self.inner.swap_remove(idx);
        proof {
            assert(self@ =~= swap_removed(s, idx as int));
            lemma_swap_removed_multiset(s, idx as int);
            assert(s.contains(s[idx as int]));
        }
        Some(task)
    }

    fn len(&self) -> (r: usize) {
        self.inner.len()
    }
}

/// The order in which the priority queue hands out the kinds of tasks:
/// a deploy task whenever one is queued; otherwise a start-source task
/// whenever one is queued; otherwise a source-error or stop task (the
/// earlier of them) whenever one is queued; otherwise an end-of-stream task;
/// otherwise a work task; a shutdown task only when nothing else is queued.
/// Among tasks of the same kind, the earliest queued one is handed out.
pub proof fn lemma_priority_order(s: Seq<TaskView>, i: int)
    requires
        is_first_min(s, i),
    ensures
        (exists|j: int| 0 <= j < s.len() && #[trigger] s[j] is Deploy) ==> s[i] is Deploy,
        (exists|j: int| 0 <= j < s.len() && #[trigger] s[j] is StartSource) ==> (s[i] is Deploy
            || s[i] is StartSource),
        (exists|j: int| 0 <= j < s.len() && (#[trigger] s[j] is SourceError || s[j] is Stop)) ==> (
        s[i] is Deploy || s[i] is StartSource || s[i] is SourceError || s[i] is Stop),
        (exists|j: int| 0 <= j < s.len() && #[trigger] s[j] is EndOfStream) ==> !(s[i] is Work
            || s[i] is Shutdown),
        (exists|j: int| 0 <= j < s.len() && #[trigger] s[j] is Work) ==> !(s[i] is Shutdown),
        forall|j: int|
            0 <= j < i ==> !(#[trigger] same_kind(s[j], s[i])),
{
    assert forall|j: int| 0 <= j < i implies !(#[trigger] same_kind(s[j], s[i])) by {
        assert(priority_of(s[i]) < priority_of(s[j]));
    }
}

/// Two tasks of the same kind.
pub open spec fn same_kind(a: TaskView, b: TaskView) -> bool {
    ||| a is Deploy && b is Deploy
    ||| a is StartSource && b is StartSource
    ||| a is SourceError && b is SourceError
    ||| a is Stop && b is Stop
    ||| a is EndOfStream && b is EndOfStream
    ||| a is Work && b is Work
    ||| a is Shutdown && b is Shutdown
}

} // verus!
