//! Delayed re-submission of tasks: a handle hands tasks, each with a delay,
//! to a submitter thread that pushes them to the task queue once their delay
//! has passed.

use crate::channel::channel_send;
use crate::executor::task::{Task, TaskView};
use std::sync::Arc;
use std::sync::atomic::{AtomicBool, Ordering};
use std::sync::mpsc::Sender;
use vstd::prelude::*;

verus! {

/// A message for the submitter thread.
pub enum DelayedMessage {
    /// Push `task` to the queue after `delay_ms` milliseconds.
    DelayedTask { task: Box<Task>, delay_ms: u64 },
    /// Stop the submitter thread; tasks still waiting are dropped.
    Shutdown,
}

/// The submitting side of a delayed task submitter.
///
/// `submitted` records every task handed to `submit_delayed`, with its
/// delay, in order; it exists for the contracts only.
#[derive(Clone)]
pub struct DelayedTaskSubmitterHandle {
    sender: Sender<DelayedMessage>,
    shutdown_requested: Arc<AtomicBool>,
    submitted: Ghost<Seq<(TaskView, u64)>>,
}

impl DelayedTaskSubmitterHandle {
    /// The tasks submitted through this handle so far, with their delays.
    pub closed spec fn log(&self) -> Seq<(TaskView, u64)> {
        self.submitted@
    }

    /// A handle sending on `sender`; `shutdown_requested` is the flag the
    /// submitter thread watches while it waits out a delay.
    pub fn new(sender: Sender<DelayedMessage>, shutdown_requested: Arc<AtomicBool>) -> (r: Self)
        ensures
            r.log().len() == 0,
    {
        DelayedTaskSubmitterHandle { sender, shutdown_requested, submitted: Ghost(Seq::empty()) }
    }

    /// Hands `task` to the submitter thread, to be queued after `delay_ms`
    /// milliseconds; `false` when the submitter thread is gone.
    pub fn submit_delayed(&mut self, task: Task, delay_ms: u64) -> (r: bool)
        ensures
            final(self).log() == old(self).log().push((task@, delay_ms)),
    {
        let ghost t = task@;
        let accepted = channel_send(
            &self.sender,
            DelayedMessage::DelayedTask { task: Box::new(task), delay_ms },
        );
        self.submitted = Ghost(self.submitted@.push((t, delay_ms)));
        accepted
    }

    /// Asks the submitter thread to stop, waking it from any delay; `false`
    /// when it is already gone.
    pub fn shutdown(&self) -> (r: bool) {
        self.shutdown_requested.store(true, Ordering::SeqCst);
        channel_send(&self.sender, DelayedMessage::Shutdown)
    }
}

} // verus!
