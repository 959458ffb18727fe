//! Per-pipeline runtime metadata: pending-task reference counting,
//! termination request, setup state and end-of-stream accounting.

use std::sync::Arc;
use std::sync::atomic::{AtomicBool, Ordering};
use vstd::prelude::*;

verus! {

/// Runtime state of one pipeline.
///
/// `source_stop_flag` is shared with the source's emit handle so that a
/// source thread can observe a stop request; `source_stop_requested` is the
/// library's own record of that request.
#[derive(Debug)]
pub struct PipelineMetadata {
    pending_tasks: usize,
    requires_termination: bool,
    setup_succeeded: bool,
    expected_sources: usize,
    eos_received: usize,
    source_started: bool,
    source_stop_requested: bool,
    failed: bool,
    stop_task_enqueued: bool,
    source_stop_flag: Arc<AtomicBool>,
}

/// The abstract state of pipeline metadata.
pub ghost struct MetadataView {
    pub pending_tasks: nat,
    pub requires_termination: bool,
    pub setup_succeeded: bool,
    pub expected_sources: nat,
    pub eos_received: nat,
    pub source_started: bool,
    pub source_stop_requested: bool,
    pub failed: bool,
    pub stop_task_enqueued: bool,
}

impl View for PipelineMetadata {
    type V = MetadataView;

    closed spec fn view(&self) -> MetadataView {
        MetadataView {
            pending_tasks: self.pending_tasks as nat,
            requires_termination: self.requires_termination,
            setup_succeeded: self.setup_succeeded,
            expected_sources: self.expected_sources as nat,
            eos_received: self.eos_received as nat,
            source_started: self.source_started,
            source_stop_requested: self.source_stop_requested,
            failed: self.failed,
            stop_task_enqueued: self.stop_task_enqueued,
        }
    }
}

/// All counters zero, all flags clear.
pub open spec fn initial_metadata() -> MetadataView {
    MetadataView {
        pending_tasks: 0,
        requires_termination: false,
        setup_succeeded: false,
        expected_sources: 0,
        eos_received: 0,
        source_started: false,
        source_stop_requested: false,
        failed: false,
        stop_task_enqueued: false,
    }
}

/// Every expected source has signalled end of stream (and at least one is
/// expected).
pub open spec fn sources_finished(m: MetadataView) -> bool {
    m.expected_sources > 0 && m.eos_received >= m.expected_sources
}

/// Another handle on `flag`.
///
/// Calls `Clone::clone` on `std::sync::Arc`, which hands out a new pointer
/// to the same allocation; the contract claims the same flag.
#[verifier::external_body]
fn share_flag(flag: &Arc<AtomicBool>) -> (r: Arc<AtomicBool>)
    ensures
        r == *flag,
{
    Arc::clone(flag)
}

impl PipelineMetadata {
    /// Fresh metadata: all counters zero, all flags clear.
    pub fn new() -> (r: Self)
        ensures
            r@ == initial_metadata(),
    {
        PipelineMetadata {
            pending_tasks: 0,
            requires_termination: false,
            setup_succeeded: false,
            expected_sources: 0,
            eos_received: 0,
            source_started: false,
            source_stop_requested: false,
            failed: false,
            stop_task_enqueued: false,
            source_stop_flag: Arc::new(AtomicBool::new(false)),
        }
    }

    /// Counts one more pending work task (the count saturates at the
    /// maximum).
    pub fn increment_pending(&mut self)
        ensures
            final(self)@ == (MetadataView {
                pending_tasks: if old(self)@.pending_tasks < usize::MAX {
                    old(self)@.pending_tasks + 1
                } else {
                    old(self)@.pending_tasks
                },
                ..old(self)@
            }),
    {
        if self.pending_tasks < usize::MAX {
            self.pending_tasks = self.pending_tasks + 1;
        }
    }

    /// Counts one pending work task as done and returns the new count; at
    /// zero the count stays zero.
    pub fn decrement_pending(&mut self) -> (r: usize)
        ensures
            r == final(self)@.pending_tasks,
            final(self)@ == (MetadataView {
                pending_tasks: if old(self)@.pending_tasks == 0 {
                    0
                } else {
                    (old(self)@.pending_tasks - 1) as nat
                },
                ..old(self)@
            }),
    {
        if self.pending_tasks == 0 {
            return 0;
        }
        self.pending_tasks = self.pending_tasks - 1;
        self.pending_tasks
    }

    /// The number of pending work tasks.
    pub fn get_pending(&self) -> (r: usize)
        ensures
            r == self@.pending_tasks,
    {
        self.pending_tasks
    }

    /// Marks the pipeline as requiring termination.
    pub fn request_termination(&mut self)
        ensures
            final(self)@ == (MetadataView { requires_termination: true, ..old(self)@ }),
    {
        self.requires_termination = true;
    }

    /// Whether termination was requested.
    pub fn should_terminate(&self) -> (r: bool)
        ensures
            r == self@.requires_termination,
    {
        self.requires_termination
    }

    /// Records a successful `setup()`.
    pub fn mark_setup_succeeded(&mut self)
        ensures
            final(self)@ == (MetadataView { setup_succeeded: true, ..old(self)@ }),
    {
        self.setup_succeeded = true;
    }

    /// Whether `setup()` succeeded.
    pub fn is_setup_succeeded(&self) -> (r: bool)
        ensures
            r == self@.setup_succeeded,
    {
        self.setup_succeeded
    }

    /// Sets the number of sources expected to feed the pipeline.
    pub fn set_expected_sources(&mut self, count: usize)
        ensures
            final(self)@ == (MetadataView { expected_sources: count as nat, ..old(self)@ }),
    {
        self.expected_sources = count;
    }

    /// The number of expected sources.
    pub fn get_expected_sources(&self) -> (r: usize)
        ensures
            r == self@.expected_sources,
    {
        self.expected_sources
    }

    /// Counts one more end-of-stream signal and returns the new count (the
    /// count saturates at the maximum).
    pub fn increment_eos(&mut self) -> (r: usize)
        ensures
            r == final(self)@.eos_received,
            final(self)@ == (MetadataView {
                eos_received: if old(self)@.eos_received < usize::MAX {
                    old(self)@.eos_received + 1
                } else {
                    old(self)@.eos_received
                },
                ..old(self)@
            }),
    {
        if self.eos_received < usize::MAX {
            self.eos_received = self.eos_received + 1;
        }
        self.eos_received
    }

    /// The number of end-of-stream signals received.
    pub fn get_eos_received(&self) -> (r: usize)
        ensures
            r == self@.eos_received,
    {
        self.eos_received
    }

    /// Whether every expected source has signalled end of stream.
    pub fn all_sources_finished(&self) -> (r: bool)
        ensures
            r == sources_finished(self@),
    {
        self.expected_sources > 0 && self.eos_received >= self.expected_sources
    }

    /// Records that the source was started.
    pub fn mark_source_started(&mut self)
        ensures
            final(self)@ == (MetadataView { source_started: true, ..old(self)@ }),
    {
        self.source_started = true;
    }

    /// Whether the source was started.
    pub fn is_source_started(&self) -> (r: bool)
        ensures
            r == self@.source_started,
    {
        self.source_started
    }

    /// Requests that the source stop emitting, also raising the flag its
    /// emit handle observes.
    pub fn request_source_stop(&mut self)
        ensures
            final(self)@ == (MetadataView { source_stop_requested: true, ..old(self)@ }),
    {
        self.source_stop_requested = true;
        self.source_stop_flag.store(true, Ordering::SeqCst);
    }

    /// Whether a source stop was requested.
    pub fn is_source_stop_requested(&self) -> (r: bool)
        ensures
            r == self@.source_stop_requested,
    {
        self.source_stop_requested
    }

    /// The stop flag shared with the source's emit handle.
    pub closed spec fn stop_flag(&self) -> Arc<AtomicBool> {
        self.source_stop_flag
    }

    /// A shared handle on the stop flag, for a source's emit handle.
    pub fn get_source_stop_flag(&self) -> (r: Arc<AtomicBool>)
        ensures
            r == self.stop_flag(),
    {
        share_flag(&self.source_stop_flag)
    }

    /// Marks the pipeline as failed: its future buffers are skipped and it is
    /// stopped without flush.
    pub fn mark_failed(&mut self)
        ensures
            final(self)@ == (MetadataView { failed: true, ..old(self)@ }),
    {
        self.failed = true;
    }

    /// Whether the pipeline failed.
    pub fn is_failed(&self) -> (r: bool)
        ensures
            r == self@.failed,
    {
        self.failed
    }

    /// Records that a stop task is being enqueued; returns whether one had
    /// already been enqueued (so that at most one is ever enqueued).
    pub fn claim_stop_task(&mut self) -> (r: bool)
        ensures
            r == old(self)@.stop_task_enqueued,
            final(self)@ == (MetadataView { stop_task_enqueued: true, ..old(self)@ }),
    {
        let was = self.stop_task_enqueued;
        self.stop_task_enqueued = true;
        was
    }
}

} // verus!
