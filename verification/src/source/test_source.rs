//! The controlling side of test sources: a test injects buffers, errors and
//! the end of the stream, which the source then emits on its own thread.

use crate::channel::channel_send;
use crate::pipeline::Buffer;
use std::sync::Arc;
use std::sync::atomic::{AtomicBool, Ordering};
use std::sync::mpsc::Sender;
use vstd::prelude::*;
use vstd::string::*;

verus! {

/// A command for a test source.
#[derive(Debug)]
pub enum TestSourceCommand {
    /// Emit this buffer.
    EmitBuffer(Buffer),
    /// Signal this error.
    EmitError(String),
    /// End the stream.
    EndOfStream,
}

/// Controls a test source from the test.
///
/// `sent` records every command handed to the source, in order; it exists
/// for the contracts only.
pub struct TestSourceHandle {
    command_tx: Sender<TestSourceCommand>,
    stopped: Arc<AtomicBool>,
    sent: Ghost<Seq<TestSourceCommand>>,
}

impl TestSourceHandle {
    /// The commands handed to the source so far, in order.
    pub closed spec fn log(&self) -> Seq<TestSourceCommand> {
        self.sent@
    }

    /// A handle sending commands on `command_tx`; the source raises
    /// `stopped` when it stops.
    pub fn new(command_tx: Sender<TestSourceCommand>, stopped: Arc<AtomicBool>) -> (r: Self)
        ensures
            r.log().len() == 0,
    {
        TestSourceHandle { command_tx, stopped, sent: Ghost(Seq::empty()) }
    }

    fn send(&mut self, command: TestSourceCommand)
        ensures
            final(self).log() == old(self).log().push(command),
    {
        let ghost c = command;
        let _ = channel_send(&self.command_tx, command);
        self.sent = Ghost(self.sent@.push(c));
    }

    /// Makes the source emit `buffer`.
    pub fn inject_buffer(&mut self, buffer: Buffer)
        ensures
            final(self).log() == old(self).log().push(TestSourceCommand::EmitBuffer(buffer)),
    {
        self.send(TestSourceCommand::EmitBuffer(buffer));
    }

    /// Makes the source signal `error`.
    pub fn inject_error(&mut self, error: String)
        ensures
            final(self).log() == old(self).log().push(TestSourceCommand::EmitError(error)),
    {
        self.send(TestSourceCommand::EmitError(error));
    }

    /// Makes the source end its stream.
    pub fn end_of_stream(&mut self)
        ensures
            final(self).log() == old(self).log().push(TestSourceCommand::EndOfStream),
    {
        self.send(TestSourceCommand::EndOfStream);
    }

    /// Whether the source has stopped.
    pub fn is_stopped(&self) -> bool {
        self.stopped.load(Ordering::SeqCst)
    }
}

} // verus!
