//! Sources: graph nodes without predecessors that generate data on their own
//! threads and feed it to the executor through an emit handle.

pub mod generator_source;
pub mod test_source;
pub mod wrapper;

pub use wrapper::SourcePipeline;

use crate::channel::channel_send;
use crate::executor::QueryId;
use crate::executor::task::Task;
use crate::pipeline::{Buffer, PipelineId};
use std::sync::Arc;
use std::sync::atomic::{AtomicBool, Ordering};
use std::sync::mpsc::Sender;
use vstd::prelude::*;
use vstd::string::*;

verus! {

/// Errors of source operations.
#[derive(Debug)]
pub enum SourceError {
    SetupFailed(String),
    StartFailed(String),
    StopFailed(String),
    TeardownFailed(String),
    EmitFailed(String),
    NotFound(PipelineId),
    InvalidConfiguration(String),
}

/// The display text of a source error.
pub open spec fn source_error_text(e: SourceError) -> Seq<char> {
    match e {
        SourceError::SetupFailed(m) => "Source setup failed: "@ + m@,
        SourceError::StartFailed(m) => "Source start failed: "@ + m@,
        SourceError::StopFailed(m) => "Source stop failed: "@ + m@,
        SourceError::TeardownFailed(m) => "Source teardown failed: "@ + m@,
        SourceError::EmitFailed(m) => "Failed to emit buffer: "@ + m@,
        SourceError::NotFound(id) => "Source not found: "@ + id@,
        SourceError::InvalidConfiguration(m) => "Invalid source configuration: "@ + m@,
    }
}

fn prefixed(prefix: &str, text: &str) -> (r: String)
    ensures
        r@ == prefix@ + text@,
{
    let mut s = String::from_str(prefix);
    s.append(text);
    s
}

impl SourceError {
    /// The display text of this error.
    pub fn to_string(&self) -> (r: String)
        ensures
            r@ == source_error_text(*self),
    {
        match self {
            SourceError::SetupFailed(m) => prefixed("Source setup failed: ", m.as_str()),
            SourceError::StartFailed(m) => prefixed("Source start failed: ", m.as_str()),
            SourceError::StopFailed(m) => prefixed("Source stop failed: ", m.as_str()),
            SourceError::TeardownFailed(m) => prefixed("Source teardown failed: ", m.as_str()),
            SourceError::EmitFailed(m) => prefixed("Failed to emit buffer: ", m.as_str()),
            SourceError::NotFound(id) => prefixed("Source not found: ", id.as_str()),
            SourceError::InvalidConfiguration(m) => prefixed(
                "Invalid source configuration: ",
                m.as_str(),
            ),
        }
    }
}

/// A data source: set up once, started with an emit handle (typically
/// spawning a thread that emits buffers), stopped, then torn down.
pub trait Source: Send + Sync {
    /// Initialises resources before `start`; by default there are none and
    /// it succeeds.
    fn setup(&self) -> (r: Result<(), SourceError>)
        default_ensures
            r is Ok,
    {
        Ok(())
    }

    /// Starts emitting buffers through `emit_handle`.
    fn start(&self, emit_handle: SourceEmitHandle) -> Result<(), SourceError>;

    /// Signals the source to stop emitting.
    fn stop(&self) -> Result<(), SourceError>;

    /// Releases resources after `stop`; by default there are none and it
    /// succeeds.
    fn teardown(&self) -> (r: Result<(), SourceError>)
        default_ensures
            r is Ok,
    {
        Ok(())
    }

    /// The id of this source in the graph.
    fn id(&self) -> &PipelineId;
}

/// A message from a source thread to the executor.
pub enum SourceMessage {
    /// A buffer for the source's successors.
    Buffer { query_id: QueryId, source_id: PipelineId, buffer: Buffer },
    /// The source has no more data.
    EndOfStream { source_id: PipelineId },
    /// The source failed.
    Error { query_id: QueryId, source_id: PipelineId, error: String },
}

impl SourceMessage {
    /// The executor task a source message stands for: a buffer is a work task
    /// of the source (whose successors receive it), the end of the stream is
    /// the stop of the source (which cascades through the graph), an error
    /// is a source-error task.
    pub fn into_task(self) -> (t: Task)
        ensures
            t == match self {
                SourceMessage::Buffer { query_id, source_id, buffer } => Task::WorkTask {
                    query_id,
                    pipeline_id: source_id,
                    buffer,
                },
                SourceMessage::EndOfStream { source_id } => Task::StopPipelineTask {
                    pipeline_id: source_id,
                },
                SourceMessage::Error { query_id, source_id, error } => Task::SourceError {
                    query_id,
                    source_id,
                    error,
                },
            },
    {
        match self {
            SourceMessage::Buffer { query_id, source_id, buffer } => Task::WorkTask {
                query_id,
                pipeline_id: source_id,
                buffer,
            },
            SourceMessage::EndOfStream { source_id } => Task::StopPipelineTask {
                pipeline_id: source_id,
            },
            SourceMessage::Error { query_id, source_id, error } => Task::SourceError {
                query_id,
                source_id,
                error,
            },
        }
    }
}

/// What a source may do with the executor: emit buffers, signal end of
/// stream or an error, and observe stop requests.
pub struct SourceEmitHandle {
    source_id: PipelineId,
    query_id: QueryId,
    sender: Sender<SourceMessage>,
    stop_requested: Arc<AtomicBool>,
}

impl SourceEmitHandle {
    pub closed spec fn source_id_spec(&self) -> PipelineId {
        self.source_id
    }

    pub closed spec fn query_id_spec(&self) -> QueryId {
        self.query_id
    }

    /// A handle for `source_id` sending its messages on `sender`; the source
    /// should stop once `stop_requested` is raised.
    pub fn new(
        source_id: PipelineId,
        query_id: QueryId,
        sender: Sender<SourceMessage>,
        stop_requested: Arc<AtomicBool>,
    ) -> (r: Self)
        ensures
            r.source_id_spec() == source_id,
            r.query_id_spec() == query_id,
    {
        SourceEmitHandle { source_id, query_id, sender, stop_requested }
    }

    /// The message that emitting `buffer` sends.
    pub fn buffer_message(&self, buffer: Buffer) -> (m: SourceMessage)
        ensures
            m == (SourceMessage::Buffer {
                query_id: self.query_id_spec(),
                source_id: self.source_id_spec(),
                buffer,
            }),
    {
        SourceMessage::Buffer { query_id: self.query_id, source_id: self.source_id.clone(), buffer }
    }

    /// The message that ending the stream sends.
    pub fn end_of_stream_message(&self) -> (m: SourceMessage)
        ensures
            m == (SourceMessage::EndOfStream { source_id: self.source_id_spec() }),
    {
        SourceMessage::EndOfStream { source_id: self.source_id.clone() }
    }

    /// The message that reporting `error` sends.
    pub fn error_message(&self, error: &str) -> (m: SourceMessage)
        ensures
            m matches SourceMessage::Error { query_id, source_id, error: e } && query_id
                == self.query_id_spec() && source_id == self.source_id_spec() && e@ == error@,
    {
        SourceMessage::Error {
            query_id: self.query_id,
            source_id: self.source_id.clone(),
            error: String::from_str(error),
        }
    }

    fn submit(&self, message: SourceMessage) -> (r: Result<(), SourceError>)
        ensures
            r matches Err(e) ==> (e matches SourceError::EmitFailed(m) && m@
                == "executor channel is closed"@),
    {
        if channel_send(&self.sender, message) {
            Ok(())
        } else {
            Err(SourceError::EmitFailed(String::from_str("executor channel is closed")))
        }
    }

    /// Sends `buffer_message(buffer)`; fails with `EmitFailed` when the
    /// executor no longer receives messages.
    pub fn emit(&self, buffer: Buffer) -> (r: Result<(), SourceError>)
        ensures
            r matches Err(e) ==> e is EmitFailed,
    {
        let m = self.buffer_message(buffer);
        self.submit(m)
    }

    /// Whether the executor asked the source to stop.
    pub fn should_stop(&self) -> bool {
        self.stop_requested.load(Ordering::SeqCst)
    }

    /// Sends `end_of_stream_message()`.
    pub fn end_of_stream(&self) -> (r: Result<(), SourceError>)
        ensures
            r matches Err(e) ==> e is EmitFailed,
    {
        let m = self.end_of_stream_message();
        self.submit(m)
    }

    /// Sends `error_message(error)`.
    pub fn signal_error(&self, error: &str) -> (r: Result<(), SourceError>)
        ensures
            r matches Err(e) ==> e is EmitFailed,
    {
        let m = self.error_message(error);
        self.submit(m)
    }
}

} // verus!
