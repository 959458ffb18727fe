//! Pipeline identifiers, data buffers, pipeline errors and the `Pipeline`
//! trait that every pipeline implementation satisfies.

pub mod mocks;

use crate::executor::context::ExecutorContext;
use vstd::prelude::*;
use vstd::string::*;

verus! {

/// Unique identifier of a pipeline within a graph.
#[derive(Debug, Eq, Hash)]
pub struct PipelineId(String);

impl View for PipelineId {
    type V = Seq<char>;

    closed spec fn view(&self) -> Seq<char> {
        self.0@
    }
}

impl PipelineId {
    /// Creates a pipeline id from its text.
    pub fn new(id: &str) -> (r: Self)
        ensures
            r@ == id@,
    {
        PipelineId(String::from_str(id))
    }

    /// Creates a pipeline id that takes ownership of its text.
    pub fn from_string(id: String) -> (r: Self)
        ensures
            r@ == id@,
    {
        PipelineId(id)
    }

    /// The text of this id.
    pub fn as_str(&self) -> (r: &str)
        ensures
            r@ == self@,
    {
        self.0.as_str()
    }

    /// The text of this id as an owned string.
    pub fn to_string(&self) -> (r: String)
        ensures
            r@ == self@,
    {
        self.0.clone()
    }

    /// Equality of ids: their texts are equal.
    pub fn same(&self, other: &PipelineId) -> (r: bool)
        ensures
            r == (self@ == other@),
    {
        self.0 == other.0
    }
}

impl Clone for PipelineId {
    fn clone(&self) -> (r: Self)
        ensures
            r == *self,
    {
        PipelineId(self.0.clone())
    }
}

impl PartialEq for PipelineId {
    fn eq(&self, other: &Self) -> (r: bool) {
        self.0 == other.0
    }
}

impl vstd::std_specs::cmp::PartialEqSpecImpl for PipelineId {
    open spec fn obeys_eq_spec() -> bool {
        true
    }

    open spec fn eq_spec(&self, other: &PipelineId) -> bool {
        self@ == other@
    }
}

impl From<&str> for PipelineId {
    fn from(s: &str) -> (r: Self)
        ensures
            r@ == s@,
    {
        Self::new(s)
    }
}

impl vstd::std_specs::convert::FromSpecImpl<&str> for PipelineId {
    /// The text of a `&str` has no spec-level `String` constructor, so the
    /// claim about `from` is the `ensures` of the impl above.
    open spec fn obeys_from_spec() -> bool {
        false
    }

    open spec fn from_spec(v: &str) -> Self {
        arbitrary()
    }
}

impl From<String> for PipelineId {
    fn from(s: String) -> (r: Self)
        ensures
            r@ == s@,
    {
        PipelineId(s)
    }
}

impl vstd::std_specs::convert::FromSpecImpl<String> for PipelineId {
    open spec fn obeys_from_spec() -> bool {
        true
    }

    closed spec fn from_spec(v: String) -> Self {
        PipelineId(v)
    }
}

/// The texts of a list of ids.
pub open spec fn id_views(ids: Seq<PipelineId>) -> Seq<Seq<char>> {
    ids.map_values(|id: PipelineId| id@)
}

/// An opaque reference to a buffer owned by a host runtime.
///
/// The library treats the handle as a token: it carries it through the
/// graph and never dereferences it. Acquiring and releasing the host's
/// buffer is the host's business.
#[derive(Debug)]
pub struct OpaqueBufferHandle {
    handle: usize,
}

impl OpaqueBufferHandle {
    /// Wraps a host handle value.
    pub fn new(handle: usize) -> (r: Self)
        ensures
            r.handle_spec() == handle,
    {
        Self { handle }
    }

    /// The handle value.
    pub closed spec fn handle_spec(&self) -> usize {
        self.handle
    }

    /// The handle value.
    pub fn handle(&self) -> (r: usize)
        ensures
            r == self.handle_spec(),
    {
        self.handle
    }
}

impl Clone for OpaqueBufferHandle {
    fn clone(&self) -> (r: Self)
        ensures
            r.handle_spec() == self.handle_spec(),
    {
        OpaqueBufferHandle { handle: self.handle }
    }
}

/// The two representations of a buffer.
#[derive(Debug)]
enum BufferInner {
    /// A host buffer, known only by its handle.
    Opaque(OpaqueBufferHandle),
    /// Bytes owned by the library.
    Owned(Vec<u8>),
}

/// Data flowing through pipelines: either owned bytes or an opaque host
/// handle.
#[derive(Debug)]
pub struct Buffer {
    inner: BufferInner,
}

impl View for Buffer {
    type V = BufferView;

    closed spec fn view(&self) -> BufferView {
        match &self.inner {
            BufferInner::Opaque(h) => BufferView::Opaque(h.handle_spec()),
            BufferInner::Owned(d) => BufferView::Owned(d@),
        }
    }
}

/// The abstract content of a buffer.
pub ghost enum BufferView {
    Opaque(usize),
    Owned(Seq<u8>),
}

impl BufferView {
    /// The bytes visible through `data()`: the owned bytes, or nothing for an
    /// opaque buffer.
    pub open spec fn bytes(self) -> Seq<u8> {
        match self {
            BufferView::Opaque(_) => Seq::empty(),
            BufferView::Owned(d) => d,
        }
    }
}

impl Buffer {
    /// A buffer owning `data`.
    pub fn new(data: Vec<u8>) -> (r: Self)
        ensures
            r@ == BufferView::Owned(data@),
    {
        Self { inner: BufferInner::Owned(data) }
    }

    /// A buffer wrapping a host handle.
    pub fn opaque(handle: OpaqueBufferHandle) -> (r: Self)
        ensures
            r@ == BufferView::Opaque(handle.handle_spec()),
    {
        Self { inner: BufferInner::Opaque(handle) }
    }

    /// The owned bytes; empty for an opaque buffer.
    pub fn data(&self) -> (r: &[u8])
        ensures
            r@ == self@.bytes(),
    {
        match &self.inner {
            BufferInner::Owned(data) => data.as_slice(),
            BufferInner::Opaque(_) => &[],
        }
    }

    /// The number of owned bytes (0 for an opaque buffer).
    pub fn len(&self) -> (r: usize)
        ensures
            r == self@.bytes().len(),
    {
        match &self.inner {
            BufferInner::Owned(data) => data.len(),
            BufferInner::Opaque(_) => 0,
        }
    }

    /// A copy of the owned bytes (empty for an opaque buffer).
    pub fn to_vec(&self) -> (r: Vec<u8>)
        ensures
            r@ == self@.bytes(),
    {
        match &self.inner {
            BufferInner::Owned(data) => data.clone(),
            BufferInner::Opaque(_) => Vec::new(),
        }
    }

    /// Mutable access to the owned bytes of an owned buffer; the buffer
    /// holds whatever the bytes are when the borrow ends.
    pub fn data_mut(&mut self) -> (r: &mut Vec<u8>)
        requires
            !old(self).is_opaque_spec(),
        ensures
            r@ == old(self)@.bytes(),
            final(self)@ == BufferView::Owned(final(r)@),
    {
        match &mut self.inner {
            BufferInner::Owned(data) => data,
            BufferInner::Opaque(_) => vstd::pervasive::unreached(),
        }
    }

    /// Replaces the owned bytes of an owned buffer. Opaque buffers have no
    /// bytes that the library may change.
    pub fn set_data(&mut self, data: Vec<u8>)
        requires
            !old(self).is_opaque_spec(),
        ensures
            final(self)@ == BufferView::Owned(data@),
    {
        self.inner = BufferInner::Owned(data);
    }

    /// The handle of an opaque buffer.
    pub fn opaque_handle(&self) -> (r: Option<&OpaqueBufferHandle>)
        ensures
            match self@ {
                BufferView::Opaque(h) => r is Some && r->0.handle_spec() == h,
                BufferView::Owned(_) => r is None,
            },
    {
        match &self.inner {
            BufferInner::Opaque(handle) => Some(handle),
            BufferInner::Owned(_) => None,
        }
    }

    /// Whether this buffer is an opaque host buffer.
    pub open spec fn is_opaque_spec(&self) -> bool {
        self@ is Opaque
    }

    /// Whether this buffer is an opaque host buffer.
    pub fn is_opaque(&self) -> (r: bool)
        ensures
            r == self.is_opaque_spec(),
    {
        match &self.inner {
            BufferInner::Opaque(_) => true,
            BufferInner::Owned(_) => false,
        }
    }
}

impl Clone for Buffer {
    fn clone(&self) -> (r: Self)
        ensures
            r@ == self@,
    {
        match &self.inner {
            BufferInner::Opaque(handle) => Buffer { inner: BufferInner::Opaque(handle.clone()) },
            BufferInner::Owned(data) => Buffer { inner: BufferInner::Owned(data.clone()) },
        }
    }
}

/// Errors of pipeline execution.
#[derive(Debug)]
pub enum PipelineError {
    /// Pipeline execution failed with a message.
    ExecutionFailed(String),
    /// A pipeline is missing from the graph.
    NotFound(PipelineId),
    /// A buffer was in an invalid state.
    InvalidBuffer(String),
}

/// The display text of a pipeline error.
pub open spec fn pipeline_error_text(e: PipelineError) -> Seq<char> {
    match e {
        PipelineError::ExecutionFailed(m) => "Pipeline execution failed: "@ + m@,
        PipelineError::NotFound(id) => "Pipeline not found: "@ + id@,
        PipelineError::InvalidBuffer(m) => "Invalid buffer state: "@ + m@,
    }
}

impl PipelineError {
    /// The display text of this error.
    pub fn to_string(&self) -> (r: String)
        ensures
            r@ == pipeline_error_text(*self),
    {
        match self {
            PipelineError::ExecutionFailed(m) => {
                let mut s = String::from_str("Pipeline execution failed: ");
                s.append(m.as_str());
                s
            },
            PipelineError::NotFound(id) => {
                let mut s = String::from_str("Pipeline not found: ");
                s.append(id.as_str());
                s
            },
            PipelineError::InvalidBuffer(m) => {
                let mut s = String::from_str("Invalid buffer state: ");
                s.append(m.as_str());
                s
            },
        }
    }
}

/// The interface of every pipeline.
///
/// Lifecycle: `setup` once before any buffer, `execute` zero or more times
/// (only after a successful setup), `flush` when the pipeline is stopped,
/// then `teardown` once. Pipelines receive the execution context by unique
/// reference; buffers emitted through it are routed like returned buffers.
pub trait Pipeline: Send {
    /// Called once before the first buffer. By default it succeeds and
    /// changes nothing.
    fn setup(&mut self, context: &mut ExecutorContext) -> (r: Result<(), PipelineError>)
        default_ensures
            r is Ok,
            *final(context) == *old(context),
    {
        Ok(())
    }

    /// Processes one input buffer, producing zero or more output buffers.
    fn execute(&mut self, input: Buffer, context: &mut ExecutorContext) -> Result<
        Vec<Buffer>,
        PipelineError,
    >;

    /// Emits the final buffers when the pipeline is stopped. By default
    /// there are none, and nothing changes.
    fn flush(&mut self, context: &mut ExecutorContext) -> (r: Result<Vec<Buffer>, PipelineError>)
        default_ensures
            r is Ok && r->Ok_0@.len() == 0,
            *final(context) == *old(context),
    {
        Ok(Vec::new())
    }

    /// Called once when the pipeline is stopped. By default it succeeds and
    /// changes nothing.
    fn teardown(&mut self, context: &mut ExecutorContext) -> (r: Result<(), PipelineError>)
        default_ensures
            r is Ok,
            *final(context) == *old(context),
    {
        Ok(())
    }

    /// The unique identifier of this pipeline.
    fn id(&self) -> &PipelineId;
}

} // verus!
