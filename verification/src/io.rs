//! The asynchronous I/O contract: combinable open-mode flags, one-shot
//! completions, and the `File` / `IO` trait surface that backends implement.
//!
//! A caller wraps a buffer in a `Completion` describing the desired
//! operation, and submits it to a `File`. The backend arranges for the
//! completion to be resolved exactly once — either before the call returns
//! (synchronous backends) or later, driven by the host through the `IO`
//! reactor. No ordering between two submitted operations is promised; a
//! caller needing ordering waits for one completion before submitting the
//! next.

use vstd::prelude::*;
use vstd::pervasive::unreached;
use crate::buffer::Buffer;
use crate::clock::Clock;
use crate::error::{CompletionError, TursoMiniError};

verus! {

/// Combinable open-mode flags: plain named bit constants over an integer.
#[derive(Clone, Copy, Debug, PartialEq, Eq, Structural)]
pub struct OpenFlags {
    bits: i32,
}

impl OpenFlags {
    /// The raw bit pattern.
    pub closed spec fn spec_bits(self) -> i32 {
        self.bits
    }

    /// The flag combination holding both operands' bits.
    pub closed spec fn spec_union(self, other: Self) -> Self {
        OpenFlags { bits: self.bits | other.bits }
    }

    /// No flag set.
    pub fn none() -> (r: Self)
        ensures
            r.spec_bits() == 0,
    {
        OpenFlags { bits: 0 }
    }

    /// Create the file if it is absent.
    pub fn create() -> (r: Self)
        ensures
            r.spec_bits() == 1,
    {
        OpenFlags { bits: 1 }
    }

    /// Open the file read-only.
    pub fn read_only() -> (r: Self)
        ensures
            r.spec_bits() == 2,
    {
        OpenFlags { bits: 2 }
    }

    /// The raw bit pattern.
    pub fn bits(&self) -> (r: i32)
        ensures
            r == self.spec_bits(),
    {
        self.bits
    }

    /// Whether every flag of `other` is also set in `self`.
    pub fn contains(&self, other: OpenFlags) -> (r: bool)
        ensures
            r == (self.spec_bits() & other.spec_bits() == other.spec_bits()),
    {
        self.bits & other.bits == other.bits
    }
}

impl core::ops::BitOr for OpenFlags {
    type Output = OpenFlags;

    /// Combines two flag sets.
    fn bitor(self, other: OpenFlags) -> (r: OpenFlags)
        ensures
            r.spec_bits() == (self.spec_bits() | other.spec_bits()),
            r == self.spec_union(other),
    {
        OpenFlags { bits: self.bits | other.bits }
    }
}

impl vstd::std_specs::ops::BitOrSpecImpl for OpenFlags {
    open spec fn obeys_bitor_spec() -> bool {
        true
    }

    open spec fn bitor_req(self, rhs: OpenFlags) -> bool {
        true
    }

    open spec fn bitor_spec(self, rhs: OpenFlags) -> OpenFlags {
        self.spec_union(rhs)
    }
}

impl Default for OpenFlags {
    /// The default open mode: create the file if it is absent.
    fn default() -> (r: Self)
        ensures
            r.spec_bits() == 1,
    {
        OpenFlags { bits: 1 }
    }
}

/// The data a read operation carries: the destination buffer the backend
/// fills.
#[derive(Debug)]
pub struct ReadCompletion {
    pub buf: Buffer,
}

impl ReadCompletion {
    pub fn new(buf: Buffer) -> (r: Self)
        ensures
            r.buf@ == buf@,
    {
        ReadCompletion { buf }
    }

    /// The destination buffer.
    pub fn buf(&self) -> (r: &Buffer)
        ensures
            r@ == self.buf@,
    {
        &self.buf
    }
}

/// Marker data for a write operation's completion.
#[derive(Debug)]
pub struct WriteCompletion {}

impl WriteCompletion {
    pub fn new() -> Self {
        WriteCompletion {  }
    }
}

/// Marker data for a sync operation's completion.
#[derive(Debug)]
pub struct SyncCompletion {}

impl SyncCompletion {
    pub fn new() -> Self {
        SyncCompletion {  }
    }
}

/// Marker data for a truncate operation's completion.
#[derive(Debug)]
pub struct TruncateCompletion {}

impl TruncateCompletion {
    pub fn new() -> Self {
        TruncateCompletion {  }
    }
}

/// The tagged variant of one I/O operation.
#[derive(Debug)]
pub enum CompletionType {
    Read(ReadCompletion),
    Write(WriteCompletion),
    Sync(SyncCompletion),
    Truncate(TruncateCompletion),
}

/// The resolution state of a completion: pending until the backend settles
/// it with a byte count or an error, exactly once.
#[derive(Debug)]
pub enum CompletionState {
    Pending,
    Succeeded(i32),
    Failed(CompletionError),
}

/// One outstanding or finished I/O operation. The terminal result is set at
/// most once: `complete` and `error` demand a pending completion, and the
/// checked `try_complete` rejects a second resolution.
#[derive(Debug)]
pub struct Completion {
    pub completion_type: CompletionType,
    pub state: CompletionState,
}

impl Completion {
    pub open spec fn is_read(self) -> bool {
        self.completion_type is Read
    }

    pub open spec fn is_write(self) -> bool {
        self.completion_type is Write
    }

    pub open spec fn is_sync(self) -> bool {
        self.completion_type is Sync
    }

    pub open spec fn is_truncate(self) -> bool {
        self.completion_type is Truncate
    }

    pub open spec fn is_pending(self) -> bool {
        self.state is Pending
    }

    pub open spec fn is_resolved(self) -> bool {
        !(self.state is Pending)
    }

    /// The bytes of a read completion's destination buffer.
    pub open spec fn spec_read_buf(self) -> Seq<u8>
        recommends
            self.is_read(),
    {
        self.completion_type->Read_0.buf@
    }

    /// A fresh, pending completion for the given operation.
    pub fn new(completion_type: CompletionType) -> (r: Self)
        ensures
            r.completion_type == completion_type,
            r.is_pending(),
    {
        Completion { completion_type, state: CompletionState::Pending }
    }

    /// A pending write completion.
    pub fn new_write() -> (r: Self)
        ensures
            r.is_write(),
            r.is_pending(),
    {
        Self::new(CompletionType::Write(WriteCompletion::new()))
    }

    /// A pending read completion around its destination buffer.
    pub fn new_read(buf: Buffer) -> (r: Self)
        ensures
            r.is_read(),
            r.is_pending(),
            r.spec_read_buf() == buf@,
    {
        Self::new(CompletionType::Read(ReadCompletion::new(buf)))
    }

    /// A pending sync completion.
    pub fn new_sync() -> (r: Self)
        ensures
            r.is_sync(),
            r.is_pending(),
    {
        Self::new(CompletionType::Sync(SyncCompletion::new()))
    }

    /// A pending truncate completion.
    pub fn new_trunc() -> (r: Self)
        ensures
            r.is_truncate(),
            r.is_pending(),
    {
        Self::new(CompletionType::Truncate(TruncateCompletion::new()))
    }

    /// Resolves the completion with a byte count. Resolving twice is a fatal
    /// contract violation, so a pending completion is demanded here;
    /// `try_complete` is the checked form.
    pub fn complete(&mut self, result: i32)
        requires
            old(self).is_pending(),
        ensures
            final(self).state == CompletionState::Succeeded(result),
            final(self).completion_type == old(self).completion_type,
    {
        self.state = CompletionState::Succeeded(result);
    }

    /// Resolves the completion with an I/O error; the same single-resolution
    /// contract as `complete`.
    pub fn error(&mut self, err: CompletionError)
        requires
            old(self).is_pending(),
        ensures
            final(self).state == CompletionState::Failed(err),
            final(self).completion_type == old(self).completion_type,
    {
        self.state = CompletionState::Failed(err);
    }

    /// Checked resolution: succeeds exactly once. A second attempt is
    /// rejected and leaves the completion untouched.
    pub fn try_complete(&mut self, result: i32) -> (ok: bool)
        ensures
            ok == old(self).is_pending(),
            old(self).is_pending() ==> final(self).state == CompletionState::Succeeded(result),
            !old(self).is_pending() ==> *final(self) == *old(self),
            final(self).completion_type == old(self).completion_type,
    {
        match self.state {
            CompletionState::Pending => {
                self.state = CompletionState::Succeeded(result);
                true
            },
            _ => false,
        }
    }

    /// Whether the completion has been resolved.
    pub fn resolved(&self) -> (r: bool)
        ensures
            r == self.is_resolved(),
    {
        match self.state {
            CompletionState::Pending => false,
            _ => true,
        }
    }

    /// The byte count of a successful resolution, if there is one.
    pub fn succeeded_bytes(&self) -> (r: Option<i32>)
        ensures
            r == (match self.state {
                CompletionState::Succeeded(n) => Some(n),
                _ => None::<i32>,
            }),
    {
        match self.state {
            CompletionState::Succeeded(n) => Some(n),
            _ => None,
        }
    }

    /// The read payload this completion carries; calling this on any other
    /// operation is a contract violation.
    pub fn as_read(&self) -> (r: &ReadCompletion)
        requires
            self.is_read(),
        ensures
            r.buf@ == self.spec_read_buf(),
    {
        match &self.completion_type {
            CompletionType::Read(rc) => rc,
            _ => unreached(),
        }
    }
}

/// The total byte length of a sequence of buffers.
pub open spec fn spec_total_len(bufs: Seq<Buffer>) -> int
    decreases bufs.len(),
{
    if bufs.len() == 0 {
        0
    } else {
        bufs[0]@.len() + spec_total_len(bufs.drop_first())
    }
}

/// Abstract persistent storage. Every operation takes a pending completion
/// of the matching kind, arranges for it to be resolved exactly once, and
/// hands it back; a synchronous backend resolves it before returning, an
/// asynchronous one may leave it pending until the host drives the reactor.
pub trait File {
    /// The backend's own well-formedness condition, preserved by every
    /// operation.
    spec fn inv(&self) -> bool;

    fn lock_file(&mut self) -> (r: Result<(), TursoMiniError>)
        requires
            old(self).inv(),
        ensures
            final(self).inv(),
    ;

    fn unlock_file(&mut self) -> (r: Result<(), TursoMiniError>)
        requires
            old(self).inv(),
        ensures
            final(self).inv(),
    ;

    fn size(&self) -> (r: Result<u64, TursoMiniError>)
        requires
            self.inv(),
    ;

    fn pread(&mut self, pos: u64, c: Completion) -> (r: Result<Completion, TursoMiniError>)
        requires
            old(self).inv(),
            c.is_read(),
            c.is_pending(),
            c.spec_read_buf().len() <= i32::MAX,
            pos + c.spec_read_buf().len() <= usize::MAX,
        ensures
            final(self).inv(),
            r matches Ok(c2) ==> c2.is_read() && c2.spec_read_buf().len()
                == c.spec_read_buf().len(),
    ;

    fn pwrite(&mut self, pos: u64, buffer: &Buffer, c: Completion) -> (r: Result<
        Completion,
        TursoMiniError,
    >)
        requires
            old(self).inv(),
            c.is_write(),
            c.is_pending(),
            buffer@.len() <= i32::MAX,
            pos + buffer@.len() <= usize::MAX,
        ensures
            final(self).inv(),
            r matches Ok(c2) ==> c2.is_write(),
    ;

    fn sync(&mut self, c: Completion) -> (r: Result<Completion, TursoMiniError>)
        requires
            old(self).inv(),
            c.is_sync(),
            c.is_pending(),
        ensures
            final(self).inv(),
            r matches Ok(c2) ==> c2.is_sync(),
    ;

    fn truncate(&mut self, len: u64, c: Completion) -> (r: Result<Completion, TursoMiniError>)
        requires
            old(self).inv(),
            c.is_truncate(),
            c.is_pending(),
            len <= usize::MAX,
        ensures
            final(self).inv(),
            r matches Ok(c2) ==> c2.is_truncate(),
    ;

    fn pwritev(&mut self, pos: u64, buffers: &Vec<Buffer>, c: Completion) -> (r: Result<
        Completion,
        TursoMiniError,
    >)
        requires
            old(self).inv(),
            c.is_write(),
            c.is_pending(),
            spec_total_len(buffers@) <= i32::MAX,
            pos + spec_total_len(buffers@) <= usize::MAX,
        ensures
            final(self).inv(),
            r matches Ok(c2) ==> c2.is_write(),
    ;
}

/// The reactor surface a host drives: opening and removing files, stepping
/// deferred work, cancelling outstanding operations, and draining them.
pub trait IO: Clock {
    type F: File;

    fn open_file(&mut self, path: &str, flags: OpenFlags) -> (r: Result<Self::F, TursoMiniError>);

    fn remove_file(&mut self, path: &str) -> (r: Result<(), TursoMiniError>);

    /// Advances any pending deferred work by one increment.
    fn step(&mut self) -> (r: Result<(), TursoMiniError>);

    /// Best-effort cancellation of the given outstanding operations; a
    /// synchronous backend, which never has work pending, does nothing.
    fn cancel(&mut self, completions: &[Completion]) -> (r: Result<(), TursoMiniError>);

    /// Blocks until all outstanding work finishes.
    fn drain(&mut self) -> (r: Result<(), TursoMiniError>);

    /// Blocks until the given completion is resolved, handing it back.
    fn wait_for_completion(&mut self, c: Completion) -> (r: Result<Completion, TursoMiniError>);
}

} // verus!
