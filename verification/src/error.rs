//! Error taxonomy of the storage core: I/O failures carry only the OS error
//! classification (no formatted message, to keep completion paths cheap), and
//! corruption is a distinct, non-retriable condition.

use vstd::prelude::*;

verus! {

/// Declares `std::io::ErrorKind` so it can stand in signatures. It is carried
/// through this crate as an opaque classification of an OS I/O failure; the
/// crate never inspects it.
#[verifier::external_type_specification]
#[verifier::external_body]
pub struct ExErrorKind(std::io::ErrorKind);

/// The failure carried by a resolved completion: only the underlying OS error
/// classification, never a heap-allocated message.
#[derive(Clone, Copy, Debug)]
pub enum CompletionError {
    IOError(std::io::ErrorKind),
}

/// Errors surfaced by the storage core. `Corrupt` marks decoded bytes that
/// violate a structural invariant; it is never silently repaired.
#[derive(Clone, Copy, Debug)]
pub enum TursoMiniError {
    FileExtensionError,
    FileLockingError,
    CompletionError(CompletionError),
    Corrupt,
}

} // verus!
