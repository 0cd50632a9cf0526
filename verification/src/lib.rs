//! Lowest layer of a SQLite-compatible storage engine: the on-disk page codec,
//! the variable-length integer and record serial-type codecs, and a
//! completion-based file I/O contract with an in-memory reference backend.

pub mod buffer;
pub mod clock;
pub mod error;
pub mod io;
pub mod memory;
pub mod page;
pub mod serial_type;
pub mod varint;
