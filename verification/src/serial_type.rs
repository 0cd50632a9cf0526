//! Record serial-type codec: the `u64` tag in a record header that describes
//! one column's storage class and, for blobs and text, its byte length.
//!
//! Fixed codepoints 0 through 9 are null, the integer widths, a float, and the
//! integer constants 0 and 1. Codepoints 10 and 11 are always invalid. Even
//! codepoints from 12 up denote a blob of length `(n - 12) / 2`; odd
//! codepoints from 13 up denote text of length `(n - 13) / 2`.

use vstd::prelude::*;
use vstd::pervasive::unreached;

verus! {

/// A single serial-type tag from a record header.
pub struct SerialType(pub u64);

/// The storage class a serial-type tag denotes.
#[derive(Clone, Copy, Debug, PartialEq, Eq, Structural)]
pub enum SerialTypeKind {
    Null,
    I8,
    I16,
    I24,
    I32,
    I48,
    I64,
    F64,
    ConstInt0,
    ConstInt1,
    Text,
    Blob,
}

/// The codepoints 10 and 11 never denote a storage class.
pub open spec fn spec_is_valid_serial_type(n: u64) -> bool {
    n != 10 && n != 11
}

/// The storage class of a valid serial-type tag.
pub open spec fn spec_serial_kind(n: u64) -> SerialTypeKind
    recommends
        spec_is_valid_serial_type(n),
{
    if n == 0 {
        SerialTypeKind::Null
    } else if n == 1 {
        SerialTypeKind::I8
    } else if n == 2 {
        SerialTypeKind::I16
    } else if n == 3 {
        SerialTypeKind::I24
    } else if n == 4 {
        SerialTypeKind::I32
    } else if n == 5 {
        SerialTypeKind::I48
    } else if n == 6 {
        SerialTypeKind::I64
    } else if n == 7 {
        SerialTypeKind::F64
    } else if n == 8 {
        SerialTypeKind::ConstInt0
    } else if n == 9 {
        SerialTypeKind::ConstInt1
    } else if n % 2 == 0 {
        SerialTypeKind::Blob
    } else {
        SerialTypeKind::Text
    }
}

/// The payload size in bytes of a valid serial-type tag.
pub open spec fn spec_serial_size(n: u64) -> int
    recommends
        spec_is_valid_serial_type(n),
{
    match spec_serial_kind(n) {
        SerialTypeKind::Null => 0,
        SerialTypeKind::I8 => 1,
        SerialTypeKind::I16 => 2,
        SerialTypeKind::I24 => 3,
        SerialTypeKind::I32 => 4,
        SerialTypeKind::I48 => 6,
        SerialTypeKind::I64 => 8,
        SerialTypeKind::F64 => 8,
        SerialTypeKind::ConstInt0 => 0,
        SerialTypeKind::ConstInt1 => 0,
        SerialTypeKind::Blob => (n - 12) / 2,
        SerialTypeKind::Text => (n - 13) / 2,
    }
}

impl SerialType {
    /// Whether a raw tag value denotes a storage class at all.
    pub fn u64_is_valid_serial_type(n: u64) -> (r: bool)
        ensures
            r == spec_is_valid_serial_type(n),
    {
        n != 10 && n != 11
    }

    pub fn null() -> (r: Self)
        ensures
            r.0 == 0,
    {
        SerialType(0)
    }

    pub fn i8() -> (r: Self)
        ensures
            r.0 == 1,
    {
        SerialType(1)
    }

    pub fn i16() -> (r: Self)
        ensures
            r.0 == 2,
    {
        SerialType(2)
    }

    pub fn i24() -> (r: Self)
        ensures
            r.0 == 3,
    {
        SerialType(3)
    }

    pub fn i32() -> (r: Self)
        ensures
            r.0 == 4,
    {
        SerialType(4)
    }

    pub fn i48() -> (r: Self)
        ensures
            r.0 == 5,
    {
        SerialType(5)
    }

    pub fn i64() -> (r: Self)
        ensures
            r.0 == 6,
    {
        SerialType(6)
    }

    pub fn float64() -> (r: Self)
        ensures
            r.0 == 7,
    {
        SerialType(7)
    }

    pub fn const_int0() -> (r: Self)
        ensures
            r.0 == 8,
    {
        SerialType(8)
    }

    pub fn const_int1() -> (r: Self)
        ensures
            r.0 == 9,
    {
        SerialType(9)
    }

    /// The blob tag for a payload of `size` bytes; the inverse of the size
    /// formula `(n - 12) / 2`.
    pub fn blob(size: u64) -> (r: Self)
        requires
            size <= (u64::MAX - 12) / 2,
        ensures
            r.0 == 12 + size * 2,
            spec_serial_kind(r.0) == SerialTypeKind::Blob,
            spec_serial_size(r.0) == size,
    {
        SerialType(12 + size * 2)
    }

    /// The text tag for a payload of `size` bytes; the inverse of the size
    /// formula `(n - 13) / 2`.
    pub fn text(size: u64) -> (r: Self)
        requires
            size <= (u64::MAX - 13) / 2,
        ensures
            r.0 == 13 + size * 2,
            spec_serial_kind(r.0) == SerialTypeKind::Text,
            spec_serial_size(r.0) == size,
    {
        SerialType(13 + size * 2)
    }

    /// The storage class this tag denotes.
    pub fn kind(&self) -> (k: SerialTypeKind)
        requires
            spec_is_valid_serial_type(self.0),
        ensures
            k == spec_serial_kind(self.0),
    {
        match self.0 {
            0 => SerialTypeKind::Null,
            1 => SerialTypeKind::I8,
            2 => SerialTypeKind::I16,
            3 => SerialTypeKind::I24,
            4 => SerialTypeKind::I32,
            5 => SerialTypeKind::I48,
            6 => SerialTypeKind::I64,
            7 => SerialTypeKind::F64,
            8 => SerialTypeKind::ConstInt0,
            9 => SerialTypeKind::ConstInt1,
            n if n >= 12 && n % 2 == 0 => SerialTypeKind::Blob,
            n if n >= 13 => SerialTypeKind::Text,
            _ => unreached(),
        }
    }

    /// The payload size in bytes this tag denotes.
    pub fn size(&self) -> (s: usize)
        requires
            spec_is_valid_serial_type(self.0),
            spec_serial_size(self.0) <= usize::MAX,
        ensures
            s == spec_serial_size(self.0),
    {
        match self.kind() {
            SerialTypeKind::Null => 0,
            SerialTypeKind::I8 => 1,
            SerialTypeKind::I16 => 2,
            SerialTypeKind::I24 => 3,
            SerialTypeKind::I32 => 4,
            SerialTypeKind::I48 => 6,
            SerialTypeKind::I64 => 8,
            SerialTypeKind::F64 => 8,
            SerialTypeKind::ConstInt0 => 0,
            SerialTypeKind::ConstInt1 => 0,
            SerialTypeKind::Blob => (((self.0 - 12) / 2) as usize),
            SerialTypeKind::Text => (((self.0 - 13) / 2) as usize),
        }
    }
}

} // verus!
