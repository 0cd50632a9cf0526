//! The B-tree page codec: structured read and write access to a raw page's
//! header fields, freeblock records, and cell-pointer region, per the SQLite
//! on-disk format.
//!
//! All multi-byte fields are big-endian. Two addressing modes exist: offsets
//! relative to the page's effective start (which skips the 100-byte database
//! file header on page 1), and absolute offsets within the page, used for
//! freeblock records and cell-pointer targets.

use vstd::prelude::*;
use vstd::arithmetic::div_mod::{lemma_fundamental_div_mod, lemma_multiply_divide_lt};
use vstd::pervasive::unreached;
use crate::buffer::Buffer;
use crate::error::TursoMiniError;

verus! {

pub const BTREE_PAGE_TYPE: usize = 0;

pub const BTREE_FIRST_FREEBLOCK: usize = 1;

pub const BTREE_CELL_COUNT: usize = 3;

pub const BTREE_CELL_CONTENT_AREA: usize = 5;

pub const BTREE_FRAGMENTED_BYTES_COUNT: usize = 7;

pub const BTREE_RIGHTMOST_PTR: usize = 8;

pub const CELL_PTR_SIZE_BYTES: usize = 2;

pub const INTERIOR_PAGE_HEADER_SIZE_BYTES: usize = 12;

pub const LEAF_PAGE_HEADER_SIZE_BYTES: usize = 8;

/// The big-endian 16-bit value stored at positions `i` and `i + 1`.
pub open spec fn spec_be16(b: Seq<u8>, i: int) -> u16
    recommends
        0 <= i,
        i + 2 <= b.len(),
{
    (b[i] * 0x100 + b[i + 1]) as u16
}

/// The big-endian 32-bit value stored at positions `i` through `i + 3`.
pub open spec fn spec_be32(b: Seq<u8>, i: int) -> u32
    recommends
        0 <= i,
        i + 4 <= b.len(),
{
    (b[i] * 0x1000000 + b[i + 1] * 0x10000 + b[i + 2] * 0x100 + b[i + 3]) as u32
}

/// Reads a big-endian 32-bit value out of a raw byte slice.
pub fn read_u32(buf: &[u8], pos: usize) -> (r: u32)
    requires
        pos + 4 <= buf@.len(),
    ensures
        r == spec_be32(buf@, pos as int),
{
    (buf[pos] as u32) * 0x1000000 + (buf[pos + 1] as u32) * 0x10000 + (buf[pos + 2] as u32) * 0x100
        + (buf[pos + 3] as u32)
}

/// The page sizes the on-disk format admits: powers of two from 512 through
/// 65536.
pub open spec fn spec_is_valid_page_size(size: u32) -> bool {
    ||| size == 512
    ||| size == 1024
    ||| size == 2048
    ||| size == 4096
    ||| size == 8192
    ||| size == 16384
    ||| size == 32768
    ||| size == 65536
}

/// A validated page size in its on-disk 16-bit form, where the raw value `1`
/// is a sentinel meaning 65536 (the true value does not fit in 16 bits).
#[derive(Clone, Copy, Debug, PartialEq, Eq, Structural)]
pub struct PageSize {
    raw: u16,
}

impl PageSize {
    pub const MIN: u32 = 512;

    pub const MAX: u32 = 65536;

    pub const DEFAULT: u16 = 4096;

    /// The raw on-disk form of this size.
    pub closed spec fn spec_raw(self) -> u16 {
        self.raw
    }

    /// The logical size in bytes this value denotes; the raw sentinel `1`
    /// denotes 65536.
    pub closed spec fn spec_get(self) -> u32 {
        if self.raw == 1 {
            65536
        } else {
            self.raw as u32
        }
    }

    /// Validates a logical size: only powers of two in [512, 65536] are
    /// accepted, with 65536 stored under the raw sentinel `1`.
    pub fn new(size: u32) -> (r: Option<Self>)
        ensures
            match r {
                Some(ps) => spec_is_valid_page_size(size) && ps.spec_get() == size
                    && ps.spec_raw() == (if size == 65536 { 1u16 } else { size as u16 }),
                None => !spec_is_valid_page_size(size),
            },
    {
        match size {
            512 | 1024 | 2048 | 4096 | 8192 | 16384 | 32768 => Some(PageSize { raw: size as u16 }),
            65536 => Some(PageSize { raw: 1 }),
            _ => None,
        }
    }

    /// Validates the raw 16-bit page-size field of a database header;
    /// anything but the sentinel `1` or a stored power of two in range is
    /// corruption.
    pub fn new_from_header_u16(value: u16) -> (r: Result<Self, TursoMiniError>)
        ensures
            match r {
                Ok(ps) => (value == 1 || spec_is_valid_page_size(value as u32)) && ps.spec_raw()
                    == value && ps.spec_get() == (if value == 1 { 65536u32 } else { value as u32 }),
                Err(e) => value != 1 && !spec_is_valid_page_size(value as u32) && e
                    == TursoMiniError::Corrupt,
            },
    {
        if value == 1 {
            Ok(PageSize { raw: 1 })
        } else {
            match Self::new(value as u32) {
                Some(size) => Ok(size),
                None => Err(TursoMiniError::Corrupt),
            }
        }
    }

    /// The logical size in bytes.
    pub fn get(self) -> (r: u32)
        ensures
            r == self.spec_get(),
    {
        if self.raw == 1 {
            65536
        } else {
            self.raw as u32
        }
    }

    /// The raw on-disk form.
    pub fn get_raw(self) -> (r: u16)
        ensures
            r == self.spec_raw(),
    {
        self.raw
    }
}

impl Default for PageSize {
    /// The default page size, 4096 bytes.
    fn default() -> (r: Self)
        ensures
            r.spec_raw() == 4096,
            r.spec_get() == 4096,
    {
        PageSize { raw: 4096 }
    }
}

/// The four valid B-tree page types. The page-type byte at a page's start
/// must be 2, 5, 10 or 13; anything else is corrupt data.
#[derive(Clone, Copy, Debug, PartialEq, Eq, Structural)]
pub enum PageType {
    IndexInterior,
    TableInterior,
    IndexLeaf,
    TableLeaf,
}

/// The page type a page-type byte denotes, if any.
pub open spec fn spec_page_type_of(b: u8) -> Option<PageType> {
    if b == 2 {
        Some(PageType::IndexInterior)
    } else if b == 5 {
        Some(PageType::TableInterior)
    } else if b == 10 {
        Some(PageType::IndexLeaf)
    } else if b == 13 {
        Some(PageType::TableLeaf)
    } else {
        None
    }
}

impl PageType {
    /// The on-disk byte for this page type.
    pub open spec fn spec_to_u8(self) -> u8 {
        match self {
            PageType::IndexInterior => 2,
            PageType::TableInterior => 5,
            PageType::IndexLeaf => 10,
            PageType::TableLeaf => 13,
        }
    }

    /// Whether this type is an interior page (which carries the 4-byte
    /// rightmost child pointer and the 12-byte header).
    pub open spec fn spec_is_interior(self) -> bool {
        self == PageType::IndexInterior || self == PageType::TableInterior
    }

    /// Whether this page belongs to a table B-tree rather than an index.
    pub fn is_table(&self) -> (r: bool)
        ensures
            r == (*self == PageType::TableInterior || *self == PageType::TableLeaf),
    {
        match self {
            PageType::IndexInterior | PageType::IndexLeaf => false,
            PageType::TableInterior | PageType::TableLeaf => true,
        }
    }

    /// Classifies a page-type byte; any value outside {2, 5, 10, 13} is
    /// corrupt data.
    pub fn from_u8(value: u8) -> (r: Result<Self, TursoMiniError>)
        ensures
            match r {
                Ok(t) => spec_page_type_of(value) == Some(t),
                Err(e) => spec_page_type_of(value) is None && e == TursoMiniError::Corrupt,
            },
    {
        match value {
            2 => Ok(Self::IndexInterior),
            5 => Ok(Self::TableInterior),
            10 => Ok(Self::IndexLeaf),
            13 => Ok(Self::TableLeaf),
            _ => Err(TursoMiniError::Corrupt),
        }
    }
}

/// A cell that could not be placed on its page during a higher-level
/// mutation, staged for later placement.
#[derive(Debug)]
pub struct OverflowCell {
    pub index: usize,
    pub payload: Vec<u8>,
}

/// A structured view over one page's buffer: `offset` is 0 for every page
/// but page 1, where it is 100 to skip the database file header.
#[derive(Debug)]
pub struct PageContent {
    pub offset: usize,
    pub buffer: Buffer,
    pub overflow_cells: Vec<OverflowCell>,
}

impl PageContent {
    /// The raw bytes of the whole page.
    pub open spec fn bytes(self) -> Seq<u8> {
        self.buffer@
    }

    /// The page's full header lies within the buffer, and the buffer is no
    /// larger than the largest page.
    pub open spec fn wf(self) -> bool {
        self.offset + 12 <= self.buffer@.len() && self.buffer@.len() <= 65536
    }

    /// The page-type byte at the page's effective start.
    pub open spec fn spec_page_type_byte(self) -> u8 {
        self.bytes()[self.offset + BTREE_PAGE_TYPE]
    }

    /// The page type the page-type byte denotes, if it is valid.
    pub open spec fn spec_page_type(self) -> Option<PageType> {
        spec_page_type_of(self.spec_page_type_byte())
    }

    pub open spec fn spec_first_freeblock(self) -> u16 {
        spec_be16(self.bytes(), self.offset + BTREE_FIRST_FREEBLOCK)
    }

    pub open spec fn spec_cell_count(self) -> u16 {
        spec_be16(self.bytes(), self.offset + BTREE_CELL_COUNT)
    }

    /// The cell content area start, with the raw value 0 denoting 65536
    /// (the offset shares the 16-bit field width limitation of `PageSize`).
    pub open spec fn spec_cell_content_area(self) -> u32 {
        let raw = spec_be16(self.bytes(), self.offset + BTREE_CELL_CONTENT_AREA);
        if raw == 0 {
            65536
        } else {
            raw as u32
        }
    }

    pub open spec fn spec_frag_bytes(self) -> u8 {
        self.bytes()[self.offset + BTREE_FRAGMENTED_BYTES_COUNT]
    }

    pub open spec fn spec_rightmost_pointer(self) -> u32 {
        spec_be32(self.bytes(), self.offset + BTREE_RIGHTMOST_PTR)
    }

    /// 12 bytes for the interior page types (2 and 5), 8 for the leaf types.
    pub open spec fn spec_header_size(self) -> int {
        if self.spec_page_type_byte() == 2 || self.spec_page_type_byte() == 5 {
            12
        } else {
            8
        }
    }

    /// The cell-pointer array begins right after the header.
    pub open spec fn spec_cell_pointer_array_offset(self) -> int {
        self.offset + self.spec_header_size()
    }

    /// The cell-pointer array holds one 2-byte entry per cell.
    pub open spec fn spec_cell_pointer_array_size(self) -> int {
        self.spec_cell_count() * 2
    }

    /// The unallocated region is the gap between the end of the cell-pointer
    /// array and the start of the cell content area.
    pub open spec fn spec_unallocated_region_start(self) -> int {
        self.spec_cell_pointer_array_offset() + self.spec_cell_pointer_array_size()
    }

    /// A transient structured view over a page buffer, with no overflow
    /// cells staged.
    pub fn new(offset: usize, buffer: Buffer) -> (r: Self)
        ensures
            r.offset == offset,
            r.buffer@ == buffer@,
            r.overflow_cells@.len() == 0,
    {
        PageContent { offset, buffer, overflow_cells: Vec::new() }
    }

    /// Reads the byte `pos` bytes after the page's effective start.
    fn read_u8(&self, pos: usize) -> (b: u8)
        requires
            self.offset + pos < self.buffer@.len(),
        ensures
            b == self.bytes()[self.offset + pos],
    {
        let _len: usize = self.buffer.len();
        self.buffer.get(self.offset + pos)
    }

    /// Reads a big-endian 16-bit field `pos` bytes after the effective start.
    fn read_u16(&self, pos: usize) -> (v: u16)
        requires
            self.offset + pos + 2 <= self.buffer@.len(),
        ensures
            v == spec_be16(self.bytes(), self.offset + pos),
    {
        let _len: usize = self.buffer.len();
        let b0 = self.buffer.get(self.offset + pos);
        let b1 = self.buffer.get(self.offset + pos + 1);
        (b0 as u16) * 0x100 + (b1 as u16)
    }

    /// Reads a big-endian 32-bit field `pos` bytes after the effective start.
    fn read_u32(&self, pos: usize) -> (v: u32)
        requires
            self.offset + pos + 4 <= self.buffer@.len(),
        ensures
            v == spec_be32(self.bytes(), self.offset + pos),
    {
        let _len: usize = self.buffer.len();
        let b0 = self.buffer.get(self.offset + pos);
        let b1 = self.buffer.get(self.offset + pos + 1);
        let b2 = self.buffer.get(self.offset + pos + 2);
        let b3 = self.buffer.get(self.offset + pos + 3);
        (b0 as u32) * 0x1000000 + (b1 as u32) * 0x10000 + (b2 as u32) * 0x100 + (b3 as u32)
    }

    fn write_u8(&mut self, pos: usize, value: u8)
        requires
            old(self).offset + pos < old(self).buffer@.len(),
        ensures
            final(self).buffer@ == old(self).buffer@.update(old(self).offset + pos, value),
            final(self).offset == old(self).offset,
            final(self).overflow_cells == old(self).overflow_cells,
    {
        let _len: usize = self.buffer.len();
        let i = self.offset + pos;
        self.buffer.set(i, value);
    }

    fn write_u16(&mut self, pos: usize, value: u16)
        requires
            old(self).offset + pos + 2 <= old(self).buffer@.len(),
        ensures
            final(self).buffer@ == old(self).buffer@.update(
                old(self).offset + pos,
                (value / 0x100) as u8,
            ).update(old(self).offset + pos + 1, (value % 0x100) as u8),
            spec_be16(final(self).buffer@, old(self).offset + pos) == value,
            final(self).offset == old(self).offset,
            final(self).overflow_cells == old(self).overflow_cells,
    {
        let _len: usize = self.buffer.len();
        let i = self.offset + pos;
        self.buffer.set(i, (value / 0x100) as u8);
        self.buffer.set(i + 1, (value % 0x100) as u8);
        proof {
            lemma_fundamental_div_mod(value as int, 0x100);
        }
    }

    fn write_u32(&mut self, pos: usize, value: u32)
        requires
            old(self).offset + pos + 4 <= old(self).buffer@.len(),
        ensures
            final(self).buffer@ == old(self).buffer@.update(
                old(self).offset + pos,
                (value / 0x1000000) as u8,
            ).update(old(self).offset + pos + 1, ((value / 0x10000) % 0x100) as u8).update(
                old(self).offset + pos + 2,
                ((value / 0x100) % 0x100) as u8,
            ).update(old(self).offset + pos + 3, (value % 0x100) as u8),
            spec_be32(final(self).buffer@, old(self).offset + pos) == value,
            final(self).offset == old(self).offset,
            final(self).overflow_cells == old(self).overflow_cells,
    {
        let _len: usize = self.buffer.len();
        let i = self.offset + pos;
        proof {
            assert(value / 0x1000000 < 0x100) by {
                lemma_multiply_divide_lt(value as int, 0x1000000, 0x100);
            }
        }
        self.buffer.set(i, (value / 0x1000000) as u8);
        self.buffer.set(i + 1, ((value / 0x10000) % 0x100) as u8);
        self.buffer.set(i + 2, ((value / 0x100) % 0x100) as u8);
        self.buffer.set(i + 3, (value % 0x100) as u8);
        proof {
            assert(value / 0x1000000 * 0x1000000 + value / 0x10000 % 0x100 * 0x10000 + value / 0x100
                % 0x100 * 0x100 + value % 0x100 == value) by (bit_vector);
        }
    }

    /// Reads a big-endian 16-bit value at an absolute position in the page.
    pub fn read_u16_no_offset(&self, pos: usize) -> (v: u16)
        requires
            pos + 2 <= self.buffer@.len(),
        ensures
            v == spec_be16(self.bytes(), pos as int),
    {
        let _len: usize = self.buffer.len();
        let b0 = self.buffer.get(pos);
        let b1 = self.buffer.get(pos + 1);
        (b0 as u16) * 0x100 + (b1 as u16)
    }

    /// Reads a big-endian 32-bit value at an absolute position in the page.
    pub fn read_u32_no_offset(&self, pos: usize) -> (v: u32)
        requires
            pos + 4 <= self.buffer@.len(),
        ensures
            v == spec_be32(self.bytes(), pos as int),
    {
        let _len: usize = self.buffer.len();
        let b0 = self.buffer.get(pos);
        let b1 = self.buffer.get(pos + 1);
        let b2 = self.buffer.get(pos + 2);
        let b3 = self.buffer.get(pos + 3);
        (b0 as u32) * 0x1000000 + (b1 as u32) * 0x10000 + (b2 as u32) * 0x100 + (b3 as u32)
    }

    /// Writes a big-endian 16-bit value at an absolute position in the page.
    pub fn write_u16_no_offset(&mut self, pos: usize, value: u16)
        requires
            pos + 2 <= old(self).buffer@.len(),
        ensures
            final(self).buffer@ == old(self).buffer@.update(pos as int, (value / 0x100) as u8)
                .update(pos + 1, (value % 0x100) as u8),
            spec_be16(final(self).buffer@, pos as int) == value,
            final(self).offset == old(self).offset,
            final(self).overflow_cells == old(self).overflow_cells,
    {
        let _len: usize = self.buffer.len();
        self.buffer.set(pos, (value / 0x100) as u8);
        self.buffer.set(pos + 1, (value % 0x100) as u8);
        proof {
            lemma_fundamental_div_mod(value as int, 0x100);
        }
    }

    /// Writes a big-endian 32-bit value at an absolute position in the page.
    pub fn write_u32_no_offset(&mut self, pos: usize, value: u32)
        requires
            pos + 4 <= old(self).buffer@.len(),
        ensures
            final(self).buffer@ == old(self).buffer@.update(pos as int, (value / 0x1000000) as u8)
                .update(pos + 1, ((value / 0x10000) % 0x100) as u8).update(
                pos + 2,
                ((value / 0x100) % 0x100) as u8,
            ).update(pos + 3, (value % 0x100) as u8),
            spec_be32(final(self).buffer@, pos as int) == value,
            final(self).offset == old(self).offset,
            final(self).overflow_cells == old(self).overflow_cells,
    {
        let _len: usize = self.buffer.len();
        proof {
            assert(value / 0x1000000 < 0x100) by {
                lemma_multiply_divide_lt(value as int, 0x1000000, 0x100);
            }
        }
        self.buffer.set(pos, (value / 0x1000000) as u8);
        self.buffer.set(pos + 1, ((value / 0x10000) % 0x100) as u8);
        self.buffer.set(pos + 2, ((value / 0x100) % 0x100) as u8);
        self.buffer.set(pos + 3, (value % 0x100) as u8);
        proof {
            assert(value / 0x1000000 * 0x1000000 + value / 0x10000 % 0x100 * 0x10000 + value / 0x100
                % 0x100 * 0x100 + value % 0x100 == value) by (bit_vector);
        }
    }

    /// The page type; the page-type byte must be valid.
    pub fn page_type(&self) -> (r: PageType)
        requires
            self.wf(),
            self.spec_page_type() is Some,
        ensures
            Some(r) == self.spec_page_type(),
    {
        let b = self.read_u8(BTREE_PAGE_TYPE);
        match PageType::from_u8(b) {
            Ok(t) => t,
            Err(_) => unreached(),
        }
    }

    /// The page type, or `None` when the page-type byte is invalid.
    pub fn maybe_page_type(&self) -> (r: Option<PageType>)
        requires
            self.wf(),
        ensures
            r == self.spec_page_type(),
    {
        let b = self.read_u8(BTREE_PAGE_TYPE);
        match PageType::from_u8(b) {
            Ok(t) => Some(t),
            Err(_) => None,
        }
    }

    /// Stamps the page-type byte.
    pub fn write_page_type(&mut self, value: u8)
        requires
            old(self).wf(),
        ensures
            final(self).wf(),
            final(self).buffer@ == old(self).buffer@.update(
                old(self).offset + BTREE_PAGE_TYPE,
                value,
            ),
            final(self).spec_page_type_byte() == value,
            final(self).offset == old(self).offset,
            final(self).overflow_cells == old(self).overflow_cells,
    {
        self.write_u8(BTREE_PAGE_TYPE, value);
    }

    /// Writes the rightmost child pointer field (interior pages only hold
    /// one, but the raw write is available wherever the header fits).
    pub fn write_rightmost_ptr(&mut self, value: u32)
        requires
            old(self).wf(),
        ensures
            final(self).wf(),
            final(self).spec_rightmost_pointer() == value,
            final(self).offset == old(self).offset,
            final(self).overflow_cells == old(self).overflow_cells,
            final(self).buffer@.len() == old(self).buffer@.len(),
            forall|j: int|
                0 <= j < final(self).buffer@.len() && !(old(self).offset + BTREE_RIGHTMOST_PTR <= j
                    < old(self).offset + BTREE_RIGHTMOST_PTR + 4) ==> final(self).buffer@[j] == old(self).buffer@[j],
    {
        self.write_u32(BTREE_RIGHTMOST_PTR, value);
    }

    /// Writes the offset of the first freeblock in the chain (0 for none).
    pub fn write_first_freeblock(&mut self, value: u16)
        requires
            old(self).wf(),
        ensures
            final(self).wf(),
            final(self).spec_first_freeblock() == value,
            final(self).offset == old(self).offset,
            final(self).overflow_cells == old(self).overflow_cells,
            final(self).buffer@.len() == old(self).buffer@.len(),
            forall|j: int|
                0 <= j < final(self).buffer@.len() && !(old(self).offset + BTREE_FIRST_FREEBLOCK
                    <= j < old(self).offset + BTREE_FIRST_FREEBLOCK + 2) ==> final(self).buffer@[j]
                    == old(self).buffer@[j],
    {
        self.write_u16(BTREE_FIRST_FREEBLOCK, value);
    }

    /// The offset of the first freeblock in the chain (0 for none).
    pub fn read_first_freeblock(&self) -> (r: u16)
        requires
            self.wf(),
        ensures
            r == self.spec_first_freeblock(),
    {
        self.read_u16(BTREE_FIRST_FREEBLOCK)
    }

    /// Writes one freeblock record at an absolute offset: 2 bytes for the
    /// absolute offset of the next freeblock (0 ends the chain), then 2
    /// bytes for the size of this block.
    pub fn write_freeblock(&mut self, offset: u16, next_block: Option<u16>, size: u16)
        requires
            offset + 4 <= old(self).buffer@.len(),
        ensures
            spec_be16(final(self).buffer@, offset as int) == (match next_block {
                Some(n) => n,
                None => 0u16,
            }),
            spec_be16(final(self).buffer@, offset + 2) == size,
            final(self).offset == old(self).offset,
            final(self).overflow_cells == old(self).overflow_cells,
            final(self).buffer@.len() == old(self).buffer@.len(),
            forall|j: int|
                0 <= j < final(self).buffer@.len() && !(offset <= j < offset + 4) ==> final(self).buffer@[j] == old(self).buffer@[j],
    {
        let _len: usize = self.buffer.len();
        let next = match next_block {
            Some(n) => n,
            None => 0,
        };
        self.write_u16_no_offset(offset as usize, next);
        self.write_u16_no_offset(offset as usize + 2, size);
    }

    /// Reads one freeblock record at an absolute offset, returning the
    /// absolute offset of the next freeblock (0 ends the chain) and the
    /// size of this block.
    pub fn read_freeblock(&self, offset: u16) -> (r: (u16, u16))
        requires
            offset + 4 <= self.buffer@.len(),
        ensures
            r.0 == spec_be16(self.bytes(), offset as int),
            r.1 == spec_be16(self.bytes(), offset + 2),
    {
        let _len: usize = self.buffer.len();
        (self.read_u16_no_offset(offset as usize), self.read_u16_no_offset(offset as usize + 2))
    }

    /// Writes the cell count field.
    pub fn write_cell_count(&mut self, count: u16)
        requires
            old(self).wf(),
        ensures
            final(self).wf(),
            final(self).spec_cell_count() == count,
            final(self).offset == old(self).offset,
            final(self).overflow_cells == old(self).overflow_cells,
            final(self).buffer@.len() == old(self).buffer@.len(),
            forall|j: int|
                0 <= j < final(self).buffer@.len() && !(old(self).offset + BTREE_CELL_COUNT <= j
                    < old(self).offset + BTREE_CELL_COUNT + 2) ==> final(self).buffer@[j] == old(self).buffer@[j],
    {
        self.write_u16(BTREE_CELL_COUNT, count);
    }

    /// The number of cells on the page.
    pub fn read_cell_count(&self) -> (r: u16)
        requires
            self.wf(),
        ensures
            r == self.spec_cell_count(),
    {
        self.read_u16(BTREE_CELL_COUNT)
    }

    /// Writes the raw cell content area start; the raw value 0 denotes
    /// 65536.
    pub fn write_cell_content_area(&mut self, value: u16)
        requires
            old(self).wf(),
        ensures
            final(self).wf(),
            final(self).spec_cell_content_area() == (if value == 0 {
                65536u32
            } else {
                value as u32
            }),
            final(self).offset == old(self).offset,
            final(self).overflow_cells == old(self).overflow_cells,
            final(self).buffer@.len() == old(self).buffer@.len(),
            forall|j: int|
                0 <= j < final(self).buffer@.len() && !(old(self).offset + BTREE_CELL_CONTENT_AREA
                    <= j < old(self).offset + BTREE_CELL_CONTENT_AREA + 2) ==> final(self).buffer@[j] == old(self).buffer@[j],
    {
        self.write_u16(BTREE_CELL_CONTENT_AREA, value);
    }

    /// Writes the count of fragmented free bytes.
    pub fn write_fragmented_bytes_count(&mut self, count: u8)
        requires
            old(self).wf(),
        ensures
            final(self).wf(),
            final(self).spec_frag_bytes() == count,
            final(self).buffer@ == old(self).buffer@.update(
                old(self).offset + BTREE_FRAGMENTED_BYTES_COUNT,
                count,
            ),
            final(self).offset == old(self).offset,
            final(self).overflow_cells == old(self).overflow_cells,
    {
        self.write_u8(BTREE_FRAGMENTED_BYTES_COUNT, count);
    }

    /// The total number of fragmented free bytes on the page.
    pub fn num_frag_free_bytes(&self) -> (r: u8)
        requires
            self.wf(),
        ensures
            r == self.spec_frag_bytes(),
    {
        self.read_u8(BTREE_FRAGMENTED_BYTES_COUNT)
    }

    /// The header size: 12 bytes for interior pages, 8 for leaves, derived
    /// from an explicit classification of the page type.
    pub fn header_size(&self) -> (r: usize)
        requires
            self.wf(),
            self.spec_page_type() is Some,
        ensures
            r == self.spec_header_size(),
    {
        match self.page_type() {
            PageType::IndexInterior | PageType::TableInterior => INTERIOR_PAGE_HEADER_SIZE_BYTES,
            PageType::IndexLeaf | PageType::TableLeaf => LEAF_PAGE_HEADER_SIZE_BYTES,
        }
    }

    /// The absolute offset where the cell-pointer array begins, and its size
    /// in bytes.
    pub fn cell_pointer_array_offset_and_size(&self) -> (r: (usize, usize))
        requires
            self.wf(),
            self.spec_page_type() is Some,
        ensures
            r.0 == self.spec_cell_pointer_array_offset(),
            r.1 == self.spec_cell_pointer_array_size(),
    {
        (self.cell_pointer_array_offset(), self.cell_pointer_array_size())
    }

    /// The absolute offset where the cell-pointer array begins.
    pub fn cell_pointer_array_offset(&self) -> (r: usize)
        requires
            self.wf(),
            self.spec_page_type() is Some,
        ensures
            r == self.spec_cell_pointer_array_offset(),
    {
        self.offset + self.header_size()
    }

    /// The size of the cell-pointer array: 2 bytes per cell.
    pub fn cell_pointer_array_size(&self) -> (r: usize)
        requires
            self.wf(),
        ensures
            r == self.spec_cell_pointer_array_size(),
    {
        self.read_cell_count() as usize * CELL_PTR_SIZE_BYTES
    }

    /// The absolute offset where the unallocated region begins.
    pub fn unallocated_region_start(&self) -> (r: usize)
        requires
            self.wf(),
            self.spec_page_type() is Some,
        ensures
            r == self.spec_unallocated_region_start(),
    {
        let (cell_ptr_array_start, cell_ptr_array_size) = self.cell_pointer_array_offset_and_size();
        cell_ptr_array_start + cell_ptr_array_size
    }

    /// The size of the unallocated region. A region that would come out
    /// negative marks a corrupt page, so the caller must have established
    /// that the cell-pointer array ends at or before the content area.
    pub fn unallocated_region_size(&self) -> (r: usize)
        requires
            self.wf(),
            self.spec_page_type() is Some,
            self.spec_unallocated_region_start() <= self.spec_cell_content_area(),
        ensures
            r == self.spec_cell_content_area() - self.spec_unallocated_region_start(),
    {
        let area = self.cell_content_area();
        let start = self.unallocated_region_start();
        area as usize - start
    }

    /// The cell content area start, with the raw value 0 read as 65536.
    pub fn cell_content_area(&self) -> (r: u32)
        requires
            self.wf(),
        ensures
            r == self.spec_cell_content_area(),
    {
        let offset = self.read_u16(BTREE_CELL_CONTENT_AREA);
        if offset == 0 {
            PageSize::MAX
        } else {
            offset as u32
        }
    }

    /// The page number of the rightmost child: defined only for interior
    /// pages, and not applicable to leaves.
    pub fn rightmost_pointer(&self) -> (r: Option<u32>)
        requires
            self.wf(),
            self.spec_page_type() is Some,
        ensures
            match self.spec_page_type() {
                Some(t) => if t.spec_is_interior() {
                    r == Some(self.spec_rightmost_pointer())
                } else {
                    r is None
                },
                None => false,
            },
    {
        match self.page_type() {
            PageType::IndexInterior | PageType::TableInterior => Some(
                self.read_u32(BTREE_RIGHTMOST_PTR),
            ),
            PageType::IndexLeaf | PageType::TableLeaf => None,
        }
    }
}

} // verus!
