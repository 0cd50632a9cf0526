//! The in-memory `File` backend: a sparse mapping from page number to a
//! fixed 4096-byte page plus a tracked logical file size. Never-written
//! regions read as zero bytes — a property of this backend, not a general
//! `File` guarantee. Every operation resolves its completion before
//! returning.
//!
//! The page table carries no lock: at most one operation may be in flight
//! per file, and that single-writer requirement is enforced mechanically by
//! mutating operations taking the file by exclusive reference.

use vstd::prelude::*;
use vstd::pervasive::unreached;
use vstd::arithmetic::div_mod::{
    lemma_fundamental_div_mod, lemma_fundamental_div_mod_converse, lemma_mod_bound,
};
use crate::buffer::Buffer;
use crate::error::TursoMiniError;
use crate::io::{Completion, CompletionState, CompletionType, File, spec_total_len};

verus! {

/// The fixed page granularity of the in-memory backing store.
const PAGE_SIZE: usize = 4096;

/// An in-memory file: a sparse page table (an empty entry stands for a page
/// never written, which reads as zeros) and the logical file size.
pub struct MemoryFile {
    path: String,
    pages: Vec<Vec<u8>>,
    size: u64,
}

impl MemoryFile {
    /// Every present page holds exactly `PAGE_SIZE` bytes; an empty entry
    /// marks an absent page.
    pub closed spec fn wf(self) -> bool {
        forall|i: int|
            0 <= i < self.pages@.len() ==> ((#[trigger] self.pages@[i])@.len() == 0
                || self.pages@[i]@.len() == PAGE_SIZE)
    }

    /// The logical file size in bytes.
    pub closed spec fn spec_size(self) -> u64 {
        self.size
    }

    /// The byte at offset `k` of page `pg`: zero when the page is absent.
    spec fn page_byte(self, pg: int, k: int) -> u8 {
        if 0 <= pg < self.pages@.len() && self.pages@[pg]@.len() == PAGE_SIZE && 0 <= k < PAGE_SIZE {
            self.pages@[pg]@[k]
        } else {
            0
        }
    }

    /// The byte the backing store holds at address `addr`; zero wherever no
    /// write ever reached.
    pub closed spec fn spec_byte(self, addr: int) -> u8 {
        if addr >= 0 {
            self.page_byte(addr / (PAGE_SIZE as int), addr % (PAGE_SIZE as int))
        } else {
            0
        }
    }

    /// The `len` bytes a read starting at `pos` observes.
    pub open spec fn spec_read_seq(self, pos: int, len: int) -> Seq<u8> {
        Seq::new(len as nat, |k: int| self.spec_byte(pos + k))
    }

    /// How many bytes a read at `pos` into a buffer of `buf_len` bytes
    /// yields: nothing at or past the current size, otherwise up to the end
    /// of the file.
    pub open spec fn spec_read_len(self, pos: int, buf_len: int) -> int {
        if buf_len == 0 || pos >= self.spec_size() {
            0
        } else if buf_len <= self.spec_size() - pos {
            buf_len
        } else {
            self.spec_size() - pos
        }
    }

    /// An empty in-memory file: size zero, every byte zero.
    pub fn new(path: String) -> (r: Self)
        ensures
            r.wf(),
            r.spec_size() == 0,
            forall|a: int| r.spec_byte(a) == 0,
    {
        MemoryFile { path, pages: Vec::new(), size: 0 }
    }

    /// Reads one byte of the backing store.
    fn read_byte_at(&self, addr: usize) -> (b: u8)
        requires
            self.wf(),
        ensures
            b == self.spec_byte(addr as int),
    {
        let page_no = addr / PAGE_SIZE;
        let page_off = addr % PAGE_SIZE;
        if page_no < self.pages.len() {
            let page = &self.pages[page_no];
            if page.len() == PAGE_SIZE {
                page[page_off]
            } else {
                0
            }
        } else {
            0
        }
    }

    /// Builds the new contents of page `page_no` after `data[src..src + cnt]`
    /// lands at offset `off` within it; the rest of the page keeps its
    /// current bytes (zeros where the page is absent).
    fn build_page(&self, page_no: usize, off: usize, data: &[u8], src: usize, cnt: usize) -> (p:
        Vec<u8>)
        requires
            self.wf(),
            off + cnt <= PAGE_SIZE,
            src + cnt <= data@.len(),
        ensures
            p@.len() == PAGE_SIZE,
            forall|k: int|
                0 <= k < PAGE_SIZE ==> p@[k] == (if off <= k < off + cnt {
                    data@[src + (k - off)]
                } else {
                    self.page_byte(page_no as int, k)
                }),
    {
        let _dlen: usize = data.len();
        let mut p: Vec<u8> = Vec::new();
        let mut k: usize = 0;
        while k < PAGE_SIZE
            invariant
                self.wf(),
                k <= PAGE_SIZE,
                off + cnt <= PAGE_SIZE,
                src + cnt <= data@.len(),
                data@.len() <= usize::MAX,
                p@.len() == k,
                forall|j: int|
                    0 <= j < k ==> p@[j] == (if off <= j < off + cnt {
                        data@[src + (j - off)]
                    } else {
                        self.page_byte(page_no as int, j)
                    }),
            decreases PAGE_SIZE - k,
        {
            let b: u8 = if k >= off && k < off + cnt {
                data[src + (k - off)]
            } else {
                if page_no < self.pages.len() {
                    let page = &self.pages[page_no];
                    if page.len() == PAGE_SIZE {
                        page[k]
                    } else {
                        0
                    }
                } else {
                    0
                }
            };
            p.push(b);
            k = k + 1;
        }
        p
    }

    /// Installs `page` as page `page_no`, growing the page table with absent
    /// entries as needed. The rest of the store and the size are untouched.
    fn store_page(&mut self, page_no: usize, page: Vec<u8>)
        requires
            old(self).wf(),
            page@.len() == PAGE_SIZE,
            page_no < usize::MAX,
        ensures
            final(self).wf(),
            final(self).size == old(self).size,
            final(self).path == old(self).path,
            forall|pg: int, k: int|
                #![trigger final(self).page_byte(pg, k)]
                final(self).page_byte(pg, k) == (if pg == page_no && 0 <= k < PAGE_SIZE {
                    page@[k]
                } else {
                    old(self).page_byte(pg, k)
                }),
    {
        while self.pages.len() <= page_no
            invariant
                self.wf(),
                self.size == old(self).size,
                self.path == old(self).path,
                page_no < usize::MAX,
                forall|pg: int, k: int|
                    #![trigger self.page_byte(pg, k)]
                    self.page_byte(pg, k) == old(self).page_byte(pg, k),
            decreases page_no + 1 - self.pages.len(),
        {
            let ghost prev = *self;
            let empty_page: Vec<u8> = Vec::new();
            let ghost pushed = empty_page;
            self.pages.push(empty_page);
            proof {
                assert forall|pg: int, k: int| #![trigger self.page_byte(pg, k)]
                    self.page_byte(pg, k) == prev.page_byte(pg, k) by {
                    assert(self.pages@ == prev.pages@.push(pushed));
                    if 0 <= pg < prev.pages@.len() {
                        assert(self.pages@[pg] == prev.pages@[pg]);
                    }
                }
            }
        }
        let ghost grown = *self;
        self.pages[page_no] = page;
        proof {
            assert forall|pg: int, k: int| #![trigger self.page_byte(pg, k)]
                self.page_byte(pg, k) == (if pg == page_no && 0 <= k < PAGE_SIZE {
                    page@[k]
                } else {
                    grown.page_byte(pg, k)
                }) by {
                assert(self.pages@ == grown.pages@.update(page_no as int, page));
                if 0 <= pg < self.pages@.len() && pg != page_no {
                    assert(self.pages@[pg] == grown.pages@[pg]);
                }
            }
        }
    }

    /// Overwrites the bytes at `[pos, pos + data.len())` with `data`,
    /// page by page; the size is not touched here.
    fn write_bytes(&mut self, pos: usize, data: &[u8])
        requires
            old(self).wf(),
            pos + data@.len() <= usize::MAX,
        ensures
            final(self).wf(),
            final(self).size == old(self).size,
            final(self).path == old(self).path,
            spec_bytes_overwritten(*old(self), *final(self), pos as int, data@),
    {
        let len = data.len();
        let mut written: usize = 0;
        while written < len
            invariant
                self.wf(),
                self.size == old(self).size,
                self.path == old(self).path,
                written <= len,
                len == data@.len(),
                pos + len <= usize::MAX,
                forall|a: int|
                    #![trigger self.spec_byte(a)]
                    self.spec_byte(a) == (if pos <= a < pos + written {
                        data@[a - pos]
                    } else {
                        old(self).spec_byte(a)
                    }),
            decreases len - written,
        {
            let addr = pos + written;
            let page_no = addr / PAGE_SIZE;
            let page_off = addr % PAGE_SIZE;
            let room = PAGE_SIZE - page_off;
            let left = len - written;
            let cnt = if left < room {
                left
            } else {
                room
            };
            proof {
                lemma_fundamental_div_mod(addr as int, PAGE_SIZE as int);
            }
            let ghost mid = *self;
            let page = self.build_page(page_no, page_off, data, written, cnt);
            self.store_page(page_no, page);
            proof {
                let ps = PAGE_SIZE as int;
                let base = page_no as int * ps;
                assert forall|a: int|
                    #![trigger self.spec_byte(a)]
                    self.spec_byte(a) == (if pos <= a < pos + (written + cnt) {
                        data@[a - pos]
                    } else {
                        old(self).spec_byte(a)
                    }) by {
                    if a >= 0 {
                        let pg = a / ps;
                        let k = a % ps;
                        lemma_fundamental_div_mod(a, ps);
                        lemma_mod_bound(a, ps);
                        if pg == page_no {
                            assert(a == base + k);
                            if page_off <= k < page_off + cnt {
                                assert(pos + written <= a < pos + written + cnt);
                                assert(self.spec_byte(a) == data@[written + (k - page_off)]);
                                assert(written + (k - page_off) == a - pos);
                            } else {
                                assert(self.spec_byte(a) == mid.page_byte(pg, k));
                                assert(mid.page_byte(pg, k) == mid.spec_byte(a));
                                assert(!(pos + written <= a < pos + written + cnt));
                            }
                        } else {
                            assert(self.spec_byte(a) == mid.spec_byte(a));
                            if pos + written <= a < pos + written + cnt {
                                // such an address lies on the written page
                                lemma_fundamental_div_mod_converse(
                                    a,
                                    ps,
                                    page_no as int,
                                    a - base,
                                );
                                assert(false);
                            }
                        }
                    }
                }
            }
            written = written + cnt;
        }
    }
}

/// Every byte in `[pos, pos + data.len())` now holds `data`, and every byte
/// outside it is untouched.
pub open spec fn spec_bytes_overwritten(
    pre: MemoryFile,
    post: MemoryFile,
    pos: int,
    data: Seq<u8>,
) -> bool {
    forall|a: int|
        #![trigger post.spec_byte(a)]
        post.spec_byte(a) == (if pos <= a < pos + data.len() {
            data[a - pos]
        } else {
            pre.spec_byte(a)
        })
}

/// The full effect of one write: the bytes land, and the size grows to the
/// write's end when that lies past the old size (a write never shrinks it).
pub open spec fn spec_write_updates(
    pre: MemoryFile,
    post: MemoryFile,
    pos: int,
    data: Seq<u8>,
) -> bool {
    &&& spec_bytes_overwritten(pre, post, pos, data)
    &&& post.spec_size() == (if pos + data.len() > pre.spec_size() {
        pos + data.len()
    } else {
        pre.spec_size() as int
    })
}

/// The bytes of a sequence of buffers, laid end to end.
pub open spec fn spec_concat_bufs(bufs: Seq<Buffer>) -> Seq<u8>
    decreases bufs.len(),
{
    if bufs.len() == 0 {
        Seq::empty()
    } else {
        bufs[0]@ + spec_concat_bufs(bufs.drop_first())
    }
}

/// Two back-to-back overwrites act as one overwrite of the concatenation.
proof fn lemma_overwrite_compose(
    m0: MemoryFile,
    m1: MemoryFile,
    m2: MemoryFile,
    pos: int,
    d1: Seq<u8>,
    d2: Seq<u8>,
)
    requires
        spec_bytes_overwritten(m0, m1, pos, d1),
        spec_bytes_overwritten(m1, m2, pos + d1.len(), d2),
    ensures
        spec_bytes_overwritten(m0, m2, pos, d1 + d2),
{
    assert forall|a: int|
        #![trigger m2.spec_byte(a)]
        m2.spec_byte(a) == (if pos <= a < pos + (d1 + d2).len() {
            (d1 + d2)[a - pos]
        } else {
            m0.spec_byte(a)
        }) by {
        assert(m1.spec_byte(a) == (if pos <= a < pos + d1.len() {
            d1[a - pos]
        } else {
            m0.spec_byte(a)
        }));
    }
}

impl File for MemoryFile {
    open spec fn inv(&self) -> bool {
        self.wf()
    }

    /// File-level locking is a no-op for a purely in-memory file.
    fn lock_file(&mut self) -> (r: Result<(), TursoMiniError>)
        ensures
            *final(self) == *old(self),
            r is Ok,
    {
        Ok(())
    }

    fn unlock_file(&mut self) -> (r: Result<(), TursoMiniError>)
        ensures
            *final(self) == *old(self),
            r is Ok,
    {
        Ok(())
    }

    /// The tracked logical size.
    fn size(&self) -> (r: Result<u64, TursoMiniError>)
        ensures
            r == Ok::<u64, TursoMiniError>(self.spec_size()),
    {
        Ok(self.size)
    }

    /// Fills the completion's buffer from the store: nothing at or past the
    /// current size, otherwise `min(buffer length, size - pos)` bytes, with
    /// absent pages read as zeros; resolves the completion with that count.
    fn pread(&mut self, pos: u64, c: Completion) -> (r: Result<Completion, TursoMiniError>)
        ensures
            *final(self) == *old(self),
            ({
                let n = old(self).spec_read_len(pos as int, c.spec_read_buf().len() as int);
                match r {
                    Ok(c2) => {
                        &&& c2.is_read()
                        &&& c2.state == CompletionState::Succeeded(n as i32)
                        &&& c2.spec_read_buf().len() == c.spec_read_buf().len()
                        &&& c2.spec_read_buf().take(n) == old(self).spec_read_seq(pos as int, n)
                        &&& forall|k: int|
                            n <= k < c.spec_read_buf().len() ==> c2.spec_read_buf()[k]
                                == c.spec_read_buf()[k]
                    },
                    Err(_) => false,
                }
            }),
    {
        let Completion { completion_type, state: _ } = c;
        match completion_type {
            CompletionType::Read(rc) => {
                let buf = rc.buf;
                let ghost orig = buf@;
                let mut data = buf.into_vec();
                let buf_len = data.len();
                let mut n: usize = 0;
                if buf_len > 0 && pos < self.size {
                    let avail = self.size - pos;
                    let read_len: usize = if (buf_len as u64) < avail {
                        buf_len
                    } else {
                        avail as usize
                    };
                    let posu = pos as usize;
                    let mut k: usize = 0;
                    while k < read_len
                        invariant
                            self.wf(),
                            k <= read_len,
                            posu + read_len <= usize::MAX,
                            data@.len() == buf_len,
                            read_len <= buf_len,
                            forall|j: int| 0 <= j < k ==> data@[j] == self.spec_byte(posu + j),
                            forall|j: int| k <= j < buf_len ==> data@[j] == orig[j],
                        decreases read_len - k,
                    {
                        let b = self.read_byte_at(posu + k);
                        data[k] = b;
                        k = k + 1;
                    }
                    n = read_len;
                }
                let mut c2 = Completion::new_read(Buffer::new(data));
                c2.complete(n as i32);
                proof {
                    assert(c2.spec_read_buf().take(n as int) =~= old(self).spec_read_seq(
                        pos as int,
                        n as int,
                    ));
                }
                Ok(c2)
            },
            _ => unreached(),
        }
    }

    /// Writes the buffer at `pos`, splitting across pages and allocating
    /// zero-filled pages on first touch; extends the size to the write's end
    /// when needed, and resolves the completion with the byte count.
    fn pwrite(&mut self, pos: u64, buffer: &Buffer, c: Completion) -> (r: Result<
        Completion,
        TursoMiniError,
    >)
        ensures
            match r {
                Ok(c2) => {
                    &&& c2.is_write()
                    &&& c2.state == CompletionState::Succeeded(buffer@.len() as i32)
                    &&& spec_write_updates(*old(self), *final(self), pos as int, buffer@)
                },
                Err(_) => false,
            },
    {
        let Completion { completion_type, state: _ } = c;
        match completion_type {
            CompletionType::Write(_) => {
                let data = buffer.as_slice();
                let buf_len = data.len();
                self.write_bytes(pos as usize, data);
                let ghost written = *self;
                let end = pos + buf_len as u64;
                if end > self.size {
                    self.size = end;
                }
                let mut c2 = Completion::new_write();
                c2.complete(buf_len as i32);
                proof {
                    assert forall|a: int| #![trigger self.spec_byte(a)]
                        self.spec_byte(a) == (if pos <= a < pos + buffer@.len() {
                            buffer@[a - pos]
                        } else {
                            old(self).spec_byte(a)
                        }) by {
                        assert(self.spec_byte(a) == written.spec_byte(a));
                    }
                }
                Ok(c2)
            },
            _ => unreached(),
        }
    }

    /// A no-op for the in-memory backend, resolved immediately.
    fn sync(&mut self, c: Completion) -> (r: Result<Completion, TursoMiniError>)
        ensures
            *final(self) == *old(self),
            match r {
                Ok(c2) => c2.is_sync() && c2.state == CompletionState::Succeeded(0),
                Err(_) => false,
            },
    {
        let mut c2 = c;
        c2.complete(0);
        Ok(c2)
    }

    /// Sets the size to `len`, drops every page at or past the new end, and
    /// zeroes the tail of the page the new end falls into, so that a region
    /// past `len` reads as zeros even after the file grows again.
    fn truncate(&mut self, len: u64, c: Completion) -> (r: Result<Completion, TursoMiniError>)
        ensures
            final(self).spec_size() == len,
            forall|a: int|
                #![trigger final(self).spec_byte(a)]
                final(self).spec_byte(a) == (if 0 <= a < len {
                    old(self).spec_byte(a)
                } else {
                    0
                }),
            match r {
                Ok(c2) => c2.is_truncate() && c2.state == CompletionState::Succeeded(0),
                Err(_) => false,
            },
    {
        let len_us = len as usize;
        let whole = len_us / PAGE_SIZE;
        let tail = len_us % PAGE_SIZE;
        let kept = if tail == 0 {
            whole
        } else {
            whole + 1
        };
        proof {
            lemma_fundamental_div_mod(len_us as int, PAGE_SIZE as int);
            lemma_mod_bound(len_us as int, PAGE_SIZE as int);
        }
        self.pages.truncate(kept);
        let ghost after_trunc = *self;
        proof {
            assert(after_trunc.wf());
            assert forall|pg: int, k: int|
                #![trigger after_trunc.page_byte(pg, k)]
                after_trunc.page_byte(pg, k) == (if pg < kept {
                    old(self).page_byte(pg, k)
                } else {
                    0u8
                }) by {}
        }
        if tail != 0 && whole < self.pages.len() {
            if self.pages[whole].len() == PAGE_SIZE {
                // keep the prefix below the new end, zero the rest of the page
                let zeroed: usize = PAGE_SIZE - tail;
                let zeros: Vec<u8> = vec![0u8; zeroed];
                let page = self.build_page(whole, tail, zeros.as_slice(), 0, zeroed);
                self.store_page(whole, page);
            }
        }
        let ghost after_zero = *self;
        proof {
            assert forall|pg: int, k: int|
                #![trigger after_zero.page_byte(pg, k)]
                after_zero.page_byte(pg, k) == (if pg == whole && tail <= k < PAGE_SIZE {
                    0u8
                } else {
                    after_trunc.page_byte(pg, k)
                }) by {
                assert(after_trunc.page_byte(pg, k) == after_trunc.page_byte(pg, k));
            }
        }
        self.size = len;
        let mut c2 = c;
        c2.complete(0);
        proof {
            let ps = PAGE_SIZE as int;
            assert forall|a: int|
                #![trigger self.spec_byte(a)]
                self.spec_byte(a) == (if 0 <= a < len {
                    old(self).spec_byte(a)
                } else {
                    0
                }) by {
                if a >= 0 {
                    let pg = a / ps;
                    let k = a % ps;
                    lemma_fundamental_div_mod(a, ps);
                    lemma_mod_bound(a, ps);
                    assert(self.page_byte(pg, k) == after_zero.page_byte(pg, k));
                    assert(after_zero.page_byte(pg, k) == (if pg == whole && tail <= k < PAGE_SIZE {
                        0u8
                    } else {
                        after_trunc.page_byte(pg, k)
                    }));
                    assert(after_trunc.page_byte(pg, k) == (if pg < kept {
                        old(self).page_byte(pg, k)
                    } else {
                        0u8
                    }));
                    if 0 <= a < len {
                        assert(pg < kept && !(pg == whole && tail <= k < PAGE_SIZE));
                        assert(old(self).spec_byte(a) == old(self).page_byte(pg, k));
                    } else {
                        if pg < kept {
                            assert(pg == whole && tail <= k < PAGE_SIZE);
                        } else {
                            assert(after_trunc.page_byte(pg, k) == 0);
                        }
                    }
                }
            }
        }
        Ok(c2)
    }

    /// Writes the buffers back to back starting at `pos`: equivalent to one
    /// write of their concatenation. Resolves the completion with the total
    /// byte count and extends the size to the write's end when needed.
    fn pwritev(&mut self, pos: u64, buffers: &Vec<Buffer>, c: Completion) -> (r: Result<
        Completion,
        TursoMiniError,
    >)
        ensures
            match r {
                Ok(c2) => {
                    &&& c2.is_write()
                    &&& c2.state == CompletionState::Succeeded(
                        spec_total_len(buffers@) as i32,
                    )
                    &&& spec_write_updates(
                        *old(self),
                        *final(self),
                        pos as int,
                        spec_concat_bufs(buffers@),
                    )
                },
                Err(_) => false,
            },
    {
        let Completion { completion_type, state: _ } = c;
        match completion_type {
            CompletionType::Write(_) => {
                let posu = pos as usize;
                let mut total: usize = 0;
                let mut i: usize = 0;
                proof {
                    lemma_concat_len(buffers@);
                }
                while i < buffers.len()
                    invariant
                        self.wf(),
                        self.size == old(self).size,
                        i <= buffers@.len(),
                        total == spec_total_len(buffers@.take(i as int)),
                        total == spec_concat_bufs(buffers@.take(i as int)).len(),
                        spec_total_len(buffers@) <= i32::MAX,
                        posu + spec_total_len(buffers@) <= usize::MAX,
                        pos == posu,
                        spec_bytes_overwritten(
                            *old(self),
                            *self,
                            posu as int,
                            spec_concat_bufs(buffers@.take(i as int)),
                        ),
                    decreases buffers@.len() - i,
                {
                    proof {
                        lemma_concat_len(buffers@.take(i as int));
                        lemma_total_len_step(buffers@, i as int);
                    }
                    let ghost mid = *self;
                    let ghost done = spec_concat_bufs(buffers@.take(i as int));
                    let data = buffers[i].as_slice();
                    self.write_bytes(posu + total, data);
                    proof {
                        lemma_overwrite_compose(
                            *old(self),
                            mid,
                            *self,
                            posu as int,
                            done,
                            data@,
                        );
                        lemma_concat_step(buffers@, i as int);
                        assert(done + data@ == spec_concat_bufs(buffers@.take(i + 1)));
                        lemma_concat_len(buffers@.take(i + 1));
                    }
                    total = total + data.len();
                    i = i + 1;
                }
                proof {
                    assert(buffers@.take(buffers@.len() as int) =~= buffers@);
                }
                let ghost written = *self;
                let ghost all = spec_concat_bufs(buffers@);
                let end = pos + total as u64;
                if end > self.size {
                    self.size = end;
                }
                let mut c2 = Completion::new_write();
                c2.complete(total as i32);
                proof {
                    assert forall|a: int| #![trigger self.spec_byte(a)]
                        self.spec_byte(a) == (if pos <= a < pos + all.len() {
                            all[a - pos]
                        } else {
                            old(self).spec_byte(a)
                        }) by {
                        assert(self.spec_byte(a) == written.spec_byte(a));
                    }
                }
                Ok(c2)
            },
            _ => unreached(),
        }
    }
}

/// The concatenation of a buffer sequence is as long as the lengths added up.
proof fn lemma_concat_len(bufs: Seq<Buffer>)
    ensures
        spec_concat_bufs(bufs).len() == spec_total_len(bufs),
        spec_total_len(bufs) >= 0,
    decreases bufs.len(),
{
    if bufs.len() > 0 {
        lemma_concat_len(bufs.drop_first());
    }
}

/// Taking one more buffer extends the total length by that buffer's length.
proof fn lemma_total_len_step(bufs: Seq<Buffer>, i: int)
    requires
        0 <= i < bufs.len(),
    ensures
        spec_total_len(bufs.take(i + 1)) == spec_total_len(bufs.take(i)) + bufs[i]@.len(),
        spec_total_len(bufs.take(i)) + bufs[i]@.len() <= spec_total_len(bufs),
    decreases bufs.len(),
{
    lemma_concat_len(bufs);
    lemma_concat_step(bufs, i);
    lemma_concat_len(bufs.take(i));
    lemma_concat_len(bufs.take(i + 1));
    lemma_total_len_prefix(bufs, i + 1);
}

/// A prefix never holds more bytes than the whole.
proof fn lemma_total_len_prefix(bufs: Seq<Buffer>, i: int)
    requires
        0 <= i <= bufs.len(),
    ensures
        spec_total_len(bufs.take(i)) <= spec_total_len(bufs),
    decreases bufs.len(),
{
    if i == bufs.len() {
        assert(bufs.take(i) =~= bufs);
    } else if bufs.len() > 0 {
        if i == 0 {
            lemma_concat_len(bufs);
            assert(spec_total_len(bufs.take(0)) == 0);
        } else {
            assert(bufs.take(i).drop_first() =~= bufs.drop_first().take(i - 1));
            assert(bufs.take(i)[0] == bufs[0]);
            lemma_total_len_prefix(bufs.drop_first(), i - 1);
        }
    }
}

/// Taking one more buffer appends exactly that buffer's bytes.
proof fn lemma_concat_step(bufs: Seq<Buffer>, i: int)
    requires
        0 <= i < bufs.len(),
    ensures
        spec_concat_bufs(bufs.take(i + 1)) == spec_concat_bufs(bufs.take(i)) + bufs[i]@,
    decreases i,
{
    if i == 0 {
        let t1 = bufs.take(1);
        assert(t1.len() == 1);
        assert(t1[0] == bufs[0]);
        assert(t1.drop_first() =~= Seq::<Buffer>::empty());
        assert(spec_concat_bufs(t1) == t1[0]@ + spec_concat_bufs(t1.drop_first()));
        assert(spec_concat_bufs(t1.drop_first()) == Seq::<u8>::empty());
        assert(bufs[0]@ + Seq::<u8>::empty() =~= bufs[0]@);
        assert(bufs.take(0).len() == 0);
        assert(spec_concat_bufs(bufs.take(0)) + bufs[0]@ =~= bufs[0]@);
    } else {
        let d = bufs.drop_first();
        assert(bufs.take(i + 1).drop_first() =~= d.take(i));
        assert(bufs.take(i).drop_first() =~= d.take(i - 1));
        assert(bufs.take(i + 1)[0] == bufs[0]);
        assert(bufs.take(i)[0] == bufs[0]);
        lemma_concat_step(d, i - 1);
        assert(d[i - 1] == bufs[i]);
        assert(spec_concat_bufs(bufs.take(i + 1)) == bufs[0]@ + (spec_concat_bufs(d.take(i - 1))
            + bufs[i]@));
        assert(bufs[0]@ + (spec_concat_bufs(d.take(i - 1)) + bufs[i]@) =~= (bufs[0]@
            + spec_concat_bufs(d.take(i - 1))) + bufs[i]@);
    }
}

/// Writing then reading the same range hands back exactly the written bytes,
/// and the write left the file at least large enough for the whole range.
pub proof fn lemma_write_then_read_back(
    pre: MemoryFile,
    post: MemoryFile,
    pos: int,
    data: Seq<u8>,
)
    requires
        spec_write_updates(pre, post, pos, data),
        0 <= pos,
    ensures
        post.spec_read_seq(pos, data.len() as int) == data,
        data.len() > 0 ==> post.spec_read_len(pos, data.len() as int) == data.len(),
{
    assert(post.spec_read_seq(pos, data.len() as int) =~= data);
}

/// A range no write has ever reached reads back as zeros of the requested
/// length: here, any in-range region disjoint from the one write made to a
/// fresh file.
pub proof fn lemma_unwritten_reads_zero(
    pre: MemoryFile,
    post: MemoryFile,
    wpos: int,
    data: Seq<u8>,
    rpos: int,
    rlen: int,
)
    requires
        forall|a: int| pre.spec_byte(a) == 0,
        spec_bytes_overwritten(pre, post, wpos, data),
        0 <= rpos,
        0 <= rlen,
        rpos + rlen <= wpos || wpos + data.len() <= rpos,
    ensures
        post.spec_read_seq(rpos, rlen) == Seq::new(rlen as nat, |k: int| 0u8),
{
    assert(post.spec_read_seq(rpos, rlen) =~= Seq::new(rlen as nat, |k: int| 0u8));
}

} // verus!
