//! An owned, fixed-size byte region. The storage is exposed only through
//! bounds-checked accessors, and nothing can move or resize it in place;
//! its length is immutable after creation.

use vstd::prelude::*;

verus! {

/// An owned page-sized (or arbitrary-sized) byte buffer.
#[derive(Debug)]
pub enum Buffer {
    Heap(Vec<u8>),
}

impl View for Buffer {
    type V = Seq<u8>;

    open spec fn view(&self) -> Seq<u8> {
        match self {
            Buffer::Heap(data) => data@,
        }
    }
}

impl Buffer {
    /// A buffer holding exactly the given bytes.
    pub fn new(data: Vec<u8>) -> (r: Self)
        ensures
            r@ == data@,
    {
        Buffer::Heap(data)
    }

    /// A buffer of `size` zero bytes.
    pub fn new_zeroed(size: usize) -> (r: Self)
        ensures
            r@.len() == size,
            forall|i: int| 0 <= i < size ==> r@[i] == 0,
    {
        Buffer::Heap(vec![0u8; size])
    }

    pub fn len(&self) -> (n: usize)
        ensures
            n == self@.len(),
    {
        match self {
            Buffer::Heap(data) => data.len(),
        }
    }

    pub fn is_empty(&self) -> (r: bool)
        ensures
            r == (self@.len() == 0),
    {
        self.len() == 0
    }

    /// A read-only view of the whole buffer.
    pub fn as_slice(&self) -> (s: &[u8])
        ensures
            s@ == self@,
    {
        match self {
            Buffer::Heap(data) => data.as_slice(),
        }
    }

    /// The byte at position `i`.
    pub fn get(&self, i: usize) -> (b: u8)
        requires
            i < self@.len(),
        ensures
            b == self@[i as int],
    {
        match self {
            Buffer::Heap(data) => data[i],
        }
    }

    /// Overwrites the byte at position `i`.
    pub fn set(&mut self, i: usize, b: u8)
        requires
            i < old(self)@.len(),
        ensures
            final(self)@ == old(self)@.update(i as int, b),
    {
        match self {
            Buffer::Heap(data) => {
                data[i] = b;
            },
        }
    }

    /// Gives up the buffer, handing back its bytes.
    pub fn into_vec(self) -> (v: Vec<u8>)
        ensures
            v@ == self@,
    {
        match self {
            Buffer::Heap(data) => data,
        }
    }
}

} // verus!
