use vstd::prelude::*;

verus! {

use crate::arena::AllocError;
use crate::arena::ArenaModel;
use crate::arena::RadPtr;
use crate::arena::arena_alloc;
use crate::arena::arena_read;
use crate::arena::arena_write;
use crate::arena::fits;
use crate::arena::place_at;
use crate::arena::written;

/// The byte alignment a bump allocator's backing buffer is requested with
/// when the caller does not choose one.
pub const DEFAULT_ALIGNMENT: usize = 1;

/// Whether `size` bytes with byte alignment `align` form a valid layout for
/// a backing buffer: the alignment is a power of two and the size, rounded
/// up to it, stays within an `isize`.
pub open spec fn valid_layout(size: usize, align: usize) -> bool {
    &&& align >= 1
    &&& (align & (align - 1) as usize) == 0
    &&& size <= isize::MAX - (align - 1)
}

/// Handles into a bump allocator's buffer are the same offset handles the
/// stack allocator returns.
pub type BumpPtr = RadPtr;

/// With the default alignment the layout is valid exactly when the size
/// stays within an `isize`.
pub proof fn lemma_default_layout_valid(size: usize)
    ensures
        valid_layout(size, DEFAULT_ALIGNMENT) <==> size <= (isize::MAX as usize),
{
    assert((1usize & (1usize - 1) as usize) == 0) by (bit_vector);
}

/// A bump/arena allocator: the same monotonic allocation algorithm as the
/// stack allocator, but over backing storage whose byte size and alignment
/// are chosen at construction. Only a full reset is exposed; no partial
/// rewind. The allocator owns its buffer, which is freed exactly once when
/// the allocator is dropped or released. No operation runs a destructor of
/// a previously placed value.
pub struct BumpAllocator {
    buf: Vec<u8>,
    top: usize,
}

impl View for BumpAllocator {
    type V = ArenaModel;

    closed spec fn view(&self) -> ArenaModel {
        ArenaModel { bytes: self.buf@, top: self.top as int }
    }
}

impl BumpAllocator {
    /// Whether the allocator is in its valid state: the cursor lies within
    /// the buffer.
    pub open spec fn wf(&self) -> bool {
        self@.wf()
    }

    /// A fresh allocator over `size_bytes` bytes requested with the default
    /// alignment. Fails with `InvalidLayout` exactly when the layout is
    /// invalid, which for the default alignment means a size beyond `isize`.
    pub fn new(size_bytes: usize) -> (r: Result<Self, AllocError>)
        ensures
            r is Ok <==> size_bytes <= (isize::MAX as usize),
            r matches Ok(b) ==> {
                &&& b.wf()
                &&& b@.top == 0
                &&& b@.cap() == size_bytes
                &&& b@.bytes =~= Seq::new(size_bytes as nat, |i: int| 0u8)
            },
            r matches Err(e) ==> e == AllocError::InvalidLayout,
    {
        proof {
            lemma_default_layout_valid(size_bytes);
        }
        Self::with_align(size_bytes, DEFAULT_ALIGNMENT)
    }

    /// A fresh allocator over `size_bytes` bytes requested with alignment
    /// `align`. Fails with `InvalidLayout` exactly when the size/alignment
    /// pair is invalid; construction is the only point where this error can
    /// arise.
    pub fn with_align(size_bytes: usize, align: usize) -> (r: Result<Self, AllocError>)
        ensures
            r is Ok <==> valid_layout(size_bytes, align),
            r matches Ok(b) ==> {
                &&& b.wf()
                &&& b@.top == 0
                &&& b@.cap() == size_bytes
                &&& b@.bytes =~= Seq::new(size_bytes as nat, |i: int| 0u8)
            },
            r matches Err(e) ==> e == AllocError::InvalidLayout,
    {
        if align < 1 || (align & (align - 1)) != 0 {
            return Err(AllocError::InvalidLayout);
        }
        let imax = isize::MAX as usize;
        if align - 1 > imax || size_bytes > imax - (align - 1) {
            return Err(AllocError::InvalidLayout);
        }
        let buf: Vec<u8> = vec![0u8; size_bytes];
        proof {
            assert(buf@ =~= Seq::new(size_bytes as nat, |i: int| 0u8));
        }
        Ok(BumpAllocator { buf, top: 0 })
    }

    /// Places `data` at the next cursor position that satisfies `align`,
    /// advances the cursor past it and returns a handle to the placed bytes.
    /// If padding plus size would push the cursor past capacity, fails with
    /// `CapacityExceeded` and leaves the allocator untouched.
    pub fn allocate(&mut self, data: &Vec<u8>, align: usize) -> (r: Result<RadPtr, AllocError>)
        requires
            old(self).wf(),
            align >= 1,
        ensures
            final(self).wf(),
            final(self)@.cap() == old(self)@.cap(),
            fits(old(self)@.top, old(self)@.cap(), data@.len() as int, align as int) <==> r is Ok,
            r matches Ok(p) ==> {
                &&& final(self)@ == old(self)@.allocate(data@, align as int)
                &&& p.off == place_at(old(self)@.top, align as int)
                &&& p.len == data@.len()
                &&& p.off as int % align as int == 0
                &&& final(self)@.top == p.off + p.len
                &&& p.off + p.len <= old(self)@.cap()
            },
            r matches Err(e) ==> {
                &&& e == AllocError::CapacityExceeded
                &&& final(self)@ == old(self)@
            },
    {
        arena_alloc(&mut self.buf, &mut self.top, data, align)
    }

    /// Resets the cursor to the start; the only deallocation the bump
    /// allocator exposes. The buffer's bytes are untouched: storage is
    /// reclaimed for reuse, nothing is finalized.
    pub fn clear(&mut self)
        requires
            old(self).wf(),
        ensures
            final(self).wf(),
            final(self)@ == old(self)@.cleared(),
    {
        self.top = 0;
    }

    /// Consumes the allocator, freeing its backing buffer. Handles derived
    /// from it are dangling from here on.
    pub fn release(self) {
    }

    /// Reads back a copy of the bytes that `p` addresses. The handle must
    /// lie within the buffer; no liveness check exists, so a handle into a
    /// cleared region still yields the bytes last written at its offset.
    pub fn read(&self, p: &RadPtr) -> (r: Vec<u8>)
        requires
            self.wf(),
            p.off + p.len <= self@.cap(),
        ensures
            r@ == self@.bytes.subrange(p.off as int, p.off as int + p.len as int),
    {
        arena_read(&self.buf, p)
    }

    /// Overwrites the region that `p` addresses with `data`, which must have
    /// the handle's exact length. Bytes outside the region are untouched.
    pub fn write(&mut self, p: &RadPtr, data: &Vec<u8>)
        requires
            old(self).wf(),
            p.off + p.len <= old(self)@.cap(),
            data@.len() == p.len,
        ensures
            final(self).wf(),
            final(self)@.bytes == written(old(self)@.bytes, p.off as int, data@),
            final(self)@.top == old(self)@.top,
            final(self)@.cap() == old(self)@.cap(),
    {
        arena_write(&mut self.buf, p, data)
    }
}

} // verus!
