use vstd::prelude::*;

verus! {

use crate::arena::AllocError;
use crate::arena::ArenaModel;
use crate::arena::RadPtr;
use crate::arena::arena_alloc;
use crate::arena::arena_read;
use crate::arena::arena_write;
use crate::arena::fits;
use crate::arena::place_at;
use crate::arena::written;

/// A fixed-capacity LIFO allocator: a byte buffer of capacity `S` and a
/// monotonic cursor. Allocation advances the cursor (with alignment
/// correction); deallocation is a cursor assignment, either a full reset
/// (`clear`) or a partial rewind to an earlier watermark (`shrink`, `popn`).
/// No operation runs a destructor of a previously placed value.
pub struct StackAllocator<const S: usize> {
    stack: Vec<u8>,
    top: usize,
}

impl<const S: usize> View for StackAllocator<S> {
    type V = ArenaModel;

    closed spec fn view(&self) -> ArenaModel {
        ArenaModel { bytes: self.stack@, top: self.top as int }
    }
}

impl<const S: usize> StackAllocator<S> {
    /// Whether the allocator is in its valid state: the buffer has exactly
    /// the construction-time capacity and the cursor lies within it.
    pub open spec fn wf(&self) -> bool {
        self@.cap() == S && self@.wf()
    }

    /// A fresh allocator: zeroed buffer of `S` bytes, cursor at the start.
    pub fn new() -> (r: Self)
        ensures
            r.wf(),
            r@.top == 0,
            r@.bytes =~= Seq::new(S as nat, |i: int| 0u8),
    {
        let stack: Vec<u8> = vec![0u8; S];
        proof {
            assert(stack@ =~= Seq::new(S as nat, |i: int| 0u8));
        }
        StackAllocator { stack, top: 0 }
    }

    /// The total capacity in bytes (not the number of bytes in use).
    pub fn len(&self) -> (r: usize)
        requires
            self.wf(),
        ensures
            r == S,
    {
        self.stack.len()
    }

    /// Places `data` at the next cursor position that satisfies `align`,
    /// advances the cursor past it and returns a handle to the placed bytes.
    /// If padding plus size would push the cursor past capacity, fails with
    /// `CapacityExceeded` and leaves the allocator untouched.
    pub fn allocate(&mut self, data: &Vec<u8>, align: usize) -> (r: Result<RadPtr, AllocError>)
        requires
            old(self).wf(),
            align >= 1,
        ensures
            final(self).wf(),
            fits(old(self)@.top, S as int, data@.len() as int, align as int) <==> r is Ok,
            r matches Ok(p) ==> {
                &&& final(self)@ == old(self)@.allocate(data@, align as int)
                &&& p.off == place_at(old(self)@.top, align as int)
                &&& p.len == data@.len()
                &&& p.off as int % align as int == 0
                &&& final(self)@.top == p.off + p.len
                &&& p.off + p.len <= S
            },
            r matches Err(e) ==> {
                &&& e == AllocError::CapacityExceeded
                &&& final(self)@ == old(self)@
            },
    {
        arena_alloc(&mut self.stack, &mut self.top, data, align)
    }

    /// Resets the cursor to the start. The buffer's bytes are untouched:
    /// storage is reclaimed for reuse, nothing is finalized.
    pub fn clear(&mut self)
        requires
            old(self).wf(),
        ensures
            final(self).wf(),
            final(self)@ == old(self)@.cleared(),
    {
        self.top = 0;
    }

    /// Rewinds the cursor by `n` bytes, releasing the most recent `n` bytes
    /// of allocations for reuse.
    pub fn popn(&mut self, n: usize)
        requires
            old(self).wf(),
            n <= old(self)@.top,
        ensures
            final(self).wf(),
            final(self)@.bytes == old(self)@.bytes,
            final(self)@.top == old(self)@.top - n,
    {
        let to = self.top - n;
        self.shrink(to);
    }

    /// Sets the cursor directly to an earlier watermark, releasing every
    /// allocation made after that watermark for reuse. The bytes themselves
    /// are overwritten only by later allocations, not by the rewind.
    pub fn shrink(&mut self, to: usize)
        requires
            old(self).wf(),
            to <= old(self)@.top,
        ensures
            final(self).wf(),
            final(self)@.bytes == old(self)@.bytes,
            final(self)@.top == to,
    {
        self.top = to;
    }

    /// The current watermark: the number of buffer bytes in use. Feeding it
    /// back to `shrink` rewinds to the state recorded here.
    pub fn mark(&self) -> (r: usize)
        requires
            self.wf(),
        ensures
            r == self@.top,
    {
        self.top
    }

    /// Reads back a copy of the bytes that `p` addresses. The handle must lie
    /// within the buffer; no liveness check exists, so a handle rewound past
    /// still yields the bytes last written at its offset.
    pub fn read(&self, p: &RadPtr) -> (r: Vec<u8>)
        requires
            self.wf(),
            p.off + p.len <= S,
        ensures
            r@ == self@.bytes.subrange(p.off as int, p.off as int + p.len as int),
    {
        arena_read(&self.stack, p)
    }

    /// Overwrites the region that `p` addresses with `data`, which must have
    /// the handle's exact length. Bytes outside the region are untouched.
    pub fn write(&mut self, p: &RadPtr, data: &Vec<u8>)
        requires
            old(self).wf(),
            p.off + p.len <= S,
            data@.len() == p.len,
        ensures
            final(self).wf(),
            final(self)@.bytes == written(old(self)@.bytes, p.off as int, data@),
            final(self)@.top == old(self)@.top,
    {
        arena_write(&mut self.stack, p, data)
    }
}

} // verus!
