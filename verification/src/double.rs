use vstd::prelude::*;

verus! {

use crate::arena::AllocError;
use crate::arena::ArenaModel;
use crate::bump::BumpAllocator;
use crate::bump::DEFAULT_ALIGNMENT;
use crate::bump::valid_layout;

/// The mathematical state of a double-buffered bump allocator: the two
/// arenas and the selector of the active one.
pub ghost struct DoubleModel {
    pub front: ArenaModel,
    pub back: ArenaModel,
    pub current: int,
}

impl DoubleModel {
    pub open spec fn wf(self) -> bool {
        &&& 0 <= self.current <= 1
        &&& self.front.wf()
        &&& self.back.wf()
        &&& self.front.cap() == self.back.cap()
    }

    /// The buffer that allocations and `clear` currently act on.
    pub open spec fn active(self) -> ArenaModel {
        if self.current == 0 {
            self.front
        } else {
            self.back
        }
    }

    /// The buffer left untouched by allocations and `clear` until the next
    /// swap.
    pub open spec fn inactive(self) -> ArenaModel {
        if self.current == 0 {
            self.back
        } else {
            self.front
        }
    }

    /// The state after `swap`: only the selector flips; neither buffer's
    /// contents nor cursor moves.
    pub open spec fn swapped(self) -> DoubleModel {
        DoubleModel { front: self.front, back: self.back, current: 1 - self.current }
    }

    /// The state after `clear`: the active buffer's cursor is reset, its
    /// bytes and the whole inactive buffer are untouched.
    pub open spec fn cleared_active(self) -> DoubleModel {
        if self.current == 0 {
            DoubleModel { front: self.front.cleared(), back: self.back, current: self.current }
        } else {
            DoubleModel { front: self.front, back: self.back.cleared(), current: self.current }
        }
    }
}

/// Two bump allocators of identical capacity and alignment plus a binary
/// selector. Allocations go to the active buffer while consumers may still
/// read the inactive one from the previous cycle; `swap` flips the selector
/// without touching either buffer; `clear` empties only the active buffer.
pub struct DoubleBumpAllocator {
    front: BumpAllocator,
    back: BumpAllocator,
    current: usize,
}

impl View for DoubleBumpAllocator {
    type V = DoubleModel;

    closed spec fn view(&self) -> DoubleModel {
        DoubleModel { front: self.front@, back: self.back@, current: self.current as int }
    }
}

impl DoubleBumpAllocator {
    pub open spec fn wf(&self) -> bool {
        self@.wf()
    }

    /// Two fresh buffers of `size_bytes` bytes each, requested with the
    /// default alignment; the first one starts active. Fails with
    /// `InvalidLayout` exactly when the layout is invalid, which for the
    /// default alignment means a size beyond `isize`.
    pub fn new(size_bytes: usize) -> (r: Result<Self, AllocError>)
        ensures
            r is Ok <==> size_bytes <= (isize::MAX as usize),
            r matches Ok(d) ==> {
                &&& d.wf()
                &&& d@.current == 0
                &&& d@.front.top == 0
                &&& d@.back.top == 0
                &&& d@.front.cap() == size_bytes
                &&& d@.back.cap() == size_bytes
            },
            r matches Err(e) ==> e == AllocError::InvalidLayout,
    {
        proof {
            crate::bump::lemma_default_layout_valid(size_bytes);
        }
        Self::with_align(size_bytes, DEFAULT_ALIGNMENT)
    }

    /// Two fresh buffers of `size_bytes` bytes each, requested with
    /// alignment `align`; the first one starts active. Fails with
    /// `InvalidLayout` exactly when the size/alignment pair is invalid.
    pub fn with_align(size_bytes: usize, align: usize) -> (r: Result<Self, AllocError>)
        ensures
            r is Ok <==> valid_layout(size_bytes, align),
            r matches Ok(d) ==> {
                &&& d.wf()
                &&& d@.current == 0
                &&& d@.front.top == 0
                &&& d@.back.top == 0
                &&& d@.front.cap() == size_bytes
                &&& d@.back.cap() == size_bytes
            },
            r matches Err(e) ==> e == AllocError::InvalidLayout,
    {
        let front = match BumpAllocator::with_align(size_bytes, align) {
            Ok(b) => b,
            Err(e) => {
                return Err(e);
            },
        };
        let back = match BumpAllocator::with_align(size_bytes, align) {
            Ok(b) => b,
            Err(e) => {
                return Err(e);
            },
        };
        Ok(DoubleBumpAllocator { front, back, current: 0 })
    }

    /// Flips which buffer is active. Neither buffer is cleared or freed:
    /// contents, cursors and every handle into both buffers are untouched.
    pub fn swap(&mut self)
        requires
            old(self).wf(),
        ensures
            final(self).wf(),
            final(self)@ == old(self)@.swapped(),
    {
        self.current = 1 - self.current;
    }

    /// The active buffer, for reading handles allocated into it.
    pub fn current(&self) -> (r: &BumpAllocator)
        requires
            self.wf(),
        ensures
            r@ == self@.active(),
    {
        if self.current == 0 {
            &self.front
        } else {
            &self.back
        }
    }

    /// The inactive buffer: the one written during the previous cycle,
    /// whose handles consumers may still read until the next swap.
    pub fn inactive(&self) -> (r: &BumpAllocator)
        requires
            self.wf(),
        ensures
            r@ == self@.inactive(),
    {
        if self.current == 0 {
            &self.back
        } else {
            &self.front
        }
    }

    /// The active buffer, for allocating into it. The final state of the
    /// allocator reflects whatever the caller does through the returned
    /// reference; the inactive buffer and the selector are untouched.
    pub fn current_mut(&mut self) -> (r: &mut BumpAllocator)
        requires
            old(self).wf(),
        ensures
            (*r)@ == old(self)@.active(),
            final(self)@.current == old(self)@.current,
            final(self)@.active() == (*final(r))@,
            final(self)@.inactive() == old(self)@.inactive(),
    {
        if self.current == 0 {
            &mut self.front
        } else {
            &mut self.back
        }
    }

    /// Empties only the active buffer: its cursor is reset while its bytes,
    /// the whole inactive buffer and every handle into the inactive buffer
    /// are untouched.
    pub fn clear(&mut self)
        requires
            old(self).wf(),
        ensures
            final(self).wf(),
            final(self)@ == old(self)@.cleared_active(),
    {
        if self.current == 0 {
            self.front.clear();
        } else {
            self.back.clear();
        }
    }
}

} // verus!
