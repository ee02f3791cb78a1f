use vstd::prelude::*;

verus! {

use crate::arena::AllocError;

/// The sentinel `next` value terminating the free list.
pub const FREE_LIST_END: isize = -1;

/// One fixed-size slot of a pool: storage for one object, a `next` link
/// that is meaningful only while the slot is on the free list, and an
/// occupancy flag backing the `is_allocated` query. A freed slot's storage
/// is stale, not emptied: deallocation never runs a destructor.
struct PoolCell<T> {
    value: Option<T>,
    next: isize,
    live: bool,
}

/// A handle addressing one slot of a pool allocator. Copying a handle
/// copies the slot index, never the storage; any number of handles may
/// alias one slot.
#[derive(Clone, Copy, Debug, PartialEq, Eq, Structural)]
pub struct PoolPtr {
    /// The index of the addressed slot.
    pub slot: usize,
}

/// The mathematical state of a pool allocator: what every slot holds and
/// the free list from its head down to its tail. A slot is free exactly
/// when its index is on the free list; every other slot is allocated.
pub ghost struct PoolModel<T> {
    pub slots: Seq<Option<T>>,
    pub free: Seq<int>,
}

impl<T> PoolModel<T> {
    pub open spec fn size(self) -> int {
        self.slots.len() as int
    }

    pub open spec fn wf(self) -> bool {
        &&& forall|i: int| 0 <= i < self.free.len() ==> 0 <= #[trigger] self.free[i] < self.size()
        &&& forall|i: int, j: int|
            0 <= i < j < self.free.len() ==> #[trigger] self.free[i] != #[trigger] self.free[j]
    }

    /// Whether the slot `slot` currently holds a live object, i.e. is not
    /// on the free list.
    pub open spec fn is_allocated(self, slot: int) -> bool {
        0 <= slot < self.size() && !self.free.contains(slot)
    }
}

/// A fixed-capacity pool of uniform slots threaded into an intrusive free
/// list: O(1) allocate and deallocate of objects of one type. Slots start
/// free in index order. Deallocation pushes a slot onto the free-list head,
/// so the most recently freed slot is reused first. Deallocation never runs
/// the freed object's destructor; its storage goes stale until the slot is
/// allocated again.
pub struct PoolAllocator<T> {
    cells: Vec<PoolCell<T>>,
    next_available: isize,
    free: Ghost<Seq<int>>,
}

impl<T> View for PoolAllocator<T> {
    type V = PoolModel<T>;

    closed spec fn view(&self) -> PoolModel<T> {
        PoolModel {
            slots: self.cells@.map(|i: int, c: PoolCell<T>| c.value),
            free: self.free@,
        }
    }
}

impl<T> PoolAllocator<T> {
    /// The free list threads correctly through the cells: the head cursor
    /// names the first free slot (or the sentinel), each free cell's `next`
    /// names the following free slot, and the last free cell's `next` is
    /// the sentinel.
    spec fn free_list_wf(&self) -> bool {
        &&& self.next_available as int == (if self.free@.len() == 0 {
            FREE_LIST_END as int
        } else {
            self.free@[0]
        })
        &&& forall|i: int|
            0 <= i < self.free@.len() ==> 0 <= #[trigger] self.free@[i] < self.cells@.len()
        &&& forall|i: int|
            0 <= i < self.free@.len() ==> (#[trigger] self.cells@[self.free@[i]]).next as int == (
            if i + 1 < self.free@.len() {
                self.free@[i + 1]
            } else {
                FREE_LIST_END as int
            })
    }

    /// Every cell's occupancy flag agrees with the free list: it is set
    /// exactly while the slot is off the list.
    spec fn occupancy_wf(&self) -> bool {
        forall|i: int|
            0 <= i < self.cells@.len() ==> ((#[trigger] self.cells@[i]).live <==> !self.free@.contains(
                i,
            ))
    }

    /// Whether the allocator is in its valid state.
    pub closed spec fn wf(&self) -> bool {
        &&& self@.wf()
        &&& self.free_list_wf()
        &&& self.occupancy_wf()
        &&& self.cells@.len() <= isize::MAX
    }

    /// A fresh pool of `size` slots, every slot free, threaded in index
    /// order: slot `i` links to slot `i + 1` and the last slot carries the
    /// sentinel; the head cursor starts at slot zero.
    pub fn new(size: isize) -> (r: Self)
        requires
            size >= 1,
        ensures
            r.wf(),
            r@.size() == size,
            r@.free =~= Seq::new(size as nat, |i: int| i),
            forall|i: int| 0 <= i < size ==> #[trigger] r@.slots[i] is None,
    {
        let n = size as usize;
        let mut cells: Vec<PoolCell<T>> = Vec::new();
        let mut i: usize = 0;
        while i < n
            invariant
                i <= n,
                n <= isize::MAX,
                cells@.len() == i,
                forall|j: int|
                    0 <= j < i ==> #[trigger] cells@[j].next as int == (if j + 1 < n as int {
                        j + 1
                    } else {
                        FREE_LIST_END as int
                    }),
                forall|j: int| 0 <= j < i ==> #[trigger] cells@[j].value is None,
                forall|j: int| 0 <= j < i ==> !(#[trigger] cells@[j].live),
            decreases n - i,
        {
            let next = if i + 1 < n {
                (i + 1) as isize
            } else {
                FREE_LIST_END
            };
            cells.push(PoolCell { value: None, next, live: false });
            i = i + 1;
        }
        let r = PoolAllocator {
            cells,
            next_available: 0,
            free: Ghost(Seq::new(size as nat, |i: int| i)),
        };
        proof {
            assert forall|j: int| 0 <= j < size implies #[trigger] r@.slots[j] is None by {
                assert(r@.slots[j] == r.cells@[j].value);
            }
            assert forall|j: int| 0 <= j < size implies r.free@.contains(j) by {
                assert(r.free@[j] == j);
            }
        }
        r
    }

    /// Takes the slot at the free-list head, overwrites its (possibly
    /// stale) storage with `data`, advances the head to that slot's `next`
    /// and returns a handle addressing the slot. If the free list is empty,
    /// fails with `PoolExhausted` and leaves the pool untouched.
    pub fn allocate(&mut self, data: T) -> (r: Result<PoolPtr, AllocError>)
        requires
            old(self).wf(),
        ensures
            final(self).wf(),
            final(self)@.size() == old(self)@.size(),
            old(self)@.free.len() > 0 <==> r is Ok,
            r matches Ok(p) ==> {
                &&& p.slot as int == old(self)@.free[0]
                &&& final(self)@.free == old(self)@.free.drop_first()
                &&& final(self)@.slots == old(self)@.slots.update(p.slot as int, Some(data))
                &&& final(self)@.is_allocated(p.slot as int)
            },
            r matches Err(e) ==> {
                &&& e == AllocError::PoolExhausted
                &&& final(self)@ == old(self)@
            },
    {
        if self.next_available == FREE_LIST_END {
            proof {
                if self.free@.len() > 0 {
                    assert(self.free@[0] >= 0);
                }
            }
            return Err(AllocError::PoolExhausted);
        }
        proof {
            if self.free@.len() == 0 {
                assert(self.next_available == FREE_LIST_END);
            }
        }
        let slot = self.next_available as usize;
        let next = self.cells[slot].next;
        self.cells[slot].value = Some(data);
        self.cells[slot].live = true;
        self.next_available = next;
        let ghost prior = self.free@;
        self.free = Ghost(self.free@.drop_first());
        let p = PoolPtr { slot };
        proof {
            assert(self@.slots =~= old(self)@.slots.update(p.slot as int, Some(data)));
            assert forall|i: int| 0 <= i < self.free@.len() implies 0 <= #[trigger] self.free@[i]
                < self.cells@.len() by {
                assert(self.free@[i] == old(self)@.free[i + 1]);
            }
            assert forall|i: int, j: int| 0 <= i < j < self.free@.len() implies #[trigger] self
                .free@[i] != #[trigger] self.free@[j] by {
                assert(self.free@[i] == old(self)@.free[i + 1]);
                assert(self.free@[j] == old(self)@.free[j + 1]);
                assert(old(self)@.free[i + 1] != old(self)@.free[j + 1]);
            }
            assert forall|i: int| 0 <= i < self.free@.len() implies (#[trigger] self.cells@[self
                .free@[i]]).next as int == (if i + 1 < self.free@.len() {
                self.free@[i + 1]
            } else {
                FREE_LIST_END as int
            }) by {
                assert(self.free@[i] == prior[i + 1]);
                assert(old(self)@.free[i + 1] != old(self)@.free[0]);
                assert(old(self).cells@[old(self).free@[i + 1]].next == self.cells@[self.free@[i]].next);
            }
            if self.free@.len() > 0 {
                assert(self.free@[0] == prior[1]);
            }
            assert(!self.free@.contains(p.slot as int)) by {
                if self.free@.contains(p.slot as int) {
                    let i = choose|i: int|
                        0 <= i < self.free@.len() && self.free@[i] == p.slot as int;
                    assert(self.free@[i] == prior[i + 1]);
                    assert(old(self)@.free[i + 1] != old(self)@.free[0]);
                }
            }
            assert forall|i: int|
                0 <= i < self.cells@.len() implies ((#[trigger] self.cells@[i]).live
                <==> !self.free@.contains(i)) by {
                if i != p.slot as int {
                    assert(self.cells@[i].live == old(self).cells@[i].live);
                    if self.free@.contains(i) {
                        let j = choose|j: int| 0 <= j < self.free@.len() && self.free@[j] == i;
                        assert(prior[j + 1] == i);
                        assert(prior.contains(i));
                    }
                    if prior.contains(i) {
                        let j = choose|j: int| 0 <= j < prior.len() && prior[j] == i;
                        assert(j != 0);
                        assert(self.free@[j - 1] == i);
                        assert(self.free@.contains(i));
                    }
                }
            }
        }
        Ok(p)
    }

    /// Pushes the slot that `ptr` addresses onto the free-list head: the
    /// slot's `next` is pointed at the old head and the head cursor at the
    /// slot. The slot must currently be allocated (freeing a slot twice
    /// would corrupt the free list, so that is left out of the contract).
    /// The freed object is not dropped; its storage stays as it was, stale,
    /// until the slot is allocated again.
    pub fn dealloc(&mut self, ptr: PoolPtr)
        requires
            old(self).wf(),
            old(self)@.is_allocated(ptr.slot as int),
        ensures
            final(self).wf(),
            final(self)@.size() == old(self)@.size(),
            final(self)@.free == seq![ptr.slot as int] + old(self)@.free,
            final(self)@.slots == old(self)@.slots,
    {
        let head = self.next_available;
        self.cells[ptr.slot].next = head;
        self.cells[ptr.slot].live = false;
        self.next_available = ptr.slot as isize;
        let ghost prior = self.free@;
        self.free = Ghost(seq![ptr.slot as int] + self.free@);
        proof {
            assert(self@.slots =~= old(self)@.slots);
            assert forall|i: int| 0 <= i < self.free@.len() implies (#[trigger] self.cells@[self
                .free@[i]]).next as int == (if i + 1 < self.free@.len() {
                self.free@[i + 1]
            } else {
                FREE_LIST_END as int
            }) by {
                if i > 0 {
                    assert(self.free@[i] == prior[i - 1]);
                    assert(prior.contains(prior[i - 1]));
                    assert(old(self).cells@[old(self).free@[i - 1]].next == self.cells@[self
                        .free@[i]].next);
                }
            }
            assert forall|i: int, j: int| 0 <= i < j < self.free@.len() implies #[trigger] self
                .free@[i] != #[trigger] self.free@[j] by {
                if i == 0 {
                    assert(prior.contains(prior[j - 1]));
                }
            }
            assert forall|i: int|
                0 <= i < self.cells@.len() implies ((#[trigger] self.cells@[i]).live
                <==> !self.free@.contains(i)) by {
                if i == ptr.slot as int {
                    assert(self.free@[0] == i);
                } else {
                    assert(self.cells@[i].live == old(self).cells@[i].live);
                    if self.free@.contains(i) {
                        let j = choose|j: int| 0 <= j < self.free@.len() && self.free@[j] == i;
                        assert(j != 0);
                        assert(prior[j - 1] == i);
                        assert(prior.contains(i));
                    }
                    if prior.contains(i) {
                        let j = choose|j: int| 0 <= j < prior.len() && prior[j] == i;
                        assert(self.free@[j + 1] == i);
                        assert(self.free@.contains(i));
                    }
                }
            }
        }
    }

    /// Whether the slot that `ptr` addresses currently holds a live object,
    /// i.e. is not on the free list: the occupancy query backed by each
    /// cell's flag.
    pub fn is_allocated(&self, ptr: &PoolPtr) -> (r: bool)
        requires
            self.wf(),
            ptr.slot < self@.size(),
        ensures
            r == self@.is_allocated(ptr.slot as int),
    {
        self.cells[ptr.slot].live
    }

    /// A reference to the object in the slot that `ptr` addresses. The slot
    /// must hold a live object.
    pub fn get(&self, ptr: &PoolPtr) -> (r: &T)
        requires
            self.wf(),
            self@.is_allocated(ptr.slot as int),
            self@.slots[ptr.slot as int] is Some,
        ensures
            self@.slots[ptr.slot as int] == Some(*r),
    {
        proof {
            assert(self@.slots[ptr.slot as int] == self.cells@[ptr.slot as int].value);
        }
        match &self.cells[ptr.slot].value {
            Some(v) => v,
            None => vstd::pervasive::unreached(),
        }
    }

    /// Overwrites the object in the slot that `ptr` addresses, which must
    /// currently be allocated. The replaced object is returned rather than
    /// dropped; the free list is untouched.
    pub fn set(&mut self, ptr: &PoolPtr, data: T) -> (r: Option<T>)
        requires
            old(self).wf(),
            old(self)@.is_allocated(ptr.slot as int),
        ensures
            final(self).wf(),
            final(self)@.free == old(self)@.free,
            final(self)@.slots == old(self)@.slots.update(ptr.slot as int, Some(data)),
            r == old(self)@.slots[ptr.slot as int],
    {
        let prior = self.cells[ptr.slot].value.take();
        self.cells[ptr.slot].value = Some(data);
        proof {
            assert(self@.slots =~= old(self)@.slots.update(ptr.slot as int, Some(data)));
            assert(old(self)@.slots[ptr.slot as int] == old(self).cells@[ptr.slot as int].value);
            assert forall|i: int| 0 <= i < self.free@.len() implies #[trigger] self.free@[i]
                != ptr.slot as int by {
                assert(self.free@.contains(self.free@[i]));
            }
        }
        prior
    }
}

} // verus!
