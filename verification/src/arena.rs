use vstd::prelude::*;

verus! {

/// Errors raised by the allocators. All are recoverable results handed to
/// the immediate caller; no operation has a partial effect on failure.
#[derive(Clone, Copy, Debug, PartialEq, Eq, Structural)]
pub enum AllocError {
    /// The requested object plus alignment padding would overflow the
    /// remaining capacity. The cursor is left unchanged.
    CapacityExceeded,
    /// A bump allocator was constructed with an invalid size/alignment pair.
    InvalidLayout,
    /// The pool's free list is empty.
    PoolExhausted,
}

/// A type-erased, non-owning handle into allocator-owned storage: the byte
/// offset of the placed value and its length. Copying a handle copies the
/// offset, never the storage; any number of handles may alias one region.
#[derive(Clone, Copy, Debug, PartialEq, Eq, Structural)]
pub struct RadPtr {
    /// Byte offset of the value within the owning allocator's buffer.
    pub off: usize,
    /// Byte length of the value.
    pub len: usize,
}

/// The alignment padding inserted before a value placed at cursor `top` so
/// that its start offset is a multiple of `align`.
pub open spec fn pad_for(top: int, align: int) -> int
    recommends
        align >= 1,
{
    if top % align == 0 {
        0
    } else {
        align - top % align
    }
}

/// The offset at which a value with alignment `align` is placed when the
/// cursor stands at `top`.
pub open spec fn place_at(top: int, align: int) -> int {
    top + pad_for(top, align)
}

/// Whether a value of `len` bytes with alignment `align` fits below capacity
/// `cap` when the cursor stands at `top`.
pub open spec fn fits(top: int, cap: int, len: int, align: int) -> bool {
    place_at(top, align) + len <= cap
}

/// The buffer contents after `data` has been written at offset `off`:
/// unchanged outside `[off, off + data.len())`.
pub open spec fn written(bytes: Seq<u8>, off: int, data: Seq<u8>) -> Seq<u8> {
    bytes.map(|i: int, b: u8| if off <= i < off + data.len() { data[i - off] } else { b })
}

/// The mathematical state of one bump/stack arena: its byte contents and the
/// cursor marking the next free byte. The capacity is `bytes.len()`.
pub ghost struct ArenaModel {
    pub bytes: Seq<u8>,
    pub top: int,
}

impl ArenaModel {
    pub open spec fn cap(self) -> int {
        self.bytes.len() as int
    }

    pub open spec fn wf(self) -> bool {
        0 <= self.top <= self.cap()
    }

    /// The state after a successful allocation of `data` with alignment `align`.
    pub open spec fn allocate(self, data: Seq<u8>, align: int) -> ArenaModel {
        ArenaModel {
            bytes: written(self.bytes, place_at(self.top, align), data),
            top: place_at(self.top, align) + data.len(),
        }
    }

    /// The state after a bulk reset: only the cursor moves.
    pub open spec fn cleared(self) -> ArenaModel {
        ArenaModel { bytes: self.bytes, top: 0 }
    }
}

pub proof fn lemma_pad_bounds(top: int, align: int)
    requires
        align >= 1,
        top >= 0,
    ensures
        0 <= pad_for(top, align) < align,
        (top + pad_for(top, align)) % align == 0,
{
    let r = top % align;
    assert(0 <= r < align) by {
        assert(align > 0);
    }
    if r != 0 {
        assert((top + (align - r)) % align == 0) by (nonlinear_arith)
            requires
                align >= 1,
                r == top % align,
                0 <= r < align,
        ;
    }
}

/// Core allocation step shared by the stack and bump allocators: compute the
/// alignment padding for the current cursor, reject the request untouched if
/// padding plus size would push the cursor past capacity, otherwise write
/// `data` at the padded offset and advance the cursor.
pub(crate) fn arena_alloc(buf: &mut Vec<u8>, top: &mut usize, data: &Vec<u8>, align: usize) -> (r:
    Result<RadPtr, AllocError>)
    requires
        align >= 1,
        *old(top) <= old(buf)@.len(),
    ensures
        final(buf)@.len() == old(buf)@.len(),
        *final(top) <= final(buf)@.len(),
        fits(*old(top) as int, old(buf)@.len() as int, data@.len() as int, align as int) ==> (
        r is Ok),
        r matches Ok(p) ==> {
            &&& fits(*old(top) as int, old(buf)@.len() as int, data@.len() as int, align as int)
            &&& p.off == place_at(*old(top) as int, align as int)
            &&& p.len == data@.len()
            &&& p.off as int % align as int == 0
            &&& *final(top) == p.off + p.len
            &&& final(buf)@ == written(old(buf)@, p.off as int, data@)
        },
        r matches Err(e) ==> {
            &&& e == AllocError::CapacityExceeded
            &&& !fits(*old(top) as int, old(buf)@.len() as int, data@.len() as int, align as int)
            &&& *final(top) == *old(top)
            &&& final(buf)@ == old(buf)@
        },
{
    let cap = buf.len();
    let rem = *top % align;
    let pad = if rem == 0 {
        0
    } else {
        align - rem
    };
    proof {
        lemma_pad_bounds(*top as int, align as int);
        assert(pad == pad_for(*top as int, align as int));
    }
    if pad > cap - *top {
        return Err(AllocError::CapacityExceeded);
    }
    let off = *top + pad;
    if data.len() > cap - off {
        return Err(AllocError::CapacityExceeded);
    }
    let mut i: usize = 0;
    while i < data.len()
        invariant
            i <= data@.len(),
            off + data@.len() <= cap,
            cap == buf@.len(),
            buf@.len() == old(buf)@.len(),
            forall|j: int|
                0 <= j < buf@.len() ==> buf@[j] == (if off <= j < off + i {
                    data@[j - off]
                } else {
                    old(buf)@[j]
                }),
        decreases data@.len() - i,
    {
        buf[off + i] = data[i];
        i = i + 1;
    }
    *top = off + data.len();
    let p = RadPtr { off, len: data.len() };
    proof {
        assert(buf@ =~= written(old(buf)@, p.off as int, data@));
    }
    Ok(p)
}

/// Copies out the `p.len` bytes that `p` addresses. Reading is the only
/// runtime-checked handle operation: the handle must lie within the buffer.
/// No liveness or staleness check exists; a handle below a rewound cursor
/// still yields the bytes last written there.
pub(crate) fn arena_read(buf: &Vec<u8>, p: &RadPtr) -> (r: Vec<u8>)
    requires
        p.off + p.len <= buf@.len(),
    ensures
        r@ == buf@.subrange(p.off as int, p.off as int + p.len as int),
{
    let cap = buf.len();
    let mut out: Vec<u8> = Vec::new();
    let mut i: usize = 0;
    while i < p.len
        invariant
            i <= p.len,
            p.off + p.len <= cap,
            cap == buf@.len(),
            out@ =~= buf@.subrange(p.off as int, p.off as int + i as int),
        decreases p.len - i,
    {
        out.push(buf[p.off + i]);
        i = i + 1;
    }
    proof {
        assert(out@ =~= buf@.subrange(p.off as int, p.off as int + p.len as int));
    }
    out
}

/// Overwrites the region that `p` addresses with `data`, which must have the
/// handle's exact length. The bytes around the region are untouched.
pub(crate) fn arena_write(buf: &mut Vec<u8>, p: &RadPtr, data: &Vec<u8>)
    requires
        p.off + p.len <= old(buf)@.len(),
        data@.len() == p.len,
    ensures
        final(buf)@ == written(old(buf)@, p.off as int, data@),
{
    let cap = buf.len();
    let mut i: usize = 0;
    while i < data.len()
        invariant
            i <= data@.len(),
            data@.len() == p.len,
            p.off + p.len <= cap,
            cap == buf@.len(),
            buf@.len() == old(buf)@.len(),
            forall|j: int|
                0 <= j < buf@.len() ==> buf@[j] == (if p.off <= j < p.off + i {
                    data@[j - p.off]
                } else {
                    old(buf)@[j]
                }),
        decreases data@.len() - i,
    {
        buf[p.off + i] = data[i];
        i = i + 1;
    }
    proof {
        assert(buf@ =~= written(old(buf)@, p.off as int, data@));
    }
}

} // verus!
