use rad_alloc::AllocError;
use rad_alloc::BumpAllocator;
use rad_alloc::DoubleBumpAllocator;
use rad_alloc::PoolAllocator;
use rad_alloc::StackAllocator;
use rad_alloc::DEFAULT_ALIGNMENT;

struct Point {
    x: f64,
    y: f64,
}

fn point_bytes(p: &Point) -> Vec<u8> {
    let mut out = p.x.to_le_bytes().to_vec();
    out.extend_from_slice(&p.y.to_le_bytes());
    out
}

fn point_from(bytes: &[u8]) -> Point {
    Point {
        x: f64::from_le_bytes(bytes[0..8].try_into().unwrap()),
        y: f64::from_le_bytes(bytes[8..16].try_into().unwrap()),
    }
}

#[test]
fn stack() {
    let mut sa = StackAllocator::<4096>::new();

    let x = sa.allocate(&(4i32).to_le_bytes().to_vec(), 4).unwrap();
    let p = sa
        .allocate(&point_bytes(&Point { x: 56.0, y: 69. }), 8)
        .unwrap();
    let y = sa.allocate(&(56.0f64).to_le_bytes().to_vec(), 8).unwrap();

    assert_eq!(4, i32::from_le_bytes(sa.read(&x).try_into().unwrap()));
    assert_eq!(56., f64::from_le_bytes(sa.read(&y).try_into().unwrap()));
    let pt = point_from(&sa.read(&p));
    assert_eq!(pt.x, 56.0);
    assert_eq!(pt.y, 69.0);

    sa.clear();

    const S: &'static str = "aye lmao";
    let x = sa.allocate(&S.as_bytes().to_vec(), 1).unwrap();
    assert_eq!(sa.read(&x), S.as_bytes().to_vec());
}

#[test]
fn bump() {
    let mut ba = BumpAllocator::new(4096).unwrap();

    let x = ba.allocate(&(4i32).to_le_bytes().to_vec(), 4).unwrap();
    let p = ba
        .allocate(&point_bytes(&Point { x: 56.0, y: 69. }), 8)
        .unwrap();
    let y = ba
        .allocate(&usize::MAX.to_le_bytes().to_vec(), 8)
        .unwrap();

    assert_eq!(4, i32::from_le_bytes(ba.read(&x).try_into().unwrap()));
    assert_eq!(
        usize::MAX,
        usize::from_le_bytes(ba.read(&y).try_into().unwrap())
    );
    let pt = point_from(&ba.read(&p));
    assert_eq!(pt.x, 56.0);
    assert_eq!(pt.y, 69.0);

    ba.clear();

    const S: &'static str = "aye lmao";
    let x = ba.allocate(&S.as_bytes().to_vec(), 1).unwrap();
    assert_eq!(ba.read(&x), S.as_bytes().to_vec());
}

#[test]
fn stack_capacity_len() {
    let sa = StackAllocator::<4096>::new();
    assert_eq!(sa.len(), 4096);
}

#[test]
fn stack_alignment_padding() {
    let mut sa = StackAllocator::<64>::new();
    let a = sa.allocate(&vec![1u8], 1).unwrap();
    assert_eq!(a.off, 0);
    assert_eq!(a.len, 1);
    // cursor at 1: three bytes of padding before a 4-aligned value
    let b = sa.allocate(&vec![2u8, 3, 4, 5], 4).unwrap();
    assert_eq!(b.off, 4);
    assert_eq!(b.off % 4, 0);
    assert_eq!(sa.mark(), 8);
}

#[test]
fn stack_out_of_memory_leaves_state() {
    let mut sa = StackAllocator::<8>::new();
    let a = sa.allocate(&vec![1u8, 2, 3, 4, 5, 6], 1).unwrap();
    // 6 used; a 4-byte request exceeds the remaining 2 bytes
    assert_eq!(
        sa.allocate(&vec![7u8, 8, 9, 10], 1),
        Err(AllocError::CapacityExceeded)
    );
    // the failed request moved nothing: a smaller one that fits succeeds
    assert_eq!(sa.mark(), 6);
    let b = sa.allocate(&vec![7u8, 8], 1).unwrap();
    assert_eq!(b.off, 6);
    assert_eq!(sa.read(&a), vec![1, 2, 3, 4, 5, 6]);
    assert_eq!(sa.read(&b), vec![7, 8]);
    // now exactly full: even one more byte fails
    assert_eq!(sa.allocate(&vec![9u8], 1), Err(AllocError::CapacityExceeded));
}

#[test]
fn stack_clear_restores_capacity() {
    let mut sa = StackAllocator::<8>::new();
    sa.allocate(&vec![1u8; 8], 1).unwrap();
    assert_eq!(sa.allocate(&vec![2u8], 1), Err(AllocError::CapacityExceeded));
    sa.clear();
    // an exactly-filling sequence succeeds again as on a fresh allocator
    let a = sa.allocate(&vec![3u8; 4], 1).unwrap();
    let b = sa.allocate(&vec![4u8; 4], 1).unwrap();
    assert_eq!(a.off, 0);
    assert_eq!(b.off, 4);
    assert_eq!(sa.mark(), 8);
}

#[test]
fn stack_rewind() {
    let mut sa = StackAllocator::<64>::new();
    let a = sa.allocate(&vec![10u8, 11], 1).unwrap();
    let watermark = sa.mark();
    let _b = sa.allocate(&vec![20u8; 8], 1).unwrap();
    let _c = sa.allocate(&vec![30u8; 8], 1).unwrap();
    sa.shrink(watermark);
    assert_eq!(sa.mark(), watermark);
    // rewinding overwrote nothing: the earlier handle still reads its value
    assert_eq!(sa.read(&a), vec![10, 11]);
    // a new allocation reuses the released space
    let d = sa.allocate(&vec![40u8; 8], 1).unwrap();
    assert_eq!(d.off, watermark);
    assert_eq!(sa.read(&a), vec![10, 11]);
    assert_eq!(sa.read(&d), vec![40u8; 8]);
}

#[test]
fn stack_popn() {
    let mut sa = StackAllocator::<16>::new();
    sa.allocate(&vec![1u8; 10], 1).unwrap();
    sa.popn(4);
    assert_eq!(sa.mark(), 6);
    let b = sa.allocate(&vec![2u8; 4], 1).unwrap();
    assert_eq!(b.off, 6);
}

#[test]
fn stack_zero_length_allocation() {
    let mut sa = StackAllocator::<4>::new();
    let a = sa.allocate(&Vec::new(), 1).unwrap();
    assert_eq!(a.off, 0);
    assert_eq!(a.len, 0);
    assert_eq!(sa.mark(), 0);
    assert_eq!(sa.read(&a), Vec::<u8>::new());
    // a zero-length request still fails once even its padding cannot fit
    sa.allocate(&vec![1u8; 4], 1).unwrap();
    assert!(sa.allocate(&Vec::new(), 1).is_ok());
    assert_eq!(sa.allocate(&Vec::new(), 8), Err(AllocError::CapacityExceeded));
}

#[test]
fn stack_write_through_handle() {
    let mut sa = StackAllocator::<16>::new();
    let a = sa.allocate(&vec![1u8, 2, 3], 1).unwrap();
    let b = sa.allocate(&vec![9u8], 1).unwrap();
    sa.write(&a, &vec![7u8, 8, 9]);
    assert_eq!(sa.read(&a), vec![7, 8, 9]);
    assert_eq!(sa.read(&b), vec![9]);
}

#[test]
fn bump_invalid_layout() {
    assert_eq!(
        BumpAllocator::with_align(16, 0).err(),
        Some(AllocError::InvalidLayout)
    );
    assert_eq!(
        BumpAllocator::with_align(16, 3).err(),
        Some(AllocError::InvalidLayout)
    );
    assert_eq!(
        BumpAllocator::with_align(usize::MAX, 1).err(),
        Some(AllocError::InvalidLayout)
    );
    assert!(BumpAllocator::with_align(16, 8).is_ok());
    assert_eq!(DEFAULT_ALIGNMENT, 1);
}

#[test]
fn bump_out_of_memory_then_release() {
    let mut ba = BumpAllocator::new(4).unwrap();
    ba.allocate(&vec![1u8, 2, 3], 1).unwrap();
    assert_eq!(
        ba.allocate(&vec![4u8, 5], 1),
        Err(AllocError::CapacityExceeded)
    );
    let b = ba.allocate(&vec![4u8], 1).unwrap();
    assert_eq!(b.off, 3);
    ba.release();
}

#[test]
fn double_buffering() {
    let mut d = DoubleBumpAllocator::new(64).unwrap();
    let a = d.current_mut().allocate(&vec![1u8, 2, 3], 1).unwrap();
    assert_eq!(d.current().read(&a), vec![1, 2, 3]);

    d.swap();
    // the allocation made before the swap stays readable, untouched
    assert_eq!(d.inactive().read(&a), vec![1, 2, 3]);

    // clear after the swap empties only the now-current buffer
    let b = d.current_mut().allocate(&vec![9u8; 4], 1).unwrap();
    d.clear();
    assert_eq!(d.inactive().read(&a), vec![1, 2, 3]);
    // the cleared buffer's cursor is reset: the next allocation starts over
    let c = d.current_mut().allocate(&vec![5u8], 1).unwrap();
    assert_eq!(b.off, 0);
    assert_eq!(c.off, 0);

    d.swap();
    assert_eq!(d.current().read(&a), vec![1, 2, 3]);
}

#[test]
fn double_invalid_layout() {
    assert_eq!(
        DoubleBumpAllocator::with_align(16, 5).err(),
        Some(AllocError::InvalidLayout)
    );
    assert!(DoubleBumpAllocator::with_align(16, 4).is_ok());
}

#[test]
fn pool_allocate_and_read() {
    let mut pool: PoolAllocator<u64> = PoolAllocator::new(3);
    let a = pool.allocate(11).unwrap();
    let b = pool.allocate(22).unwrap();
    let c = pool.allocate(33).unwrap();
    // slots are handed out in index order on a fresh pool
    assert_eq!(a.slot, 0);
    assert_eq!(b.slot, 1);
    assert_eq!(c.slot, 2);
    assert_eq!(*pool.get(&a), 11);
    assert_eq!(*pool.get(&b), 22);
    assert_eq!(*pool.get(&c), 33);
}

#[test]
fn pool_exhausted() {
    let mut pool: PoolAllocator<u32> = PoolAllocator::new(1);
    let a = pool.allocate(1).unwrap();
    assert_eq!(pool.allocate(2), Err(AllocError::PoolExhausted));
    // the failed request changed nothing
    assert_eq!(*pool.get(&a), 1);
    pool.dealloc(a);
    assert!(pool.allocate(3).is_ok());
}

#[test]
fn pool_reuse() {
    let mut pool: PoolAllocator<String> = PoolAllocator::new(4);
    let h0 = pool.allocate(String::from("a")).unwrap();
    let h1 = pool.allocate(String::from("b")).unwrap();
    let h2 = pool.allocate(String::from("c")).unwrap();
    let h3 = pool.allocate(String::from("d")).unwrap();

    // deallocate in arbitrary order, then allocate the full count again
    pool.dealloc(h2);
    pool.dealloc(h0);
    pool.dealloc(h3);
    pool.dealloc(h1);
    let n0 = pool.allocate(String::from("e")).unwrap();
    let n1 = pool.allocate(String::from("f")).unwrap();
    let n2 = pool.allocate(String::from("g")).unwrap();
    let n3 = pool.allocate(String::from("h")).unwrap();
    // most recently freed first: the free list is 1, 3, 0, 2
    assert_eq!(n0.slot, 1);
    assert_eq!(n1.slot, 3);
    assert_eq!(n2.slot, 0);
    assert_eq!(n3.slot, 2);
    assert_eq!(*pool.get(&n0), "e");

    // deallocating a slot and allocating once returns exactly that slot
    pool.dealloc(n2);
    let again = pool.allocate(String::from("i")).unwrap();
    assert_eq!(again.slot, 0);
}

#[test]
fn pool_is_allocated() {
    let mut pool: PoolAllocator<i32> = PoolAllocator::new(2);
    let a = pool.allocate(-7).unwrap();
    let b = pool.allocate(8).unwrap();
    assert!(pool.is_allocated(&a));
    assert!(pool.is_allocated(&b));
    pool.dealloc(a);
    assert!(!pool.is_allocated(&a));
    assert!(pool.is_allocated(&b));
    // the freed slot's storage is stale until it is allocated again
    let c = pool.allocate(9).unwrap();
    assert_eq!(c.slot, a.slot);
    assert!(pool.is_allocated(&c));
    assert_eq!(*pool.get(&c), 9);
}

#[test]
fn pool_set_replaces_value() {
    let mut pool: PoolAllocator<u8> = PoolAllocator::new(2);
    let a = pool.allocate(5).unwrap();
    let prior = pool.set(&a, 6);
    assert_eq!(prior, Some(5));
    assert_eq!(*pool.get(&a), 6);
}
