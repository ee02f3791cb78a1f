//! Allocation strategies over contiguous byte regions: a stack allocator
//! (LIFO, scoped rewind), a bump/arena allocator (monotonic allocation with
//! bulk reset), a double-buffered bump allocator, and a fixed-capacity pool
//! allocator with an intrusive free list.
//!
//! Storage is modelled as plain bytes owned by each allocator; handles are
//! type-erased offsets into that storage. Clearing, rewinding or freeing
//! never runs any destructor of a previously placed value: only storage is
//! reclaimed (arena semantics, placement only, no implicit teardown).

pub mod arena;
pub mod bump;
pub mod double;
pub mod laws;
pub mod pool;
pub mod stack;

pub use arena::AllocError;
pub use arena::RadPtr;
pub use bump::BumpAllocator;
pub use bump::BumpPtr;
pub use bump::DEFAULT_ALIGNMENT;
pub use double::DoubleBumpAllocator;
pub use pool::PoolAllocator;
pub use pool::PoolPtr;
pub use stack::StackAllocator;
