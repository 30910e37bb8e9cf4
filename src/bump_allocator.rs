//! A bump allocator over one fixed range of memory.
use vstd::prelude::*;

verus! {

/// The smallest multiple of `align` that is at least `p`.
pub open spec fn align_up(p: int, align: int) -> int {
    if p % align == 0 {
        p
    } else {
        p + (align - p % align)
    }
}

/// Hands out memory from a fixed range by moving a pointer up. Memory is
/// never given back.
#[derive(Debug)]
pub struct BumpAllocator {
    free_memory_top: usize,
    bump_ptr: usize,
    initialized: bool,
}

impl BumpAllocator {
    /// The allocator has been given its range.
    pub closed spec fn is_initialized(&self) -> bool {
        self.initialized
    }

    /// The lowest address not yet handed out.
    pub closed spec fn next_free(&self) -> int {
        self.bump_ptr as int
    }

    /// One past the last address of the range.
    pub closed spec fn top(&self) -> int {
        self.free_memory_top as int
    }

    /// A request of `size` bytes aligned to `align` fits in what is left.
    pub open spec fn fits(&self, size: int, align: int) -> bool {
        align > 0 && align_up(self.next_free(), align) + size <= self.top()
    }

    /// An allocator without a range yet.
    pub fn new() -> (r: Self)
        ensures
            !r.is_initialized(),
            r.next_free() == 0,
            r.top() == 0,
    {
        BumpAllocator { free_memory_top: 0, bump_ptr: 0, initialized: false }
    }

    /// Gives the allocator the range `[free_memory_bottom, free_memory_top)`.
    /// An allocator takes its range once.
    pub fn init(&mut self, free_memory_bottom: usize, free_memory_top: usize)
        requires
            !old(self).is_initialized(),
        ensures
            final(self).is_initialized(),
            final(self).next_free() == free_memory_bottom,
            final(self).top() == free_memory_top,
    {
        self.bump_ptr = free_memory_bottom;
        self.free_memory_top = free_memory_top;
        self.initialized = true;
    }

    /// Hands out `size` bytes aligned to `align`: the address returned is
    /// the first multiple of `align` at or above the next free address, and
    /// the next free address moves past the block.
    pub fn allocate(&mut self, size: usize, align: usize) -> (r: usize)
        requires
            old(self).is_initialized(),
            old(self).fits(size as int, align as int),
        ensures
            r == align_up(old(self).next_free(), align as int),
            final(self).next_free() == r + size,
            final(self).top() == old(self).top(),
            final(self).is_initialized(),
    {
        let current = self.bump_ptr;
        let rem = current % align;
        let aligned = if rem == 0 {
            current
        } else {
            current + (align - rem)
        };
        let next = aligned + size;
        self.bump_ptr = next;
        aligned
    }
}

} // verus!
