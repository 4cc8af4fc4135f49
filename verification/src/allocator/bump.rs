//! A bump allocator: it hands out memory by moving a single `next` pointer
//! forward and can only reuse memory once every allocation has been freed.
use vstd::prelude::*;

verus! {

use vstd::layout::valid_layout;
use super::{align_up, align_up_spec};

/// A bump allocator over the heap region `[heap_start, heap_end)`.
///
/// `next` is the first address that has not been handed out yet and
/// `allocations` counts the allocations that have not been freed.
pub struct BumpAllocator {
    heap_start: usize,
    heap_end: usize,
    next: usize,
    allocations: usize,
}

impl BumpAllocator {
    /// `next` never leaves the heap, and with no live allocation it sits at
    /// the start of the heap.
    #[verifier::type_invariant]
    pub closed spec fn inv(self) -> bool {
        &&& self.heap_start <= self.next <= self.heap_end
        &&& self.allocations == 0 ==> self.next == self.heap_start
    }

    /// First address of the managed heap.
    pub closed spec fn heap_start(self) -> nat {
        self.heap_start as nat
    }

    /// One past the last address of the managed heap.
    pub closed spec fn heap_end(self) -> nat {
        self.heap_end as nat
    }

    /// First address that has not been handed out since the last reset.
    pub closed spec fn next(self) -> nat {
        self.next as nat
    }

    /// Number of allocations that have not been freed yet.
    pub closed spec fn allocations(self) -> nat {
        self.allocations as nat
    }

    /// The invariant, stated over the public accessors.
    pub open spec fn valid(self) -> bool {
        &&& self.heap_start() <= self.next() <= self.heap_end() <= usize::MAX
        &&& self.allocations() == 0 ==> self.next() == self.heap_start()
    }

    /// Where a request for `align` would start.
    pub open spec fn alloc_start(self, align: usize) -> int {
        align_up_spec(self.next() as int, align as int)
    }

    /// A request of `size` bytes aligned to `align` fits into the heap.
    pub open spec fn alloc_fits(self, size: usize, align: usize) -> bool {
        self.alloc_start(align) + size <= self.heap_end()
    }

    /// The two allocators describe the same heap and the same bump state.
    pub open spec fn same_state(self, other: Self) -> bool {
        &&& self.heap_start() == other.heap_start()
        &&& self.heap_end() == other.heap_end()
        &&& self.next() == other.next()
        &&& self.allocations() == other.allocations()
    }

    /// What `allocate` returns and leaves behind, from `old` to `new`.
    pub open spec fn alloc_post(old: Self, new: Self, size: usize, align: usize, r: Option<usize>) -> bool {
        &&& new.heap_start() == old.heap_start()
        &&& new.heap_end() == old.heap_end()
        &&& if old.alloc_fits(size, align) {
            &&& r is Some
            &&& r->0 == old.alloc_start(align)
            &&& new.next() == old.alloc_start(align) + size
            &&& new.allocations() == old.allocations() + 1
        } else {
            &&& r is None
            &&& new.next() == old.next()
            &&& new.allocations() == old.allocations()
        }
    }

    /// What `deallocate` leaves behind, from `old` to `new`.
    pub open spec fn dealloc_post(old: Self, new: Self) -> bool {
        &&& new.heap_start() == old.heap_start()
        &&& new.heap_end() == old.heap_end()
        &&& new.allocations() == old.allocations() - 1
        &&& new.next() == (if new.allocations() == 0 { old.heap_start() } else { old.next() })
    }

    /// Creates a new empty bump allocator over an empty heap.
    pub fn new() -> (r: Self)
        ensures
            r.heap_start() == 0,
            r.heap_end() == 0,
            r.next() == 0,
            r.allocations() == 0,
            r.valid(),
    {
        BumpAllocator { heap_start: 0, heap_end: 0, next: 0, allocations: 0 }
    }

    /// Makes the allocator manage the heap `[heap_start, heap_start + heap_size)`.
    ///
    /// The caller must make sure that the range is unused memory, and call
    /// this once.
    pub fn init(&mut self, heap_start: usize, heap_size: usize)
        requires
            heap_start + heap_size <= usize::MAX,
        ensures
            final(self).heap_start() == heap_start,
            final(self).heap_end() == heap_start + heap_size,
            final(self).next() == heap_start,
            final(self).allocations() == old(self).allocations(),
            final(self).valid(),
    {
        *self = BumpAllocator {
            heap_start,
            heap_end: heap_start + heap_size,
            next: heap_start,
            allocations: self.allocations,
        };
    }

    /// The first address that has not been handed out since the last reset.
    pub fn next_addr(&self) -> (r: usize)
        ensures
            r == self.next(),
            self.valid(),
    {
        proof {
            use_type_invariant(self);
        }
        self.next
    }

    /// The number of allocations that have not been freed yet.
    pub fn allocation_count(&self) -> (r: usize)
        ensures
            r == self.allocations(),
            self.valid(),
    {
        proof {
            use_type_invariant(self);
        }
        self.allocations
    }

    /// Hands out `size` bytes aligned to `align` from the unused part of the
    /// heap, or `None` when they do not fit.
    pub fn allocate(&mut self, size: usize, align: usize) -> (r: Option<usize>)
        requires
            valid_layout(size, align),
            old(self).next() + align - 1 <= usize::MAX,
            old(self).alloc_fits(size, align) ==> old(self).allocations() < usize::MAX,
        ensures
            Self::alloc_post(*old(self), *final(self), size, align, r),
            final(self).valid(),
            r matches Some(a) ==> {
                &&& a % align == 0
                &&& old(self).heap_start() <= a
                &&& a + size <= old(self).heap_end()
                &&& old(self).next() <= a
            },
    {
        proof {
            use_type_invariant(&*self);
        }
        let addr_start = align_up(self.next, align);
        let addr_end = match addr_start.checked_add(size) {
            Some(end) => end,
            None => return None,
        };
        if addr_end > self.heap_end {
            None
        } else {
            *self = BumpAllocator {
                heap_start: self.heap_start,
                heap_end: self.heap_end,
                next: addr_end,
                allocations: self.allocations + 1,
            };
            Some(addr_start)
        }
    }

    /// Frees one allocation. Once every allocation is freed, the whole heap
    /// is handed out again from its start.
    pub fn deallocate(&mut self)
        requires
            old(self).allocations() > 0,
        ensures
            Self::dealloc_post(*old(self), *final(self)),
            final(self).valid(),
    {
        proof {
            use_type_invariant(&*self);
        }
        let allocations = self.allocations - 1;
        let next = if allocations == 0 { self.heap_start } else { self.next };
        *self = BumpAllocator {
            heap_start: self.heap_start,
            heap_end: self.heap_end,
            next,
            allocations,
        };
    }
}

/// Two allocations in a row never overlap: the second one starts at or
/// after the end of the first, and both lie inside the heap.
pub proof fn lemma_consecutive_allocations_disjoint(
    b0: BumpAllocator,
    b1: BumpAllocator,
    b2: BumpAllocator,
    size1: usize,
    align1: usize,
    size2: usize,
    align2: usize,
    first: usize,
    second: usize,
)
    requires
        b0.valid(),
        valid_layout(size1, align1),
        valid_layout(size2, align2),
        BumpAllocator::alloc_post(b0, b1, size1, align1, Some(first)),
        BumpAllocator::alloc_post(b1, b2, size2, align2, Some(second)),
    ensures
        first + size1 <= second,
        b0.heap_start() <= first,
        second + size2 <= b0.heap_end(),
{
    lemma_align_up_not_below(b0.next() as int, align1);
    lemma_align_up_not_below(b1.next() as int, align2);
}

/// On an allocator with no live allocation, allocating and then freeing
/// brings it back to exactly the state it started in.
pub proof fn lemma_allocate_then_free_restores(
    b0: BumpAllocator,
    b1: BumpAllocator,
    b2: BumpAllocator,
    size: usize,
    align: usize,
    block: usize,
)
    requires
        b0.valid(),
        b0.allocations() == 0,
        BumpAllocator::alloc_post(b0, b1, size, align, Some(block)),
        BumpAllocator::dealloc_post(b1, b2),
    ensures
        b2.same_state(b0),
{
}

/// Freed memory is not handed out again while other allocations are live:
/// after freeing one of several allocations, the next allocation starts
/// beyond every block handed out before.
pub proof fn lemma_no_reuse_while_allocations_live(
    b0: BumpAllocator,
    b1: BumpAllocator,
    b2: BumpAllocator,
    b3: BumpAllocator,
    size: usize,
    align: usize,
    freed: usize,
    size2: usize,
    align2: usize,
    reused: usize,
)
    requires
        valid_layout(size2, align2),
        BumpAllocator::alloc_post(b0, b1, size, align, Some(freed)),
        BumpAllocator::dealloc_post(b1, b2),
        b2.allocations() > 0,
        BumpAllocator::alloc_post(b2, b3, size2, align2, Some(reused)),
    ensures
        freed + size <= reused,
{
    lemma_align_up_not_below(b2.next() as int, align2);
}

/// Once every allocation is freed, the next allocation starts again at the
/// first suitably aligned address of the heap.
pub proof fn lemma_reuse_after_all_freed(
    b1: BumpAllocator,
    b2: BumpAllocator,
    b3: BumpAllocator,
    size: usize,
    align: usize,
    block: usize,
)
    requires
        BumpAllocator::dealloc_post(b1, b2),
        b2.allocations() == 0,
        BumpAllocator::alloc_post(b2, b3, size, align, Some(block)),
    ensures
        block == align_up_spec(b1.heap_start() as int, align as int),
{
}

/// Rounding up never goes below the rounded address.
proof fn lemma_align_up_not_below(addr: int, align: usize)
    requires
        valid_layout(0, align),
    ensures
        addr <= align_up_spec(addr, align as int),
{
    broadcast use vstd::arithmetic::power2::is_pow2_equiv;
    let n = choose|i: nat| vstd::arithmetic::power::pow(2, i) == align as int;
    vstd::arithmetic::power::lemma_pow_positive(2, n);
    vstd::arithmetic::div_mod::lemma_mod_bound(addr + align - 1, align as int);
}

} // verus!
