//! A fixed-size block allocator: requests are rounded up to one of a few
//! power-of-two block sizes and served from a free list per size; larger
//! requests, and sizes whose free list is empty, go to a fallback heap.
use vstd::prelude::*;

verus! {

use vstd::layout::valid_layout;
use vstd::arithmetic::power2::pow2;
use super::{align_up, align_up_spec};
use vstd::set_lib::set_int_range;
use linked_list_allocator::Heap;

#[verifier::external_type_specification]
#[verifier::external_body]
pub struct ExHeap(linked_list_allocator::Heap);

/// Number of block sizes, and so of free lists.
pub const BLOCK_SIZE_COUNT: usize = 9;

/// The block sizes, smallest first. Each is a power of two, because a
/// block is also aligned to its own size.
pub open spec fn block_sizes() -> Seq<usize> {
    seq![8usize, 16, 32, 64, 128, 256, 512, 1024, 2048]
}

/// The block size that a request of `size` bytes aligned to `align` needs.
pub open spec fn required_block_size(size: usize, align: usize) -> usize {
    if size >= align { size } else { align }
}

/// The first block size from index `i` on that can hold `required`.
pub open spec fn first_fit_from(i: int, required: usize) -> Option<usize>
    decreases BLOCK_SIZE_COUNT - i,
{
    if i < 0 || i >= BLOCK_SIZE_COUNT {
        None
    } else if block_sizes()[i] >= required {
        Some(i as usize)
    } else {
        first_fit_from(i + 1, required)
    }
}

/// The index of the smallest block size that serves the request, if any.
pub open spec fn size_class(size: usize, align: usize) -> Option<usize> {
    first_fit_from(0, required_block_size(size, align))
}

proof fn lemma_first_fit_from(i: int, required: usize)
    requires
        0 <= i <= BLOCK_SIZE_COUNT,
    ensures
        match first_fit_from(i, required) {
            Some(k) => i <= k < BLOCK_SIZE_COUNT && required <= block_sizes()[k as int] && forall|j: int|
                i <= j < k ==> block_sizes()[j] < required,
            None => forall|j: int| i <= j < BLOCK_SIZE_COUNT ==> block_sizes()[j] < required,
        },
    decreases BLOCK_SIZE_COUNT - i,
{
    if i < BLOCK_SIZE_COUNT {
        lemma_first_fit_from(i + 1, required);
    }
}

/// Every block size is a power of two, so that it can serve as the block's
/// alignment: used as both size and alignment it is a valid layout.
pub proof fn lemma_block_sizes_are_layouts(i: int)
    requires
        0 <= i < BLOCK_SIZE_COUNT,
    ensures
        valid_layout(block_sizes()[i], block_sizes()[i]),
{
    reveal_with_fuel(vstd::arithmetic::power2::is_pow2, 13);
}

/// A power of two no larger than the biggest block size is one of the
/// powers of two up to it.
proof fn lemma_small_power_of_two(align: usize)
    requires
        valid_layout(0, align),
        align <= 2048,
    ensures
        align == 1 || align == 2 || align == 4 || align == 8 || align == 16 || align == 32
            || align == 64 || align == 128 || align == 256 || align == 512 || align == 1024
            || align == 2048,
{
    broadcast use vstd::arithmetic::power2::is_pow2_equiv;
    let n = choose|i: nat| vstd::arithmetic::power::pow(2, i) == align as int;
    assert(pow2(n) == align);
    vstd::arithmetic::power2::lemma2_to64();
    if n > 11 {
        vstd::arithmetic::power2::lemma_pow2_strictly_increases(11, n);
    }
    assert(n == 0 || n == 1 || n == 2 || n == 3 || n == 4 || n == 5 || n == 6 || n == 7 || n == 8
        || n == 9 || n == 10 || n == 11);
}

/// The block size chosen for a request holds its size and is a multiple of
/// its alignment, so a block of that size aligned to the block size serves
/// the request.
pub proof fn lemma_size_class_serves_request(size: usize, align: usize)
    requires
        valid_layout(size, align),
        size_class(size, align) is Some,
    ensures
        0 < align,
        size <= block_sizes()[size_class(size, align)->0 as int],
        block_sizes()[size_class(size, align)->0 as int] % align == 0,
{
    lemma_first_fit_from(0, required_block_size(size, align));
    let i = size_class(size, align)->0;
    lemma_small_power_of_two(align);
    assert(0 <= i < BLOCK_SIZE_COUNT);
    assert(i == 0 || i == 1 || i == 2 || i == 3 || i == 4 || i == 5 || i == 6 || i == 7 || i == 8);
}

/// A multiple of `b` is a multiple of every divisor `a` of `b`.
proof fn lemma_multiple_of_multiple(x: int, b: int, a: int)
    requires
        0 < a,
        0 < b,
        x % b == 0,
        b % a == 0,
    ensures
        x % a == 0,
{
    vstd::arithmetic::div_mod::lemma_fundamental_div_mod(x, b);
    vstd::arithmetic::div_mod::lemma_fundamental_div_mod(b, a);
    let q = x / b;
    let p = b / a;
    assert(x == a * (p * q)) by (nonlinear_arith)
        requires
            x == b * q,
            b == a * p,
    ;
    vstd::arithmetic::div_mod::lemma_mod_multiples_basic(p * q, a);
    assert(a * (p * q) == (p * q) * a) by (nonlinear_arith);
}

/// The size of the blocks of free list `index`.
pub fn block_size(index: usize) -> (r: usize)
    requires
        index < BLOCK_SIZE_COUNT,
    ensures
        r == block_sizes()[index as int],
{
    match index {
        0 => 8,
        1 => 16,
        2 => 32,
        3 => 64,
        4 => 128,
        5 => 256,
        6 => 512,
        7 => 1024,
        _ => 2048,
    }
}

/// Chooses the free list for a request of `size` bytes aligned to `align`:
/// the smallest block size that is at least both, or `None` when the request
/// is larger than every block size.
pub fn list_index(size: usize, align: usize) -> (r: Option<usize>)
    ensures
        r == size_class(size, align),
        match r {
            Some(i) => i < BLOCK_SIZE_COUNT && required_block_size(size, align) <= block_sizes()[i as int]
                && forall|j: int| 0 <= j < i ==> block_sizes()[j] < required_block_size(size, align),
            None => forall|j: int|
                0 <= j < BLOCK_SIZE_COUNT ==> block_sizes()[j] < required_block_size(size, align),
        },
{
    proof {
        lemma_first_fit_from(0, required_block_size(size, align));
    }
    let required = if size >= align { size } else { align };
    let mut i: usize = 0;
    while i < BLOCK_SIZE_COUNT
        invariant
            0 <= i <= BLOCK_SIZE_COUNT,
            required == required_block_size(size, align),
            first_fit_from(i as int, required) == size_class(size, align),
        decreases BLOCK_SIZE_COUNT - i,
    {
        if block_size(i) >= required {
            assert(first_fit_from(i as int, required) == Some(i));
            proof {
                lemma_first_fit_from(0, required);
            }
            return Some(i);
        }
        i = i + 1;
    }
    None
}

/// The lowest address of the memory a fallback heap manages.
pub uninterp spec fn heap_bottom(heap: Heap) -> usize;

/// The number of bytes a fallback heap manages.
pub uninterp spec fn heap_size(heap: Heap) -> usize;

/// The block that a fallback heap hands out for `size` bytes aligned to
/// `align`, or `None` when it has no hole that fits.
pub uninterp spec fn heap_first_fit(heap: Heap, size: usize, align: usize) -> Option<usize>;

/// The free memory of a fallback heap: the addresses covered by its holes.
pub uninterp spec fn heap_free(heap: Heap) -> Set<int>;

/// The addresses of the block at `addr` of `size` bytes.
pub open spec fn block_range(addr: int, size: int) -> Set<int> {
    set_int_range(addr, addr + size)
}

/// The size that the fallback heap actually reserves for a request of
/// `size` bytes: at least the size of its hole header (two words), rounded
/// up to the alignment of a hole (one word).
pub open spec fn fallback_padded_size(size: usize) -> int {
    if usize::BITS == 64 {
        align_up_spec(if size >= 16 { size as int } else { 16 }, 8)
    } else {
        align_up_spec(if size >= 8 { size as int } else { 8 }, 4)
    }
}

/// The fallback heap can be asked for `size` bytes aligned to `align`: the
/// request and its padded size are valid layouts, and no address
/// computation of the heap can overflow. Holes start below
/// `bottom + size + 8`; the heap looks for an aligned start up to a hole
/// header plus `align - 1` bytes past a hole's start (at most
/// `16 + align - 1`) and adds the padded size to it.
pub open spec fn fallback_request_ok(heap: Heap, size: usize, align: usize) -> bool {
    &&& valid_layout(size, align)
    &&& fallback_padded_size(size) <= isize::MAX as int - (isize::MAX as int % align as int)
    &&& heap_bottom(heap) + heap_size(heap) + fallback_padded_size(size) + align + 22 <= usize::MAX
}

/// `Heap::empty` of linked_list_allocator. Claimed: the heap manages no
/// memory (bottom and size 0, no holes), and, as its documentation says,
/// every allocation from it fails.
#[verifier::external_body]
fn fallback_heap_empty() -> (heap: Heap)
    ensures
        heap_bottom(heap) == 0,
        heap_size(heap) == 0,
        heap_free(heap) == Set::<int>::empty(),
        forall|size: usize, align: usize|
            fallback_request_ok(heap, size, align) ==> #[trigger] heap_first_fit(heap, size, align) is None,
{
    Heap::empty()
}

/// `Heap::bottom` of linked_list_allocator. Claimed: it is the heap's bottom.
#[verifier::external_body]
fn fallback_heap_bottom(heap: &Heap) -> (r: usize)
    ensures
        r == heap_bottom(*heap),
{
    heap.bottom()
}

/// `Heap::size` of linked_list_allocator. Claimed: it is the heap's size.
#[verifier::external_body]
fn fallback_heap_size(heap: &Heap) -> (r: usize)
    ensures
        r == heap_size(*heap),
{
    heap.size()
}

/// `Heap::allocate_first_fit` of linked_list_allocator, with the layout
/// built from `size` and `align`. Claimed: the result is the heap's first
/// fit for the request, a returned address is non-zero and a multiple of
/// `align` (the heap rounds the start of the hole it takes up to `align`),
/// the heap's bottom and size stay as they were, and a failed request leaves
/// the heap as it was (the heap changes its hole list only once it has found
/// a hole). A returned block of the padded size lies in free memory and is
/// taken out of it, and nothing else changes in it: the heap cuts exactly
/// that range out of the hole it uses and keeps the rest of the hole, before
/// and after the block, as holes. Which address the first fit is depends on
/// where the holes lie.
/// The heap pads the request and rounds hole addresses up to `align`; it
/// panics when the padded size is no valid layout and overflows on
/// addresses near the top of the address space, which `requires` rules
/// out. A hole at address 0 (a heap initialised at the null address, which
/// `Heap::init`'s safety contract forbids) would make it panic too.
#[verifier::external_body]
fn fallback_heap_allocate(heap: &mut Heap, size: usize, align: usize) -> (r: Option<usize>)
    requires
        fallback_request_ok(*old(heap), size, align),
    ensures
        r == heap_first_fit(*old(heap), size, align),
        r matches Some(a) ==> a != 0 && a % align == 0,
        heap_bottom(*final(heap)) == heap_bottom(*old(heap)),
        heap_size(*final(heap)) == heap_size(*old(heap)),
        r is None ==> *final(heap) == *old(heap),
        r matches Some(a) ==> {
            &&& block_range(a as int, fallback_padded_size(size)).subset_of(heap_free(*old(heap)))
            &&& heap_free(*final(heap)) == heap_free(*old(heap)).difference(
                block_range(a as int, fallback_padded_size(size)),
            )
        },
{
    match heap.allocate_first_fit(core::alloc::Layout::from_size_align(size, align).unwrap()) {
        Ok(block) => Some(block.addr().get()),
        Err(()) => None,
    }
}

/// Every block on free list `i` is at a non-zero multiple of the `i`-th block
/// size.
pub open spec fn blocks_aligned(lists: Seq<Seq<usize>>) -> bool {
    forall|i: int, j: int|
        0 <= i < BLOCK_SIZE_COUNT && 0 <= j < lists[i].len() ==> {
            &&& #[trigger] lists[i][j] != 0
            &&& lists[i][j] % block_sizes()[i] == 0
        }
}

/// Two blocks, at `a` of `a_size` bytes and at `b` of `b_size` bytes, do
/// not overlap.
pub open spec fn blocks_apart(a: usize, a_size: int, b: usize, b_size: int) -> bool {
    a + a_size <= b || b + b_size <= a
}

/// No two blocks on the free lists overlap.
pub open spec fn blocks_disjoint(lists: Seq<Seq<usize>>) -> bool {
    forall|i1: int, j1: int, i2: int, j2: int|
        0 <= i1 < BLOCK_SIZE_COUNT && 0 <= j1 < lists[i1].len() && 0 <= i2 < BLOCK_SIZE_COUNT && 0 <= j2
            < lists[i2].len() && (i1 != i2 || j1 != j2) ==> blocks_apart(
            #[trigger] lists[i1][j1],
            block_sizes()[i1] as int,
            #[trigger] lists[i2][j2],
            block_sizes()[i2] as int,
        )
}

/// The block at `addr` of `size` bytes overlaps no block on the free lists.
pub open spec fn block_clear_of_lists(lists: Seq<Seq<usize>>, addr: usize, size: int) -> bool {
    forall|i: int, j: int|
        0 <= i < BLOCK_SIZE_COUNT && 0 <= j < lists[i].len() ==> blocks_apart(
            addr,
            size,
            #[trigger] lists[i][j],
            block_sizes()[i] as int,
        )
}

/// Free lists as the allocator keeps them: one per block size, each block
/// at a non-zero multiple of its size, no two blocks overlapping.
pub open spec fn lists_wf(lists: Seq<Seq<usize>>) -> bool {
    &&& lists.len() == BLOCK_SIZE_COUNT
    &&& blocks_aligned(lists)
    &&& blocks_disjoint(lists)
}

/// The request, if any, that the allocator passes on to the fallback heap:
/// a whole block when the matching free list is empty, the request as it is
/// when it is larger than every block size.
pub open spec fn fallback_request(lists: Seq<Seq<usize>>, size: usize, align: usize) -> Option<
    (usize, usize),
> {
    match size_class(size, align) {
        Some(i) => if lists[i as int].len() > 0 {
            None
        } else {
            Some((block_sizes()[i as int], block_sizes()[i as int]))
        },
        None => Some((size, align)),
    }
}

/// Taking the last block off a free list keeps the lists well formed, and
/// the block taken overlaps none of the blocks left.
proof fn lemma_pop_keeps_lists_wf(lists: Seq<Seq<usize>>, i: int)
    requires
        lists_wf(lists),
        0 <= i < BLOCK_SIZE_COUNT,
        lists[i].len() > 0,
    ensures
        lists_wf(lists.update(i, lists[i].drop_last())),
        block_clear_of_lists(lists.update(i, lists[i].drop_last()), lists[i].last(), block_sizes()[i] as int),
{
    let new = lists.update(i, lists[i].drop_last());
    let k = lists[i].len() - 1;
    assert forall|i1: int, j1: int|
        0 <= i1 < BLOCK_SIZE_COUNT && 0 <= j1 < new[i1].len() implies new[i1][j1] == lists[i1][j1]
        && j1 < lists[i1].len() by {}
    assert(blocks_aligned(new)) by {
        assert forall|i1: int, j1: int| 0 <= i1 < BLOCK_SIZE_COUNT && 0 <= j1 < new[i1].len() implies {
            &&& #[trigger] new[i1][j1] != 0
            &&& new[i1][j1] % block_sizes()[i1] == 0
        } by {
            assert(new[i1][j1] == lists[i1][j1]);
        }
    }
    assert(blocks_disjoint(new)) by {
        assert forall|i1: int, j1: int, i2: int, j2: int|
            0 <= i1 < BLOCK_SIZE_COUNT && 0 <= j1 < new[i1].len() && 0 <= i2 < BLOCK_SIZE_COUNT && 0 <= j2
                < new[i2].len() && (i1 != i2 || j1 != j2) implies blocks_apart(
            #[trigger] new[i1][j1],
            block_sizes()[i1] as int,
            #[trigger] new[i2][j2],
            block_sizes()[i2] as int,
        ) by {
            assert(new[i1][j1] == lists[i1][j1]);
            assert(new[i2][j2] == lists[i2][j2]);
        }
    }
    assert forall|i2: int, j2: int| 0 <= i2 < BLOCK_SIZE_COUNT && 0 <= j2 < new[i2].len() implies blocks_apart(
        lists[i].last(),
        block_sizes()[i] as int,
        #[trigger] new[i2][j2],
        block_sizes()[i2] as int,
    ) by {
        assert(new[i2][j2] == lists[i2][j2]);
        assert(lists[i][k] == lists[i].last());
    }
}

/// Pushing a free block that overlaps no listed block, at a non-zero
/// multiple of its list's size, keeps the lists well formed.
proof fn lemma_push_keeps_lists_wf(lists: Seq<Seq<usize>>, i: int, addr: usize)
    requires
        lists_wf(lists),
        0 <= i < BLOCK_SIZE_COUNT,
        addr != 0,
        addr % block_sizes()[i] == 0,
        block_clear_of_lists(lists, addr, block_sizes()[i] as int),
    ensures
        lists_wf(lists.update(i, lists[i].push(addr))),
{
    let new = lists.update(i, lists[i].push(addr));
    let k = lists[i].len() as int;
    assert forall|i1: int, j1: int|
        0 <= i1 < BLOCK_SIZE_COUNT && 0 <= j1 < new[i1].len() && !(i1 == i && j1 == k) implies new[i1][j1]
        == lists[i1][j1] && j1 < lists[i1].len() by {}
    assert(new[i][k] == addr);
    assert(blocks_aligned(new)) by {
        assert forall|i1: int, j1: int| 0 <= i1 < BLOCK_SIZE_COUNT && 0 <= j1 < new[i1].len() implies {
            &&& #[trigger] new[i1][j1] != 0
            &&& new[i1][j1] % block_sizes()[i1] == 0
        } by {
            if !(i1 == i && j1 == k) {
                assert(new[i1][j1] == lists[i1][j1]);
            }
        }
    }
    assert(blocks_disjoint(new)) by {
        assert forall|i1: int, j1: int, i2: int, j2: int|
            0 <= i1 < BLOCK_SIZE_COUNT && 0 <= j1 < new[i1].len() && 0 <= i2 < BLOCK_SIZE_COUNT && 0 <= j2
                < new[i2].len() && (i1 != i2 || j1 != j2) implies blocks_apart(
            #[trigger] new[i1][j1],
            block_sizes()[i1] as int,
            #[trigger] new[i2][j2],
            block_sizes()[i2] as int,
        ) by {
            if i1 == i && j1 == k {
                assert(new[i2][j2] == lists[i2][j2]);
            } else if i2 == i && j2 == k {
                assert(new[i1][j1] == lists[i1][j1]);
            } else {
                assert(new[i1][j1] == lists[i1][j1]);
                assert(new[i2][j2] == lists[i2][j2]);
            }
        }
    }
}

/// No listed block lies in the free memory `free` of the fallback heap.
pub open spec fn lists_clear_of(lists: Seq<Seq<usize>>, free: Set<int>) -> bool {
    forall|i: int, j: int|
        0 <= i < BLOCK_SIZE_COUNT && 0 <= j < lists[i].len() ==> block_range(
            #[trigger] lists[i][j] as int,
            block_sizes()[i] as int,
        ).disjoint(free)
}

/// The bytes that a block handed out for the request spans: its block size,
/// or, for a request larger than every block size, the padded size that the
/// fallback heap reserves for it.
pub open spec fn served_size(size: usize, align: usize) -> int {
    match size_class(size, align) {
        Some(i) => block_sizes()[i as int] as int,
        None => fallback_padded_size(size),
    }
}

/// The padded size covers the request and is never zero.
proof fn lemma_padded_covers(size: usize)
    ensures
        size <= fallback_padded_size(size),
        0 < fallback_padded_size(size),
{
    if usize::BITS == 64 {
        let m: int = if size >= 16 { size as int } else { 16 };
        vstd::arithmetic::div_mod::lemma_mod_bound(m + 7, 8);
    } else {
        let m: int = if size >= 8 { size as int } else { 8 };
        vstd::arithmetic::div_mod::lemma_mod_bound(m + 3, 4);
    }
}

/// Two non-empty blocks whose addresses have nothing in common do not
/// overlap.
proof fn lemma_ranges_apart(a: usize, a_size: int, b: usize, b_size: int)
    requires
        0 < a_size,
        0 < b_size,
        block_range(a as int, a_size).disjoint(block_range(b as int, b_size)),
    ensures
        blocks_apart(a, a_size, b, b_size),
{
    if !blocks_apart(a, a_size, b, b_size) {
        let x: int = if a >= b { a as int } else { b as int };
        assert(block_range(a as int, a_size).contains(x));
        assert(block_range(b as int, b_size).contains(x));
    }
}

/// A block of `size` bytes at the start of a range of `reserved` bytes taken
/// out of free memory is clear of the free memory left and, when the listed
/// blocks were clear of the free memory, of every listed block.
proof fn lemma_fallback_block_clear(lists: Seq<Seq<usize>>, free: Set<int>, a: usize, size: int, reserved: int)
    requires
        0 < size <= reserved,
        lists_clear_of(lists, free),
        block_range(a as int, reserved).subset_of(free),
    ensures
        block_range(a as int, size).disjoint(free.difference(block_range(a as int, reserved))),
        block_clear_of_lists(lists, a, size),
        lists_clear_of(lists, free.difference(block_range(a as int, reserved))),
{
    assert forall|i: int, j: int| 0 <= i < BLOCK_SIZE_COUNT && 0 <= j < lists[i].len() implies blocks_apart(
        a,
        size,
        #[trigger] lists[i][j],
        block_sizes()[i] as int,
    ) by {
        let l = block_range(lists[i][j] as int, block_sizes()[i] as int);
        assert(l.disjoint(free));
        assert(block_range(a as int, size).disjoint(l));
        assert(block_sizes()[i] > 0);
        lemma_ranges_apart(a, size, lists[i][j], block_sizes()[i] as int);
    }
}

/// A fixed-size block allocator. `list_heads[i]` holds the addresses of the
/// free blocks of size `block_sizes()[i]`; the last address pushed is the
/// first one handed out again.
pub struct FixedSizeBlockAllocator {
    list_heads: Vec<Vec<usize>>,
    /// The heap that serves what the free lists cannot.
    pub fallback_allocator: Heap,
}

impl FixedSizeBlockAllocator {
    /// The free lists are well formed, and no listed block is free memory of
    /// the fallback heap.
    pub open spec fn wf(self) -> bool {
        &&& lists_wf(self.free_lists())
        &&& lists_clear_of(self.free_lists(), heap_free(self.fallback_heap()))
    }

    /// The fallback heap.
    pub closed spec fn fallback_heap(self) -> Heap {
        self.fallback_allocator
    }

    /// The free lists, one sequence of block addresses per block size.
    pub closed spec fn free_lists(self) -> Seq<Seq<usize>> {
        self.list_heads@.map_values(|l: Vec<usize>| l@)
    }

    /// What `allocate` returns and how it changes the free lists.
    pub open spec fn alloc_post(
        old_lists: Seq<Seq<usize>>,
        new_lists: Seq<Seq<usize>>,
        size: usize,
        align: usize,
        r: Option<usize>,
    ) -> bool {
        match size_class(size, align) {
            Some(i) => if old_lists[i as int].len() > 0 {
                &&& r == Some(old_lists[i as int].last())
                &&& new_lists == old_lists.update(i as int, old_lists[i as int].drop_last())
            } else {
                &&& new_lists == old_lists
                &&& r matches Some(a) ==> a != 0 && a % block_sizes()[i as int] == 0
            },
            None => {
                &&& new_lists == old_lists
                &&& r matches Some(a) ==> a != 0 && a % align == 0
            },
        }
    }

    /// All that `allocate` does, from `old` to `new`: the free lists change
    /// as `alloc_post` says; a block from a free list leaves the fallback
    /// heap untouched; otherwise the result is the fallback heap's first fit
    /// for `fallback_request`; and any block handed out is non-zero and
    /// aligned to `align` and to its block size.
    pub open spec fn allocate_spec(old: Self, new: Self, size: usize, align: usize, r: Option<usize>) -> bool {
        &&& Self::alloc_post(old.free_lists(), new.free_lists(), size, align, r)
        &&& match fallback_request(old.free_lists(), size, align) {
            None => new.fallback_heap() == old.fallback_heap(),
            Some((s, a)) => {
                &&& r == heap_first_fit(old.fallback_heap(), s, a)
                &&& heap_bottom(new.fallback_heap()) == heap_bottom(old.fallback_heap())
                &&& heap_size(new.fallback_heap()) == heap_size(old.fallback_heap())
                &&& r is None ==> new.fallback_heap() == old.fallback_heap()
                &&& r matches Some(b) ==> {
                    &&& block_range(b as int, fallback_padded_size(s)).subset_of(heap_free(old.fallback_heap()))
                    &&& heap_free(new.fallback_heap()) == heap_free(old.fallback_heap()).difference(
                        block_range(b as int, fallback_padded_size(s)),
                    )
                }
            },
        }
        &&& r matches Some(a) ==> {
            &&& a != 0
            &&& a % align == 0
            &&& size_class(size, align) matches Some(i) ==> a % block_sizes()[i as int] == 0
            &&& new.block_live(a, served_size(size, align))
        }
    }

    /// The block at `addr` of `size` bytes is live: none of it is free
    /// memory of the fallback heap and it overlaps no block on the free
    /// lists. Every block that `allocate` hands out is live, and stays live
    /// until it is freed.
    pub open spec fn block_live(self, addr: usize, size: int) -> bool {
        &&& block_range(addr as int, size).disjoint(heap_free(self.fallback_heap()))
        &&& block_clear_of_lists(self.free_lists(), addr, size)
    }

    /// How `deallocate` changes the free lists and what it returns.
    pub open spec fn dealloc_post(
        old_lists: Seq<Seq<usize>>,
        new_lists: Seq<Seq<usize>>,
        addr: usize,
        size: usize,
        align: usize,
        listed: bool,
    ) -> bool {
        match size_class(size, align) {
            Some(i) => {
                &&& listed
                &&& new_lists == old_lists.update(i as int, old_lists[i as int].push(addr))
            },
            None => {
                &&& !listed
                &&& new_lists == old_lists
            },
        }
    }

    /// Creates an allocator with empty free lists and an empty fallback heap,
    /// so that every request to it fails until the heap is given memory.
    pub fn new() -> (r: Self)
        ensures
            r.wf(),
            r.free_lists() == Seq::new(BLOCK_SIZE_COUNT as nat, |i: int| Seq::<usize>::empty()),
            heap_bottom(r.fallback_heap()) == 0,
            heap_size(r.fallback_heap()) == 0,
            heap_free(r.fallback_heap()) == Set::<int>::empty(),
            forall|size: usize, align: usize|
                fallback_request_ok(r.fallback_heap(), size, align) ==> #[trigger] heap_first_fit(
                    r.fallback_heap(),
                    size,
                    align,
                ) is None,
    {
        let mut list_heads: Vec<Vec<usize>> = Vec::new();
        let mut i: usize = 0;
        while i < BLOCK_SIZE_COUNT
            invariant
                0 <= i <= BLOCK_SIZE_COUNT,
                list_heads@.len() == i,
                forall|j: int| 0 <= j < i ==> list_heads@[j]@ == Seq::<usize>::empty(),
            decreases BLOCK_SIZE_COUNT - i,
        {
            list_heads.push(Vec::new());
            i = i + 1;
        }
        let r = FixedSizeBlockAllocator { list_heads, fallback_allocator: fallback_heap_empty() };
        assert(r.free_lists() =~= Seq::new(BLOCK_SIZE_COUNT as nat, |i: int| Seq::<usize>::empty()));
        r
    }

    /// Allocates from the fallback heap.
    fn fallback_alloc(&mut self, size: usize, align: usize) -> (r: Option<usize>)
        requires
            old(self).wf(),
            fallback_request_ok(old(self).fallback_heap(), size, align),
        ensures
            final(self).wf(),
            final(self).free_lists() == old(self).free_lists(),
            r == heap_first_fit(old(self).fallback_heap(), size, align),
            r matches Some(a) ==> a != 0 && a % align == 0,
            heap_bottom(final(self).fallback_heap()) == heap_bottom(old(self).fallback_heap()),
            heap_size(final(self).fallback_heap()) == heap_size(old(self).fallback_heap()),
            r is None ==> final(self).fallback_heap() == old(self).fallback_heap(),
            r matches Some(a) ==> {
                &&& block_range(a as int, fallback_padded_size(size)).subset_of(heap_free(old(self).fallback_heap()))
                &&& heap_free(final(self).fallback_heap()) == heap_free(old(self).fallback_heap()).difference(
                    block_range(a as int, fallback_padded_size(size)),
                )
            },
    {
        fallback_heap_allocate(&mut self.fallback_allocator, size, align)
    }

    /// Whether the fallback heap can be asked for `size` bytes aligned to
    /// `align` (see `fallback_request_ok`).
    pub fn fallback_accepts(&self, size: usize, align: usize) -> (r: bool)
        requires
            valid_layout(size, align),
        ensures
            r == fallback_request_ok(self.fallback_heap(), size, align),
    {
        proof {
            reveal_with_fuel(vstd::arithmetic::power2::is_pow2, 5);
            broadcast use vstd::arithmetic::power2::is_pow2_equiv;
            let n = choose|i: nat| vstd::arithmetic::power::pow(2, i) == align as int;
            vstd::arithmetic::power::lemma_pow_positive(2, n);
        }
        let padded = if usize::BITS == 64 {
            align_up(if size >= 16 { size } else { 16 }, 8)
        } else {
            align_up(if size >= 8 { size } else { 8 }, 4)
        };
        let limit = (isize::MAX as usize) - ((isize::MAX as usize) % align);
        if padded > limit {
            return false;
        }
        let bottom = fallback_heap_bottom(&self.fallback_allocator);
        let heap_size = fallback_heap_size(&self.fallback_allocator);
        let top = match bottom.checked_add(heap_size) {
            Some(t) => t,
            None => return false,
        };
        let end = match top.checked_add(padded) {
            Some(e) => e,
            None => return false,
        };
        let end = match end.checked_add(align) {
            Some(e) => e,
            None => return false,
        };
        end.checked_add(22).is_some()
    }

    /// Hands out a block for `size` bytes aligned to `align`: the most
    /// recently freed block of the matching size if there is one, else a new
    /// block of that size from the fallback heap; requests larger than every
    /// block size go to the fallback heap as they are.
    pub fn allocate(&mut self, size: usize, align: usize) -> (r: Option<usize>)
        requires
            old(self).wf(),
            valid_layout(size, align),
            fallback_request(old(self).free_lists(), size, align) matches Some((s, a))
                ==> fallback_request_ok(old(self).fallback_heap(), s, a),
        ensures
            final(self).wf(),
            Self::allocate_spec(*old(self), *final(self), size, align, r),
    {
        match list_index(size, align) {
            Some(index) => {
                proof {
                    lemma_size_class_serves_request(size, align);
                }
                if self.list_heads[index].len() > 0 {
                    let block = self.list_heads[index].pop();
                    proof {
                        let lists = old(self).free_lists();
                        let k = lists[index as int].len() - 1;
                        assert(lists[index as int][k] % block_sizes()[index as int] == 0);
                        lemma_multiple_of_multiple(
                            lists[index as int][k] as int,
                            block_sizes()[index as int] as int,
                            align as int,
                        );
                        assert(self.free_lists() =~= lists.update(
                            index as int,
                            lists[index as int].drop_last(),
                        ));
                        lemma_pop_keeps_lists_wf(lists, index as int);
                        assert(lists[index as int][k] == lists[index as int].last());
                        assert(block_range(lists[index as int][k] as int, block_sizes()[index as int] as int).disjoint(
                            heap_free(old(self).fallback_heap()),
                        ));
                    }
                    block
                } else {
                    let block_size = block_size(index);
                    let block = self.fallback_alloc(block_size, block_size);
                    proof {
                        if let Some(a) = block {
                            lemma_multiple_of_multiple(a as int, block_size as int, align as int);
                            lemma_fallback_block_clear(
                                old(self).free_lists(),
                                heap_free(old(self).fallback_heap()),
                                a,
                                block_size as int,
                                fallback_padded_size(block_size),
                            );
                        }
                    }
                    block
                }
            },
            None => {
                let block = self.fallback_alloc(size, align);
                proof {
                    if let Some(a) = block {
                        lemma_fallback_block_clear(
                            old(self).free_lists(),
                            heap_free(old(self).fallback_heap()),
                            a,
                            fallback_padded_size(size),
                            fallback_padded_size(size),
                        );
                    }
                }
                block
            },
        }
    }

    /// Like `allocate`, but first checks that the request it would pass to
    /// the fallback heap is one the heap can take; `None` when it is not, and
    /// then nothing changes.
    pub fn try_allocate(&mut self, size: usize, align: usize) -> (r: Option<Option<usize>>)
        requires
            old(self).wf(),
            valid_layout(size, align),
        ensures
            final(self).wf(),
            r is None <==> (fallback_request(old(self).free_lists(), size, align) matches Some((s, a))
                && !fallback_request_ok(old(self).fallback_heap(), s, a)),
            r is None ==> *final(self) == *old(self),
            r matches Some(x) ==> Self::allocate_spec(*old(self), *final(self), size, align, x),
    {
        match list_index(size, align) {
            Some(index) => {
                if self.list_heads[index].len() == 0 {
                    let block_size = block_size(index);
                    proof {
                        lemma_block_sizes_are_layouts(index as int);
                    }
                    if !self.fallback_accepts(block_size, block_size) {
                        return None;
                    }
                }
            },
            None => {
                if !self.fallback_accepts(size, align) {
                    return None;
                }
            },
        }
        Some(self.allocate(size, align))
    }

    /// Returns the block at `addr` of a request of `size` bytes aligned to
    /// `align`. A block of one of the block sizes goes on the free list of
    /// that size and `true` is returned; for a larger one nothing changes and
    /// `false` says that it belongs back to the fallback heap.
    pub fn deallocate(&mut self, addr: usize, size: usize, align: usize) -> (listed: bool)
        requires
            old(self).wf(),
            size_class(size, align) matches Some(i) ==> {
                &&& addr != 0
                &&& addr % block_sizes()[i as int] == 0
                &&& old(self).block_live(addr, block_sizes()[i as int] as int)
            },
        ensures
            final(self).wf(),
            final(self).fallback_heap() == old(self).fallback_heap(),
            Self::dealloc_post(old(self).free_lists(), final(self).free_lists(), addr, size, align, listed),
    {
        match list_index(size, align) {
            Some(index) => {
                self.list_heads[index].push(addr);
                proof {
                    assert(self.free_lists() =~= old(self).free_lists().update(
                        index as int,
                        old(self).free_lists()[index as int].push(addr),
                    ));
                    lemma_push_keeps_lists_wf(old(self).free_lists(), index as int, addr);
                }
                true
            },
            None => false,
        }
    }
}

/// A freed block is reused first: freeing a block and then requesting any
/// layout of the same block size hands that very block back, and leaves the
/// free lists as they were before the block was freed.
pub proof fn lemma_freed_block_is_reused_first(
    a0: FixedSizeBlockAllocator,
    a1: FixedSizeBlockAllocator,
    a2: FixedSizeBlockAllocator,
    addr: usize,
    freed_size: usize,
    freed_align: usize,
    listed: bool,
    size: usize,
    align: usize,
    r: Option<usize>,
)
    requires
        a0.wf(),
        size_class(freed_size, freed_align) is Some,
        size_class(size, align) == size_class(freed_size, freed_align),
        FixedSizeBlockAllocator::dealloc_post(a0.free_lists(), a1.free_lists(), addr, freed_size, freed_align, listed),
        a1.fallback_heap() == a0.fallback_heap(),
        FixedSizeBlockAllocator::allocate_spec(a1, a2, size, align, r),
    ensures
        r == Some(addr),
        a2.free_lists() == a0.free_lists(),
        a2.fallback_heap() == a0.fallback_heap(),
{
    lemma_first_fit_from(0, required_block_size(freed_size, freed_align));
    let (lists0, lists1, lists2) = (a0.free_lists(), a1.free_lists(), a2.free_lists());
    let i = size_class(size, align)->0 as int;
    assert(lists1[i] == lists0[i].push(addr));
    assert(lists1[i].drop_last() =~= lists0[i]);
    assert(lists2 =~= lists0);
}

/// Blocks that do not fit any block size never enter the free lists: freeing
/// one changes no list and reports that it belongs to the fallback heap.
pub proof fn lemma_large_blocks_bypass_lists(
    lists0: Seq<Seq<usize>>,
    lists1: Seq<Seq<usize>>,
    addr: usize,
    size: usize,
    align: usize,
    listed: bool,
)
    requires
        required_block_size(size, align) > 2048,
        FixedSizeBlockAllocator::dealloc_post(lists0, lists1, addr, size, align, listed),
    ensures
        !listed,
        lists1 == lists0,
{
    lemma_first_fit_from(0, required_block_size(size, align));
}

/// Rounding up to a block size wastes less than half of a block: a request
/// of more than 8 bytes gets a block smaller than twice its size, a smaller
/// one gets the 8-byte block.
pub proof fn lemma_block_waste_below_half(size: usize, align: usize)
    requires
        size_class(size, align) is Some,
    ensures
        required_block_size(size, align) <= 8 ==> block_sizes()[size_class(size, align)->0 as int] == 8,
        required_block_size(size, align) > 8 ==> block_sizes()[size_class(size, align)->0 as int] < 2
            * required_block_size(size, align),
{
    lemma_first_fit_from(0, required_block_size(size, align));
    let i = size_class(size, align)->0 as int;
    if i > 0 {
        assert(block_sizes()[i - 1] < required_block_size(size, align));
        assert(i == 1 || i == 2 || i == 3 || i == 4 || i == 5 || i == 6 || i == 7 || i == 8);
    }
}

/// An allocator whose free lists are empty and whose fallback heap has no
/// memory, as `new` returns it, answers every request with `None` and stays
/// as it is.
pub proof fn lemma_fresh_allocator_fails(
    a0: FixedSizeBlockAllocator,
    a1: FixedSizeBlockAllocator,
    size: usize,
    align: usize,
    r: Option<usize>,
)
    requires
        a0.free_lists() == Seq::new(BLOCK_SIZE_COUNT as nat, |i: int| Seq::<usize>::empty()),
        forall|s: usize, a: usize|
            fallback_request_ok(a0.fallback_heap(), s, a) ==> #[trigger] heap_first_fit(
                a0.fallback_heap(),
                s,
                a,
            ) is None,
        fallback_request(a0.free_lists(), size, align) matches Some((s, a)) ==> fallback_request_ok(
            a0.fallback_heap(),
            s,
            a,
        ),
        FixedSizeBlockAllocator::allocate_spec(a0, a1, size, align, r),
    ensures
        r is None,
        a1.free_lists() == a0.free_lists(),
        a1.fallback_heap() == a0.fallback_heap(),
{
    lemma_first_fit_from(0, required_block_size(size, align));
    let req = fallback_request(a0.free_lists(), size, align);
    assert(req is Some);
    let (s, a) = req->0;
    assert(heap_first_fit(a0.fallback_heap(), s, a) is None);
}

/// Live blocks never overlap a new one. A block that is neither free memory
/// of the fallback heap nor on a free list, as every block handed out and
/// not yet freed is, overlaps no block that a later allocation hands out,
/// and stays clear of the free memory and the free lists afterwards.
pub proof fn lemma_live_block_clear_across_allocate(
    a0: FixedSizeBlockAllocator,
    a1: FixedSizeBlockAllocator,
    size: usize,
    align: usize,
    r: Option<usize>,
    live: usize,
    live_size: int,
)
    requires
        a0.wf(),
        0 < live_size,
        a0.block_live(live, live_size),
        FixedSizeBlockAllocator::allocate_spec(a0, a1, size, align, r),
    ensures
        a1.block_live(live, live_size),
        r matches Some(p) ==> blocks_apart(p, served_size(size, align), live, live_size),
{
    lemma_first_fit_from(0, required_block_size(size, align));
    let l0 = a0.free_lists();
    let l1 = a1.free_lists();
    match fallback_request(l0, size, align) {
        None => {
            let i = size_class(size, align)->0 as int;
            let k = l0[i].len() - 1;
            assert(l0[i][k] == l0[i].last());
            assert(blocks_apart(live, live_size, l0[i][k], block_sizes()[i] as int));
            assert forall|i1: int, j1: int|
                0 <= i1 < BLOCK_SIZE_COUNT && 0 <= j1 < l1[i1].len() implies blocks_apart(
                live,
                live_size,
                #[trigger] l1[i1][j1],
                block_sizes()[i1] as int,
            ) by {
                assert(l1[i1][j1] == l0[i1][j1]);
            }
        },
        Some((s, a)) => {
            if let Some(p) = r {
                lemma_padded_covers(s);
                lemma_padded_covers(size);
                let reserved = block_range(p as int, fallback_padded_size(s));
                assert(block_range(live as int, live_size).disjoint(reserved));
                assert(block_range(p as int, served_size(size, align)).subset_of(reserved));
                lemma_ranges_apart(p, served_size(size, align), live, live_size);
            }
        },
    }
}

/// Freeing a block that does not overlap a live block keeps that block
/// live; the fallback heap does not change.
pub proof fn lemma_live_block_clear_across_deallocate(
    a0: FixedSizeBlockAllocator,
    a1: FixedSizeBlockAllocator,
    addr: usize,
    size: usize,
    align: usize,
    listed: bool,
    live: usize,
    live_size: int,
)
    requires
        a0.wf(),
        a0.block_live(live, live_size),
        size_class(size, align) matches Some(i) ==> blocks_apart(addr, block_sizes()[i as int] as int, live, live_size),
        FixedSizeBlockAllocator::dealloc_post(a0.free_lists(), a1.free_lists(), addr, size, align, listed),
        a1.fallback_heap() == a0.fallback_heap(),
    ensures
        a1.block_live(live, live_size),
{
    lemma_first_fit_from(0, required_block_size(size, align));
    let lists0 = a0.free_lists();
    let lists1 = a1.free_lists();
    if let Some(i) = size_class(size, align) {
        let k = lists0[i as int].len() as int;
        assert forall|i1: int, j1: int|
            0 <= i1 < BLOCK_SIZE_COUNT && 0 <= j1 < lists1[i1].len() implies blocks_apart(
            live,
            live_size,
            #[trigger] lists1[i1][j1],
            block_sizes()[i1] as int,
        ) by {
            if !(i1 == i && j1 == k) {
                assert(lists1[i1][j1] == lists0[i1][j1]);
            } else {
                assert(lists1[i1][j1] == addr);
            }
        }
    }
}

/// Two blocks handed out one after the other do not overlap.
pub proof fn lemma_consecutive_blocks_disjoint(
    a0: FixedSizeBlockAllocator,
    a1: FixedSizeBlockAllocator,
    a2: FixedSizeBlockAllocator,
    size1: usize,
    align1: usize,
    first: usize,
    size2: usize,
    align2: usize,
    second: usize,
)
    requires
        a1.wf(),
        FixedSizeBlockAllocator::allocate_spec(a0, a1, size1, align1, Some(first)),
        FixedSizeBlockAllocator::allocate_spec(a1, a2, size2, align2, Some(second)),
    ensures
        blocks_apart(first, served_size(size1, align1), second, served_size(size2, align2)),
{
    lemma_first_fit_from(0, required_block_size(size1, align1));
    lemma_padded_covers(size1);
    lemma_live_block_clear_across_allocate(a1, a2, size2, align2, Some(second), first, served_size(size1, align1));
}

} // verus!
