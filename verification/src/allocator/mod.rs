//! Heap allocators of the kernel and the address arithmetic they share.
use vstd::prelude::*;

pub mod bump;
pub mod fixed_size_block;

verus! {

use vstd::arithmetic::power2::{is_pow2, pow2, is_pow2_equiv, lemma_pow2_strictly_increases};
use vstd::arithmetic::power::pow;
use vstd::bits::{low_bits_mask, lemma_usize_low_bits_mask_is_mod};
use vstd::arithmetic::div_mod::{lemma_fundamental_div_mod, lemma_mod_multiples_basic, lemma_mod_pos_bound};

/// The smallest multiple of `align` that is not below `addr`, for a
/// positive `align`.
pub open spec fn align_up_spec(addr: int, align: int) -> int {
    (addr + align - 1) - (addr + align - 1) % align
}

/// A power of two that fits in a `usize` is `2^n` for some `n < usize::BITS`.
proof fn lemma_pow2_exponent(align: usize) -> (n: nat)
    requires
        is_pow2(align as int),
    ensures
        n < usize::BITS,
        pow2(n) == align,
{
    broadcast use is_pow2_equiv;
    let n = choose|i: nat| pow(2, i) == align as int;
    assert(pow2(n) == align);
    if n >= usize::BITS {
        if usize::BITS == 64 {
            vstd::arithmetic::power2::lemma2_to64_rest();
            if n > 64 {
                lemma_pow2_strictly_increases(64, n);
            }
        } else {
            vstd::arithmetic::power2::lemma2_to64();
            if n > 32 {
                lemma_pow2_strictly_increases(32, n);
            }
        }
        assert(false);
    }
    n
}

/// Masking off the low bits of `x` below a power of two rounds `x` down to a
/// multiple of that power.
proof fn lemma_mask_rounds_down(x: usize, align: usize)
    requires
        is_pow2(align as int),
    ensures
        x & !((align - 1) as usize) == x - x % align,
{
    let n = lemma_pow2_exponent(align);
    lemma_usize_low_bits_mask_is_mod(x, n);
    vstd::arithmetic::power2::lemma_pow2_pos(n);
    assert(low_bits_mask(n) == align - 1);
    let m: usize = (align - 1) as usize;
    assert((x & !m) + (x & m) == x) by (bit_vector);
}

/// Rounds `addr` up to the next multiple of `align`.
///
/// `align` must be a power of two, and the rounded address must fit in a
/// `usize`.
pub fn align_up(addr: usize, align: usize) -> (r: usize)
    requires
        is_pow2(align as int),
        addr + align - 1 <= usize::MAX,
    ensures
        r == align_up_spec(addr as int, align as int),
        r % align == 0,
        addr <= r,
        r < addr + align,
{
    proof {
        let n = lemma_pow2_exponent(align);
        vstd::arithmetic::power2::lemma_pow2_pos(n);
        let y: int = addr + align - 1;
        lemma_mask_rounds_down((addr + align - 1) as usize, align);
        lemma_fundamental_div_mod(y, align as int);
        lemma_mod_multiples_basic(y / align as int, align as int);
        lemma_mod_pos_bound(y, align as int);
        assert(align as int * (y / align as int) == (y / align as int) * align as int)
            by (nonlinear_arith);
    }
    (addr + (align - 1)) & !(align - 1)
}

} // verus!
