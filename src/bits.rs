//! Alignment arithmetic on addresses.
use vstd::prelude::*;
use vstd::arithmetic::power2::{pow2, lemma_pow2_pos};
use vstd::arithmetic::div_mod::{lemma_fundamental_div_mod, lemma_mod_pos_bound, lemma_mod_multiples_basic};
use vstd::arithmetic::mul::{lemma_mul_is_distributive_add, lemma_mul_is_commutative};
use vstd::bits::{lemma_u64_low_bits_mask_is_mod, lemma_u64_pow2_no_overflow, lemma_u64_shl_is_mul};

verus! {

/// `x` is a power of two that fits in 64 bits.
pub open spec fn is_pow2(x: int) -> bool {
    exists|n: nat| n < 64 && x == pow2(n)
}

/// The page sizes of x86-64, 4 KiB, 2 MiB and 1 GiB, are powers of two.
pub proof fn lemma_page_sizes_pow2()
    ensures
        is_pow2(4096),
        is_pow2(0x20_0000),
        is_pow2(0x4000_0000),
{
    vstd::arithmetic::power2::lemma2_to64();
    assert(pow2(12) == 4096);
    assert(pow2(21) == 0x20_0000);
    assert(pow2(30) == 0x4000_0000);
}

/// `addr` rounded down to a multiple of `align`.
pub open spec fn round_down(addr: int, align: int) -> int {
    addr - addr % align
}

/// `addr` rounded up to a multiple of `align`.
pub open spec fn round_up(addr: int, align: int) -> int {
    if addr % align == 0 {
        addr
    } else {
        addr - addr % align + align
    }
}

pub proof fn lemma_pow2_positive(x: int)
    requires
        is_pow2(x),
    ensures
        0 < x <= u64::MAX,
{
    let n = choose|n: nat| n < 64 && x == pow2(n);
    lemma_u64_pow2_no_overflow(n);
}

/// What rounding to a multiple of a positive `align` gives.
pub proof fn lemma_round_facts(x: int, align: int)
    requires
        0 <= x,
        0 < align,
    ensures
        round_down(x, align) == align * (x / align),
        round_down(x, align) % align == 0,
        0 <= x - round_down(x, align) < align,
        round_up(x, align) % align == 0,
        0 <= round_up(x, align) - x < align,
        x % align == 0 ==> round_up(x, align) == x,
{
    lemma_fundamental_div_mod(x, align);
    lemma_mod_pos_bound(x, align);
    lemma_mod_multiples_basic(x / align, align);
    lemma_mod_multiples_basic(x / align + 1, align);
    lemma_mul_is_distributive_add(align, x / align, 1);
    lemma_mul_is_commutative(align, x / align);
    lemma_mul_is_commutative(align, x / align + 1);
}

proof fn lemma_mask_is_mod(addr: u64, align: u64)
    requires
        is_pow2(align as int),
    ensures
        align > 0,
        addr & ((align - 1) as u64) == addr % align,
        addr & !((align - 1) as u64) == addr - addr % align,
        addr | ((align - 1) as u64) == addr - addr % align + (align - 1),
{
    let n = choose|n: nat| n < 64 && align == pow2(n);
    lemma_u64_pow2_no_overflow(n);
    lemma_pow2_pos(n);
    lemma_u64_low_bits_mask_is_mod(addr, n);
    let m = (align - 1) as u64;
    assert(addr & !m == addr - (addr & m)) by (bit_vector);
    assert(addr | m == (addr - (addr & m)) + m) by (bit_vector);
}

/// Tells whether `x` is a power of two.
pub fn is_power_of_two(x: u64) -> (r: bool)
    ensures
        r == is_pow2(x as int),
{
    let mut k: u64 = 0;
    while k < 64
        invariant
            k <= 64,
            forall|j: nat| j < k ==> x != pow2(j),
        decreases 64 - k,
    {
        proof {
            lemma_u64_pow2_no_overflow(k as nat);
            lemma_u64_shl_is_mul(1, k);
        }
        if x == 1u64 << k {
            return true;
        }
        k = k + 1;
    }
    false
}

/// Rounds `addr` down to a multiple of `align`, a power of two.
pub fn align_down(addr: u64, align: u64) -> (r: u64)
    requires
        is_pow2(align as int),
    ensures
        r == round_down(addr as int, align as int),
{
    proof { lemma_mask_is_mod(addr, align); }
    addr & !(align - 1)
}

/// Rounds `addr` up to a multiple of `align`, a power of two. The result must
/// fit in 64 bits.
pub fn align_up(addr: u64, align: u64) -> (r: u64)
    requires
        is_pow2(align as int),
        round_up(addr as int, align as int) <= u64::MAX,
    ensures
        r == round_up(addr as int, align as int),
{
    proof { lemma_mask_is_mod(addr, align); }
    let align_mask = align - 1;
    if addr & align_mask == 0 {
        addr
    } else {
        (addr | align_mask) + 1
    }
}

/// Tells whether `addr` is a multiple of `alignment`, a power of two.
pub fn is_aligned(addr: u64, alignment: u64) -> (r: bool)
    requires
        is_pow2(alignment as int),
    ensures
        r == (addr % alignment == 0),
{
    align_down(addr, alignment) == addr
}

} // verus!
