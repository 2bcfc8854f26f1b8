//! Blocks of addresses that share a prefix.
//!
//! An address of `width` bits is a number below `pow2(width)`. The addresses that share their
//! first `prefix_len` bits are consecutive numbers: a block of `block_size(width, prefix_len)`
//! of them, which starts at a multiple of its size.

use vstd::arithmetic::div_mod::{
    lemma_div_denominator, lemma_fundamental_div_mod, lemma_fundamental_div_mod_converse,
    lemma_mod_bound,
};
use vstd::arithmetic::power2::{
    lemma2_to64, lemma_pow2_adds, lemma_pow2_pos, lemma_pow2_strictly_increases, pow2,
};
use vstd::bits::{lemma_u128_shr_is_div, lemma_u64_shl_is_mul};
use vstd::prelude::*;

verus! {

/// The number of addresses of `width` bits that share their first `prefix_len` bits.
pub open spec fn block_size(width: nat, prefix_len: nat) -> nat
    recommends
        prefix_len <= width,
{
    pow2((width - prefix_len) as nat)
}

/// Whether two addresses of `width` bits share their first `prefix_len` bits.
pub open spec fn same_prefix(width: nat, prefix_len: nat, a: int, b: int) -> bool {
    a / (block_size(width, prefix_len) as int) == b / (block_size(width, prefix_len) as int)
}

/// The first address of the block of `a`: its host bits are zero.
pub open spec fn first_of_block(width: nat, prefix_len: nat, a: int) -> int {
    a - a % (block_size(width, prefix_len) as int)
}

/// The last address of the block of `a`: its host bits are one.
pub open spec fn last_of_block(width: nat, prefix_len: nat, a: int) -> int {
    first_of_block(width, prefix_len, a) + block_size(width, prefix_len) - 1
}

/// The mask that selects the first `prefix_len` bits.
pub open spec fn prefix_mask(width: nat, prefix_len: nat) -> int {
    pow2(width) - block_size(width, prefix_len)
}

/// The power of two that 32 bits run up to.
pub(crate) proof fn lemma_pow2_32()
    ensures
        pow2(32) == 0x1_0000_0000,
        pow2(0) == 1,
{
    lemma2_to64();
}

/// The power of two that 128 bits run up to.
pub(crate) proof fn lemma_pow2_128()
    ensures
        pow2(128) == 0x1_0000_0000_0000_0000_0000_0000_0000_0000,
        pow2(0) == 1,
{
    lemma2_to64();
    lemma_pow2_adds(64, 64);
    assert(pow2(64) * pow2(64) == 0x1_0000_0000_0000_0000_0000_0000_0000_0000) by (nonlinear_arith)
        requires
            pow2(64) == 0x1_0000_0000_0000_0000,
    ;
}

/// A block is not empty, and no larger than the address space.
pub(crate) proof fn lemma_block_size(width: nat, prefix_len: nat)
    requires
        prefix_len <= width,
    ensures
        1 <= block_size(width, prefix_len) <= pow2(width),
        prefix_len > 0 ==> block_size(width, prefix_len) < pow2(width),
        pow2(width) == pow2(prefix_len) * block_size(width, prefix_len),
{
    lemma_pow2_pos((width - prefix_len) as nat);
    if prefix_len > 0 {
        lemma_pow2_strictly_increases((width - prefix_len) as nat, width);
    }
    lemma_pow2_adds(prefix_len, (width - prefix_len) as nat);
}

/// The first and the last address of a block share the prefix, are addresses, and hold
/// between them exactly the addresses that share it.
pub proof fn law_block_bounds(width: nat, prefix_len: nat, a: int, b: int)
    requires
        prefix_len <= width,
        0 <= a < pow2(width),
    ensures
        0 <= first_of_block(width, prefix_len, a) <= a,
        a <= last_of_block(width, prefix_len, a) < pow2(width),
        same_prefix(width, prefix_len, a, b) <==> first_of_block(width, prefix_len, a) <= b
            <= last_of_block(width, prefix_len, a),
        same_prefix(width, prefix_len, a, first_of_block(width, prefix_len, a)),
        same_prefix(width, prefix_len, a, last_of_block(width, prefix_len, a)),
        first_of_block(width, prefix_len, first_of_block(width, prefix_len, a)) == first_of_block(
            width,
            prefix_len,
            a,
        ),
{
    lemma_block_size(width, prefix_len);
    let n = block_size(width, prefix_len) as int;
    let k = pow2(prefix_len) as int;
    let q = a / n;
    lemma_fundamental_div_mod(a, n);
    lemma_mod_bound(a, n);
    lemma_fundamental_div_mod(b, n);
    lemma_mod_bound(b, n);
    let first = first_of_block(width, prefix_len, a);
    assert(first == n * q);
    assert(first == q * n + 0) by (nonlinear_arith)
        requires
            first == n * q,
    ;
    lemma_fundamental_div_mod_converse(first, n, q, 0);
    assert(first + n - 1 == q * n + (n - 1));
    lemma_fundamental_div_mod_converse(first + n - 1, n, q, n - 1);
    assert(0 <= n * q && n * q + n <= k * n) by (nonlinear_arith)
        requires
            0 <= a < k * n,
            n >= 1,
            a == n * q + a % n,
            0 <= a % n < n,
    ;
    if b / n == q {
        assert(first <= b <= first + n - 1);
    }
    if first <= b <= first + n - 1 {
        assert(b == q * n + (b - first));
        lemma_fundamental_div_mod_converse(b, n, q, b - first);
    }
}

/// A longer prefix makes a block within the block of a shorter one.
pub proof fn law_longer_prefix(width: nat, short: nat, long: nat, a: int, b: int)
    requires
        short <= long <= width,
        0 <= a,
        0 <= b,
        same_prefix(width, long, a, b),
    ensures
        same_prefix(width, short, a, b),
{
    let n = block_size(width, long) as int;
    let k = pow2((long - short) as nat) as int;
    lemma_pow2_adds((width - long) as nat, (long - short) as nat);
    lemma_pow2_pos((width - long) as nat);
    lemma_pow2_pos((long - short) as nat);
    assert(block_size(width, short) == n * k);
    lemma_div_denominator(a, n, k);
    lemma_div_denominator(b, n, k);
}

/// A block that holds the first and the last address of another one has no longer a prefix, and
/// holds all of it.
pub proof fn law_block_within(width: nat, outer: nat, inner: nat, a: int, b: int)
    requires
        outer <= width,
        inner <= width,
        0 <= a < pow2(width),
        0 <= b < pow2(width),
        same_prefix(width, outer, a, first_of_block(width, inner, b)),
        same_prefix(width, outer, a, last_of_block(width, inner, b)),
    ensures
        outer <= inner,
        same_prefix(width, outer, a, b),
{
    law_block_bounds(width, inner, b, b);
    law_block_bounds(width, outer, a, first_of_block(width, inner, b));
    law_block_bounds(width, outer, a, last_of_block(width, inner, b));
    law_block_bounds(width, outer, a, b);
    if outer > inner {
        lemma_pow2_strictly_increases((width - outer) as nat, (width - inner) as nat);
    }
}

/// Different prefix lengths have different masks.
pub proof fn law_prefix_mask_injective(width: nat, p: nat, q: nat)
    requires
        p <= width,
        q <= width,
        prefix_mask(width, p) == prefix_mask(width, q),
    ensures
        p == q,
{
    if p < q {
        lemma_pow2_strictly_increases((width - q) as nat, (width - p) as nat);
    }
    if q < p {
        lemma_pow2_strictly_increases((width - p) as nat, (width - q) as nat);
    }
}

/// The size of a block of 32-bit addresses.
pub(crate) fn block_size_32(prefix_len: u8) -> (size: u64)
    requires
        prefix_len <= 32,
    ensures
        size == block_size(32, prefix_len as nat),
        1 <= size <= 0x1_0000_0000,
{
    proof {
        lemma_pow2_32();
        lemma_block_size(32, prefix_len as nat);
        lemma_u64_shl_is_mul(1, (32 - prefix_len) as u64);
    }
    1u64 << (32 - prefix_len as u64)
}

/// The size of a block of 128-bit addresses that share at least one bit.
pub(crate) fn block_size_128(prefix_len: u8) -> (size: u128)
    requires
        1 <= prefix_len <= 128,
    ensures
        size == block_size(128, prefix_len as nat),
        1 <= size,
{
    proof {
        lemma_pow2_128();
        lemma_block_size(128, prefix_len as nat);
    }
    if prefix_len == 128 {
        return 1;
    }
    let most: u128 = 0xffff_ffff_ffff_ffff_ffff_ffff_ffff_ffff;
    let shift: u128 = prefix_len as u128;
    proof {
        let n = block_size(128, prefix_len as nat) as int;
        let k = pow2(prefix_len as nat) as int;
        lemma_pow2_pos(prefix_len as nat);
        lemma_u128_shr_is_div(most, shift);
        assert(most == (n - 1) * k + (k - 1)) by (nonlinear_arith)
            requires
                most + 1 == k * n,
        ;
        lemma_fundamental_div_mod_converse(most as int, k, n - 1, k - 1);
    }
    (most >> shift) + 1
}

/// A prefix of no bits is shared by all addresses, and one of all bits by equal ones only.
pub proof fn law_prefix_ends(width: nat, a: int, b: int)
    requires
        0 <= a < pow2(width),
        0 <= b < pow2(width),
    ensures
        same_prefix(width, 0, a, b),
        same_prefix(width, width, a, b) <==> a == b,
{
    vstd::arithmetic::power2::lemma2_to64();
    vstd::arithmetic::div_mod::lemma_basic_div(a, pow2(width) as int);
    vstd::arithmetic::div_mod::lemma_basic_div(b, pow2(width) as int);
    assert(block_size(width, width) == 1);
}

/// A prefix of one more bit is shared if the prefix is and the next bit is the same.
pub proof fn law_prefix_step(width: nat, prefix_len: nat, a: int, b: int)
    requires
        prefix_len < width,
        0 <= a < pow2(width),
        0 <= b < pow2(width),
    ensures
        same_prefix(width, prefix_len + 1, a, b) <==> same_prefix(width, prefix_len, a, b) && a / (
        pow2((width - prefix_len - 1) as nat) as int) % 2 == b / (pow2(
            (width - prefix_len - 1) as nat,
        ) as int) % 2,
{
    let k = (width - prefix_len - 1) as nat;
    let n = pow2(k) as int;
    lemma_pow2_pos(k);
    vstd::arithmetic::power2::lemma_pow2_unfold(k + 1);
    assert(block_size(width, prefix_len) == n * 2);
    assert(block_size(width, prefix_len + 1) == n);
    lemma_div_denominator(a, n, 2);
    lemma_div_denominator(b, n, 2);
}

} // verus!
