//! Powers of two and the masks that replace modulo arithmetic.

use vstd::arithmetic::power::*;
use vstd::arithmetic::power2::*;
use vstd::prelude::*;

verus! {

/// Whether `n` is `2^k` for some `k`.
pub fn is_power_of_two(n: u64) -> (r: bool)
    ensures
        r == is_pow2(n as int),
{
    reveal(is_pow2);
    if n == 0 {
        return false;
    }
    let mut m: u64 = n;
    while m % 2 == 0
        invariant
            m > 0,
            is_pow2(n as int) == is_pow2(m as int),
        decreases m,
    {
        reveal(is_pow2);
        m = m / 2;
    }
    m == 1
}

/// The test finds the powers of two among the numbers of 64 bits, all of them
/// and no others.
pub proof fn law_powers_of_two_are_found(n: u64, r: bool)
    requires
        call_ensures(is_power_of_two, (n,), r),
    ensures
        call_requires(is_power_of_two, (n,)),
        r <==> exists|k: nat| k < 64 && #[trigger] pow2(k) == n,
{
    is_pow2_equiv(n as int);
    lemma2_to64();
    if r {
        let k = choose|k: nat| pow(2, k) == n as int;
        lemma_pow2(k);
        if k >= 64 {
            if k > 64 {
                lemma_pow2_strictly_increases(64, k);
            }
        }
        assert(k < 64 && pow2(k) == n);
    }
    if exists|k: nat| k < 64 && #[trigger] pow2(k) == n {
        let k = choose|k: nat| k < 64 && #[trigger] pow2(k) == n;
        lemma_pow2(k);
        assert(pow(2, k) == n as int);
    }
}

/// Masking with a power of two less one is the remainder by it.
pub proof fn lemma_mask_is_mod(idx: u64, n: u64)
    requires
        is_pow2(n as int),
    ensures
        idx & ((n - 1) as u64) == idx % n,
        n > 0,
{
    is_pow2_equiv(n as int);
    let k = choose|k: nat| pow(2, k) == n as int;
    lemma_pow2_pos(k);
    lemma_pow_positive(2, k);
    assert(pow2(k) == n);
    assert(vstd::bits::low_bits_mask(k) == n - 1);
    lemma2_to64();
    if k >= 64 {
        if k > 64 {
            lemma_pow2_strictly_increases(64, k);
        }
        assert(false);
    }
    vstd::bits::lemma_u64_low_bits_mask_is_mod(idx, k);
}

} // verus!
