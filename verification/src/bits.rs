//! Facts about the single bits of a 64-bit word.

use vstd::arithmetic::power2::{lemma2_to64, lemma_pow2_strictly_increases, pow2};
use vstd::bits::{lemma_u64_pow2_no_overflow, lemma_u64_shl_is_mul};
use vstd::prelude::*;

verus! {

/// Whether bit `p` of `m` is set.
pub open spec fn bit_at(m: u64, p: u64) -> bool {
    (m >> p) & 1 == 1
}

/// The word whose `n` lowest bits are set and no others.
pub open spec fn low_mask(n: u64) -> u64 {
    ((1u64 << n) - 1) as u64
}

pub proof fn lemma_bit_of_zero(p: u64)
    requires
        p < 64,
    ensures
        !bit_at(0, p),
{
    assert((0u64 >> p) & 1 == 0) by (bit_vector)
        requires
            p < 64,
    ;
}

pub proof fn lemma_bit_of_single(q: u64, p: u64)
    requires
        q < 64,
        p < 64,
    ensures
        bit_at(1u64 << q, p) <==> p == q,
{
    assert((((1u64 << q) >> p) & 1 == 1) <==> p == q) by (bit_vector)
        requires
            q < 64,
            p < 64,
    ;
}

pub proof fn lemma_bit_of_or(a: u64, b: u64, p: u64)
    requires
        p < 64,
    ensures
        bit_at(a | b, p) <==> bit_at(a, p) || bit_at(b, p),
{
    assert((((a | b) >> p) & 1 == 1) <==> (((a >> p) & 1 == 1) || ((b >> p) & 1 == 1)))
        by (bit_vector)
        requires
            p < 64,
    ;
}

pub proof fn lemma_bit_of_low_mask(n: u64, p: u64)
    requires
        n < 64,
        p < 64,
    ensures
        bit_at(low_mask(n), p) <==> p < n,
        low_mask(n) == pow2(n as nat) - 1,
{
    assert(1u64 << n >= 1) by (bit_vector)
        requires
            n < 64,
    ;
    let m = low_mask(n);
    assert((((((1u64 << n) - 1) as u64) >> p) & 1 == 1) <==> p < n) by (bit_vector)
        requires
            n < 64,
            p < 64,
    ;
    lemma_one_shl(n);
}

/// Below 64, shifting one to the left by `n` gives the `n`-th power of two.
pub proof fn lemma_one_shl(n: u64)
    requires
        n < 64,
    ensures
        1u64 << n == pow2(n as nat),
{
    lemma_u64_pow2_no_overflow(n as nat);
    lemma_u64_shl_is_mul(1, n);
}

/// A power of two that fits a 64-bit word has an exponent below 64.
pub proof fn lemma_pow2_fits(n: nat)
    requires
        pow2(n) <= u64::MAX,
    ensures
        n < 64,
{
    if n >= 64 {
        lemma2_to64();
        if n > 64 {
            lemma_pow2_strictly_increases(64, n);
        }
    }
}

proof fn lemma_equal_above(a: u64, b: u64, k: u64)
    requires
        k < 64,
        forall|p: u64| k <= p < 64 ==> bit_at(a, p) == bit_at(b, p),
    ensures
        a >> k == b >> k,
    decreases 64 - k,
{
    assert(bit_at(a, k) == bit_at(b, k));
    if k == 63 {
        assert((((a >> 63) & 1 == 1) <==> ((b >> 63) & 1 == 1)) ==> a >> 63 == b >> 63)
            by (bit_vector);
    } else {
        let h = (k + 1) as u64;
        lemma_equal_above(a, b, h);
        assert(a >> k == b >> k) by (bit_vector)
            requires
                k < 63,
                h == k + 1,
                a >> h == b >> h,
                ((a >> k) & 1 == 1) <==> ((b >> k) & 1 == 1),
        ;
    }
}

/// Two words that agree in every bit are equal.
pub proof fn lemma_equal_by_bits(a: u64, b: u64)
    requires
        forall|p: u64| p < 64 ==> bit_at(a, p) == bit_at(b, p),
    ensures
        a == b,
{
    lemma_equal_above(a, b, 0);
    assert(a >> 0 == a && b >> 0 == b) by (bit_vector);
}

} // verus!
