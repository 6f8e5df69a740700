//! Powers of two: recognising them, rounding up to one, and the link between
//! masking with `p - 1` and the remainder modulo `p`.

use vstd::prelude::*;
use vstd::arithmetic::power2::{
    is_pow2,
    is_pow2_equiv,
    is_pow2_exists,
    lemma_pow2_strictly_increases,
    pow2,
};
use vstd::arithmetic::power::pow;
use vstd::bits::{low_bits_mask, lemma_u64_low_bits_mask_is_mod};

verus! {

/// The largest power of two that a `u64` holds.
pub const TOP_POWER: u64 = 0x8000_0000_0000_0000;

/// A power of two is positive.
pub proof fn lemma_pow2_positive(p: int)
    requires
        is_pow2(p),
    ensures
        p >= 1,
{
    reveal(is_pow2);
}

/// Between a power of two and its double lies no other power of two.
pub proof fn lemma_pow2_gap(q: int, p: int)
    requires
        is_pow2(q),
        is_pow2(p),
        q < p,
    ensures
        2 * q <= p,
    decreases q,
{
    reveal(is_pow2);
    if q > 1 {
        lemma_pow2_gap(q / 2, p / 2);
    }
}

/// Doubling a power of two gives a power of two.
pub proof fn lemma_pow2_double(p: int)
    requires
        is_pow2(p),
    ensures
        is_pow2(2 * p),
{
    reveal(is_pow2);
    assert((2 * p) / 2 == p);
}

/// A value has a single bit set exactly when it is a power of two.
pub proof fn lemma_single_bit(n: u64)
    requires
        n >= 1,
    ensures
        (n & ((n - 1) as u64)) == 0 <==> is_pow2(n as int),
    decreases n,
{
    reveal(is_pow2);
    if n == 1 {
        assert(1u64 & 0u64 == 0) by (bit_vector);
    } else {
        let h: u64 = n / 2;
        assert(((n & ((n - 1) as u64)) == 0) == (n % 2 == 0 && (h & ((h - 1) as u64)) == 0))
            by (bit_vector)
            requires
                n >= 2,
                h == n / 2,
        ;
        lemma_single_bit(h);
    }
}

/// Whether `n` is a power of two.
pub fn is_power_of_two(n: u64) -> (r: bool)
    ensures
        r == is_pow2(n as int),
{
    if n == 0 {
        proof {
            reveal(is_pow2);
        }
        false
    } else {
        proof {
            lemma_single_bit(n);
        }
        n & (n - 1) == 0
    }
}

/// The smallest power of two that is at least `n`, where a `u64` holds it.
pub open spec fn spec_next_power_of_two(n: int) -> int
    recommends
        n <= TOP_POWER,
{
    choose|p: int| is_least_power_at_least(p, n)
}

/// `p` is a power of two, at least `n`, and no smaller power of two is.
pub open spec fn is_least_power_at_least(p: int, n: int) -> bool {
    &&& is_pow2(p)
    &&& n <= p
    &&& forall|q: int| is_pow2(q) && n <= q ==> p <= q
}

/// Rounds `n` up to a power of two; `None` where the result would not fit.
pub fn next_power_of_two(n: u64) -> (r: Option<u64>)
    ensures
        r is Some <==> n <= TOP_POWER,
        r matches Some(p) ==> is_least_power_at_least(p as int, n as int) && p as int
            == spec_next_power_of_two(n as int),
{
    let mut p: u64 = 1;
    proof {
        reveal(is_pow2);
    }
    while p < n
        invariant
            is_pow2(p as int),
            1 <= p <= TOP_POWER,
            p == 1 || p / 2 < n,
        decreases TOP_POWER - p,
    {
        if p == TOP_POWER {
            return None;
        }
        proof {
            lemma_top_power();
            lemma_pow2_gap(p as int, TOP_POWER as int);
            lemma_pow2_double(p as int);
        }
        p = p * 2;
    }
    proof {
        assert forall|q: int| is_pow2(q) && n <= q implies p <= q by {
            lemma_pow2_positive(q);
            if q < p {
                lemma_pow2_gap(q, p as int);
            }
        }
        assert(is_least_power_at_least(p as int, n as int));
        let w = spec_next_power_of_two(n as int);
        assert(is_least_power_at_least(w, n as int));
    }
    Some(p)
}

/// `TOP_POWER` is a power of two, namely two to the 63.
pub proof fn lemma_top_power()
    ensures
        is_pow2(TOP_POWER as int),
{
    let t: u64 = TOP_POWER;
    assert((t & ((t - 1) as u64)) == 0) by (bit_vector)
        requires
            t == 0x8000_0000_0000_0000u64,
    ;
    lemma_single_bit(t);
}

/// For a power of two `p`, masking with `p - 1` takes the remainder modulo `p`.
pub proof fn lemma_mask_is_mod(x: u64, p: u64)
    requires
        is_pow2(p as int),
    ensures
        x & ((p - 1) as u64) == x % p,
{
    is_pow2_equiv(p as int);
    assert(is_pow2_exists(p as int));
    let e: nat = choose|i: nat| pow(2, i) == p as int;
    assert(pow2(e) == p);
    if e >= 64 {
        vstd::arithmetic::power2::lemma2_to64_rest();
        if e > 64 {
            lemma_pow2_strictly_increases(64, e);
        }
        assert(false);
    }
    lemma_pow2_positive(p as int);
    lemma_u64_low_bits_mask_is_mod(x, e);
    assert(low_bits_mask(e) as u64 == (p - 1) as u64);
    assert(pow2(e) as u64 == p);
}

/// Below any power of two at or above `n` lies the least such power.
proof fn lemma_least_power_search(n: int, p: int)
    requires
        is_pow2(p),
        n <= p,
    ensures
        exists|q: int| is_least_power_at_least(q, n),
    decreases p,
{
    reveal(is_pow2);
    if p > 1 && n <= p / 2 {
        lemma_least_power_search(n, p / 2);
    } else {
        assert forall|q: int| is_pow2(q) && n <= q implies p <= q by {
            lemma_pow2_positive(q);
            if q < p {
                lemma_pow2_gap(q, p);
            }
        }
        assert(is_least_power_at_least(p, n));
    }
}

/// Every number up to `TOP_POWER` has a least power of two at or above it.
pub proof fn lemma_next_power_exists(n: int)
    requires
        n <= TOP_POWER,
    ensures
        is_least_power_at_least(spec_next_power_of_two(n), n),
{
    lemma_top_power();
    lemma_least_power_search(n, TOP_POWER as int);
}

} // verus!
