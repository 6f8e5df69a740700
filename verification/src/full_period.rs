//! Why a linear congruential generator with a power-of-two modulus, an odd
//! increment and a multiplier that is 1 modulo 4 runs through every residue
//! once before it repeats.
//!
//! The orbit is studied without reduction first: after `n` steps the exact
//! affine iterate differs from its start `y` by `geometric(a, n) * ((a - 1) * y + c)`.
//! The second factor is odd, so the orbit returns modulo a power of two exactly
//! when that power divides `geometric(a, n)`, which it does exactly when it
//! divides `n`.

use vstd::prelude::*;
use vstd::arithmetic::div_mod::{
    lemma_add_mod_noop,
    lemma_fundamental_div_mod,
    lemma_fundamental_div_mod_converse,
    lemma_mod_equivalence,
    lemma_mul_mod_noop_right,
    lemma_small_mod,
};
use vstd::arithmetic::power2::is_pow2;
use vstd::set_lib::{lemma_int_range, lemma_subset_equality, set_int_range};
use crate::powers::lemma_pow2_positive;

verus! {

/// One step of the generator: `(a * x + c) mod m`.
pub open spec fn lcg_step(a: int, c: int, m: int, x: int) -> int {
    (a * x + c) % m
}

/// The state after `n` steps from `x`.
pub open spec fn lcg_orbit(a: int, c: int, m: int, x: int, n: nat) -> int
    decreases n,
{
    if n == 0 {
        x
    } else {
        lcg_step(a, c, m, lcg_orbit(a, c, m, x, (n - 1) as nat))
    }
}

/// The parameters for which the generator has full period: a power-of-two
/// modulus, a multiplier that is 1 modulo 4 and an odd increment.
pub open spec fn full_period_parameters(a: int, c: int, m: int) -> bool {
    &&& is_pow2(m)
    &&& a % 4 == 1
    &&& c % 2 == 1
}

/// The iterate of `x -> a * x + c` without reduction.
spec fn affine_orbit(a: int, c: int, x: int, n: nat) -> int
    decreases n,
{
    if n == 0 {
        x
    } else {
        a * affine_orbit(a, c, x, (n - 1) as nat) + c
    }
}

/// `1 + a + ... + a^(n-1)`.
spec fn geometric(a: int, n: nat) -> int
    decreases n,
{
    if n == 0 {
        0
    } else {
        a * geometric(a, (n - 1) as nat) + 1
    }
}

/// `a` to the `n`.
spec fn power(a: int, n: nat) -> int
    decreases n,
{
    if n == 0 {
        1
    } else {
        a * power(a, (n - 1) as nat)
    }
}

proof fn lemma_step_ignores_reduction(a: int, c: int, m: int, y: int)
    requires
        m > 0,
    ensures
        (a * (y % m) + c) % m == (a * y + c) % m,
{
    lemma_mul_mod_noop_right(a, y, m);
    lemma_add_mod_noop(a * (y % m), c, m);
    lemma_add_mod_noop(a * y, c, m);
}

/// After at least one step the state is the exact iterate reduced modulo `m`.
proof fn lemma_orbit_is_reduced(a: int, c: int, m: int, x: int, n: nat)
    requires
        m > 0,
        n >= 1,
    ensures
        lcg_orbit(a, c, m, x, n) == affine_orbit(a, c, x, n) % m,
    decreases n,
{
    if n == 1 {
        assert(lcg_orbit(a, c, m, x, 0) == x);
        assert(affine_orbit(a, c, x, 0) == x);
    } else {
        lemma_orbit_is_reduced(a, c, m, x, (n - 1) as nat);
        lemma_step_ignores_reduction(a, c, m, affine_orbit(a, c, x, (n - 1) as nat));
    }
}

/// Walking `i + n` steps is walking `n` steps from where `i` steps lead.
proof fn lemma_orbit_shift(a: int, c: int, x: int, i: nat, n: nat)
    ensures
        affine_orbit(a, c, x, i + n) == affine_orbit(a, c, affine_orbit(a, c, x, i), n),
    decreases n,
{
    if n > 0 {
        lemma_orbit_shift(a, c, x, i, (n - 1) as nat);
        assert((i + n - 1) as nat == i + (n - 1) as nat);
    }
}

/// The distance walked in `n` steps.
proof fn lemma_orbit_distance(a: int, c: int, x: int, n: nat)
    ensures
        affine_orbit(a, c, x, n) - x == geometric(a, n) * ((a - 1) * x + c),
    decreases n,
{
    if n == 0 {
        assert(0 * ((a - 1) * x + c) == 0);
    } else {
        lemma_orbit_distance(a, c, x, (n - 1) as nat);
        let u = affine_orbit(a, c, x, (n - 1) as nat);
        let g = geometric(a, (n - 1) as nat);
        let w = (a - 1) * x + c;
        assert(a * u + c - x == (a * g + 1) * w) by (nonlinear_arith)
            requires
                u - x == g * w,
                w == (a - 1) * x + c,
        ;
    }
}

proof fn lemma_odd_product(g: int, w: int)
    requires
        w % 2 == 1,
    ensures
        (g * w) % 2 == g % 2,
        (w * g) % 2 == g % 2,
{
    let s = w / 2;
    assert(g * w == 2 * (g * s) + g && w * g == g * w) by (nonlinear_arith)
        requires
            w == 2 * s + 1,
    ;
}

/// With an odd ratio the sum of `n` terms is odd exactly when `n` is.
proof fn lemma_geometric_parity(a: int, n: nat)
    requires
        a % 2 == 1,
    ensures
        geometric(a, n) % 2 == (n as int) % 2,
    decreases n,
{
    if n > 0 {
        lemma_geometric_parity(a, (n - 1) as nat);
        lemma_odd_product(geometric(a, (n - 1) as nat), a);
    }
}

/// The sum of `i + j` terms splits after the first `j`.
proof fn lemma_geometric_split(a: int, i: nat, j: nat)
    ensures
        geometric(a, i + j) == power(a, j) * geometric(a, i) + geometric(a, j),
    decreases j,
{
    if j == 0 {
        assert(1 * geometric(a, i) == geometric(a, i));
    } else {
        lemma_geometric_split(a, i, (j - 1) as nat);
        assert((i + j - 1) as nat == i + (j - 1) as nat);
        let p = power(a, (j - 1) as nat);
        let gi = geometric(a, i);
        let gj = geometric(a, (j - 1) as nat);
        assert(a * (p * gi + gj) + 1 == (a * p) * gi + (a * gj + 1)) by (nonlinear_arith);
    }
}

/// Powers of a number that is 1 modulo 4 are 1 modulo 4.
proof fn lemma_power_mod_four(a: int, n: nat)
    requires
        a % 4 == 1,
    ensures
        power(a, n) % 4 == 1,
    decreases n,
{
    if n > 0 {
        lemma_power_mod_four(a, (n - 1) as nat);
        let p = power(a, (n - 1) as nat);
        let s = a / 4;
        let t = p / 4;
        assert(a * p == 4 * (4 * s * t + s + t) + 1) by (nonlinear_arith)
            requires
                a == 4 * s + 1,
                p == 4 * t + 1,
        ;
    }
}

/// Divisibility by twice `h` is evenness together with divisibility of the
/// half by `h`.
proof fn lemma_divisible_by_double(v: int, h: int)
    requires
        h >= 1,
    ensures
        v % (2 * h) == 0 <==> (v % 2 == 0 && (v / 2) % h == 0),
{
    if v % (2 * h) == 0 {
        lemma_fundamental_div_mod(v, 2 * h);
        let q = v / (2 * h);
        assert(v == (h * q) * 2 + 0 && v == 2 * (q * h)) by (nonlinear_arith)
            requires
                v == (2 * h) * q,
        ;
        lemma_fundamental_div_mod_converse(v / 2, h, q, 0);
    }
    if v % 2 == 0 && (v / 2) % h == 0 {
        lemma_fundamental_div_mod(v / 2, h);
        let q = (v / 2) / h;
        assert(v == q * (2 * h) + 0) by (nonlinear_arith)
            requires
                v == 2 * (v / 2),
                v / 2 == h * q,
        ;
        lemma_fundamental_div_mod_converse(v, 2 * h, q, 0);
    }
}

/// An odd factor does not change whether a power of two divides a product.
proof fn lemma_odd_factor(g: int, w: int, m: int)
    requires
        is_pow2(m),
        w % 2 == 1,
    ensures
        (g * w) % m == 0 <==> g % m == 0,
    decreases m,
{
    reveal(is_pow2);
    if m > 1 {
        let h = m / 2;
        lemma_divisible_by_double(g * w, h);
        lemma_divisible_by_double(g, h);
        lemma_odd_product(g, w);
        if g % 2 == 0 {
            let k = g / 2;
            assert(g * w == 2 * (k * w)) by (nonlinear_arith)
                requires
                    g == 2 * k,
            ;
            assert((g * w) / 2 == k * w);
            lemma_odd_factor(k, w, h);
        }
    }
}

/// A power of two divides the sum of `n` terms exactly when it divides `n`.
proof fn lemma_geometric_divisible(a: int, n: nat, m: int)
    requires
        a % 4 == 1,
        is_pow2(m),
        n >= 1,
    ensures
        geometric(a, n) % m == 0 <==> (n as int) % m == 0,
    decreases n,
{
    reveal(is_pow2);
    if m > 1 {
        let h = m / 2;
        lemma_geometric_parity(a, n);
        lemma_divisible_by_double(geometric(a, n), h);
        lemma_divisible_by_double(n as int, h);
        if n % 2 == 0 {
            let half: nat = n / 2;
            lemma_geometric_split(a, half, half);
            lemma_power_mod_four(a, half);
            let p = power(a, half);
            let g = geometric(a, half);
            let t = (p + 1) / 2;
            assert(t % 2 == 1);
            assert(p * g + g == 2 * (g * t)) by (nonlinear_arith)
                requires
                    p + 1 == 2 * t,
            ;
            assert(geometric(a, n) / 2 == g * t);
            lemma_odd_factor(g, t, h);
            lemma_geometric_divisible(a, half, h);
        }
    }
}

/// The orbit comes back to a state modulo `m` after `n >= 1` further steps
/// exactly when `m` divides `n`.
proof fn lemma_return_criterion(a: int, c: int, m: int, x: int, i: nat, n: nat)
    requires
        full_period_parameters(a, c, m),
        n >= 1,
    ensures
        (affine_orbit(a, c, x, i + n) - affine_orbit(a, c, x, i)) % m == 0 <==> (n as int) % m
            == 0,
{
    let y = affine_orbit(a, c, x, i);
    lemma_orbit_shift(a, c, x, i, n);
    lemma_orbit_distance(a, c, y, n);
    let w = (a - 1) * y + c;
    let s = a / 4;
    assert(w == 2 * (2 * s * y) + c) by (nonlinear_arith)
        requires
            w == (a - 1) * y + c,
            a == 4 * s + 1,
    ;
    assert(w % 2 == 1);
    lemma_odd_factor(geometric(a, n), w, m);
    lemma_geometric_divisible(a, n, m);
}

/// No state repeats within fewer than `m` steps.
pub proof fn lemma_no_early_repeat(a: int, c: int, m: int, x: int, i: nat, j: nat)
    requires
        full_period_parameters(a, c, m),
        1 <= i < j < i + m,
    ensures
        lcg_orbit(a, c, m, x, i) != lcg_orbit(a, c, m, x, j),
{
    lemma_pow2_positive(m);
    lemma_orbit_is_reduced(a, c, m, x, i);
    lemma_orbit_is_reduced(a, c, m, x, j);
    let n: nat = (j - i) as nat;
    lemma_return_criterion(a, c, m, x, i, n);
    lemma_mod_equivalence(affine_orbit(a, c, x, j), affine_orbit(a, c, x, i), m);
    lemma_small_mod(n, m as nat);
}

/// After `m` steps the generator is back where it was.
pub proof fn lemma_period(a: int, c: int, m: int, x: int, i: nat)
    requires
        full_period_parameters(a, c, m),
        i >= 1,
    ensures
        lcg_orbit(a, c, m, x, (i + m) as nat) == lcg_orbit(a, c, m, x, i),
{
    lemma_pow2_positive(m);
    lemma_orbit_is_reduced(a, c, m, x, i);
    lemma_orbit_is_reduced(a, c, m, x, (i + m) as nat);
    lemma_return_criterion(a, c, m, x, i, m as nat);
    lemma_mod_equivalence(affine_orbit(a, c, x, (i + m) as nat), affine_orbit(a, c, x, i), m);
    lemma_fundamental_div_mod_converse(m, m, 1, 0);
}

/// Walking `i + n` steps is walking `n` steps from where `i` steps lead.
pub proof fn lemma_orbit_composes(a: int, c: int, m: int, x: int, i: nat, n: nat)
    ensures
        lcg_orbit(a, c, m, x, i + n) == lcg_orbit(a, c, m, lcg_orbit(a, c, m, x, i), n),
    decreases n,
{
    if n > 0 {
        lemma_orbit_composes(a, c, m, x, i, (n - 1) as nat);
        assert((i + n - 1) as nat == i + (n - 1) as nat);
    }
}

/// Every state after the first step is a residue modulo `m`.
pub proof fn lemma_orbit_in_range(a: int, c: int, m: int, x: int, n: nat)
    requires
        m > 0,
        n >= 1,
    ensures
        0 <= lcg_orbit(a, c, m, x, n) < m,
{
}

/// Any `m` consecutive steps pass through every residue modulo `m`.
pub proof fn lemma_covers_residues(a: int, c: int, m: int, x: int, from: nat, v: int)
    requires
        full_period_parameters(a, c, m),
        0 <= v < m,
    ensures
        exists|t: nat| from < t <= from + m && lcg_orbit(a, c, m, x, t) == v,
{
    lemma_pow2_positive(m);
    let window = Seq::new(m as nat, |k: int| lcg_orbit(a, c, m, x, (from + 1 + k) as nat));
    assert forall|i: int, j: int| 0 <= i < j < window.len() implies window[i] != window[j] by {
        lemma_no_early_repeat(a, c, m, x, (from + 1 + i) as nat, (from + 1 + j) as nat);
    }
    assert(window.no_duplicates());
    window.unique_seq_to_set();
    lemma_int_range(0, m);
    assert forall|w: int| window.to_set().contains(w) implies set_int_range(0, m).contains(w) by {
        let k = choose|k: int| 0 <= k < window.len() && window[k] == w;
        lemma_orbit_in_range(a, c, m, x, (from + 1 + k) as nat);
    }
    assert(window.to_set().subset_of(set_int_range(0, m)));
    vstd::set_lib::lemma_len_subset(window.to_set(), set_int_range(0, m));
    lemma_subset_equality(window.to_set(), set_int_range(0, m));
    assert(set_int_range(0, m).contains(v));
    assert(window.to_set().contains(v));
    let k = choose|k: int| 0 <= k < window.len() && window[k] == v;
    let t: nat = (from + 1 + k) as nat;
    assert(from < t <= from + m && lcg_orbit(a, c, m, x, t) == v);
}

} // verus!
