//! A linear congruential generator over a power-of-two modulus that visits
//! every residue once per period, and draws from it that are restricted to a
//! range by stepping past the values outside it.

use vstd::prelude::*;
use vstd::arithmetic::power2::is_pow2;
use crate::full_period::{
    full_period_parameters,
    lcg_orbit,
    lemma_covers_residues,
    lemma_orbit_composes,
    lemma_orbit_in_range,
};
use crate::full_period::lemma_no_early_repeat;
use crate::powers::{is_power_of_two, lemma_pow2_positive};
use vstd::set_lib::{lemma_int_range, lemma_len_subset, lemma_subset_equality, set_int_range};

verus! {

/// The multiplier that `Lcg::new` uses; it is 1 modulo 4.
pub const DEFAULT_MULTIPLIER: u64 = 6364136223846793005;

/// The increment that `Lcg::new` uses; it is odd.
pub const DEFAULT_INCREMENT: u64 = 1442695040888963407;

/// The generator: its current value and the three parameters of the step
/// `x -> (multiplier * x + increment) mod modulus`.
#[derive(Clone, Copy, Debug)]
pub struct Lcg {
    state: u64,
    multiplier: u64,
    increment: u64,
    modulus: u64,
}

/// The generator as four integers.
pub struct LcgView {
    pub state: int,
    pub multiplier: int,
    pub increment: int,
    pub modulus: int,
}

impl LcgView {
    /// The parameters give full period and the state is a residue.
    pub open spec fn wf(self) -> bool {
        &&& full_period_parameters(self.multiplier, self.increment, self.modulus)
        &&& 0 <= self.state < self.modulus
    }

    /// The value after `n` steps.
    pub open spec fn orbit(self, n: nat) -> int {
        lcg_orbit(self.multiplier, self.increment, self.modulus, self.state, n)
    }

    /// The generator after `n` steps.
    pub open spec fn advanced(self, n: nat) -> LcgView {
        LcgView { state: self.orbit(n), ..self }
    }

    /// Step `t` is the first whose value is below `limit`.
    pub open spec fn is_first_hit(self, limit: int, t: nat) -> bool {
        &&& t >= 1
        &&& self.orbit(t) < limit
        &&& forall|s: nat| 1 <= s < t ==> self.orbit(s) >= limit
    }

    /// The number of steps up to the first value below `limit`.
    pub open spec fn first_hit(self, limit: int) -> nat {
        choose|t: nat| self.is_first_hit(limit, t)
    }

    /// The generator after one draw below `limit`.
    pub open spec fn after_draw(self, limit: int) -> LcgView {
        self.advanced(self.first_hit(limit))
    }

    /// The generator after `k` draws below `limit`.
    pub open spec fn after_draws(self, limit: int, k: nat) -> LcgView
        decreases k,
    {
        if k == 0 {
            self
        } else {
            self.after_draws(limit, (k - 1) as nat).after_draw(limit)
        }
    }

    /// The value of draw number `k` below `limit`, counting from 0.
    pub open spec fn draw(self, limit: int, k: nat) -> int {
        self.after_draws(limit, k + 1).state
    }

    /// One of the first `limit` draws below `limit` has the value `x`.
    pub open spec fn draws_value(self, limit: int, x: int) -> bool {
        exists|i: nat| i < limit && self.draw(limit, i) == x
    }

    /// The number of steps that the first `k` draws below `limit` take.
    pub open spec fn steps_for(self, limit: int, k: nat) -> nat
        decreases k,
    {
        if k == 0 {
            0
        } else {
            let before = self.steps_for(limit, (k - 1) as nat);
            before + self.advanced(before).first_hit(limit)
        }
    }

    /// The step at which draw number `i` is found.
    pub open spec fn hit_position(self, limit: int, i: nat) -> nat {
        self.steps_for(limit, i + 1)
    }
}

impl View for Lcg {
    type V = LcgView;

    closed spec fn view(&self) -> LcgView {
        LcgView {
            state: self.state as int,
            multiplier: self.multiplier as int,
            increment: self.increment as int,
            modulus: self.modulus as int,
        }
    }
}

impl Lcg {
    /// What every generator holds: its view is well-formed.
    #[verifier::type_invariant]
    pub closed spec fn well_formed(&self) -> bool {
        self@.wf()
    }

    /// A generator with the given parameters, started at `seed` reduced modulo
    /// `modulus`; `None` unless the modulus is a power of two, the multiplier
    /// is 1 modulo 4 and the increment is odd.
    pub fn with_parameters(seed: u64, multiplier: u64, increment: u64, modulus: u64) -> (r: Option<
        Lcg,
    >)
        ensures
            r is Some <==> full_period_parameters(
                multiplier as int,
                increment as int,
                modulus as int,
            ),
            r matches Some(g) ==> g@ == (LcgView {
                state: seed as int % modulus as int,
                multiplier: multiplier as int,
                increment: increment as int,
                modulus: modulus as int,
            }) && g@.wf(),
    {
        if !is_power_of_two(modulus) || multiplier % 4 != 1 || increment % 2 != 1 {
            return None;
        }
        proof {
            lemma_pow2_positive(modulus as int);
        }
        Some(Lcg { state: seed % modulus, multiplier, increment, modulus })
    }

    /// A generator over `modulus` with the default multiplier and increment,
    /// started at `seed` reduced modulo `modulus`; `None` unless the modulus is
    /// a power of two.
    pub fn new(seed: u64, modulus: u64) -> (r: Option<Lcg>)
        ensures
            r is Some <==> is_pow2(modulus as int),
            r matches Some(g) ==> g@ == (LcgView {
                state: seed as int % modulus as int,
                multiplier: DEFAULT_MULTIPLIER as int,
                increment: DEFAULT_INCREMENT as int,
                modulus: modulus as int,
            }) && g@.wf(),
    {
        Lcg::with_parameters(seed, DEFAULT_MULTIPLIER, DEFAULT_INCREMENT, modulus)
    }

    /// The current value.
    pub fn state(&self) -> (r: u64)
        ensures
            r == self@.state,
    {
        self.state
    }

    /// The modulus.
    pub fn modulus(&self) -> (r: u64)
        ensures
            r == self@.modulus,
    {
        self.modulus
    }

    /// The multiplier.
    pub fn multiplier(&self) -> (r: u64)
        ensures
            r == self@.multiplier,
    {
        self.multiplier
    }

    /// The increment.
    pub fn increment(&self) -> (r: u64)
        ensures
            r == self@.increment,
    {
        self.increment
    }

    fn step(&mut self)
        ensures
            final(self)@ == old(self)@.advanced(1),
            final(self)@.wf(),
            old(self)@.wf(),
    {
        proof {
            use_type_invariant(&*self);
            lemma_pow2_positive(self.modulus as int);
            assert(self.multiplier * self.state <= 0xffff_ffff_ffff_ffff * 0xffff_ffff_ffff_ffff)
                by (nonlinear_arith)
                requires
                    0 <= self.multiplier <= 0xffff_ffff_ffff_ffff,
                    0 <= self.state <= 0xffff_ffff_ffff_ffff,
            ;
            assert(self@.orbit(0) == self@.state);
        }
        let product: u128 = (self.multiplier as u128) * (self.state as u128);
        let wide: u128 = product + (self.increment as u128);
        let reduced: u128 = wide % (self.modulus as u128);
        self.state = reduced as u64;
    }

    /// Steps once and yields the new value; the sequence has no end.
    pub fn next(&mut self) -> (r: Option<u64>)
        ensures
            old(self)@.wf(),
            final(self)@.wf(),
            final(self)@ == old(self)@.advanced(1),
            r == Some(final(self)@.state as u64),
    {
        self.step();
        Some(self.state)
    }

    /// Steps until a value below `limit` comes and yields it: one draw of the
    /// generator restricted to `[0, limit)`. With `limit` 0 no such value
    /// exists; the generator stays as it is and the result is `None`.
    pub fn next_below(&mut self, limit: u64) -> (r: Option<u64>)
        ensures
            old(self)@.wf(),
            final(self)@.wf(),
            r is Some <==> limit > 0,
            limit == 0 ==> final(self)@ == old(self)@,
            limit > 0 ==> {
                &&& old(self)@.is_first_hit(limit as int, old(self)@.first_hit(limit as int))
                &&& old(self)@.first_hit(limit as int) <= old(self)@.modulus
                &&& final(self)@ == old(self)@.after_draw(limit as int)
                &&& r == Some(final(self)@.state as u64)
                &&& 0 <= final(self)@.state < limit
            },
    {
        proof {
            use_type_invariant(&*self);
        }
        if limit == 0 {
            return None;
        }
        let ghost start = self@;
        let ghost mut taken: nat = 0;
        proof {
            assert(start.orbit(0) == start.state);
        }
        loop
            invariant_except_break
                self@ == start.advanced(taken),
                taken < start.modulus,
                forall|s: nat| 1 <= s <= taken ==> start.orbit(s) >= limit,
            invariant
                limit > 0,
                start.wf(),
            ensures
                self@ == start.advanced(taken),
                start.is_first_hit(limit as int, taken),
                taken <= start.modulus,
            decreases start.modulus - taken,
        {
            self.step();
            proof {
                lemma_orbit_composes(
                    start.multiplier,
                    start.increment,
                    start.modulus,
                    start.state,
                    taken,
                    1,
                );
                reveal_with_fuel(lcg_orbit, 2);
                taken = taken + 1;
            }
            if self.state < limit {
                break ;
            }
            proof {
                if taken >= start.modulus {
                    lemma_covers_residues(
                        start.multiplier,
                        start.increment,
                        start.modulus,
                        start.state,
                        0,
                        0,
                    );
                    let t = choose|t: nat|
                        0 < t <= 0 + start.modulus && lcg_orbit(
                            start.multiplier,
                            start.increment,
                            start.modulus,
                            start.state,
                            t,
                        ) == 0;
                    assert(start.orbit(t) == 0);
                    assert(false);
                }
            }
        }
        proof {
            lemma_first_hit_unique(start, limit as int, taken, start.first_hit(limit as int));
        }
        Some(self.state)
    }
}

/// Only one step can be the first whose value is below `limit`.
pub proof fn lemma_first_hit_unique(v: LcgView, limit: int, t: nat, u: nat)
    requires
        v.is_first_hit(limit, t),
    ensures
        v.is_first_hit(limit, v.first_hit(limit)),
        v.is_first_hit(limit, u) ==> u == t,
{
    if v.is_first_hit(limit, u) {
        if u < t {
            assert(v.orbit(u) >= limit);
        }
        if t < u {
            assert(v.orbit(t) >= limit);
        }
    }
}

/// Where some step gives a value below `limit`, a first such step exists and
/// comes no later.
proof fn lemma_hit_before(v: LcgView, limit: int, u: nat)
    requires
        u >= 1,
        v.orbit(u) < limit,
    ensures
        v.is_first_hit(limit, v.first_hit(limit)),
        v.first_hit(limit) <= u,
    decreases u,
{
    if forall|s: nat| 1 <= s < u ==> v.orbit(s) >= limit {
        assert(v.is_first_hit(limit, u));
        lemma_first_hit_unique(v, limit, u, u);
    } else {
        let s = choose|s: nat| 1 <= s < u && !(v.orbit(s) >= limit);
        lemma_hit_before(v, limit, s);
    }
}

/// Stepping a well-formed generator keeps it well-formed.
proof fn lemma_advanced_wf(v: LcgView, n: nat)
    requires
        v.wf(),
    ensures
        v.advanced(n).wf(),
{
    lemma_pow2_positive(v.modulus);
    if n >= 1 {
        lemma_orbit_in_range(v.multiplier, v.increment, v.modulus, v.state, n);
    }
}

/// The bookkeeping behind the permutation law, for the first `k` draws: they
/// fall within one period, at increasing steps, and no value below `limit` is
/// passed over on the way.
proof fn lemma_draw_positions(v: LcgView, limit: int, k: nat)
    requires
        v.wf(),
        1 <= limit <= v.modulus,
        k <= limit,
    ensures
        v.steps_for(limit, k) <= v.modulus,
        v.after_draws(limit, k) == v.advanced(v.steps_for(limit, k)),
        forall|i: nat|
            i < k ==> 1 <= #[trigger] v.hit_position(limit, i) <= v.steps_for(limit, k) && v.draw(
                limit,
                i,
            ) == v.orbit(v.hit_position(limit, i)) && 0 <= v.draw(limit, i) < limit,
        forall|i: nat, j: nat|
            i < j < k ==> #[trigger] v.hit_position(limit, i) < #[trigger] v.hit_position(
                limit,
                j,
            ),
        forall|t: nat|
            1 <= t <= v.steps_for(limit, k) && #[trigger] v.orbit(t) < limit ==> exists|i: nat|
                i < k && v.hit_position(limit, i) == t,
    decreases k,
{
    if k == 0 {
        assert(v.orbit(0) == v.state);
    } else {
        let prev: nat = (k - 1) as nat;
        lemma_draw_positions(v, limit, prev);
        let taken = v.steps_for(limit, prev);
        let w = v.advanced(taken);
        lemma_advanced_wf(v, taken);
        // A value that has not been drawn yet.
        let drawn = Seq::new(prev, |i: int| v.draw(limit, i as nat));
        let range = set_int_range(0, limit);
        lemma_int_range(0, limit);
        drawn.lemma_cardinality_of_set();
        if range.subset_of(drawn.to_set()) {
            vstd::seq_lib::seq_to_set_is_finite(drawn);
            lemma_len_subset(range, drawn.to_set());
            assert(false);
        }
        let fresh = choose|x: int| range.contains(x) && !drawn.to_set().contains(x);
        // It comes within the period, and only after the draws made so far.
        lemma_covers_residues(v.multiplier, v.increment, v.modulus, v.state, 0, fresh);
        let u = choose|t: nat|
            0 < t <= 0 + v.modulus && lcg_orbit(
                v.multiplier,
                v.increment,
                v.modulus,
                v.state,
                t,
            ) == fresh;
        assert(v.orbit(u) == fresh);
        if u <= taken {
            let i = choose|i: nat| i < prev && v.hit_position(limit, i) == u;
            assert(drawn[i as int] == fresh);
            assert(drawn.to_set().contains(fresh));
            assert(false);
        }
        let gap: nat = (u - taken) as nat;
        lemma_orbit_composes(v.multiplier, v.increment, v.modulus, v.state, taken, gap);
        assert(w.orbit(gap) == fresh);
        lemma_hit_before(w, limit, gap);
        let hit = w.first_hit(limit);
        lemma_orbit_composes(v.multiplier, v.increment, v.modulus, v.state, taken, hit);
        assert(v.steps_for(limit, k) == taken + hit);
        assert(v.hit_position(limit, prev) == taken + hit);
        assert(v.after_draws(limit, k) == v.advanced(taken + hit));
        lemma_orbit_in_range(v.multiplier, v.increment, v.modulus, v.state, taken + hit);
        assert(v.draw(limit, prev) == v.orbit(taken + hit));
        assert forall|t: nat|
            1 <= t <= v.steps_for(limit, k) && #[trigger] v.orbit(t) < limit implies exists|
            i: nat,
        | i < k && v.hit_position(limit, i) == t by {
            if t <= taken {
                let i = choose|i: nat| i < prev && v.hit_position(limit, i) == t;
                assert(i < k && v.hit_position(limit, i) == t);
            } else if t < taken + hit {
                let s: nat = (t - taken) as nat;
                lemma_orbit_composes(v.multiplier, v.increment, v.modulus, v.state, taken, s);
                assert(w.orbit(s) >= limit);
            } else {
                assert(prev < k && v.hit_position(limit, prev) == t);
            }
        }
    }
}

/// Over one period the generator restricted to `[0, limit)` is a permutation
/// of that range: the first `limit` draws all lie in the range, no two of them
/// are equal, every value of the range is among them, and together they take
/// no more steps than the modulus.
pub proof fn lemma_draws_permute_range(v: LcgView, limit: int)
    requires
        v.wf(),
        1 <= limit <= v.modulus,
    ensures
        forall|i: nat| i < limit ==> 0 <= #[trigger] v.draw(limit, i) < limit,
        forall|i: nat, j: nat|
            i < j < limit ==> #[trigger] v.draw(limit, i) != #[trigger] v.draw(limit, j),
        forall|x: int| 0 <= x < limit ==> #[trigger] v.draws_value(limit, x),
        v.steps_for(limit, limit as nat) <= v.modulus,
{
    let count: nat = limit as nat;
    lemma_draw_positions(v, limit, count);
    assert forall|i: nat| i < limit implies 0 <= #[trigger] v.draw(limit, i) < limit by {
        assert(1 <= v.hit_position(limit, i));
    }
    assert forall|i: nat, j: nat| i < j < limit implies #[trigger] v.draw(limit, i)
        != #[trigger] v.draw(limit, j) by {
        let p = v.hit_position(limit, i);
        let q = v.hit_position(limit, j);
        assert(1 <= p < q <= v.steps_for(limit, count));
        lemma_no_early_repeat(v.multiplier, v.increment, v.modulus, v.state, p, q);
    }
    let draws = Seq::new(count, |i: int| v.draw(limit, i as nat));
    assert forall|i: int, j: int| 0 <= i < j < draws.len() implies draws[i] != draws[j] by {
        assert(v.draw(limit, i as nat) != v.draw(limit, j as nat));
    }
    assert(draws.no_duplicates());
    draws.unique_seq_to_set();
    lemma_int_range(0, limit);
    assert forall|x: int| draws.to_set().contains(x) implies set_int_range(0, limit).contains(
        x,
    ) by {
        let i = choose|i: int| 0 <= i < draws.len() && draws[i] == x;
        assert(0 <= v.draw(limit, i as nat) < limit);
    }
    assert(draws.to_set().subset_of(set_int_range(0, limit)));
    lemma_len_subset(draws.to_set(), set_int_range(0, limit));
    lemma_subset_equality(draws.to_set(), set_int_range(0, limit));
    assert forall|x: int| 0 <= x < limit implies #[trigger] v.draws_value(limit, x) by {
        assert(set_int_range(0, limit).contains(x));
        assert(draws.to_set().contains(x));
        let i = choose|i: int| 0 <= i < draws.len() && draws[i] == x;
        assert((i as nat) < limit && v.draw(limit, i as nat) == x);
    }
}

/// Within one period the values below `limit` are exactly the first `limit`
/// draws: every step of the first `modulus` steps whose value lies below
/// `limit` is the step of one of those draws, so a period holds `limit` such
/// values and no more.
pub proof fn lemma_period_holds_the_draws(v: LcgView, limit: int, t: nat)
    requires
        v.wf(),
        1 <= limit <= v.modulus,
        1 <= t <= v.modulus,
        v.orbit(t) < limit,
    ensures
        exists|i: nat| i < limit && v.hit_position(limit, i) == t,
{
    let count: nat = limit as nat;
    lemma_draw_positions(v, limit, count);
    if t > v.steps_for(limit, count) {
        lemma_draws_permute_range(v, limit);
        lemma_orbit_in_range(v.multiplier, v.increment, v.modulus, v.state, t);
        assert(v.draws_value(limit, v.orbit(t)));
        let i = choose|i: nat| i < limit && v.draw(limit, i) == v.orbit(t);
        let p = v.hit_position(limit, i);
        assert(1 <= p <= v.steps_for(limit, count));
        lemma_no_early_repeat(v.multiplier, v.increment, v.modulus, v.state, p, t);
        assert(false);
    }
}

} // verus!
