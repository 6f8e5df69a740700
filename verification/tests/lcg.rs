use std::collections::HashSet;
use thermite::lcg::{Lcg, DEFAULT_INCREMENT, DEFAULT_MULTIPLIER};

#[test]
fn the_default_parameters_give_full_period() {
    assert_eq!(DEFAULT_MULTIPLIER % 4, 1);
    assert_eq!(DEFAULT_INCREMENT % 2, 1);
}

#[test]
fn a_modulus_that_is_no_power_of_two_is_refused() {
    assert!(Lcg::new(0, 0).is_none());
    assert!(Lcg::new(0, 3).is_none());
    assert!(Lcg::new(0, 6).is_none());
    assert!(Lcg::new(0, 768).is_none());
    assert!(Lcg::new(0, u64::MAX).is_none());
    assert!(Lcg::new(0, 1).is_some());
    assert!(Lcg::new(0, 1 << 63).is_some());
}

#[test]
fn parameters_without_full_period_are_refused() {
    assert!(Lcg::with_parameters(0, 5, 3, 8).is_some());
    assert!(Lcg::with_parameters(0, 3, 3, 8).is_none());
    assert!(Lcg::with_parameters(0, 7, 3, 8).is_none());
    assert!(Lcg::with_parameters(0, 4, 3, 8).is_none());
    assert!(Lcg::with_parameters(0, 5, 2, 8).is_none());
    assert!(Lcg::with_parameters(0, 5, 0, 8).is_none());
    assert!(Lcg::with_parameters(0, 5, 3, 12).is_none());
    assert!(Lcg::with_parameters(0, 1, 1, 8).is_some());
}

#[test]
fn the_generator_reports_its_parts() {
    let g = Lcg::with_parameters(13, 5, 3, 8).unwrap();
    assert_eq!(g.state(), 5);
    assert_eq!(g.multiplier(), 5);
    assert_eq!(g.increment(), 3);
    assert_eq!(g.modulus(), 8);
    let d = Lcg::new(9, 16).unwrap();
    assert_eq!(d.state(), 9);
    assert_eq!(d.multiplier(), DEFAULT_MULTIPLIER);
    assert_eq!(d.increment(), DEFAULT_INCREMENT);
    assert_eq!(d.modulus(), 16);
}

#[test]
fn each_step_is_multiplier_times_value_plus_increment_modulo_the_modulus() {
    let mut g = Lcg::with_parameters(0, 5, 3, 8).unwrap();
    let mut seen = Vec::new();
    for _ in 0..8 {
        seen.push(g.next().unwrap());
    }
    assert_eq!(seen, vec![3, 2, 5, 4, 7, 6, 1, 0]);
    assert_eq!(g.next(), Some(3));
}

#[test]
fn a_seed_at_or_above_the_modulus_is_reduced() {
    let mut low = Lcg::with_parameters(3, 5, 3, 8).unwrap();
    let mut high = Lcg::with_parameters(3 + 8 * 1000, 5, 3, 8).unwrap();
    for _ in 0..20 {
        assert_eq!(low.next(), high.next());
    }
}

#[test]
fn the_step_does_not_overflow_on_the_largest_modulus() {
    let modulus = 1u64 << 63;
    let mut g = Lcg::new(modulus - 1, modulus).unwrap();
    let expected = ((DEFAULT_MULTIPLIER as u128 * (modulus - 1) as u128
        + DEFAULT_INCREMENT as u128)
        % modulus as u128) as u64;
    assert_eq!(g.next(), Some(expected));
    let mut h = Lcg::with_parameters(u64::MAX, u64::MAX - 2, u64::MAX, modulus).unwrap();
    let start = u64::MAX % modulus;
    let expected = (((u64::MAX - 2) as u128 * start as u128 + u64::MAX as u128) % modulus as u128)
        as u64;
    assert_eq!(h.next(), Some(expected));
}

#[test]
fn one_period_visits_every_residue_once() {
    for exponent in 0..11u32 {
        let modulus = 1u64 << exponent;
        for seed in [0u64, 1, 5, 1023] {
            let mut g = Lcg::new(seed, modulus).unwrap();
            let mut seen = HashSet::new();
            for _ in 0..modulus {
                let v = g.next().unwrap();
                assert!(v < modulus);
                assert!(seen.insert(v), "value {} came twice", v);
            }
            assert_eq!(seen.len() as u64, modulus);
        }
    }
}

#[test]
fn after_one_period_the_sequence_starts_over() {
    let mut g = Lcg::new(11, 64).unwrap();
    let first: Vec<u64> = (0..64).map(|_| g.next().unwrap()).collect();
    let second: Vec<u64> = (0..64).map(|_| g.next().unwrap()).collect();
    assert_eq!(first, second);
}

#[test]
fn draws_below_a_limit_skip_the_values_at_or_above_it() {
    let mut g = Lcg::with_parameters(0, 5, 3, 8).unwrap();
    let mut seen = Vec::new();
    for _ in 0..5 {
        seen.push(g.next_below(5).unwrap());
    }
    assert_eq!(seen, vec![3, 2, 4, 1, 0]);
    assert_eq!(g.next_below(5), Some(3));
}

#[test]
fn a_draw_leaves_the_generator_at_the_value_drawn() {
    let mut g = Lcg::with_parameters(0, 5, 3, 8).unwrap();
    assert_eq!(g.next_below(2), Some(1));
    assert_eq!(g.state(), 1);
    assert_eq!(g.next(), Some(0));
}

#[test]
fn a_limit_of_zero_gives_no_draw_and_leaves_the_generator() {
    let mut g = Lcg::with_parameters(6, 5, 3, 8).unwrap();
    assert_eq!(g.next_below(0), None);
    assert_eq!(g.state(), 6);
    assert_eq!(g.next(), Some(1));
}

#[test]
fn a_limit_above_the_modulus_accepts_every_value() {
    let mut g = Lcg::with_parameters(0, 5, 3, 8).unwrap();
    let seen: Vec<u64> = (0..8).map(|_| g.next_below(100).unwrap()).collect();
    assert_eq!(seen, vec![3, 2, 5, 4, 7, 6, 1, 0]);
}

#[test]
fn draws_restricted_to_a_range_give_each_value_once() {
    for exponent in 0..8u32 {
        let modulus = 1u64 << exponent;
        for limit in 1..=modulus {
            for seed in [0u64, 3, 77] {
                let mut g = Lcg::new(seed, modulus).unwrap();
                let mut seen = HashSet::new();
                for _ in 0..limit {
                    let v = g.next_below(limit).unwrap();
                    assert!(v < limit);
                    assert!(seen.insert(v), "value {} came twice below {}", v, limit);
                }
                assert_eq!(seen.len() as u64, limit);
                for v in 0..limit {
                    assert!(seen.contains(&v));
                }
            }
        }
    }
}

#[test]
fn draws_over_the_least_covering_power_of_two_give_each_value_once() {
    for limit in [1u64, 2, 3, 5, 7, 100, 1000, 4097] {
        let modulus = limit.next_power_of_two();
        let mut g = Lcg::new(limit / 2, modulus).unwrap();
        let mut seen = vec![false; limit as usize];
        for _ in 0..limit {
            let v = g.next_below(limit).unwrap() as usize;
            assert!(!seen[v]);
            seen[v] = true;
        }
        assert!(seen.iter().all(|s| *s));
    }
}

#[test]
fn after_as_many_draws_as_the_limit_the_draws_start_over() {
    let mut g = Lcg::new(5, 16).unwrap();
    let first: Vec<u64> = (0..11).map(|_| g.next_below(11).unwrap()).collect();
    let second: Vec<u64> = (0..11).map(|_| g.next_below(11).unwrap()).collect();
    assert_eq!(first, second);
}

#[test]
fn other_full_period_parameters_permute_too() {
    for (a, c) in [(1u64, 1u64), (5, 1), (9, 7), (13, 255), (4097, 3), (u64::MAX - 2, u64::MAX)] {
        let mut g = Lcg::with_parameters(0, a, c, 256).unwrap();
        let mut seen = HashSet::new();
        for _ in 0..200 {
            assert!(seen.insert(g.next_below(200).unwrap()));
        }
        assert_eq!(seen.len(), 200);
    }
}
