use fuzzcheck::integer::{
    I16WithinRangeMutator, I32WithinRangeMutator, I64WithinRangeMutator, I8WithinRangeMutator,
    U16WithinRangeMutator, U32WithinRangeMutator, U64WithinRangeMutator, U8WithinRangeMutator,
};
use fuzzcheck::mutator::{Mutator, COMPLEXITY_UNIT};
use fuzzcheck::option_mutator::OptionMutator;

/// Generates values in order and at random, mutates each in order and at
/// random, and checks after each step that the value validates with the
/// complexity handed back, and that undoing restores value and cache.
fn check_mutator<T, M>(
    m: M,
    max_cplx: f64,
    cplx: f64,
    avoid_duplicates: bool,
    check_consistency: bool,
    nbr_arbitraries: usize,
    nbr_mutations: usize,
) where
    T: Clone + PartialEq + std::fmt::Debug,
    M: Mutator<T>,
    M::Cache: Clone + PartialEq + std::fmt::Debug,
{
    let max_cplx = (max_cplx * COMPLEXITY_UNIT as f64) as u64;
    let cplx = (cplx * COMPLEXITY_UNIT as f64) as u64;
    let mut arbitrary_step = m.default_arbitrary_step();
    let mut seen: Vec<T> = Vec::new();
    for i in 0..nbr_arbitraries {
        let generated = if i % 2 == 0 {
            m.ordered_arbitrary(&mut arbitrary_step, max_cplx)
        } else {
            Some(m.random_arbitrary(max_cplx))
        };
        let Some((mut x, x_cplx)) = generated else {
            continue;
        };
        if avoid_duplicates && i % 2 == 0 {
            assert!(!seen.contains(&x));
            seen.push(x.clone());
        }
        let mut cache = m.validate_value(&x).unwrap();
        assert_eq!(m.complexity(&x, &cache), x_cplx);
        assert!(m.min_complexity() <= x_cplx && x_cplx <= m.max_complexity());
        let mut step = m.default_mutation_step(&x, &cache);
        for j in 0..nbr_mutations {
            let before = x.clone();
            let before_cache = cache.clone();
            let mutated = if j % 2 == 0 {
                m.ordered_mutate(&mut x, &mut cache, &mut step, cplx)
            } else {
                Some(m.random_mutate(&mut x, &mut cache, cplx))
            };
            let Some((token, new_cplx)) = mutated else {
                assert_eq!(x, before);
                continue;
            };
            if check_consistency {
                let validated = m.validate_value(&x).unwrap();
                assert_eq!(validated, cache);
                assert_eq!(m.complexity(&x, &validated), new_cplx);
                assert!(m.min_complexity() <= new_cplx && new_cplx <= m.max_complexity());
            }
            m.unmutate(&mut x, &mut cache, token);
            assert_eq!(x, before);
            assert_eq!(cache, before_cache);
        }
    }
}

#[test]
fn test_option() {
    let m = OptionMutator::new(U8WithinRangeMutator::new(0, 255));
    check_mutator(m, 100.0, 100.0, false, true, 500, 500);
}

#[test]
fn u8_range_ordered_arbitrary_yields_each_value_once() {
    let m = U8WithinRangeMutator::new(10, 12);
    let mut step = m.default_arbitrary_step();
    let mut values = Vec::new();
    while let Some((v, c)) = m.ordered_arbitrary(&mut step, 100 * COMPLEXITY_UNIT) {
        assert_eq!(c, 8 * COMPLEXITY_UNIT);
        assert_eq!(c as f64 / COMPLEXITY_UNIT as f64, 8.0);
        values.push(v);
    }
    assert_eq!(values, vec![11, 12, 10]);
    assert_eq!(m.ordered_arbitrary(&mut step, 100 * COMPLEXITY_UNIT), None);
}

#[test]
fn u8_range_full_walk_is_distinct() {
    let m = U8WithinRangeMutator::new(0, 255);
    let mut step = m.default_arbitrary_step();
    let mut seen = vec![false; 256];
    let mut count = 0;
    while let Some((v, _)) = m.ordered_arbitrary(&mut step, 100 * COMPLEXITY_UNIT) {
        assert!(!seen[v as usize]);
        seen[v as usize] = true;
        count += 1;
    }
    assert_eq!(count, 256);
}

#[test]
fn u8_range_budget_too_small() {
    let m = U8WithinRangeMutator::new(0, 5);
    let mut step = m.default_arbitrary_step();
    assert_eq!(m.ordered_arbitrary(&mut step, 7 * COMPLEXITY_UNIT), None);
    assert_eq!(step, 0);
    assert_eq!(m.ordered_arbitrary(&mut step, 8 * COMPLEXITY_UNIT), Some((2, 8 * COMPLEXITY_UNIT)));
}

#[test]
fn u8_range_validation() {
    let m = U8WithinRangeMutator::new(10, 12);
    assert_eq!(m.validate_value(&11), Some(()));
    assert_eq!(m.validate_value(&11), m.validate_value(&11));
    assert_eq!(m.validate_value(&9), None);
    assert_eq!(m.validate_value(&13), None);
}

#[test]
fn u8_range_random_stays_in_range() {
    let m = U8WithinRangeMutator::new(10, 12);
    let mut drawn = Vec::new();
    for _ in 0..200 {
        let (v, c) = m.random_arbitrary(0);
        assert!((10..=12).contains(&v));
        if !drawn.contains(&v) {
            drawn.push(v);
        }
        assert_eq!(c, 8 * COMPLEXITY_UNIT);
        let mut x = 11u8;
        let (t, _) = m.random_mutate(&mut x, &mut (), 0);
        assert!((10..=12).contains(&x));
        m.unmutate(&mut x, &mut (), t);
        assert_eq!(x, 11);
    }
    assert!(drawn.len() > 1);
}

#[test]
fn u8_range_ordered_mutate_exhaustion_persists() {
    let m = U8WithinRangeMutator::new(10, 12);
    let mut v = 10u8;
    let mut step = m.default_mutation_step(&v, &());
    let mut got = Vec::new();
    while let Some((t, _)) = m.ordered_mutate(&mut v, &mut (), &mut step, 100 * COMPLEXITY_UNIT) {
        got.push(v);
        m.unmutate(&mut v, &mut (), t);
        assert_eq!(v, 10);
    }
    assert_eq!(got, vec![11, 12, 10]);
    for _ in 0..3 {
        assert!(m.ordered_mutate(&mut v, &mut (), &mut step, 100 * COMPLEXITY_UNIT).is_none());
        assert_eq!(v, 10);
    }
}

#[test]
fn option_ordered_arbitrary_starts_with_none() {
    let m = OptionMutator::new(U8WithinRangeMutator::new(1, 2));
    let mut step = m.default_arbitrary_step();
    let mut values = Vec::new();
    while let Some((v, c)) = m.ordered_arbitrary(&mut step, 100 * COMPLEXITY_UNIT) {
        let expected = if v.is_some() { 9 * COMPLEXITY_UNIT } else { COMPLEXITY_UNIT };
        assert_eq!(c, expected);
        values.push(v);
    }
    assert_eq!(values, vec![None, Some(2), Some(1)]);
}

#[test]
fn option_ordered_mutate_switches_to_none_first() {
    let m = OptionMutator::new(U8WithinRangeMutator::new(0, 255));
    let mut v = Some(0u8);
    let mut cache = m.validate_value(&v).unwrap();
    let mut step = m.default_mutation_step(&v, &cache);
    let (t, c) = m.ordered_mutate(&mut v, &mut cache, &mut step, 100 * COMPLEXITY_UNIT).unwrap();
    assert_eq!(v, None);
    assert_eq!(c, COMPLEXITY_UNIT);
    m.unmutate(&mut v, &mut cache, t);
    assert_eq!(v, Some(0));
    let (t, c) = m.ordered_mutate(&mut v, &mut cache, &mut step, 100 * COMPLEXITY_UNIT).unwrap();
    assert_eq!(v, Some(127));
    assert_eq!(c, 9 * COMPLEXITY_UNIT);
    m.unmutate(&mut v, &mut cache, t);
    assert_eq!(v, Some(0));
    assert_eq!(cache, Some(()));
}

#[test]
fn option_complexity_bounds() {
    let m = OptionMutator::new(U8WithinRangeMutator::new(0, 255));
    assert_eq!(m.min_complexity(), COMPLEXITY_UNIT);
    assert_eq!(m.max_complexity(), 9 * COMPLEXITY_UNIT);
    assert_eq!(m.complexity(&None, &None), COMPLEXITY_UNIT);
    assert_eq!(m.complexity(&Some(4), &Some(())), 9 * COMPLEXITY_UNIT);
}

#[test]
fn signed_range_walk() {
    let m = I8WithinRangeMutator::new(-2, 1);
    let mut step = m.default_arbitrary_step();
    let mut values = Vec::new();
    while let Some((v, c)) = m.ordered_arbitrary(&mut step, 100 * COMPLEXITY_UNIT) {
        assert_eq!(c, 8 * COMPLEXITY_UNIT);
        values.push(v);
    }
    assert_eq!(values, vec![-1, 1, -2, 0]);
    assert_eq!(m.validate_value(&2), None);
    assert_eq!(m.validate_value(&-2), Some(()));
}

#[test]
fn full_width_ranges() {
    let m = U64WithinRangeMutator::new(0, u64::MAX);
    let mut step = m.default_arbitrary_step();
    assert_eq!(m.ordered_arbitrary(&mut step, 100 * COMPLEXITY_UNIT), Some((u64::MAX / 2, 64 * COMPLEXITY_UNIT)));
    assert_eq!(m.ordered_arbitrary(&mut step, 100 * COMPLEXITY_UNIT), Some((13835058055282163711, 64 * COMPLEXITY_UNIT)));
    let m = I64WithinRangeMutator::new(i64::MIN, i64::MAX);
    let mut step = m.default_arbitrary_step();
    assert_eq!(m.ordered_arbitrary(&mut step, 100 * COMPLEXITY_UNIT), Some((-1, 64 * COMPLEXITY_UNIT)));
    for _ in 0..100 {
        let (v, _) = m.random_arbitrary(0);
        assert!(m.validate_value(&v).is_some());
    }
    let m = I32WithinRangeMutator::new(-5, -5);
    let mut v = -5i32;
    let mut step = m.default_mutation_step(&v, &());
    assert_eq!(m.ordered_mutate(&mut v, &mut (), &mut step, 100 * COMPLEXITY_UNIT), Some((-5, 32 * COMPLEXITY_UNIT)));
    assert_eq!(m.ordered_mutate(&mut v, &mut (), &mut step, 100 * COMPLEXITY_UNIT), None);
    let m = U16WithinRangeMutator::new(100, 300);
    assert_eq!(m.random_arbitrary(0).1, 16 * COMPLEXITY_UNIT);
    let m = U32WithinRangeMutator::new(7, 7);
    assert_eq!(m.random_arbitrary(0), (7, 32 * COMPLEXITY_UNIT));
    let m = I16WithinRangeMutator::new(-300, -299);
    let mut step = m.default_arbitrary_step();
    assert_eq!(m.ordered_arbitrary(&mut step, 100 * COMPLEXITY_UNIT), Some((-299, 16 * COMPLEXITY_UNIT)));
}

#[test]
fn offset_values_of_ranges() {
    let m = I8WithinRangeMutator::new(-100, 100);
    assert_eq!(m.offset_value(0), -100);
    assert_eq!(m.offset_value(200), 100);
    let m = U64WithinRangeMutator::new(5, u64::MAX);
    assert_eq!(m.offset_value(u64::MAX - 5), u64::MAX);
    let m = U8WithinRangeMutator::new(10, 12);
    assert_eq!(m.offset_value(1), 11);
}

#[test]
fn boxed_range_mutator_walks_from_fresh_step() {
    let m: Box<U8WithinRangeMutator> = Box::new(U8WithinRangeMutator::new(10, 12));
    let mut s = m.default_arbitrary_step();
    assert_eq!(s, 0);
    let mut values = Vec::new();
    while let Some((v, c)) = m.ordered_arbitrary(&mut s, 100 * COMPLEXITY_UNIT) {
        assert_eq!(c, 8 * COMPLEXITY_UNIT);
        values.push(v);
    }
    values.sort();
    assert_eq!(values, vec![10, 11, 12]);
}

#[test]
fn random_arbitrary_below_minimum_budget() {
    let m = OptionMutator::new(U8WithinRangeMutator::new(0, 255));
    for _ in 0..50 {
        assert_eq!(m.random_arbitrary(0), (None, COMPLEXITY_UNIT));
    }
}
