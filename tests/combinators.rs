use fuzzcheck::box_mutator::BoxMutator;
use fuzzcheck::integer::U8WithinRangeMutator;
use fuzzcheck::map_mutator::{AndMapMutator, MapMutator};
use fuzzcheck::mutator::{Mutator, COMPLEXITY_UNIT, UNBOUNDED_COMPLEXITY};
use fuzzcheck::option_mutator::OptionMutator;
use fuzzcheck::recursive::{recursing_ordered_arbitrary, RecursingArbitraryStep, RecursiveMutator};
use fuzzcheck::serializer::{ByteSerializer, Serializer};
use std::rc::Rc;

#[test]
fn box_mutator_passes_through() {
    let m = BoxMutator::new(U8WithinRangeMutator::new(3, 4));
    let mut step = m.default_arbitrary_step();
    assert_eq!(m.ordered_arbitrary(&mut step, 100 * COMPLEXITY_UNIT), Some((Box::new(4), 8 * COMPLEXITY_UNIT)));
    let mut v = Box::new(3u8);
    let mut mstep = m.default_mutation_step(&v, &());
    let (t, _) = m.ordered_mutate(&mut v, &mut (), &mut mstep, 100 * COMPLEXITY_UNIT).unwrap();
    assert_eq!(*v, 4);
    m.unmutate(&mut v, &mut (), t);
    assert_eq!(*v, 3);
    assert_eq!(m.validate_value(&Box::new(5)), None);
}

#[test]
fn recursive_mutator_restores_after_mutation() {
    let m = RecursiveMutator::new(Rc::new(OptionMutator::new(BoxMutator::new(U8WithinRangeMutator::new(0, 9)))));
    assert_eq!(m.max_complexity(), UNBOUNDED_COMPLEXITY);
    assert_eq!(m.min_complexity(), COMPLEXITY_UNIT);
    let mut v = Some(Box::new(5u8));
    let mut cache = m.validate_value(&v).unwrap();
    let c = m.complexity(&v, &cache);
    assert_eq!(c, 9 * COMPLEXITY_UNIT);
    for _ in 0..50 {
        let (t, _) = m.random_mutate(&mut v, &mut cache, 100 * COMPLEXITY_UNIT);
        m.unmutate(&mut v, &mut cache, t);
        assert_eq!(v, Some(Box::new(5u8)));
        assert_eq!(m.complexity(&v, &cache), c);
    }
}

#[test]
fn byte_serializer_copies_bytes() {
    let s = ByteSerializer::new("png");
    assert_eq!(s.extension(), "png");
    assert!(!s.is_utf8());
    let data = vec![1u8, 2, 255];
    assert_eq!(s.to_data(&data), data);
    assert_eq!(s.from_data(&[7u8, 8]), Some(vec![7u8, 8]));
}

#[test]
fn map_mutator_works_through_parse_and_map() {
    let m = MapMutator::new(
        U8WithinRangeMutator::new(1, 3),
        |t: &u16| if *t < 256 { Some(*t as u8) } else { None },
        |f: &u8| *f as u16 * 10,
    );
    let mut step = m.default_arbitrary_step();
    assert_eq!(m.ordered_arbitrary(&mut step, 100 * COMPLEXITY_UNIT), Some((20u16, 8 * COMPLEXITY_UNIT)));
    assert!(m.validate_value(&300u16).is_none());
    let mut v = 3u16;
    let mut cache = m.validate_value(&v).unwrap();
    assert_eq!(m.complexity(&v, &cache), 8 * COMPLEXITY_UNIT);
    let mut mstep = m.default_mutation_step(&v, &cache);
    let (t, _) = m.ordered_mutate(&mut v, &mut cache, &mut mstep, 100 * COMPLEXITY_UNIT).unwrap();
    assert_eq!(v, 20);
    m.unmutate(&mut v, &mut cache, t);
    assert_eq!(v, 30);
}

#[test]
fn and_map_mutator_keeps_companion_in_sync() {
    let m = AndMapMutator::new(U8WithinRangeMutator::new(0, 9), |f: &u8, _old: u16| *f as u16 + 1000, 0u16);
    assert!(m.validate_value(&(1005u16, 5u8)).is_some());
    assert!(m.validate_value(&(7u16, 5u8)).is_none());
    let mut v = (1005u16, 5u8);
    let mut cache = m.validate_value(&v).unwrap();
    for _ in 0..20 {
        let (t, c) = m.random_mutate(&mut v, &mut cache, 100 * COMPLEXITY_UNIT);
        assert_eq!(c, 8 * COMPLEXITY_UNIT);
        assert_eq!(v.0, v.1 as u16 + 1000);
        m.unmutate(&mut v, &mut cache, t);
        assert_eq!(v, (1005u16, 5u8));
    }
    let mut step = m.default_arbitrary_step();
    assert_eq!(m.ordered_arbitrary(&mut step, 100 * COMPLEXITY_UNIT), Some(((1004u16, 4u8), 8 * COMPLEXITY_UNIT)));
}

#[test]
fn recursing_step_is_built_on_first_use() {
    let m = U8WithinRangeMutator::new(10, 12);
    let mut step = RecursingArbitraryStep::Default;
    assert_eq!(recursing_ordered_arbitrary(&m, &mut step, 100 * COMPLEXITY_UNIT), Some((11, 8 * COMPLEXITY_UNIT)));
    assert!(matches!(step, RecursingArbitraryStep::Initialized(1)));
    assert_eq!(recursing_ordered_arbitrary(&m, &mut step, 100 * COMPLEXITY_UNIT), Some((12, 8 * COMPLEXITY_UNIT)));
    assert_eq!(recursing_ordered_arbitrary(&m, &mut step, 100 * COMPLEXITY_UNIT), Some((10, 8 * COMPLEXITY_UNIT)));
    assert_eq!(recursing_ordered_arbitrary(&m, &mut step, 100 * COMPLEXITY_UNIT), None);
    assert!(matches!(step, RecursingArbitraryStep::Initialized(3)));
    let mut fresh = RecursingArbitraryStep::Default;
    assert_eq!(recursing_ordered_arbitrary(&m, &mut fresh, 0), None);
    assert!(matches!(fresh, RecursingArbitraryStep::Initialized(0)));
}

#[test]
fn option_decisions_taken_from_drawn_booleans() {
    let m = OptionMutator::new(U8WithinRangeMutator::new(3, 3));
    assert_eq!(m.arbitrary_with(true, 100 * COMPLEXITY_UNIT), (None, COMPLEXITY_UNIT));
    assert_eq!(m.arbitrary_with(false, 100 * COMPLEXITY_UNIT), (Some(3u8), 9 * COMPLEXITY_UNIT));
    assert_eq!(m.arbitrary_with(false, 0), (None, COMPLEXITY_UNIT));
    let mut v = Some(3u8);
    let mut c = Some(());
    let (t, cplx) = m.mutate_with(&mut v, &mut c, true, 100 * COMPLEXITY_UNIT);
    assert_eq!((v, c, cplx), (None, None, COMPLEXITY_UNIT));
    m.unmutate(&mut v, &mut c, t);
    assert_eq!(v, Some(3));
    let (t, cplx) = m.mutate_with(&mut v, &mut c, false, 100 * COMPLEXITY_UNIT);
    assert_eq!((v, cplx), (Some(3), 9 * COMPLEXITY_UNIT));
    m.unmutate(&mut v, &mut c, t);
    let mut n: Option<u8> = None;
    let mut nc: Option<()> = None;
    let (t, _) = m.mutate_with(&mut n, &mut nc, true, 100 * COMPLEXITY_UNIT);
    assert_eq!(n, Some(3));
    m.unmutate(&mut n, &mut nc, t);
    assert_eq!(n, None);
}
