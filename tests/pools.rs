use fuzzcheck::failure_pool::{TestFailure, TestFailurePool, TestFailureSensor};
use fuzzcheck::mutator::COMPLEXITY_UNIT;
use fuzzcheck::pool::{complexity_string, decimal_string, CorpusDelta, PoolStorageIndex};
use fuzzcheck::unique_values_pool::UniqueValuesPool;

fn cplx(c: f64) -> u64 {
    (c * COMPLEXITY_UNIT as f64).round() as u64
}

fn failure(id: u64, display: &str) -> Option<TestFailure> {
    Some(TestFailure { display: display.to_string(), id })
}

fn path_of(delta: &CorpusDelta) -> String {
    delta.path.join("/")
}

#[test]
fn unique_values_pool_keeps_least_complex_input() {
    let x = 'x' as u64;
    let mut pool = UniqueValuesPool::new("uvp", 2);
    let a = PoolStorageIndex(1);
    let b = PoolStorageIndex(2);
    let c = PoolStorageIndex(3);

    let deltas = pool.process(a, &vec![(0, x)], 5);
    assert_eq!(deltas.len(), 1);
    assert!(deltas[0].add);
    assert_eq!(path_of(&deltas[0]), "uvp");
    assert!(deltas[0].remove.is_empty());
    assert_eq!(pool.ranked_test_cases(), vec![(a, 1)]);

    let deltas = pool.process(b, &vec![(0, x)], 4);
    assert_eq!(deltas.len(), 1);
    assert_eq!(deltas[0].remove, vec![a]);
    assert_eq!(pool.ranked_test_cases(), vec![(b, 1)]);
    assert_eq!(pool.stats().size, 1);

    let deltas = pool.process(c, &vec![(0, x)], 4);
    assert!(deltas.is_empty());
    assert_eq!(pool.ranked_test_cases(), vec![(b, 1)]);
}

#[test]
fn unique_values_pool_scores_and_partial_eviction() {
    let mut pool = UniqueValuesPool::new("p", 3);
    let a = PoolStorageIndex(10);
    let b = PoolStorageIndex(11);
    let deltas = pool.process(a, &vec![(0, 1), (1, 7), (1, 7), (2, 9)], 10);
    assert_eq!(deltas.len(), 1);
    assert_eq!(pool.ranked_test_cases(), vec![(a, 3)]);
    let deltas = pool.process(b, &vec![(1, 7)], 3);
    assert!(deltas[0].remove.is_empty());
    let ranked = pool.ranked_test_cases();
    assert_eq!(ranked, vec![(a, 2), (b, 1)]);
    let deltas = pool.process(PoolStorageIndex(12), &vec![(0, 1), (2, 9), (1, 7)], 3);
    assert_eq!(deltas[0].remove, vec![a]);
    assert_eq!(pool.ranked_test_cases(), vec![(b, 1), (PoolStorageIndex(12), 2)]);
    assert_eq!(pool.stats().size, 2);
    assert_eq!(pool.stats().name, "p");
}

#[test]
fn failure_pool_keeps_smallest_reproducers() {
    let mut pool = TestFailurePool::new("failures");
    let deltas = pool.process(PoolStorageIndex(0), failure(1, "boom"), cplx(10.0));
    assert_eq!(deltas.len(), 1);
    assert_eq!(path_of(&deltas[0]), "failures/1/10.0000");
    assert!(deltas[0].add && deltas[0].remove.is_empty());
    let deltas = pool.process(PoolStorageIndex(1), failure(1, "boom"), cplx(7.5));
    assert_eq!(path_of(&deltas[0]), "failures/1/7.5000");
    let deltas = pool.process(PoolStorageIndex(2), failure(1, "boom"), cplx(7.5));
    assert_eq!(deltas.len(), 1);
    assert_eq!(
        pool.ranked_test_cases(),
        vec![(PoolStorageIndex(1), 1), (PoolStorageIndex(2), 1)]
    );
    let deltas = pool.process(PoolStorageIndex(3), failure(1, "boom"), cplx(9.0));
    assert!(deltas.is_empty());
    for i in 0..9 {
        pool.process(PoolStorageIndex(10 + i), failure(1, "boom"), cplx(7.5));
    }
    let ranked = pool.ranked_test_cases();
    assert_eq!(ranked.len(), 8);
    assert_eq!(ranked[7], (PoolStorageIndex(15), 1));
    assert_eq!(pool.stats().count, 1);
}

#[test]
fn failure_pool_separates_failures() {
    let mut pool = TestFailurePool::new("f");
    assert!(pool.process(PoolStorageIndex(0), None, 5).is_empty());
    pool.process(PoolStorageIndex(1), failure(1, "a"), cplx(3.0));
    pool.process(PoolStorageIndex(2), failure(2, "a"), cplx(4.0));
    assert_eq!(pool.stats().count, 2);
    // same complexity, but another failure is shown the same way
    let deltas = pool.process(PoolStorageIndex(3), failure(1, "a"), cplx(3.0));
    assert!(deltas.is_empty());
    let deltas = pool.process(PoolStorageIndex(4), failure(2, "a"), cplx(1.25));
    assert_eq!(path_of(&deltas[0]), "f/2/1.2500");
    assert_eq!(
        pool.ranked_test_cases(),
        vec![(PoolStorageIndex(1), 1), (PoolStorageIndex(4), 1)]
    );
}

#[test]
fn sensor_does_not_leak_earlier_failures() {
    let mut sensor = TestFailureSensor::new();
    let mut slot = failure(3, "old");
    sensor.start_recording(&mut slot);
    assert!(slot.is_none());
    sensor.stop_recording(&slot);
    assert!(sensor.get_observations().is_none());

    sensor.start_recording(&mut slot);
    slot = failure(4, "new");
    sensor.stop_recording(&slot);
    let seen = sensor.get_observations().unwrap();
    assert_eq!(seen.id, 4);
    assert_eq!(seen.display, "new");
    assert!(sensor.get_observations().is_none());
}

#[test]
fn number_notations() {
    assert_eq!(decimal_string(0), "0");
    assert_eq!(decimal_string(1234567890), "1234567890");
    assert_eq!(decimal_string(u64::MAX), "18446744073709551615");
    assert_eq!(complexity_string(75000), "7.5000");
    assert_eq!(complexity_string(3), "0.0003");
    assert_eq!(complexity_string(123456789), "12345.6789");
}
