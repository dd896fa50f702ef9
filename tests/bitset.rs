use fuzzcheck::bitset::FixedBitSet;

fn ones_of(set: &FixedBitSet) -> Vec<usize> {
    let mut ones = set.ones();
    let mut r = Vec::new();
    while let Some(i) = ones.next() {
        r.push(i);
    }
    r
}

fn set_of(len: usize, bits: &[usize]) -> FixedBitSet {
    let mut s = FixedBitSet::with_capacity(len);
    for &b in bits {
        s.insert(b);
    }
    s
}

#[test]
fn ones_of_long_set() {
    let mut s = FixedBitSet::with_capacity(130);
    s.insert(0);
    s.insert(64);
    s.insert(129);
    assert_eq!(ones_of(&s), vec![0, 64, 129]);
    assert_eq!(s.count_ones(), 3);
    s.grow(200);
    assert_eq!(s.len(), 200);
    assert_eq!(s.count_ones(), 3);
    assert_eq!(ones_of(&s), vec![0, 64, 129]);
    assert!(s.contains(129));
    assert!(!s.contains(130));
}

#[test]
fn new_set_is_empty() {
    let s = FixedBitSet::new();
    assert!(s.is_empty());
    assert_eq!(s.len(), 0);
    assert_eq!(s.count_ones(), 0);
    assert!(!s.contains(0));
    assert_eq!(ones_of(&s), Vec::<usize>::new());
}

#[test]
fn with_capacity_blocks() {
    let s = FixedBitSet::with_capacity(65);
    assert_eq!(s.len(), 65);
    assert_eq!(s.as_slice(), &[0u64, 0u64]);
    let s = FixedBitSet::with_capacity(64);
    assert_eq!(s.as_slice().len(), 1);
}

#[test]
fn put_toggle_and_clear() {
    let mut s = FixedBitSet::with_capacity(10);
    assert!(!s.put(3));
    assert!(s.put(3));
    s.toggle(3);
    assert!(!s.contains(3));
    s.toggle(9);
    assert!(s.contains(9));
    assert_eq!(s.as_slice(), &[1u64 << 9]);
    s.clear();
    assert_eq!(s.count_ones(), 0);
    assert_eq!(s.len(), 10);
}

#[test]
fn grow_smaller_changes_nothing() {
    let mut s = set_of(100, &[99]);
    s.grow(50);
    assert_eq!(s.len(), 100);
    assert_eq!(ones_of(&s), vec![99]);
}

#[test]
fn union_grows() {
    let mut a = set_of(10, &[1, 2]);
    let b = set_of(100, &[2, 70]);
    a.union_with(&b);
    assert_eq!(a.len(), 100);
    assert_eq!(ones_of(&a), vec![1, 2, 70]);
}

#[test]
fn intersection_keeps_length() {
    let mut a = set_of(130, &[1, 2, 100, 129]);
    let b = set_of(64, &[2, 3]);
    a.intersect_with(&b);
    assert_eq!(a.len(), 130);
    assert_eq!(ones_of(&a), vec![2]);
    assert_eq!(a.as_slice(), &[1u64 << 2, 0, 0]);
}

#[test]
fn difference_keeps_length() {
    let mut a = set_of(70, &[1, 2, 65]);
    let b = set_of(200, &[2, 65, 150]);
    a.difference_with(&b);
    assert_eq!(a.len(), 70);
    assert_eq!(ones_of(&a), vec![1]);
}

#[test]
fn symmetric_difference_grows() {
    let mut a = set_of(10, &[1, 2]);
    let b = set_of(80, &[2, 79]);
    a.symmetric_difference_with(&b);
    assert_eq!(a.len(), 80);
    assert_eq!(ones_of(&a), vec![1, 79]);
    assert_eq!(a.count_ones(), 2);
}
