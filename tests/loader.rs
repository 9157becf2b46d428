use driftwatch::loader::BatchResolver;
use std::collections::HashSet;

fn set(v: &[u128]) -> HashSet<u128> {
    v.iter().copied().collect()
}

#[test]
fn overlapping_loads_fetch_each_id_once() {
    let (a, b, c, d) = (1u128, 2u128, 3u128, 4u128);
    let mut r: BatchResolver<&str> = BatchResolver::new();

    let first = vec![a, b, c];
    let plan = r.keys_to_fetch(&first);
    assert_eq!(set(&plan), set(&[a, b, c]));
    assert_eq!(plan.len(), 3);
    // Row for `b` is missing from the store.
    r.absorb(&plan, vec![(a, "A"), (c, "C")]);

    let second = vec![b, c, d];
    let plan = r.keys_to_fetch(&second);
    assert_eq!(plan, vec![d]);
    r.absorb(&plan, vec![(d, "D")]);

    let m = r.lookup(&second);
    assert_eq!(m.len(), 2);
    assert_eq!(m.get(&c), Some(&&"C"));
    assert_eq!(m.get(&d), Some(&&"D"));
    assert!(!m.contains_key(&b));
    assert!(!m.contains_key(&a));
}

#[test]
fn duplicate_keys_are_fetched_once() {
    let r: BatchResolver<u8> = BatchResolver::new();
    let plan = r.keys_to_fetch(&vec![9, 9, 8, 9, 8]);
    assert_eq!(plan.len(), 2);
    assert_eq!(set(&plan), set(&[8, 9]));
}

#[test]
fn nothing_pending_after_everything_fetched() {
    let mut r: BatchResolver<u8> = BatchResolver::new();
    let keys = vec![5, 6];
    let plan = r.keys_to_fetch(&keys);
    r.absorb(&plan, vec![]);
    assert!(r.keys_to_fetch(&keys).is_empty());
    assert!(r.lookup(&keys).is_empty());
}

#[test]
fn later_row_for_an_id_wins() {
    let mut r: BatchResolver<u8> = BatchResolver::new();
    r.absorb(&vec![1], vec![(1, 10), (1, 11)]);
    assert_eq!(r.lookup(&vec![1]).get(&1), Some(&&11));
    assert!(r.lookup(&vec![]).is_empty());
}
