use pyattrs::error::PyError;
use pyattrs::keyset::KeySet;

fn set_of(keys: &[u64]) -> KeySet {
    KeySet::from_keys(keys)
}

#[test]
fn from_keys_counts_each_once_in_first_order() {
    let s = set_of(&[3, 1, 3, 2, 1]);
    assert_eq!(s.to_vec(), vec![3, 1, 2]);
    assert_eq!(s.len(), 3);
    assert!(s.contains(2));
    assert!(!s.contains(4));
}

#[test]
fn add_and_discard() {
    let mut s = set_of(&[1, 2]);
    s.add(2);
    assert_eq!(s.to_vec(), vec![1, 2]);
    s.add(5);
    assert_eq!(s.to_vec(), vec![1, 2, 5]);
    assert!(s.discard(5));
    assert!(!s.discard(5));
    assert_eq!(s.to_vec(), vec![1, 2]);
}

#[test]
fn pop_until_empty() {
    let mut s = set_of(&[4, 9]);
    let a = s.pop().unwrap();
    let b = s.pop().unwrap();
    let mut got = vec![a, b];
    got.sort();
    assert_eq!(got, vec![4, 9]);
    assert_eq!(s.pop(), Err(PyError::KeyError("pop from an empty set".to_string())));
}

#[test]
fn union_and_update() {
    let s = set_of(&[1, 2]);
    let u = s.union(&[set_of(&[2, 3]), set_of(&[4])]);
    assert_eq!(u.to_vec(), vec![1, 2, 3, 4]);
    assert_eq!(s.to_vec(), vec![1, 2]);
    let mut t = set_of(&[9]);
    t.update(&[set_of(&[9, 8])]);
    assert_eq!(t.to_vec(), vec![9, 8]);
}

#[test]
fn intersection_and_difference() {
    let s = set_of(&[1, 2, 3, 4]);
    let others = [set_of(&[4, 2, 7]), set_of(&[2, 4, 1])];
    assert_eq!(s.intersection(&others).to_vec(), vec![2, 4]);
    assert_eq!(s.difference(&others).to_vec(), vec![3]);
    assert_eq!(s.intersection(&[]).to_vec(), vec![1, 2, 3, 4]);
    let mut t = s.copy();
    t.intersection_update(&[set_of(&[3, 1])]);
    assert_eq!(t.to_vec(), vec![1, 3]);
    let mut t = s.copy();
    t.difference_update(&[set_of(&[3, 1])]);
    assert_eq!(t.to_vec(), vec![2, 4]);
}

#[test]
fn symmetric_difference_orders_each_side() {
    let a = set_of(&[1, 2, 3]);
    let b = set_of(&[5, 3, 4]);
    assert_eq!(a.symmetric_difference(&b).to_vec(), vec![1, 2, 5, 4]);
    let mut c = a.copy();
    c.symmetric_difference_update(&b);
    let mut got = c.to_vec();
    got.sort();
    assert_eq!(got, vec![1, 2, 4, 5]);
    c.symmetric_difference_update(&b);
    let mut back = c.to_vec();
    back.sort();
    assert_eq!(back, vec![1, 2, 3]);
}

#[test]
fn subset_superset_disjoint() {
    let a = set_of(&[1, 2]);
    let b = set_of(&[2, 1, 3]);
    assert!(a.issubset(&b));
    assert!(!b.issubset(&a));
    assert!(b.issuperset(&a));
    assert!(!a.isdisjoint(&b));
    assert!(a.isdisjoint(&set_of(&[7])));
    assert!(KeySet::new().issubset(&a));
}

#[test]
fn set_sizeof_formula() {
    assert_eq!(set_of(&[]).sizeof(), 72);
    assert_eq!(set_of(&[1, 2, 3]).sizeof(), 96);
}
