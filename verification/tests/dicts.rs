use pyattrs::error::PyError;
use pyattrs::keydict::KeyDict;

fn dict_of(pairs: &[(u64, i32)]) -> KeyDict<i32> {
    let mut d = KeyDict::new();
    d.update_pairs(pairs);
    d
}

#[test]
fn set_keeps_place_of_existing_key() {
    let mut d = dict_of(&[(1, 10), (2, 20)]);
    d.set(1, 11);
    d.set(3, 30);
    assert_eq!(d.items(), vec![(1, 11), (2, 20), (3, 30)]);
    assert_eq!(d.len(), 3);
    assert!(d.contains(3));
    assert!(!d.contains(4));
}

#[test]
fn get_with_default() {
    let d = dict_of(&[(1, 10)]);
    assert_eq!(d.get(1, -1), 10);
    assert_eq!(d.get(2, -1), -1);
}

#[test]
fn pop_with_and_without_default() {
    let mut d = dict_of(&[(1, 10), (2, 20)]);
    assert_eq!(d.pop(1, None), Some(10));
    assert_eq!(d.pop(1, Some(7)), Some(7));
    assert_eq!(d.pop(1, None), None);
    assert_eq!(d.items(), vec![(2, 20)]);
}

#[test]
fn popitem_takes_last_then_raises() {
    let mut d = dict_of(&[(1, 10), (2, 20)]);
    assert_eq!(d.popitem(), Ok((2, 20)));
    assert_eq!(d.popitem(), Ok((1, 10)));
    assert_eq!(
        d.popitem(),
        Err(PyError::KeyError("popitem(): dictionary is empty".to_string()))
    );
}

#[test]
fn setdefault_binds_only_missing() {
    let mut d = dict_of(&[(1, 10)]);
    assert_eq!(d.setdefault(1, 99), 10);
    assert_eq!(d.setdefault(2, 99), 99);
    assert_eq!(d.items(), vec![(1, 10), (2, 99)]);
}

#[test]
fn merge_prefers_right_keeps_left_order() {
    let a = dict_of(&[(1, 10), (2, 20)]);
    let b = dict_of(&[(2, 21), (3, 30)]);
    let m = a.merged(&b);
    assert_eq!(m.items(), vec![(1, 10), (2, 21), (3, 30)]);
    assert_eq!(a.items(), vec![(1, 10), (2, 20)]);
}

#[test]
fn update_from_pairs_later_wins() {
    let mut d = dict_of(&[]);
    d.update_pairs(&[(5, 1), (6, 2), (5, 3)]);
    assert_eq!(d.items(), vec![(5, 3), (6, 2)]);
    let mut e = dict_of(&[(6, 0)]);
    e.update_from(&d);
    assert_eq!(e.items(), vec![(6, 2), (5, 3)]);
}

#[test]
fn fromkeys_copy_clear_sizeof() {
    let d = KeyDict::fromkeys(&[4, 2, 4], 0);
    assert_eq!(d.items(), vec![(4, 0), (2, 0)]);
    let mut c = d.copy();
    assert_eq!(c.items(), d.items());
    assert_eq!(c.sizeof(), 104);
    c.clear();
    assert_eq!(c.len(), 0);
    assert_eq!(c.sizeof(), 72);
}
