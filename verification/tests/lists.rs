use pyattrs::bigint::BigIntValue;
use pyattrs::error::PyError;
use pyattrs::list::{
    check_list_not_modified, list_append, list_contains, list_count, list_delitem, list_imul,
    list_index, list_insert, list_pop, list_remove, list_reverse, list_reversed, list_setitem,
    list_sizeof, Probe,
};

fn small(v: i64) -> BigIntValue {
    BigIntValue::new(v)
}

fn huge() -> BigIntValue {
    BigIntValue::from_words(false, &[0, 1])
}

fn probes(marks: &str) -> Vec<Probe> {
    marks
        .chars()
        .map(|c| match c {
            'y' => Probe::Match,
            'e' => Probe::Raised(PyError::RuntimeError("boom".to_string())),
            _ => Probe::Miss,
        })
        .collect()
}

#[test]
fn list_append_then_pop_restores() {
    let mut l = vec![1, 2];
    list_append(&mut l, 9);
    assert_eq!(list_pop(&mut l, None), Ok(9));
    assert_eq!(l, vec![1, 2]);
}

#[test]
fn pop_from_empty_list() {
    let mut l: Vec<i32> = vec![];
    assert_eq!(list_pop(&mut l, None), Err(PyError::IndexError("pop from empty list".to_string())));
}

#[test]
fn pop_with_index() {
    let mut l = vec![10, 20, 30, 40];
    assert_eq!(list_pop(&mut l, Some(1)), Ok(20));
    assert_eq!(list_pop(&mut l, Some(-1)), Ok(40));
    assert_eq!(l, vec![10, 30]);
    assert_eq!(
        list_pop(&mut l, Some(2)),
        Err(PyError::IndexError("pop index out of range".to_string()))
    );
    assert_eq!(
        list_pop(&mut l, Some(-3)),
        Err(PyError::IndexError("pop index out of range".to_string()))
    );
    assert_eq!(l, vec![10, 30]);
}

#[test]
fn insert_clamps_both_ends() {
    let mut l = vec![1, 2, 3];
    list_insert(&mut l, -1, 9);
    assert_eq!(l, vec![1, 2, 9, 3]);
    list_insert(&mut l, -100, 0);
    assert_eq!(l, vec![0, 1, 2, 9, 3]);
    list_insert(&mut l, 100, 7);
    assert_eq!(l, vec![0, 1, 2, 9, 3, 7]);
    list_insert(&mut l, 1, 5);
    assert_eq!(l, vec![0, 5, 1, 2, 9, 3, 7]);
}

#[test]
fn insert_then_pop_restores() {
    let mut l = vec![1, 2, 3];
    list_insert(&mut l, 2, 8);
    assert_eq!(list_pop(&mut l, Some(2)), Ok(8));
    assert_eq!(l, vec![1, 2, 3]);
}

#[test]
fn setitem_in_and_out_of_range() {
    let mut l = vec![1, 2, 3];
    assert_eq!(list_setitem(&mut l, &small(-1), 30), Ok(()));
    assert_eq!(list_setitem(&mut l, &small(0), 10), Ok(()));
    assert_eq!(l, vec![10, 2, 30]);
    assert_eq!(
        list_setitem(&mut l, &small(3), 0),
        Err(PyError::IndexError("list assignment index out of range".to_string()))
    );
    assert_eq!(
        list_setitem(&mut l, &huge(), 0),
        Err(PyError::IndexError("list index out of range".to_string()))
    );
    assert_eq!(l, vec![10, 2, 30]);
}

#[test]
fn delitem_in_and_out_of_range() {
    let mut l = vec![1, 2, 3];
    assert_eq!(list_delitem(&mut l, &small(-3)), Ok(()));
    assert_eq!(l, vec![2, 3]);
    assert_eq!(
        list_delitem(&mut l, &small(2)),
        Err(PyError::IndexError("list index out of range".to_string()))
    );
    assert_eq!(
        list_delitem(&mut l, &huge()),
        Err(PyError::IndexError("list index out of range".to_string()))
    );
    assert_eq!(l, vec![2, 3]);
}

#[test]
fn reverse_in_place_and_reversed_copy() {
    let mut l = vec![1, 2, 3, 4];
    assert_eq!(list_reversed(&l), vec![4, 3, 2, 1]);
    list_reverse(&mut l);
    assert_eq!(l, vec![4, 3, 2, 1]);
    list_reverse(&mut l);
    assert_eq!(l, vec![1, 2, 3, 4]);
    let mut e: Vec<i32> = vec![];
    list_reverse(&mut e);
    assert!(e.is_empty());
}

#[test]
fn imul_repeats_in_place() {
    let mut l = vec![1, 2];
    list_imul(&mut l, Some(&small(3)));
    assert_eq!(l, vec![1, 2, 1, 2, 1, 2]);
    list_imul(&mut l, Some(&small(1)));
    assert_eq!(l.len(), 6);
    list_imul(&mut l, Some(&small(-2)));
    assert!(l.is_empty());
}

#[test]
fn imul_with_non_integer_or_huge_count_clears() {
    let mut l = vec![1, 2];
    list_imul(&mut l, None);
    assert!(l.is_empty());
    let mut l = vec![1, 2];
    list_imul(&mut l, Some(&huge()));
    assert!(l.is_empty());
}

#[test]
fn sizeof_formula() {
    assert_eq!(list_sizeof(0), 56);
    assert_eq!(list_sizeof(3), 80);
}

#[test]
fn index_finds_first_match_in_range() {
    assert_eq!(list_index(probes("nyny"), None, None, "x"), Ok(1));
    assert_eq!(list_index(probes("nyny"), Some(&small(2)), None, "x"), Ok(3));
    assert_eq!(list_index(probes("nyny"), Some(&small(-1)), None, "x"), Ok(3));
    assert_eq!(
        list_index(probes("nyny"), Some(&small(2)), Some(&small(3)), "x"),
        Err(PyError::ValueError("x is not in list".to_string()))
    );
    assert_eq!(
        list_index(probes("yyyy"), Some(&small(3)), Some(&small(1)), "7"),
        Err(PyError::ValueError("7 is not in list".to_string()))
    );
    assert_eq!(list_index(probes("nnny"), Some(&BigIntValue::from_words(true, &[0, 1])), Some(&huge()), "x"), Ok(3));
}

#[test]
fn index_propagates_a_raising_comparison() {
    assert_eq!(
        list_index(probes("neyn"), None, None, "x"),
        Err(PyError::RuntimeError("boom".to_string()))
    );
    assert_eq!(list_index(probes("nyen"), None, None, "x"), Ok(1));
}

#[test]
fn count_matches_or_raises() {
    assert_eq!(list_count(probes("ynyy")), Ok(3));
    assert_eq!(list_count(probes("")), Ok(0));
    assert_eq!(list_count(probes("yyen")), Err(PyError::RuntimeError("boom".to_string())));
}

#[test]
fn remove_first_match() {
    let mut l = vec![5, 6, 5];
    assert_eq!(list_remove(&mut l, probes("yny"), "5"), Ok(()));
    assert_eq!(l, vec![6, 5]);
    assert_eq!(
        list_remove(&mut l, probes("nn"), "9"),
        Err(PyError::ValueError("9 is not in list".to_string()))
    );
    assert_eq!(
        list_remove(&mut l, probes("ey"), "5"),
        Err(PyError::RuntimeError("boom".to_string()))
    );
    assert_eq!(l, vec![6, 5]);
}

#[test]
fn contains_matches_or_raises() {
    assert_eq!(list_contains(probes("nny")), Ok(true));
    assert_eq!(list_contains(probes("nnn")), Ok(false));
    assert_eq!(list_contains(probes("ney")), Err(PyError::RuntimeError("boom".to_string())));
}

#[test]
fn sort_detects_length_change() {
    let l = vec![1, 2, 3];
    assert_eq!(check_list_not_modified(Some(&l), 3), Ok(()));
    assert_eq!(
        check_list_not_modified(Some(&l), 2),
        Err(PyError::ValueError("list modified during sort".to_string()))
    );
    assert_eq!(check_list_not_modified::<i32>(None, 2), Ok(()));
}

#[test]
fn list_iterator_length_hint() {
    assert_eq!(pyattrs::list::list_iter_length_hint(5, 2), 3);
    assert_eq!(pyattrs::list::list_iter_length_hint(5, 7), 0);
}
