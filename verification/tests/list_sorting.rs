use pyattrs::list_sort::{apply_order, SortState};

fn sort_keys(keys: &[i32], reverse: bool) -> Vec<usize> {
    let mut s = SortState::start(keys.len(), reverse);
    while let Some((a, b)) = s.question() {
        let less = keys[a] < keys[b];
        s = s.answer(less);
    }
    s.result()
}

#[test]
fn ascending_sort_is_stable() {
    let keys = [3, 1, 2, 1, 3];
    let order = sort_keys(&keys, false);
    assert_eq!(order, vec![1, 3, 2, 0, 4]);
    let items = vec!['a', 'b', 'c', 'd', 'e'];
    assert_eq!(apply_order(&items, &order), vec!['b', 'd', 'c', 'a', 'e']);
}

#[test]
fn descending_sort_keeps_equal_keys_in_order() {
    let keys = [3, 1, 2, 1, 3];
    assert_eq!(sort_keys(&keys, true), vec![0, 4, 2, 1, 3]);
}

#[test]
fn empty_and_single_sorts_ask_nothing() {
    let s = SortState::start(0, false);
    assert!(s.question().is_none());
    assert!(s.result().is_empty());
    let s = SortState::start(1, false);
    assert!(s.question().is_none());
    assert_eq!(s.result(), vec![0]);
}

#[test]
fn inconsistent_answers_still_give_every_position_once() {
    let mut s = SortState::start(4, false);
    let mut flip = false;
    while s.question().is_some() {
        flip = !flip;
        s = s.answer(flip);
    }
    let mut order = s.result();
    order.sort();
    assert_eq!(order, vec![0, 1, 2, 3]);
}
