use pyattrs::error::PyError;
use pyattrs::list::{gather_step, list_clear, list_extend, list_init, Gather, NextEvent};

#[test]
fn gathering_keeps_items_until_exhausted() {
    let mut items: Vec<i32> = Vec::new();
    assert_eq!(gather_step(&mut items, NextEvent::Item(1)), Gather::More);
    assert_eq!(gather_step(&mut items, NextEvent::Item(2)), Gather::More);
    assert_eq!(gather_step(&mut items, NextEvent::Exhausted), Gather::Done);
    assert_eq!(items, vec![1, 2]);
}

#[test]
fn gathering_stops_on_an_error() {
    let mut items = vec![7];
    let raised = PyError::TypeError("'int' object is not iterable".to_string());
    let expected = PyError::TypeError("'int' object is not iterable".to_string());
    assert_eq!(gather_step(&mut items, NextEvent::Raised(raised)), Gather::Failed(expected));
    assert_eq!(items, vec![7]);
}

#[test]
fn extend_appends_in_order() {
    let mut list = vec![1, 2];
    list_extend(&mut list, vec![3, 4]);
    assert_eq!(list, vec![1, 2, 3, 4]);
    list_extend(&mut list, Vec::new());
    assert_eq!(list, vec![1, 2, 3, 4]);
}

#[test]
fn clear_and_init_replace_contents() {
    let mut list = vec![1, 2, 3];
    list_init(&mut list, Some(vec![9]));
    assert_eq!(list, vec![9]);
    list_init(&mut list, None);
    assert!(list.is_empty());
    let mut other = vec![5];
    list_clear(&mut other);
    assert!(other.is_empty());
}
