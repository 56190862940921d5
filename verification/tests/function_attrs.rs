use pyattrs::attrmap::{AttrMap, Value};
use pyattrs::func_attrs::{keyword_defaults, positional_defaults};

#[test]
fn defaults_split_between_positional_and_keyword_only() {
    let defaults = vec![10, 20, 30];
    let mask = vec![true, false, true];
    assert_eq!(positional_defaults(&defaults, &mask), Some(vec![10]));
    let names = vec!["x", "y", "a", "b", "c"];
    assert_eq!(
        keyword_defaults(&defaults, &mask, &names, 2),
        Some(vec![("a", 20), ("c", 30)])
    );
}

#[test]
fn no_positional_defaults_is_none() {
    let defaults = vec![1];
    let mask = vec![true];
    assert_eq!(positional_defaults(&defaults, &mask), None);
    assert_eq!(positional_defaults::<i32>(&vec![], &vec![]), None);
}

#[test]
fn no_keyword_only_defaults_is_none() {
    let defaults = vec![1, 2];
    let mask = vec![false, false];
    assert_eq!(keyword_defaults(&defaults, &mask, &vec!["p", "q"], 0), None);
    assert_eq!(positional_defaults(&defaults, &mask), Some(vec![1, 2]));
}

#[test]
fn keyword_default_with_missing_name_is_dropped() {
    let defaults = vec![5, 6];
    let mask = vec![true, true];
    let names = vec!["a"];
    assert_eq!(keyword_defaults(&defaults, &mask, &names, 0), Some(vec![("a", 5)]));
}

#[test]
fn function_dict_hides_dunder_names() {
    let mut d = AttrMap::new();
    d.insert("__name__", Value::Str("f".to_string()));
    d.insert("custom", Value::Int(1));
    d.insert("__x", Value::Int(2));
    d.insert("__doc__", Value::PyNone);
    let u = d.without_dunders();
    assert_eq!(u.get("custom"), Some(Value::Int(1)));
    assert_eq!(u.get("__x"), Some(Value::Int(2)));
    assert_eq!(u.get("__name__"), None);
    assert_eq!(u.get("__doc__"), None);
    assert_eq!(u.names().len(), 2);
    assert_eq!(u.names(), vec!["custom".to_string(), "__x".to_string()]);
}

#[test]
fn namespace_names_keep_binding_order() {
    let mut d = AttrMap::new();
    d.insert("b", Value::Int(1));
    d.insert("a", Value::Int(2));
    d.insert("c", Value::Int(3));
    d.insert("a", Value::Int(4));
    assert_eq!(d.names(), vec!["b".to_string(), "a".to_string(), "c".to_string()]);
    assert_eq!(d.remove("b"), Some(Value::Int(1)));
    assert_eq!(d.names(), vec!["a".to_string(), "c".to_string()]);
    d.insert("b", Value::Int(5));
    assert_eq!(d.names(), vec!["a".to_string(), "c".to_string(), "b".to_string()]);
}
