use pyattrs::arg_checks::{
    deque_args_check, dict_args_check, frozenset_args_check, list_args_check, set_args_check,
    str_args_check,
};
use pyattrs::error::PyError;

fn type_error(m: &str) -> Result<(), PyError> {
    Err(PyError::TypeError(m.to_string()))
}

#[test]
fn list_method_argument_counts() {
    assert_eq!(list_args_check("insert", 1), type_error("insert() takes exactly 2 arguments"));
    assert_eq!(list_args_check("insert", 2), Ok(()));
    assert_eq!(list_args_check("clear", 12), type_error("clear() takes no arguments (12 given)"));
    assert_eq!(list_args_check("clear", 0), Ok(()));
    assert_eq!(list_args_check("count", 0), type_error("count() takes exactly one argument (0 given)"));
    assert_eq!(list_args_check("__iadd__", 2), type_error("__iadd__() takes exactly one argument (2 given)"));
    assert_eq!(list_args_check("pop", 2), type_error("pop() takes at most one argument (2 given)"));
    assert_eq!(list_args_check("pop", 1), Ok(()));
    assert_eq!(list_args_check("append", 0), type_error("append() takes exactly one argument"));
    assert_eq!(list_args_check("__mul__", 0), type_error("__mul__() missing argument"));
    assert_eq!(list_args_check("__getitem__", 0), type_error("__getitem__() takes exactly 1 argument"));
    assert_eq!(list_args_check("index", 0), type_error("index() takes at least 1 argument"));
    assert_eq!(list_args_check("index", 3), Ok(()));
}

#[test]
fn dict_method_argument_counts() {
    assert_eq!(dict_args_check("popitem", 1), type_error("dict.popitem() takes no arguments (1 given)"));
    assert_eq!(dict_args_check("popitem", 0), Ok(()));
    assert_eq!(dict_args_check("get", 0), type_error("get() takes at least 1 argument"));
    assert_eq!(dict_args_check("get", 2), Ok(()));
    assert_eq!(dict_args_check("__setitem__", 1), type_error("__setitem__() takes exactly 2 arguments"));
    assert_eq!(dict_args_check("move_to_end", 0), type_error("move_to_end() needs a key argument"));
    assert_eq!(dict_args_check("__or__", 0), type_error("__or__() takes exactly one argument"));
}

#[test]
fn str_method_arguments() {
    assert_eq!(str_args_check("count", 1, Some("int")), type_error("count() argument must be str, not int"));
    assert_eq!(str_args_check("count", 0, None), type_error("count() takes at least 1 argument"));
    assert_eq!(str_args_check("count", 3, Some("str")), Ok(()));
    assert_eq!(str_args_check("upper", 1, Some("int")), type_error("upper() takes no arguments (1 given)"));
    assert_eq!(str_args_check("upper", 0, None), Ok(()));
    assert_eq!(str_args_check("strip", 1, Some("int")), type_error("strip() argument must be str or None, not int"));
    assert_eq!(str_args_check("strip", 1, Some("NoneType")), Ok(()));
    assert_eq!(str_args_check("strip", 2, Some("str")), type_error("strip() takes at most 1 argument (2 given)"));
    assert_eq!(str_args_check("replace", 1, Some("str")), type_error("replace() takes exactly 2 arguments"));
    assert_eq!(str_args_check("removeprefix", 1, Some("bytes")), type_error("removeprefix() argument must be str, not bytes"));
    assert_eq!(str_args_check("removesuffix", 2, Some("str")), type_error("removesuffix() takes exactly one argument"));
    assert_eq!(str_args_check("center", 0, None), type_error("center() takes exactly 1 argument"));
    assert_eq!(str_args_check("join", 1, Some("list")), Ok(()));
}

#[test]
fn set_frozenset_and_deque_argument_counts() {
    assert_eq!(set_args_check("add", 0), type_error("add() takes exactly one argument"));
    assert_eq!(set_args_check("union", 0), type_error("union() takes at least 1 argument"));
    assert_eq!(set_args_check("union", 3), Ok(()));
    assert_eq!(frozenset_args_check("issubset", 0), type_error("issubset requires 1 argument"));
    assert_eq!(frozenset_args_check("isdisjoint", 0), type_error("isdisjoint() takes exactly one argument"));
    assert_eq!(deque_args_check("pop", 2), type_error("pop() takes no arguments (1 given)"));
    assert_eq!(deque_args_check("rotate", 2), type_error("rotate() takes at most one argument"));
    assert_eq!(deque_args_check("rotate", 1), Ok(()));
    assert_eq!(deque_args_check("count", 2), type_error("count() takes exactly one argument"));
    assert_eq!(deque_args_check("insert", 1), type_error("insert() takes exactly 2 arguments"));
}
