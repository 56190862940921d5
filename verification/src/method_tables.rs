//! The method tables of built-in value types: which attribute names a
//! value of each type answers with a built-in method, which it reads from
//! its own state, and which it refuses.

use vstd::prelude::*;
use crate::attrmap::{Value, ValueView};
use crate::error::{PyError, PyErrorView};
use crate::object::{Attr, AttrView, found, attribute_error, no_attr_message, no_attr_msg, str_is, result_view};
use crate::strtable::{str_attr_of, str_attribute};

verus! {

/// The built-in methods of `list` values.
pub open spec fn list_method(n: Seq<char>) -> bool {
    n == "__iadd__"@
        || n == "__init__"@
        || n == "__imul__"@
        || n == "__mul__"@
        || n == "__rmul__"@
        || n == "append"@
        || n == "__iter__"@
        || n == "__len__"@
        || n == "__contains__"@
        || n == "__getitem__"@
        || n == "__setitem__"@
        || n == "__delitem__"@
        || n == "pop"@
        || n == "extend"@
        || n == "clear"@
        || n == "reverse"@
        || n == "remove"@
        || n == "index"@
        || n == "count"@
        || n == "sort"@
        || n == "insert"@
        || n == "copy"@
        || n == "__reversed__"@
        || n == "__sizeof__"@
}

/// The built-in methods of `deque` values.
pub open spec fn deque_method(n: Seq<char>) -> bool {
    n == "__init__"@
        || n == "append"@
        || n == "appendleft"@
        || n == "pop"@
        || n == "popleft"@
        || n == "extend"@
        || n == "extendleft"@
        || n == "clear"@
        || n == "rotate"@
        || n == "count"@
        || n == "index"@
        || n == "insert"@
        || n == "remove"@
        || n == "reverse"@
        || n == "copy"@
        || n == "__copy__"@
        || n == "__reversed__"@
        || n == "__sizeof__"@
        || n == "__contains__"@
        || n == "__getitem__"@
        || n == "__setitem__"@
        || n == "__delitem__"@
}

/// The attributes a `deque` value reads from its own state.
pub open spec fn deque_data(n: Seq<char>) -> bool {
    n == "maxlen"@
}

/// The built-in methods of `dict` values.
pub open spec fn dict_method(n: Seq<char>) -> bool {
    n == "keys"@
        || n == "values"@
        || n == "items"@
        || n == "get"@
        || n == "pop"@
        || n == "popitem"@
        || n == "clear"@
        || n == "update"@
        || n == "setdefault"@
        || n == "copy"@
        || n == "fromkeys"@
        || n == "__sizeof__"@
        || n == "__contains__"@
        || n == "__getitem__"@
        || n == "__setitem__"@
        || n == "__delitem__"@
        || n == "move_to_end"@
        || n == "__or__"@
        || n == "__len__"@
        || n == "__iter__"@
}

/// The built-in methods of `set` values.
pub open spec fn set_method(n: Seq<char>) -> bool {
    n == "__contains__"@
        || n == "add"@
        || n == "remove"@
        || n == "discard"@
        || n == "pop"@
        || n == "clear"@
        || n == "copy"@
        || n == "__sizeof__"@
        || n == "union"@
        || n == "intersection"@
        || n == "difference"@
        || n == "symmetric_difference"@
        || n == "issubset"@
        || n == "issuperset"@
        || n == "isdisjoint"@
        || n == "update"@
        || n == "intersection_update"@
        || n == "difference_update"@
        || n == "symmetric_difference_update"@
        || n == "__len__"@
        || n == "__iter__"@
}

/// The built-in methods of `frozenset` values.
pub open spec fn frozenset_method(n: Seq<char>) -> bool {
    n == "issuperset"@
        || n == "issubset"@
        || n == "__contains__"@
        || n == "union"@
        || n == "intersection"@
        || n == "difference"@
        || n == "symmetric_difference"@
        || n == "isdisjoint"@
        || n == "copy"@
}

/// The built-in methods of `float` values.
pub open spec fn float_method(n: Seq<char>) -> bool {
    n == "conjugate"@
        || n == "__round__"@
        || n == "__int__"@
        || n == "__float__"@
        || n == "__truediv__"@
        || n == "__rtruediv__"@
        || n == "__floordiv__"@
        || n == "__rfloordiv__"@
        || n == "__mod__"@
        || n == "__rmod__"@
        || n == "__pow__"@
        || n == "__rpow__"@
        || n == "__add__"@
        || n == "__radd__"@
        || n == "__sub__"@
        || n == "__rsub__"@
        || n == "__mul__"@
        || n == "__rmul__"@
        || n == "__neg__"@
        || n == "as_integer_ratio"@
        || n == "hex"@
        || n == "is_integer"@
        || n == "__ceil__"@
        || n == "__floor__"@
        || n == "__trunc__"@
}

/// The attributes a `float` value reads from its own state.
pub open spec fn float_data(n: Seq<char>) -> bool {
    n == "real"@
        || n == "imag"@
}

/// The built-in methods of `int` values.
pub open spec fn int_method(n: Seq<char>) -> bool {
    n == "__bool__"@
        || n == "__float__"@
        || n == "bit_length"@
        || n == "bit_count"@
        || n == "as_integer_ratio"@
        || n == "conjugate"@
        || n == "__round__"@
        || n == "to_bytes"@
        || n == "__index__"@
        || n == "__int__"@
}

/// The attributes a `int` value reads from its own state.
pub open spec fn int_data(n: Seq<char>) -> bool {
    n == "numerator"@
        || n == "real"@
}

/// The built-in methods of `range` values.
pub open spec fn range_method(n: Seq<char>) -> bool {
    n == "__reduce__"@
        || n == "__contains__"@
        || n == "__len__"@
        || n == "count"@
        || n == "index"@
        || n == "__getitem__"@
}

/// The attributes a `range` value reads from its own state.
pub open spec fn range_data(n: Seq<char>) -> bool {
    n == "start"@
        || n == "stop"@
        || n == "step"@
        || n == "__iter__"@
}

/// The built-in methods of `range_iterator` values.
pub open spec fn range_iterator_method(n: Seq<char>) -> bool {
    n == "__next__"@
        || n == "__iter__"@
}

/// The attributes a `range_iterator` value reads from its own state.
pub open spec fn range_iterator_data(n: Seq<char>) -> bool {
    n == "__length_hint__"@
}

/// The built-in methods of `slice` values.
pub open spec fn slice_method(n: Seq<char>) -> bool {
    n == "indices"@
        || n == "__hash__"@
        || n == "__reduce__"@
}

/// The attributes a `slice` value reads from its own state.
pub open spec fn slice_data(n: Seq<char>) -> bool {
    n == "start"@
        || n == "stop"@
        || n == "step"@
}

/// The built-in methods of `re.Pattern` values.
pub open spec fn re_pattern_method(n: Seq<char>) -> bool {
    n == "match"@
        || n == "search"@
        || n == "findall"@
        || n == "finditer"@
        || n == "sub"@
        || n == "split"@
        || n == "fullmatch"@
        || n == "subn"@
        || n == "scanner"@
}

/// The attributes a `re.Pattern` value reads from its own state.
pub open spec fn re_pattern_data(n: Seq<char>) -> bool {
    n == "pattern"@
        || n == "flags"@
}

/// The built-in methods of `generator` values.
pub open spec fn generator_method(n: Seq<char>) -> bool {
    n == "__next__"@
        || n == "send"@
        || n == "throw"@
        || n == "close"@
        || n == "__iter__"@
        || n == "__await__"@
}

/// The built-in methods of `coroutine` values.
pub open spec fn coroutine_method(n: Seq<char>) -> bool {
    n == "send"@
        || n == "throw"@
        || n == "close"@
        || n == "__await__"@
        || n == "__iter__"@
        || n == "__anext__"@
        || n == "__aiter__"@
        || n == "asend"@
        || n == "athrow"@
        || n == "aclose"@
}

/// The built-in methods of `list_iterator` values.
pub open spec fn list_iterator_method(n: Seq<char>) -> bool {
    n == "__next__"@
        || n == "__iter__"@
        || n == "__length_hint__"@
        || n == "__setstate__"@
        || n == "__reduce__"@
        || n == "__reduce_ex__"@
}

/// The table of type `t`: `Some((is_method, is_state))` for the types
/// that have one here, the type's name in its messages being `t`.
pub open spec fn type_table(t: Seq<char>, n: Seq<char>) -> Option<(bool, bool)> {
    if t == "list"@ {
        Some((list_method(n), false))
    } else if t == "deque"@ {
        Some((deque_method(n), deque_data(n)))
    } else if t == "dict"@ {
        Some((dict_method(n), false))
    } else if t == "set"@ {
        Some((set_method(n), false))
    } else if t == "frozenset"@ {
        Some((frozenset_method(n), false))
    } else if t == "float"@ {
        Some((float_method(n), float_data(n)))
    } else if t == "int"@ {
        Some((int_method(n), int_data(n)))
    } else if t == "range"@ {
        Some((range_method(n), range_data(n)))
    } else if t == "range_iterator"@ {
        Some((range_iterator_method(n), range_iterator_data(n)))
    } else if t == "slice"@ {
        Some((slice_method(n), slice_data(n)))
    } else if t == "re.Pattern"@ {
        Some((re_pattern_method(n), re_pattern_data(n)))
    } else if t == "generator"@ {
        Some((generator_method(n), false))
    } else if t == "coroutine"@ {
        Some((coroutine_method(n), false))
    } else if t == "list_iterator"@ {
        Some((list_iterator_method(n), false))
    } else {
        None
    }
}

/// Lookup on a built-in value by its type's table. Strings answer the
/// names of their method table; a complex number refuses conversion to
/// `float` and `int`; `bool` shares the table of `int`, whose
/// `denominator` is 1 and `imag` is 0; state attributes (and the types
/// without a table here) are left to the value itself.
pub open spec fn native_lookup(t: Seq<char>, n: Seq<char>) -> Result<AttrView, PyErrorView> {
    if t == "str"@ {
        match str_attr_of(n) {
            Some(_) => found(ValueView::BuiltinMethod(n)),
            None => attribute_error(no_attr_message("str"@, n)),
        }
    } else if t == "complex"@ {
        if n == "real"@ || n == "imag"@ {
            Ok(AttrView::Delegated)
        } else if n == "conjugate"@ || n == "__complex__"@ {
            found(ValueView::BuiltinMethod(n))
        } else if n == "__float__"@ {
            Err(PyErrorView::TypeError("can't convert complex to float"@))
        } else if n == "__int__"@ {
            Err(PyErrorView::TypeError("can't convert complex to int"@))
        } else {
            attribute_error(no_attr_message("complex"@, n))
        }
    } else if (t == "int"@ || t == "bool"@) && n == "denominator"@ {
        found(ValueView::Int(1))
    } else if (t == "int"@ || t == "bool"@) && n == "imag"@ {
        found(ValueView::Int(0))
    } else {
        let key = if t == "bool"@ { "int"@ } else { t };
        match type_table(key, n) {
            Some((is_method, is_state)) => if is_state {
                Ok(AttrView::Delegated)
            } else if is_method {
                found(ValueView::BuiltinMethod(n))
            } else {
                attribute_error(no_attr_message(key, n))
            },
            None => Ok(AttrView::Delegated),
        }
    }
}

fn list_method_exec(n: &str) -> (r: bool)
    ensures
        r == list_method(n@),
{
    str_is(n, "__iadd__")
        || str_is(n, "__init__")
        || str_is(n, "__imul__")
        || str_is(n, "__mul__")
        || str_is(n, "__rmul__")
        || str_is(n, "append")
        || str_is(n, "__iter__")
        || str_is(n, "__len__")
        || str_is(n, "__contains__")
        || str_is(n, "__getitem__")
        || str_is(n, "__setitem__")
        || str_is(n, "__delitem__")
        || str_is(n, "pop")
        || str_is(n, "extend")
        || str_is(n, "clear")
        || str_is(n, "reverse")
        || str_is(n, "remove")
        || str_is(n, "index")
        || str_is(n, "count")
        || str_is(n, "sort")
        || str_is(n, "insert")
        || str_is(n, "copy")
        || str_is(n, "__reversed__")
        || str_is(n, "__sizeof__")
}

fn deque_method_exec(n: &str) -> (r: bool)
    ensures
        r == deque_method(n@),
{
    str_is(n, "__init__")
        || str_is(n, "append")
        || str_is(n, "appendleft")
        || str_is(n, "pop")
        || str_is(n, "popleft")
        || str_is(n, "extend")
        || str_is(n, "extendleft")
        || str_is(n, "clear")
        || str_is(n, "rotate")
        || str_is(n, "count")
        || str_is(n, "index")
        || str_is(n, "insert")
        || str_is(n, "remove")
        || str_is(n, "reverse")
        || str_is(n, "copy")
        || str_is(n, "__copy__")
        || str_is(n, "__reversed__")
        || str_is(n, "__sizeof__")
        || str_is(n, "__contains__")
        || str_is(n, "__getitem__")
        || str_is(n, "__setitem__")
        || str_is(n, "__delitem__")
}

fn deque_data_exec(n: &str) -> (r: bool)
    ensures
        r == deque_data(n@),
{
    str_is(n, "maxlen")
}

fn dict_method_exec(n: &str) -> (r: bool)
    ensures
        r == dict_method(n@),
{
    str_is(n, "keys")
        || str_is(n, "values")
        || str_is(n, "items")
        || str_is(n, "get")
        || str_is(n, "pop")
        || str_is(n, "popitem")
        || str_is(n, "clear")
        || str_is(n, "update")
        || str_is(n, "setdefault")
        || str_is(n, "copy")
        || str_is(n, "fromkeys")
        || str_is(n, "__sizeof__")
        || str_is(n, "__contains__")
        || str_is(n, "__getitem__")
        || str_is(n, "__setitem__")
        || str_is(n, "__delitem__")
        || str_is(n, "move_to_end")
        || str_is(n, "__or__")
        || str_is(n, "__len__")
        || str_is(n, "__iter__")
}

fn set_method_exec(n: &str) -> (r: bool)
    ensures
        r == set_method(n@),
{
    str_is(n, "__contains__")
        || str_is(n, "add")
        || str_is(n, "remove")
        || str_is(n, "discard")
        || str_is(n, "pop")
        || str_is(n, "clear")
        || str_is(n, "copy")
        || str_is(n, "__sizeof__")
        || str_is(n, "union")
        || str_is(n, "intersection")
        || str_is(n, "difference")
        || str_is(n, "symmetric_difference")
        || str_is(n, "issubset")
        || str_is(n, "issuperset")
        || str_is(n, "isdisjoint")
        || str_is(n, "update")
        || str_is(n, "intersection_update")
        || str_is(n, "difference_update")
        || str_is(n, "symmetric_difference_update")
        || str_is(n, "__len__")
        || str_is(n, "__iter__")
}

fn frozenset_method_exec(n: &str) -> (r: bool)
    ensures
        r == frozenset_method(n@),
{
    str_is(n, "issuperset")
        || str_is(n, "issubset")
        || str_is(n, "__contains__")
        || str_is(n, "union")
        || str_is(n, "intersection")
        || str_is(n, "difference")
        || str_is(n, "symmetric_difference")
        || str_is(n, "isdisjoint")
        || str_is(n, "copy")
}

fn float_method_exec(n: &str) -> (r: bool)
    ensures
        r == float_method(n@),
{
    str_is(n, "conjugate")
        || str_is(n, "__round__")
        || str_is(n, "__int__")
        || str_is(n, "__float__")
        || str_is(n, "__truediv__")
        || str_is(n, "__rtruediv__")
        || str_is(n, "__floordiv__")
        || str_is(n, "__rfloordiv__")
        || str_is(n, "__mod__")
        || str_is(n, "__rmod__")
        || str_is(n, "__pow__")
        || str_is(n, "__rpow__")
        || str_is(n, "__add__")
        || str_is(n, "__radd__")
        || str_is(n, "__sub__")
        || str_is(n, "__rsub__")
        || str_is(n, "__mul__")
        || str_is(n, "__rmul__")
        || str_is(n, "__neg__")
        || str_is(n, "as_integer_ratio")
        || str_is(n, "hex")
        || str_is(n, "is_integer")
        || str_is(n, "__ceil__")
        || str_is(n, "__floor__")
        || str_is(n, "__trunc__")
}

fn float_data_exec(n: &str) -> (r: bool)
    ensures
        r == float_data(n@),
{
    str_is(n, "real")
        || str_is(n, "imag")
}

fn int_method_exec(n: &str) -> (r: bool)
    ensures
        r == int_method(n@),
{
    str_is(n, "__bool__")
        || str_is(n, "__float__")
        || str_is(n, "bit_length")
        || str_is(n, "bit_count")
        || str_is(n, "as_integer_ratio")
        || str_is(n, "conjugate")
        || str_is(n, "__round__")
        || str_is(n, "to_bytes")
        || str_is(n, "__index__")
        || str_is(n, "__int__")
}

fn int_data_exec(n: &str) -> (r: bool)
    ensures
        r == int_data(n@),
{
    str_is(n, "numerator")
        || str_is(n, "real")
}

fn range_method_exec(n: &str) -> (r: bool)
    ensures
        r == range_method(n@),
{
    str_is(n, "__reduce__")
        || str_is(n, "__contains__")
        || str_is(n, "__len__")
        || str_is(n, "count")
        || str_is(n, "index")
        || str_is(n, "__getitem__")
}

fn range_data_exec(n: &str) -> (r: bool)
    ensures
        r == range_data(n@),
{
    str_is(n, "start")
        || str_is(n, "stop")
        || str_is(n, "step")
        || str_is(n, "__iter__")
}

fn range_iterator_method_exec(n: &str) -> (r: bool)
    ensures
        r == range_iterator_method(n@),
{
    str_is(n, "__next__")
        || str_is(n, "__iter__")
}

fn range_iterator_data_exec(n: &str) -> (r: bool)
    ensures
        r == range_iterator_data(n@),
{
    str_is(n, "__length_hint__")
}

fn slice_method_exec(n: &str) -> (r: bool)
    ensures
        r == slice_method(n@),
{
    str_is(n, "indices")
        || str_is(n, "__hash__")
        || str_is(n, "__reduce__")
}

fn slice_data_exec(n: &str) -> (r: bool)
    ensures
        r == slice_data(n@),
{
    str_is(n, "start")
        || str_is(n, "stop")
        || str_is(n, "step")
}

fn re_pattern_method_exec(n: &str) -> (r: bool)
    ensures
        r == re_pattern_method(n@),
{
    str_is(n, "match")
        || str_is(n, "search")
        || str_is(n, "findall")
        || str_is(n, "finditer")
        || str_is(n, "sub")
        || str_is(n, "split")
        || str_is(n, "fullmatch")
        || str_is(n, "subn")
        || str_is(n, "scanner")
}

fn re_pattern_data_exec(n: &str) -> (r: bool)
    ensures
        r == re_pattern_data(n@),
{
    str_is(n, "pattern")
        || str_is(n, "flags")
}

fn generator_method_exec(n: &str) -> (r: bool)
    ensures
        r == generator_method(n@),
{
    str_is(n, "__next__")
        || str_is(n, "send")
        || str_is(n, "throw")
        || str_is(n, "close")
        || str_is(n, "__iter__")
        || str_is(n, "__await__")
}

fn coroutine_method_exec(n: &str) -> (r: bool)
    ensures
        r == coroutine_method(n@),
{
    str_is(n, "send")
        || str_is(n, "throw")
        || str_is(n, "close")
        || str_is(n, "__await__")
        || str_is(n, "__iter__")
        || str_is(n, "__anext__")
        || str_is(n, "__aiter__")
        || str_is(n, "asend")
        || str_is(n, "athrow")
        || str_is(n, "aclose")
}

fn list_iterator_method_exec(n: &str) -> (r: bool)
    ensures
        r == list_iterator_method(n@),
{
    str_is(n, "__next__")
        || str_is(n, "__iter__")
        || str_is(n, "__length_hint__")
        || str_is(n, "__setstate__")
        || str_is(n, "__reduce__")
        || str_is(n, "__reduce_ex__")
}

fn type_table_exec(t: &str, n: &str) -> (r: Option<(bool, bool)>)
    ensures
        r == type_table(t@, n@),
{
    if str_is(t, "list") {
        Some((list_method_exec(n), false))
    } else if str_is(t, "deque") {
        Some((deque_method_exec(n), deque_data_exec(n)))
    } else if str_is(t, "dict") {
        Some((dict_method_exec(n), false))
    } else if str_is(t, "set") {
        Some((set_method_exec(n), false))
    } else if str_is(t, "frozenset") {
        Some((frozenset_method_exec(n), false))
    } else if str_is(t, "float") {
        Some((float_method_exec(n), float_data_exec(n)))
    } else if str_is(t, "int") {
        Some((int_method_exec(n), int_data_exec(n)))
    } else if str_is(t, "range") {
        Some((range_method_exec(n), range_data_exec(n)))
    } else if str_is(t, "range_iterator") {
        Some((range_iterator_method_exec(n), range_iterator_data_exec(n)))
    } else if str_is(t, "slice") {
        Some((slice_method_exec(n), slice_data_exec(n)))
    } else if str_is(t, "re.Pattern") {
        Some((re_pattern_method_exec(n), re_pattern_data_exec(n)))
    } else if str_is(t, "generator") {
        Some((generator_method_exec(n), false))
    } else if str_is(t, "coroutine") {
        Some((coroutine_method_exec(n), false))
    } else if str_is(t, "list_iterator") {
        Some((list_iterator_method_exec(n), false))
    } else {
        None
    }
}

/// Lookup on a built-in value by its type's table (see `native_lookup`).
pub fn native_get(t: &str, n: &str) -> (r: Result<Attr, PyError>)
    ensures
        result_view(r) == native_lookup(t@, n@),
{
    if str_is(t, "str") {
        return match str_attribute(n) {
            Ok(_) => Ok(Attr::Value(Value::BuiltinMethod(n.to_owned()))),
            Err(e) => Err(e),
        };
    }
    if str_is(t, "complex") {
        if str_is(n, "real") || str_is(n, "imag") {
            return Ok(Attr::Delegated);
        }
        if str_is(n, "conjugate") || str_is(n, "__complex__") {
            return Ok(Attr::Value(Value::BuiltinMethod(n.to_owned())));
        }
        if str_is(n, "__float__") {
            return Err(PyError::TypeError("can't convert complex to float".to_owned()));
        }
        if str_is(n, "__int__") {
            return Err(PyError::TypeError("can't convert complex to int".to_owned()));
        }
        return Err(PyError::AttributeError(no_attr_msg("complex", n)));
    }
    let int_like = str_is(t, "int") || str_is(t, "bool");
    if int_like && str_is(n, "denominator") {
        return Ok(Attr::Value(Value::Int(1)));
    }
    if int_like && str_is(n, "imag") {
        return Ok(Attr::Value(Value::Int(0)));
    }
    let key: &str = if str_is(t, "bool") { "int" } else { t };
    match type_table_exec(key, n) {
        Some((is_method, is_state)) => {
            if is_state {
                Ok(Attr::Delegated)
            } else if is_method {
                Ok(Attr::Value(Value::BuiltinMethod(n.to_owned())))
            } else {
                Err(PyError::AttributeError(no_attr_msg(key, n)))
            }
        },
        None => Ok(Attr::Delegated),
    }
}

} // verus!
