//! The argument checks of the built-in methods of `list`, `dict`, `set`,
//! `frozenset`, `deque` and `str`: how many arguments a call may pass after
//! the receiver, which argument types `str` methods accept, and the
//! `TypeError` a call that breaks these rules raises.

use vstd::prelude::*;
use crate::error::PyError;
use crate::object::{concat, str_is};
use crate::unicode::{string_from_chars, chars_of};

verus! {

/// The decimal digit `d` (below 10).
pub open spec fn digit_char(d: nat) -> char {
    if d == 0 { '0' } else if d == 1 { '1' } else if d == 2 { '2' } else if d == 3 { '3' }
    else if d == 4 { '4' } else if d == 5 { '5' } else if d == 6 { '6' } else if d == 7 { '7' }
    else if d == 8 { '8' } else { '9' }
}

/// `n` written in decimal.
pub open spec fn decimal(n: nat) -> Seq<char>
    decreases n,
{
    if n < 10 { seq![digit_char(n)] } else { decimal(n / 10).push(digit_char(n % 10)) }
}

fn digit(d: usize) -> (c: char)
    requires
        d < 10,
    ensures
        c == digit_char(d as nat),
{
    if d == 0 { '0' } else if d == 1 { '1' } else if d == 2 { '2' } else if d == 3 { '3' }
    else if d == 4 { '4' } else if d == 5 { '5' } else if d == 6 { '6' } else if d == 7 { '7' }
    else if d == 8 { '8' } else { '9' }
}

fn push_decimal(out: &mut Vec<char>, n: usize)
    ensures
        final(out)@ == old(out)@ + decimal(n as nat),
    decreases n,
{
    if n < 10 {
        out.push(digit(n));
        assert(final(out)@ =~= old(out)@ + decimal(n as nat)) by {
            assert(decimal(n as nat) == seq![digit_char(n as nat)]);
        }
    } else {
        push_decimal(out, n / 10);
        out.push(digit(n % 10));
        assert(out@ =~= old(out)@ + decimal(n as nat));
    }
}

/// `head`, then `n` in decimal, then `tail`.
fn counted(head: &str, n: usize, tail: &str) -> (r: String)
    ensures
        r@ == head@ + decimal(n as nat) + tail@,
{
    let mut chars = chars_of(head);
    push_decimal(&mut chars, n);
    let t = chars_of(tail);
    let mut i: usize = 0;
    let ghost base = chars@;
    while i < t.len()
        invariant
            i <= t@.len(),
            chars@ == base + t@.subrange(0, i as int),
        decreases t@.len() - i,
    {
        chars.push(t[i]);
        i += 1;
        assert(chars@ =~= base + t@.subrange(0, i as int));
    }
    assert(t@.subrange(0, i as int) =~= t@);
    string_from_chars(chars.as_slice())
}

/// The message of the `TypeError` a call of the `list` method `m` with
/// `given` arguments after the receiver raises, if it raises one.
pub open spec fn list_arg_error(m: Seq<char>, given: nat) -> Option<Seq<char>> {
    if (m == "__iadd__"@ || m == "__imul__"@ || m == "remove"@ || m == "count"@) && given != 1 {
        Some(m + "() takes exactly one argument ("@ + decimal(given) + " given)"@)
    } else if (m == "__mul__"@ || m == "__rmul__"@) && given < 1 {
        Some(m + "() missing argument"@)
    } else if (m == "append"@ || m == "extend"@) && given < 1 {
        Some(m + "() takes exactly one argument"@)
    } else if (m == "__contains__"@ || m == "__getitem__"@ || m == "__delitem__"@) && given < 1 {
        Some(m + "() takes exactly 1 argument"@)
    } else if (m == "__setitem__"@ || m == "insert"@) && given < 2 {
        Some(m + "() takes exactly 2 arguments"@)
    } else if m == "pop"@ && given > 1 {
        Some("pop() takes at most one argument ("@ + decimal(given) + " given)"@)
    } else if (m == "clear"@ || m == "reverse"@ || m == "copy"@) && given != 0 {
        Some(m + "() takes no arguments ("@ + decimal(given) + " given)"@)
    } else if m == "index"@ && given < 1 {
        Some("index() takes at least 1 argument"@)
    } else {
        None
    }
}

/// The message of the `TypeError` a call of the `dict` method `m` with
/// `given` arguments after the receiver raises, if it raises one.
pub open spec fn dict_arg_error(m: Seq<char>, given: nat) -> Option<Seq<char>> {
    if (m == "get"@ || m == "pop"@ || m == "setdefault"@ || m == "fromkeys"@) && given < 1 {
        Some(m + "() takes at least 1 argument"@)
    } else if m == "popitem"@ && given > 0 {
        Some("dict.popitem() takes no arguments ("@ + decimal(given) + " given)"@)
    } else if (m == "__contains__"@ || m == "__getitem__"@ || m == "__delitem__"@ || m == "__or__"@) && given < 1 {
        Some(m + "() takes exactly one argument"@)
    } else if m == "__setitem__"@ && given < 2 {
        Some("__setitem__() takes exactly 2 arguments"@)
    } else if m == "move_to_end"@ && given < 1 {
        Some("move_to_end() needs a key argument"@)
    } else {
        None
    }
}

pub open spec fn check_outcome(e: Option<Seq<char>>, r: Result<(), PyError>) -> bool {
    match e {
        None => r is Ok,
        Some(msg) => r matches Err(PyError::TypeError(m)) && m@ == msg,
    }
}

/// Whether a call of the `list` method `method` may pass `given` arguments
/// after the receiver; the `TypeError` it raises when it may not.
pub fn list_args_check(method: &str, given: usize) -> (r: Result<(), PyError>)
    ensures
        check_outcome(list_arg_error(method@, given as nat), r),
{
    let m = method;
    if (str_is(m, "__iadd__") || str_is(m, "__imul__") || str_is(m, "remove") || str_is(m, "count")) && given != 1 {
        let head = concat(m, "() takes exactly one argument (");
        Err(PyError::TypeError(counted(head.as_str(), given, " given)")))
    } else if (str_is(m, "__mul__") || str_is(m, "__rmul__")) && given < 1 {
        Err(PyError::TypeError(concat(m, "() missing argument")))
    } else if (str_is(m, "append") || str_is(m, "extend")) && given < 1 {
        Err(PyError::TypeError(concat(m, "() takes exactly one argument")))
    } else if (str_is(m, "__contains__") || str_is(m, "__getitem__") || str_is(m, "__delitem__")) && given < 1 {
        Err(PyError::TypeError(concat(m, "() takes exactly 1 argument")))
    } else if (str_is(m, "__setitem__") || str_is(m, "insert")) && given < 2 {
        Err(PyError::TypeError(concat(m, "() takes exactly 2 arguments")))
    } else if str_is(m, "pop") && given > 1 {
        Err(PyError::TypeError(counted("pop() takes at most one argument (", given, " given)")))
    } else if (str_is(m, "clear") || str_is(m, "reverse") || str_is(m, "copy")) && given != 0 {
        let head = concat(m, "() takes no arguments (");
        Err(PyError::TypeError(counted(head.as_str(), given, " given)")))
    } else if str_is(m, "index") && given < 1 {
        Err(PyError::TypeError("index() takes at least 1 argument".to_owned()))
    } else {
        Ok(())
    }
}

/// Whether a call of the `dict` method `method` may pass `given` arguments
/// after the receiver; the `TypeError` it raises when it may not.
pub fn dict_args_check(method: &str, given: usize) -> (r: Result<(), PyError>)
    ensures
        check_outcome(dict_arg_error(method@, given as nat), r),
{
    let m = method;
    if (str_is(m, "get") || str_is(m, "pop") || str_is(m, "setdefault") || str_is(m, "fromkeys")) && given < 1 {
        Err(PyError::TypeError(concat(m, "() takes at least 1 argument")))
    } else if str_is(m, "popitem") && given > 0 {
        Err(PyError::TypeError(counted("dict.popitem() takes no arguments (", given, " given)")))
    } else if (str_is(m, "__contains__") || str_is(m, "__getitem__") || str_is(m, "__delitem__") || str_is(m, "__or__"))
        && given < 1 {
        Err(PyError::TypeError(concat(m, "() takes exactly one argument")))
    } else if str_is(m, "__setitem__") && given < 2 {
        Err(PyError::TypeError("__setitem__() takes exactly 2 arguments".to_owned()))
    } else if str_is(m, "move_to_end") && given < 1 {
        Err(PyError::TypeError("move_to_end() needs a key argument".to_owned()))
    } else {
        Ok(())
    }
}

/// The message of the `TypeError` a call of the `set` method `m` with
/// `given` arguments after the receiver raises, if it raises one.
pub open spec fn set_arg_error(m: Seq<char>, given: nat) -> Option<Seq<char>> {
    if (m == "__contains__"@ || m == "add"@ || m == "remove"@ || m == "discard"@
        || m == "symmetric_difference"@ || m == "issubset"@ || m == "issuperset"@ || m == "isdisjoint"@
        || m == "symmetric_difference_update"@) && given < 1 {
        Some(m + "() takes exactly one argument"@)
    } else if (m == "union"@ || m == "intersection"@ || m == "difference"@ || m == "update"@
        || m == "intersection_update"@ || m == "difference_update"@) && given < 1 {
        Some(m + "() takes at least 1 argument"@)
    } else {
        None
    }
}

/// The message of the `TypeError` a call of the `frozenset` method `m`
/// with `given` arguments after the receiver raises, if it raises one.
pub open spec fn frozenset_arg_error(m: Seq<char>, given: nat) -> Option<Seq<char>> {
    if (m == "issubset"@ || m == "issuperset"@) && given < 1 {
        Some(m + " requires 1 argument"@)
    } else if (m == "__contains__"@ || m == "symmetric_difference"@ || m == "isdisjoint"@) && given < 1 {
        Some(m + "() takes exactly one argument"@)
    } else {
        None
    }
}

/// The message of the `TypeError` a call of the `deque` method `m` with
/// `given` arguments after the receiver raises, if it raises one.
pub open spec fn deque_arg_error(m: Seq<char>, given: nat) -> Option<Seq<char>> {
    if (m == "append"@ || m == "appendleft"@ || m == "extend"@ || m == "extendleft"@ || m == "remove"@
        || m == "__contains__"@ || m == "__getitem__"@ || m == "__delitem__"@) && given < 1 {
        Some(m + "() takes exactly one argument"@)
    } else if m == "count"@ && given != 1 {
        Some("count() takes exactly one argument"@)
    } else if (m == "pop"@ || m == "popleft"@ || m == "reverse"@) && given > 0 {
        Some(m + "() takes no arguments (1 given)"@)
    } else if m == "rotate"@ && given > 1 {
        Some("rotate() takes at most one argument"@)
    } else if m == "index"@ && given < 1 {
        Some("index() takes at least 1 argument"@)
    } else if (m == "insert"@ || m == "__setitem__"@) && given < 2 {
        Some(m + "() takes exactly 2 arguments"@)
    } else {
        None
    }
}

/// Whether a call of the `set` method `method` may pass `given` arguments
/// after the receiver; the `TypeError` it raises when it may not.
pub fn set_args_check(method: &str, given: usize) -> (r: Result<(), PyError>)
    ensures
        check_outcome(set_arg_error(method@, given as nat), r),
{
    let m = method;
    if (str_is(m, "__contains__") || str_is(m, "add") || str_is(m, "remove") || str_is(m, "discard")
        || str_is(m, "symmetric_difference") || str_is(m, "issubset") || str_is(m, "issuperset")
        || str_is(m, "isdisjoint") || str_is(m, "symmetric_difference_update")) && given < 1 {
        Err(PyError::TypeError(concat(m, "() takes exactly one argument")))
    } else if (str_is(m, "union") || str_is(m, "intersection") || str_is(m, "difference") || str_is(m, "update")
        || str_is(m, "intersection_update") || str_is(m, "difference_update")) && given < 1 {
        Err(PyError::TypeError(concat(m, "() takes at least 1 argument")))
    } else {
        Ok(())
    }
}

/// Whether a call of the `frozenset` method `method` may pass `given`
/// arguments after the receiver; the `TypeError` it raises when it may not.
pub fn frozenset_args_check(method: &str, given: usize) -> (r: Result<(), PyError>)
    ensures
        check_outcome(frozenset_arg_error(method@, given as nat), r),
{
    let m = method;
    if (str_is(m, "issubset") || str_is(m, "issuperset")) && given < 1 {
        Err(PyError::TypeError(concat(m, " requires 1 argument")))
    } else if (str_is(m, "__contains__") || str_is(m, "symmetric_difference") || str_is(m, "isdisjoint")) && given < 1 {
        Err(PyError::TypeError(concat(m, "() takes exactly one argument")))
    } else {
        Ok(())
    }
}

/// Whether a call of the `deque` method `method` may pass `given`
/// arguments after the receiver; the `TypeError` it raises when it may not.
pub fn deque_args_check(method: &str, given: usize) -> (r: Result<(), PyError>)
    ensures
        check_outcome(deque_arg_error(method@, given as nat), r),
{
    let m = method;
    if (str_is(m, "append") || str_is(m, "appendleft") || str_is(m, "extend") || str_is(m, "extendleft")
        || str_is(m, "remove") || str_is(m, "__contains__") || str_is(m, "__getitem__")
        || str_is(m, "__delitem__")) && given < 1 {
        Err(PyError::TypeError(concat(m, "() takes exactly one argument")))
    } else if str_is(m, "count") && given != 1 {
        Err(PyError::TypeError("count() takes exactly one argument".to_owned()))
    } else if (str_is(m, "pop") || str_is(m, "popleft") || str_is(m, "reverse")) && given > 0 {
        Err(PyError::TypeError(concat(m, "() takes no arguments (1 given)")))
    } else if str_is(m, "rotate") && given > 1 {
        Err(PyError::TypeError("rotate() takes at most one argument".to_owned()))
    } else if str_is(m, "index") && given < 1 {
        Err(PyError::TypeError("index() takes at least 1 argument".to_owned()))
    } else if (str_is(m, "insert") || str_is(m, "__setitem__")) && given < 2 {
        Err(PyError::TypeError(concat(m, "() takes exactly 2 arguments")))
    } else {
        Ok(())
    }
}

/// The `str` methods that take no arguments.
pub open spec fn str_no_arg_method(m: Seq<char>) -> bool {
    m == "upper"@ || m == "lower"@ || m == "isdecimal"@ || m == "isnumeric"@ || m == "isascii"@
        || m == "isprintable"@ || m == "casefold"@ || m == "isdigit"@ || m == "isalpha"@
        || m == "isalnum"@ || m == "isspace"@ || m == "islower"@ || m == "isupper"@
        || m == "istitle"@ || m == "title"@ || m == "capitalize"@ || m == "swapcase"@
        || m == "isidentifier"@
}

/// The `str` methods whose first argument must be a `str`.
pub open spec fn str_needle_method(m: Seq<char>) -> bool {
    m == "find"@ || m == "rfind"@ || m == "index"@ || m == "rindex"@ || m == "count"@
        || m == "removeprefix"@ || m == "removesuffix"@
}

/// The message of the `TypeError` a call of the `str` method `m` raises,
/// given the number of arguments after the receiver and the type name of
/// the first of them (`None` when there is none), if it raises one.
pub open spec fn str_arg_error(m: Seq<char>, given: nat, first: Option<Seq<char>>) -> Option<Seq<char>> {
    if (m == "__mul__"@ || m == "__rmul__"@) && given < 1 {
        Some(m + "() missing argument"@)
    } else if (m == "__contains__"@ || m == "join"@ || m == "partition"@ || m == "rpartition"@
        || m == "__getitem__"@) && given < 1 {
        Some(m + "() takes exactly one argument"@)
    } else if (m == "removeprefix"@ || m == "removesuffix"@) && given != 1 {
        Some(m + "() takes exactly one argument"@)
    } else if (m == "startswith"@ || m == "endswith"@ || m == "find"@ || m == "rfind"@ || m == "index"@
        || m == "rindex"@ || m == "count"@) && given < 1 {
        Some(m + "() takes at least 1 argument"@)
    } else if str_no_arg_method(m) && given != 0 {
        Some(m + "() takes no arguments (1 given)"@)
    } else if (m == "strip"@ || m == "lstrip"@ || m == "rstrip"@) && given > 1 {
        Some(m + "() takes at most 1 argument (2 given)"@)
    } else if (m == "zfill"@ || m == "ljust"@ || m == "rjust"@ || m == "center"@) && given < 1 {
        Some(m + "() takes exactly 1 argument"@)
    } else if m == "replace"@ && given < 2 {
        Some("replace() takes exactly 2 arguments"@)
    } else if str_needle_method(m) && (first matches Some(t) && t != "str"@) {
        Some(m + "() argument must be str, not "@ + first->Some_0)
    } else if m == "strip"@ && given == 1 && (first matches Some(t) && t != "str"@ && t != "NoneType"@) {
        Some("strip() argument must be str or None, not "@ + first->Some_0)
    } else {
        None
    }
}

fn str_no_arg(m: &str) -> (r: bool)
    ensures
        r == str_no_arg_method(m@),
{
    str_is(m, "upper") || str_is(m, "lower") || str_is(m, "isdecimal") || str_is(m, "isnumeric")
        || str_is(m, "isascii") || str_is(m, "isprintable") || str_is(m, "casefold") || str_is(m, "isdigit")
        || str_is(m, "isalpha") || str_is(m, "isalnum") || str_is(m, "isspace") || str_is(m, "islower")
        || str_is(m, "isupper") || str_is(m, "istitle") || str_is(m, "title") || str_is(m, "capitalize")
        || str_is(m, "swapcase") || str_is(m, "isidentifier")
}

fn str_needle(m: &str) -> (r: bool)
    ensures
        r == str_needle_method(m@),
{
    str_is(m, "find") || str_is(m, "rfind") || str_is(m, "index") || str_is(m, "rindex") || str_is(m, "count")
        || str_is(m, "removeprefix") || str_is(m, "removesuffix")
}

/// Whether a call of the `str` method `method` may pass `given` arguments
/// after the receiver, the first of type `first_type`; the `TypeError` it
/// raises when it may not.
pub fn str_args_check(method: &str, given: usize, first_type: Option<&str>) -> (r: Result<(), PyError>)
    ensures
        check_outcome(str_arg_error(method@, given as nat, match first_type { Some(t) => Some(t@), None => None }), r),
{
    let m = method;
    if (str_is(m, "__mul__") || str_is(m, "__rmul__")) && given < 1 {
        Err(PyError::TypeError(concat(m, "() missing argument")))
    } else if (str_is(m, "__contains__") || str_is(m, "join") || str_is(m, "partition") || str_is(m, "rpartition")
        || str_is(m, "__getitem__")) && given < 1 {
        Err(PyError::TypeError(concat(m, "() takes exactly one argument")))
    } else if (str_is(m, "removeprefix") || str_is(m, "removesuffix")) && given != 1 {
        Err(PyError::TypeError(concat(m, "() takes exactly one argument")))
    } else if (str_is(m, "startswith") || str_is(m, "endswith") || str_is(m, "find") || str_is(m, "rfind")
        || str_is(m, "index") || str_is(m, "rindex") || str_is(m, "count")) && given < 1 {
        Err(PyError::TypeError(concat(m, "() takes at least 1 argument")))
    } else if str_no_arg(m) && given != 0 {
        Err(PyError::TypeError(concat(m, "() takes no arguments (1 given)")))
    } else if (str_is(m, "strip") || str_is(m, "lstrip") || str_is(m, "rstrip")) && given > 1 {
        Err(PyError::TypeError(concat(m, "() takes at most 1 argument (2 given)")))
    } else if (str_is(m, "zfill") || str_is(m, "ljust") || str_is(m, "rjust") || str_is(m, "center")) && given < 1 {
        Err(PyError::TypeError(concat(m, "() takes exactly 1 argument")))
    } else if str_is(m, "replace") && given < 2 {
        Err(PyError::TypeError("replace() takes exactly 2 arguments".to_owned()))
    } else {
        match first_type {
            Some(t) => {
                if str_needle(m) && !str_is(t, "str") {
                    let head = concat(m, "() argument must be str, not ");
                    Err(PyError::TypeError(concat(head.as_str(), t)))
                } else if str_is(m, "strip") && given == 1 && !str_is(t, "str") && !str_is(t, "NoneType") {
                    Err(PyError::TypeError(concat("strip() argument must be str or None, not ", t)))
                } else {
                    Ok(())
                }
            },
            None => Ok(()),
        }
    }
}

} // verus!
