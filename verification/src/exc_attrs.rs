//! The attributes of built-in exception objects and of `property`
//! objects: their fields, the per-class extras (`SyntaxError.msg`,
//! `OSError.errno`, the `UnicodeError` arguments, ...) and the source
//! position that a `SyntaxError` message carries as an `L<line>:<col>:`
//! prefix.

use vstd::prelude::*;
use crate::attrmap::{AttrMap, Value, ValueView};
use crate::error::PyErrorView;
use crate::error::PyError;
use crate::object::{Attr, AttrView, found, attribute_error, no_attr_message, no_attr_msg, str_is, result_view};

verus! {

pub open spec fn is_digit_char(c: char) -> bool {
    '0' <= c && c <= '9'
}

/// The number written by a string of ASCII digits.
pub open spec fn digits_value(s: Seq<char>) -> int
    decreases s.len(),
{
    if s.len() == 0 {
        0
    } else {
        digits_value(s.drop_last()) * 10 + ((s.last() as int) - 48)
    }
}

pub open spec fn all_digits(s: Seq<char>) -> bool {
    forall|i: int| 0 <= i < s.len() ==> is_digit_char(#[trigger] s[i])
}

/// The digits of a number written with an optional leading sign.
pub open spec fn unsigned_part(s: Seq<char>) -> Seq<char> {
    if s.len() > 0 && (s[0] == '-' || s[0] == '+') { s.drop_first() } else { s }
}

/// `str::parse::<i64>`: an optional `+` or `-` and at least one ASCII
/// digit, within the range of `i64`.
pub open spec fn parse_i64_spec(s: Seq<char>) -> Option<i64> {
    let body = unsigned_part(s);
    let v = if s.len() > 0 && s[0] == '-' { -digits_value(body) } else { digits_value(body) };
    if body.len() > 0 && all_digits(body) && i64::MIN <= v <= i64::MAX {
        Some(v as i64)
    } else {
        None
    }
}

/// The first position at or after `i` where `c` occurs in `s`.
pub open spec fn find_char(s: Seq<char>, c: char, i: int) -> Option<int>
    decreases s.len() - i,
{
    if i < 0 || i >= s.len() {
        None
    } else if s[i] == c {
        Some(i)
    } else {
        find_char(s, c, i + 1)
    }
}

/// The line and column of an `L<line>:<col>:` prefix of `s`.
pub open spec fn location_prefix(s: Seq<char>) -> Option<(i64, i64)> {
    if s.len() == 0 || s[0] != 'L' {
        None
    } else {
        let rest = s.drop_first();
        match find_char(rest, ':', 0) {
            None => None,
            Some(k1) => {
                let rest2 = rest.subrange(k1 + 1, rest.len() as int);
                match find_char(rest2, ':', 0) {
                    None => None,
                    Some(k2) => match (parse_i64_spec(rest.subrange(0, k1)), parse_i64_spec(rest2.subrange(0, k2))) {
                        (Some(line), Some(col)) => Some((line, col)),
                        _ => None,
                    },
                }
            },
        }
    }
}

/// A magnitude past which no `i64` lies.
const CAP: i128 = 0x8000_0000_0000_0001;

fn parse_i64(s: &Vec<char>, from: usize, to: usize) -> (r: Option<i64>)
    requires
        from <= to <= s@.len(),
    ensures
        r == parse_i64_spec(s@.subrange(from as int, to as int)),
{
    let ghost t = s@.subrange(from as int, to as int);
    let negative = from < to && s[from] == '-';
    let signed = from < to && (s[from] == '-' || s[from] == '+');
    let start: usize = if signed { from + 1 } else { from };
    let ghost body = unsigned_part(t);
    assert(body =~= s@.subrange(start as int, to as int));
    if start == to {
        return None;
    }
    let mut acc: i128 = 0;
    let mut i: usize = start;
    while i < to
        invariant
            start <= i <= to <= s@.len(),
            body == s@.subrange(start as int, to as int),
            t == s@.subrange(from as int, to as int),
            body == unsigned_part(t),
            signed == (t.len() > 0 && (t[0] == '-' || t[0] == '+')),
            negative == (t.len() > 0 && t[0] == '-'),
            forall|k: int| start <= k < i ==> is_digit_char(#[trigger] s@[k]),
            acc == (if digits_value(s@.subrange(start as int, i as int)) >= CAP {
                CAP as int
            } else {
                digits_value(s@.subrange(start as int, i as int))
            }),
            digits_value(s@.subrange(start as int, i as int)) >= 0,
        decreases to - i,
    {
        let c = s[i];
        if !('0' <= c && c <= '9') {
            assert(body[(i - start) as int] == s@[i as int]);
            assert(!is_digit_char(body[(i - start) as int]));
            assert(parse_i64_spec(t) is None);
            return None;
        }
        let d = ((c as u32) - 48) as i128;
        let ghost prev = s@.subrange(start as int, i as int);
        assert(s@.subrange(start as int, i + 1).drop_last() =~= prev);
        assert(digits_value(s@.subrange(start as int, i + 1)) == digits_value(prev) * 10 + d);
        if acc >= CAP {
            acc = CAP;
        } else {
            acc = acc * 10 + d;
            if acc >= CAP {
                acc = CAP;
            }
        }
        i += 1;
    }
    assert(s@.subrange(start as int, to as int) == body);
    if acc >= CAP {
        return None;
    }
    if negative {
        if acc > 0x8000_0000_0000_0000 {
            None
        } else {
            Some((-acc) as i64)
        }
    } else if acc > 0x7fff_ffff_ffff_ffff {
        None
    } else {
        Some(acc as i64)
    }
}

fn find_char_exec(s: &Vec<char>, from: usize, to: usize, c: char) -> (r: Option<usize>)
    requires
        from <= to <= s@.len(),
    ensures
        r matches Some(k) ==> from <= k < to && find_char(s@.subrange(from as int, to as int), c, 0) == Some((k - from) as int),
        r is None ==> find_char(s@.subrange(from as int, to as int), c, 0) is None,
{
    let ghost t = s@.subrange(from as int, to as int);
    let mut i: usize = from;
    while i < to
        invariant
            from <= i <= to <= s@.len(),
            t == s@.subrange(from as int, to as int),
            find_char(t, c, (i - from) as int) == find_char(t, c, 0),
        decreases to - i,
    {
        if s[i] == c {
            return Some(i);
        }
        i += 1;
    }
    None
}

/// The line and column of an `L<line>:<col>:` prefix of `text`.
pub fn parse_location(text: &str) -> (r: Option<(i64, i64)>)
    ensures
        r == location_prefix(text@),
{
    let s = crate::unicode::chars_of(text);
    let n = s.len();
    if n == 0 || s[0] != 'L' {
        return None;
    }
    let ghost rest = s@.drop_first();
    assert(rest =~= s@.subrange(1, n as int));
    let k1 = match find_char_exec(&s, 1, n, ':') {
        None => return None,
        Some(k) => k,
    };
    let ghost rest2 = rest.subrange((k1 - 1) + 1, rest.len() as int);
    assert(rest2 =~= s@.subrange(k1 + 1, n as int));
    let k2 = match find_char_exec(&s, k1 + 1, n, ':') {
        None => return None,
        Some(k) => k,
    };
    assert(rest.subrange(0, (k1 - 1) as int) =~= s@.subrange(1, k1 as int));
    assert(rest2.subrange(0, (k2 - (k1 + 1)) as int) =~= s@.subrange(k1 + 1, k2 as int));
    let line = parse_i64(&s, 1, k1);
    let col = parse_i64(&s, k1 + 1, k2);
    match (line, col) {
        (Some(a), Some(b)) => Some((a, b)),
        _ => None,
    }
}

/// What an extra attribute map binds to `n`.
pub open spec fn extra_hit(extra: Option<AttrMap>, n: Seq<char>) -> Option<Value> {
    match extra {
        Some(m) => if m@.contains_key(n) { Some(m@[n]) } else { None },
        None => None,
    }
}

/// A value, or `None` when absent.
pub open spec fn value_or_none(v: Option<Value>) -> Result<AttrView, PyErrorView> {
    match v {
        Some(x) => found(x@),
        None => found(ValueView::PyNone),
    }
}

pub open spec fn is_unicode_error(t: Seq<char>) -> bool {
    t == "UnicodeError"@ || t == "UnicodeEncodeError"@ || t == "UnicodeDecodeError"@
        || t == "UnicodeTranslateError"@
}

/// The names of the five `UnicodeError` arguments, and which argument
/// each one reads.
pub open spec fn unicode_arg_index(n: Seq<char>) -> Option<int> {
    if n == "encoding"@ {
        Some(0)
    } else if n == "object"@ {
        Some(1)
    } else if n == "start"@ {
        Some(2)
    } else if n == "end"@ {
        Some(3)
    } else if n == "reason"@ {
        Some(4)
    } else {
        None
    }
}

/// The location fields of a `SyntaxError`.
pub open spec fn is_syntax_field(n: Seq<char>) -> bool {
    n == "msg"@ || n == "filename"@ || n == "lineno"@ || n == "offset"@ || n == "text"@
        || n == "end_lineno"@ || n == "end_offset"@ || n == "print_file_and_line"@
}

/// The `i`-th argument, or `None`.
pub open spec fn arg_or_none(args: Seq<Value>, i: int) -> Result<AttrView, PyErrorView> {
    if 0 <= i < args.len() { found(args[i]@) } else { found(ValueView::PyNone) }
}

/// Lookup on a built-in exception of class `t` with arguments `args`, its
/// chaining fields and its extra attributes.
pub open spec fn exception_lookup(
    t: Seq<char>,
    args: Seq<Value>,
    cause: Option<Value>,
    context: Option<Value>,
    traceback: Option<Value>,
    suppress_context: bool,
    extra: Option<AttrMap>,
    n: Seq<char>,
) -> Result<AttrView, PyErrorView> {
    if n == "__name__"@ {
        found(ValueView::Str(t))
    } else if n == "args"@ {
        Ok(AttrView::Delegated)
    } else if n == "value"@ && (t == "StopIteration"@ || t == "StopAsyncIteration"@) {
        if args.len() == 1 {
            found(args[0]@)
        } else if args.len() == 0 {
            found(ValueView::PyNone)
        } else {
            Ok(AttrView::Delegated)
        }
    } else if n == "lineno"@ || n == "offset"@ {
        if t == "SyntaxError"@ && extra_hit(extra, n) is Some {
            found(extra_hit(extra, n)->Some_0@)
        } else if args.len() == 0 {
            found(ValueView::PyNone)
        } else {
            match args[0] {
                Value::Str(s) => match location_prefix(s@) {
                    Some((line, col)) => found(ValueView::Int(if n == "lineno"@ { line } else { col })),
                    None => found(ValueView::PyNone),
                },
                _ => Ok(AttrView::Delegated),
            }
        }
    } else if unicode_arg_index(n) is Some && is_unicode_error(t) {
        arg_or_none(args, unicode_arg_index(n)->Some_0)
    } else if n == "__str__"@ || n == "__repr__"@ {
        Ok(AttrView::Delegated)
    } else if n == "__cause__"@ {
        value_or_none(cause)
    } else if n == "__context__"@ {
        value_or_none(context)
    } else if n == "__traceback__"@ {
        value_or_none(traceback)
    } else if n == "__suppress_context__"@ {
        found(ValueView::Bool(suppress_context))
    } else if n == "__notes__"@ {
        match extra_hit(extra, n) {
            Some(v) => found(v@),
            None => found(ValueView::EmptyList),
        }
    } else if n == "__dict__"@ {
        Ok(AttrView::NamespaceCopy)
    } else if n == "__setstate__"@ || n == "add_note"@ || n == "with_traceback"@ || n == "__init__"@ {
        found(ValueView::BuiltinMethod(n))
    } else if is_syntax_field(n) && t == "SyntaxError"@ {
        match extra_hit(extra, n) {
            Some(v) => found(v@),
            None => if n == "msg"@ { arg_or_none(args, 0) } else { found(ValueView::PyNone) },
        }
    } else if (n == "name"@ || n == "obj"@) && t == "AttributeError"@ {
        value_or_none(extra_hit(extra, n))
    } else if (n == "name"@ || n == "path"@) && t == "ImportError"@ {
        value_or_none(extra_hit(extra, n))
    } else if n == "msg"@ && t == "ImportError"@ {
        arg_or_none(args, 0)
    } else if (n == "errno"@ || n == "strerror"@ || n == "filename"@ || n == "filename2"@)
        && (t == "OSError"@ || t == "EnvironmentError"@) {
        value_or_none(extra_hit(extra, n))
    } else if n == "code"@ && t == "SystemExit"@ {
        arg_or_none(args, 0)
    } else if n == "name"@ && (t == "NameError"@ || t == "UnboundLocalError"@) {
        value_or_none(extra_hit(extra, n))
    } else {
        match extra_hit(extra, n) {
            Some(v) => found(v@),
            None => attribute_error(no_attr_message(t, n)),
        }
    }
}

fn value_or_none_exec(v: &Option<Value>) -> (r: Result<Attr, PyError>)
    ensures
        result_view(r) == value_or_none(*v),
{
    match v {
        Some(x) => Ok(Attr::Value(x.duplicate())),
        None => Ok(Attr::Value(Value::PyNone)),
    }
}

fn extra_get(extra: &Option<AttrMap>, n: &str) -> (r: Option<Value>)
    ensures
        r == extra_hit(*extra, n@),
{
    match extra {
        Some(m) => m.get(n),
        None => None,
    }
}

fn arg_or_none_exec(args: &Vec<Value>, i: usize) -> (r: Result<Attr, PyError>)
    ensures
        result_view(r) == arg_or_none(args@, i as int),
{
    if i < args.len() {
        Ok(Attr::Value(args[i].duplicate()))
    } else {
        Ok(Attr::Value(Value::PyNone))
    }
}

/// Lookup on a built-in exception (see `exception_lookup`).
pub fn exception_get(
    t: &String,
    args: &Vec<Value>,
    cause: &Option<Value>,
    context: &Option<Value>,
    traceback: &Option<Value>,
    suppress_context: bool,
    extra: &Option<AttrMap>,
    n: &str,
) -> (r: Result<Attr, PyError>)
    ensures
        result_view(r) == exception_lookup(t@, args@, *cause, *context, *traceback, suppress_context, *extra, n@),
{
    let ts = t.as_str();
    if str_is(n, "__name__") {
        return Ok(Attr::Value(Value::Str(t.clone())));
    }
    if str_is(n, "args") {
        return Ok(Attr::Delegated);
    }
    if str_is(n, "value") && (str_is(ts, "StopIteration") || str_is(ts, "StopAsyncIteration")) {
        if args.len() == 1 {
            return Ok(Attr::Value(args[0].duplicate()));
        } else if args.len() == 0 {
            return Ok(Attr::Value(Value::PyNone));
        }
        return Ok(Attr::Delegated);
    }
    if str_is(n, "lineno") || str_is(n, "offset") {
        if str_is(ts, "SyntaxError") {
            if let Some(v) = extra_get(extra, n) {
                return Ok(Attr::Value(v));
            }
        }
        if args.len() == 0 {
            return Ok(Attr::Value(Value::PyNone));
        }
        return match &args[0] {
            Value::Str(s) => match parse_location(s.as_str()) {
                Some((line, col)) => Ok(Attr::Value(Value::Int(if str_is(n, "lineno") { line } else { col }))),
                None => Ok(Attr::Value(Value::PyNone)),
            },
            _ => Ok(Attr::Delegated),
        };
    }
    let unicode_index: Option<usize> = if str_is(n, "encoding") {
        Some(0)
    } else if str_is(n, "object") {
        Some(1)
    } else if str_is(n, "start") {
        Some(2)
    } else if str_is(n, "end") {
        Some(3)
    } else if str_is(n, "reason") {
        Some(4)
    } else {
        None
    };
    if let Some(i) = unicode_index {
        if str_is(ts, "UnicodeError") || str_is(ts, "UnicodeEncodeError") || str_is(ts, "UnicodeDecodeError")
            || str_is(ts, "UnicodeTranslateError") {
            return arg_or_none_exec(args, i);
        }
    }
    if str_is(n, "__str__") || str_is(n, "__repr__") {
        return Ok(Attr::Delegated);
    }
    if str_is(n, "__cause__") {
        return value_or_none_exec(cause);
    }
    if str_is(n, "__context__") {
        return value_or_none_exec(context);
    }
    if str_is(n, "__traceback__") {
        return value_or_none_exec(traceback);
    }
    if str_is(n, "__suppress_context__") {
        return Ok(Attr::Value(Value::Bool(suppress_context)));
    }
    if str_is(n, "__notes__") {
        return match extra_get(extra, n) {
            Some(v) => Ok(Attr::Value(v)),
            None => Ok(Attr::Value(Value::EmptyList)),
        };
    }
    if str_is(n, "__dict__") {
        return Ok(Attr::NamespaceCopy);
    }
    if str_is(n, "__setstate__") || str_is(n, "add_note") || str_is(n, "with_traceback") || str_is(n, "__init__") {
        return Ok(Attr::Value(Value::BuiltinMethod(n.to_owned())));
    }
    let syntax_field = str_is(n, "msg") || str_is(n, "filename") || str_is(n, "lineno") || str_is(n, "offset")
        || str_is(n, "text") || str_is(n, "end_lineno") || str_is(n, "end_offset")
        || str_is(n, "print_file_and_line");
    if syntax_field && str_is(ts, "SyntaxError") {
        return match extra_get(extra, n) {
            Some(v) => Ok(Attr::Value(v)),
            None => if str_is(n, "msg") { arg_or_none_exec(args, 0) } else { Ok(Attr::Value(Value::PyNone)) },
        };
    }
    if (str_is(n, "name") || str_is(n, "obj")) && str_is(ts, "AttributeError") {
        return value_or_none_exec(&extra_get(extra, n));
    }
    if (str_is(n, "name") || str_is(n, "path")) && str_is(ts, "ImportError") {
        return value_or_none_exec(&extra_get(extra, n));
    }
    if str_is(n, "msg") && str_is(ts, "ImportError") {
        return arg_or_none_exec(args, 0);
    }
    if (str_is(n, "errno") || str_is(n, "strerror") || str_is(n, "filename") || str_is(n, "filename2"))
        && (str_is(ts, "OSError") || str_is(ts, "EnvironmentError")) {
        return value_or_none_exec(&extra_get(extra, n));
    }
    if str_is(n, "code") && str_is(ts, "SystemExit") {
        return arg_or_none_exec(args, 0);
    }
    if str_is(n, "name") && (str_is(ts, "NameError") || str_is(ts, "UnboundLocalError")) {
        return value_or_none_exec(&extra_get(extra, n));
    }
    match extra_get(extra, n) {
        Some(v) => Ok(Attr::Value(v)),
        None => Err(PyError::AttributeError(no_attr_msg(ts, n))),
    }
}

/// Lookup on a `property` object with its accessors and doc string.
pub open spec fn property_lookup(
    getter: Option<Value>,
    setter: Option<Value>,
    deleter: Option<Value>,
    doc: Option<String>,
    n: Seq<char>,
) -> Result<AttrView, PyErrorView> {
    if n == "fget"@ {
        match getter {
            Some(v) => found(v@),
            None => attribute_error("property has no getter"@),
        }
    } else if n == "fset"@ {
        match setter {
            Some(v) => found(v@),
            None => attribute_error("property has no setter"@),
        }
    } else if n == "fdel"@ {
        match deleter {
            Some(v) => found(v@),
            None => attribute_error("property has no deleter"@),
        }
    } else if n == "doc"@ || n == "__doc__"@ {
        match doc {
            Some(d) => found(ValueView::Str(d@)),
            None => found(ValueView::PyNone),
        }
    } else if n == "__get__"@ {
        if getter is Some { found(ValueView::BuiltinMethod(n)) } else { attribute_error("property has no getter"@) }
    } else if n == "__set__"@ {
        if setter is Some { found(ValueView::BuiltinMethod(n)) } else { attribute_error("property has no setter"@) }
    } else if n == "setter"@ || n == "deleter"@ || n == "getter"@ {
        found(ValueView::BuiltinMethod(n))
    } else if n == "__isabstractmethod__"@ {
        Ok(AttrView::Delegated)
    } else {
        attribute_error(no_attr_message("property"@, n))
    }
}

/// Lookup on a `property` object (see `property_lookup`).
pub fn property_get(
    getter: &Option<Value>,
    setter: &Option<Value>,
    deleter: &Option<Value>,
    doc: &Option<String>,
    n: &str,
) -> (r: Result<Attr, PyError>)
    ensures
        result_view(r) == property_lookup(*getter, *setter, *deleter, *doc, n@),
{
    if str_is(n, "fget") {
        return match getter {
            Some(v) => Ok(Attr::Value(v.duplicate())),
            None => Err(PyError::AttributeError("property has no getter".to_owned())),
        };
    }
    if str_is(n, "fset") {
        return match setter {
            Some(v) => Ok(Attr::Value(v.duplicate())),
            None => Err(PyError::AttributeError("property has no setter".to_owned())),
        };
    }
    if str_is(n, "fdel") {
        return match deleter {
            Some(v) => Ok(Attr::Value(v.duplicate())),
            None => Err(PyError::AttributeError("property has no deleter".to_owned())),
        };
    }
    if str_is(n, "doc") || str_is(n, "__doc__") {
        return match doc {
            Some(d) => Ok(Attr::Value(Value::Str(d.clone()))),
            None => Ok(Attr::Value(Value::PyNone)),
        };
    }
    if str_is(n, "__get__") {
        return if getter.is_some() {
            Ok(Attr::Value(Value::BuiltinMethod(n.to_owned())))
        } else {
            Err(PyError::AttributeError("property has no getter".to_owned()))
        };
    }
    if str_is(n, "__set__") {
        return if setter.is_some() {
            Ok(Attr::Value(Value::BuiltinMethod(n.to_owned())))
        } else {
            Err(PyError::AttributeError("property has no setter".to_owned()))
        };
    }
    if str_is(n, "setter") || str_is(n, "deleter") || str_is(n, "getter") {
        return Ok(Attr::Value(Value::BuiltinMethod(n.to_owned())));
    }
    if str_is(n, "__isabstractmethod__") {
        return Ok(Attr::Delegated);
    }
    Err(PyError::AttributeError(no_attr_msg("property", n)))
}

} // verus!
