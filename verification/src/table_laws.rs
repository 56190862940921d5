//! Properties of attribute lookup stated against fixed names: the methods a
//! `list` answers, and the arguments a `UnicodeError` exposes.

use vstd::prelude::*;
use crate::attrmap::ValueView;
use crate::object::{PyObject, get_attribute_spec, found, lookup};
use crate::attrmap::Value;
use crate::exc_attrs::{exception_lookup, unicode_arg_index, is_unicode_error};
use crate::method_tables::{native_lookup, type_table, list_method};

verus! {

/// Every method the built-in `list` type defines (`append`, `pop`, `sort`,
/// `insert`, the arithmetic and container dunders, ...) is answered on a
/// list value with the built-in method of that name.
pub proof fn law_list_answers_its_methods(o: PyObject, n: Seq<char>)
    requires
        o matches PyObject::Container { class_name } && class_name@ == "list"@,
        n == "__iadd__"@ ||
            n == "__init__"@ ||
            n == "__imul__"@ ||
            n == "__mul__"@ ||
            n == "__rmul__"@ ||
            n == "append"@ ||
            n == "__iter__"@ ||
            n == "__len__"@ ||
            n == "__contains__"@ ||
            n == "__getitem__"@ ||
            n == "__setitem__"@ ||
            n == "__delitem__"@ ||
            n == "pop"@ ||
            n == "extend"@ ||
            n == "clear"@ ||
            n == "reverse"@ ||
            n == "remove"@ ||
            n == "index"@ ||
            n == "count"@ ||
            n == "sort"@ ||
            n == "insert"@ ||
            n == "copy"@ ||
            n == "__reversed__"@ ||
            n == "__sizeof__"@,
    ensures
        get_attribute_spec(o, n) == found(ValueView::BuiltinMethod(n)),
{
    reveal_strlit("__iadd__");
    reveal_strlit("__init__");
    reveal_strlit("__imul__");
    reveal_strlit("__mul__");
    reveal_strlit("__rmul__");
    reveal_strlit("append");
    reveal_strlit("__iter__");
    reveal_strlit("__len__");
    reveal_strlit("__contains__");
    reveal_strlit("__getitem__");
    reveal_strlit("__setitem__");
    reveal_strlit("__delitem__");
    reveal_strlit("pop");
    reveal_strlit("extend");
    reveal_strlit("clear");
    reveal_strlit("reverse");
    reveal_strlit("remove");
    reveal_strlit("index");
    reveal_strlit("count");
    reveal_strlit("sort");
    reveal_strlit("insert");
    reveal_strlit("copy");
    reveal_strlit("__reversed__");
    reveal_strlit("__sizeof__");
    reveal_strlit("list");
    reveal_strlit("str");
    reveal_strlit("complex");
    reveal_strlit("int");
    reveal_strlit("bool");
    reveal_strlit("__class__");
    reveal_strlit("__dir__");
    assert(list_method(n));
    assert("list"@ != "str"@ && "list"@ != "complex"@ && "list"@ != "int"@ && "list"@ != "bool"@) by {
        assert("list"@.len() != "str"@.len());
        assert("list"@.len() != "complex"@.len());
        assert("list"@.len() != "int"@.len());
        assert("list"@[0] != "bool"@[0]);
    }
    assert(type_table("list"@, n) == Some((true, false)));
    assert(native_lookup("list"@, n) == found(ValueView::BuiltinMethod(n)));
    assert(n.len() != 9);
    assert("__class__"@.len() == 9);
    assert(n != "__dir__"@) by {
        if n.len() == 7 {
            assert(n[0] != "__dir__"@[0] || n[2] != "__dir__"@[2]);
        }
    }
    assert(lookup(o, n) == native_lookup("list"@, n));
}

/// The argument at `i`, or `None` when there are fewer arguments.
pub open spec fn nth_arg(args: Seq<Value>, i: int) -> ValueView {
    if i < args.len() { args[i]@ } else { ValueView::PyNone }
}

proof fn lemma_unicode_field(o: PyObject, n: Seq<char>, i: int)
    requires
        o matches PyObject::Exception { class_name, .. } && is_unicode_error(class_name@),
        unicode_arg_index(n) == Some(i),
        n != "__class__"@,
        n != "__dir__"@,
        n != "__name__"@,
        n != "args"@,
        n != "value"@,
        n != "lineno"@,
        n != "offset"@,
    ensures
        o matches PyObject::Exception { args, .. } && get_attribute_spec(o, n) == found(nth_arg(args@, i)),
{
    if let PyObject::Exception { class_name, args, cause, context, traceback, suppress_context, extra } = o {
        assert(exception_lookup(class_name@, args@, cause, context, traceback, suppress_context, extra, n)
            == found(nth_arg(args@, i)));
        assert(lookup(o, n) == found(nth_arg(args@, i)));
    }
}

/// A `UnicodeError` of any kind (`UnicodeError`, `UnicodeEncodeError`,
/// `UnicodeDecodeError`, `UnicodeTranslateError`) exposes its five
/// arguments by name: `encoding` is argument 0, `object` 1, `start` 2,
/// `end` 3 and `reason` 4 (`None` where the argument is missing).
pub proof fn law_unicode_error_fields(o: PyObject)
    requires
        o matches PyObject::Exception { class_name, .. } && (class_name@ == "UnicodeError"@
            || class_name@ == "UnicodeEncodeError"@ || class_name@ == "UnicodeDecodeError"@
            || class_name@ == "UnicodeTranslateError"@),
    ensures
        o matches PyObject::Exception { args, .. } && {
            &&& get_attribute_spec(o, "encoding"@) == found(nth_arg(args@, 0))
            &&& get_attribute_spec(o, "object"@) == found(nth_arg(args@, 1))
            &&& get_attribute_spec(o, "start"@) == found(nth_arg(args@, 2))
            &&& get_attribute_spec(o, "end"@) == found(nth_arg(args@, 3))
            &&& get_attribute_spec(o, "reason"@) == found(nth_arg(args@, 4))
        },
{
    reveal_strlit("encoding");
    reveal_strlit("object");
    reveal_strlit("start");
    reveal_strlit("end");
    reveal_strlit("reason");
    reveal_strlit("__class__");
    reveal_strlit("__dir__");
    reveal_strlit("__name__");
    reveal_strlit("args");
    reveal_strlit("value");
    reveal_strlit("lineno");
    reveal_strlit("offset");
    reveal_strlit("UnicodeError");
    reveal_strlit("UnicodeEncodeError");
    reveal_strlit("UnicodeDecodeError");
    reveal_strlit("UnicodeTranslateError");
    assert(is_unicode_error(o->Exception_class_name@));
    assert("object"@ != "encoding"@) by { assert("object"@.len() != "encoding"@.len()); }
    assert("start"@ != "encoding"@ && "start"@ != "object"@) by { assert("start"@.len() != "encoding"@.len() && "start"@.len() != "object"@.len()); }
    assert("end"@ != "encoding"@ && "end"@ != "object"@ && "end"@ != "start"@) by { assert("end"@.len() == 3); }
    assert("reason"@ != "encoding"@ && "reason"@ != "object"@ && "reason"@ != "start"@ && "reason"@ != "end"@) by {
        assert("reason"@[0] != "object"@[0]);
    }
    assert(unicode_arg_index("encoding"@) == Some(0int));
    assert(unicode_arg_index("object"@) == Some(1int));
    assert(unicode_arg_index("start"@) == Some(2int));
    assert(unicode_arg_index("end"@) == Some(3int));
    assert(unicode_arg_index("reason"@) == Some(4int));
    assert("encoding"@ != "__class__"@ && "encoding"@ != "__dir__"@ && "encoding"@ != "__name__"@ && "encoding"@ != "args"@
        && "encoding"@ != "value"@ && "encoding"@ != "lineno"@ && "encoding"@ != "offset"@) by {
        assert("encoding"@[0] != "__class__"@[0] && "encoding"@[0] != "args"@[0] && "encoding"@[0] != "value"@[0]
            && "encoding"@[0] != "lineno"@[0] && "encoding"@[0] != "offset"@[0]);
    }
    lemma_unicode_field(o, "encoding"@, 0);
    assert("object"@ != "__class__"@ && "object"@ != "__dir__"@ && "object"@ != "__name__"@ && "object"@ != "args"@
        && "object"@ != "value"@ && "object"@ != "lineno"@ && "object"@ != "offset"@) by {
        assert("object"@[0] != "__class__"@[0] && "object"@[0] != "args"@[0] && "object"@[0] != "value"@[0]
            && "object"@[0] != "lineno"@[0] && "object"@[1] != "offset"@[1]);
    }
    lemma_unicode_field(o, "object"@, 1);
    assert("start"@ != "__class__"@ && "start"@ != "__dir__"@ && "start"@ != "__name__"@ && "start"@ != "args"@
        && "start"@ != "value"@ && "start"@ != "lineno"@ && "start"@ != "offset"@) by {
        assert("start"@[0] != "__class__"@[0] && "start"@[0] != "args"@[0] && "start"@[0] != "value"@[0]
            && "start"@[0] != "lineno"@[0] && "start"@[0] != "offset"@[0]);
    }
    lemma_unicode_field(o, "start"@, 2);
    assert("end"@ != "__class__"@ && "end"@ != "__dir__"@ && "end"@ != "__name__"@ && "end"@ != "args"@
        && "end"@ != "value"@ && "end"@ != "lineno"@ && "end"@ != "offset"@) by {
        assert("end"@[0] != "__class__"@[0] && "end"@[0] != "args"@[0] && "end"@[0] != "value"@[0]
            && "end"@[0] != "lineno"@[0] && "end"@[0] != "offset"@[0]);
    }
    lemma_unicode_field(o, "end"@, 3);
    assert("reason"@ != "__class__"@ && "reason"@ != "__dir__"@ && "reason"@ != "__name__"@ && "reason"@ != "args"@
        && "reason"@ != "value"@ && "reason"@ != "lineno"@ && "reason"@ != "offset"@) by {
        assert("reason"@[0] != "__class__"@[0] && "reason"@[0] != "args"@[0] && "reason"@[0] != "value"@[0]
            && "reason"@[0] != "lineno"@[0] && "reason"@[0] != "offset"@[0]);
    }
    lemma_unicode_field(o, "reason"@, 4);
}

} // verus!
