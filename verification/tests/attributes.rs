use pyattrs::attrmap::{AttrMap, Value};
use pyattrs::error::PyError;
use pyattrs::object::{
    assign_attr, assign_attr_syncing_globals, delete_attr, with_traceback, CodeData, lookup_attr, resolve_attr, Attr, InstanceData, ObjectAccess,
    PyObject,
};
use pyattrs::strtable::{str_attribute, StrAttr};
use pyattrs::exc_attrs::parse_location;

fn instance(class_name: &str) -> PyObject {
    PyObject::Instance(InstanceData {
        class_name: class_name.to_string(),
        type_obj: Value::TypeObject(class_name.to_string()),
        slots: None,
        class_dicts: Vec::new(),
        exception_base: false,
        dict: AttrMap::new(),
    })
}

fn module(name: &str) -> PyObject {
    PyObject::Module { name: name.to_string(), dict: AttrMap::new() }
}

fn class(name: &str) -> PyObject {
    PyObject::Type { name: name.to_string(), metatype: None, dict: AttrMap::new(), base_dicts: Vec::new(), bases: Vec::new() }
}

fn expect_no_attr(r: Result<Attr, PyError>, t: &str, n: &str) {
    match r {
        Err(PyError::AttributeErrorWithContext { message, name, obj_type, obj }) => {
            assert_eq!(message, format!("'{}' object has no attribute '{}'", t, n));
            assert_eq!(name, n);
            assert_eq!(obj_type, t);
            assert_eq!(obj.reported_type_name(), t);
        }
        other => panic!("expected an AttributeError, got {:?}", other),
    }
}

#[test]
fn instance_set_then_get() {
    let mut o = instance("Foo");
    assert_eq!(o.set_attribute("x", Value::Ref(7)), Ok(()));
    assert_eq!(o.get_attribute("x"), Ok(Attr::Value(Value::Ref(7))));
}

#[test]
fn instance_missing_attribute_is_named() {
    let o = instance("Foo");
    expect_no_attr(o.get_attribute("y"), "Foo", "y");
    assert_eq!(
        lookup_attr(&o, "y"),
        Err(PyError::AttributeError("'Foo' object has no attribute 'y'".to_string()))
    );
}

#[test]
fn missing_doc_reads_as_none() {
    let o = instance("Foo");
    assert_eq!(o.get_attribute("__doc__"), Ok(Attr::Value(Value::PyNone)));
    let m = module("m");
    assert_eq!(m.get_attribute("__doc__"), Ok(Attr::Value(Value::PyNone)));
}

#[test]
fn class_attribute_is_the_type() {
    let o = instance("Foo");
    assert_eq!(o.get_attribute("__class__"), Ok(Attr::Value(Value::TypeObject("Foo".to_string()))));
    let other = PyObject::Other { class_name: "int".to_string() };
    assert_eq!(other.get_attribute("__class__"), Ok(Attr::Value(Value::TypeObject("int".to_string()))));
    let t = class("K");
    assert_eq!(t.get_attribute("__class__"), Ok(Attr::Value(Value::TypeObject("type".to_string()))));
}

#[test]
fn instance_dict_and_weakref() {
    let o = instance("Foo");
    assert_eq!(o.get_attribute("__dict__"), Ok(Attr::NamespaceCopy));
    assert_eq!(o.get_attribute("__weakref__"), Ok(Attr::Value(Value::PyNone)));
}

#[test]
fn slots_refuse_other_names() {
    let mut o = PyObject::Instance(InstanceData {
        class_name: "P".to_string(),
        type_obj: Value::TypeObject("P".to_string()),
        slots: Some(vec!["a".to_string()]),
        class_dicts: Vec::new(),
        exception_base: false,
        dict: AttrMap::new(),
    });
    assert_eq!(o.set_attribute("a", Value::Bool(true)), Ok(()));
    assert_eq!(
        o.set_attribute("b", Value::Bool(true)),
        Err(PyError::AttributeError("'P' object has no attribute 'b'".to_string()))
    );
    expect_no_attr(o.get_attribute("b"), "P", "b");
    assert_eq!(o.get_attribute("a"), Ok(Attr::Value(Value::Bool(true))));
}

#[test]
fn dialect_is_read_only() {
    let mut o = instance("Dialect");
    let refused = Err(PyError::AttributeError("attribute is read-only".to_string()));
    assert_eq!(o.set_attribute("delimiter", Value::Str(";".to_string())), refused);
    assert_eq!(o.del_attribute("delimiter"), refused);
}

#[test]
fn class_namespace_is_searched_in_order() {
    let mut first = AttrMap::new();
    first.insert("m", Value::Ref(1));
    let mut second = AttrMap::new();
    second.insert("m", Value::Ref(2));
    second.insert("n", Value::Ref(3));
    let o = PyObject::Instance(InstanceData {
        class_name: "C".to_string(),
        type_obj: Value::TypeObject("C".to_string()),
        slots: None,
        class_dicts: vec![first, second],
        exception_base: false,
        dict: AttrMap::new(),
    });
    assert_eq!(o.get_attribute("m"), Ok(Attr::Value(Value::Ref(1))));
    assert_eq!(o.get_attribute("n"), Ok(Attr::Value(Value::Ref(3))));
}

#[test]
fn instance_dict_method_fallback() {
    let o = instance("Mapping");
    assert_eq!(o.get_attribute("keys"), Ok(Attr::Value(Value::BuiltinMethod("keys".to_string()))));
    let view = instance("dict_keys");
    expect_no_attr(view.get_attribute("keys"), "dict_keys", "keys");
}

#[test]
fn exception_subclass_defaults() {
    let o = PyObject::Instance(InstanceData {
        class_name: "MyError".to_string(),
        type_obj: Value::TypeObject("MyError".to_string()),
        slots: None,
        class_dicts: Vec::new(),
        exception_base: true,
        dict: AttrMap::new(),
    });
    assert_eq!(o.get_attribute("__cause__"), Ok(Attr::Value(Value::PyNone)));
    assert_eq!(o.get_attribute("__suppress_context__"), Ok(Attr::Value(Value::Bool(false))));
    assert_eq!(o.get_attribute("__notes__"), Ok(Attr::Value(Value::EmptyList)));
    assert_eq!(
        o.get_attribute("add_note"),
        Ok(Attr::Value(Value::BuiltinMethod("add_note".to_string())))
    );
}

#[test]
fn module_set_get_del() {
    let mut m = module("mod");
    assert_eq!(m.get_attribute("__name__"), Ok(Attr::Value(Value::Str("mod".to_string()))));
    assert_eq!(m.set_attribute("x", Value::Ref(5)), Ok(()));
    assert_eq!(m.get_attribute("x"), Ok(Attr::Value(Value::Ref(5))));
    assert_eq!(m.del_attribute("x"), Ok(()));
    expect_no_attr(m.get_attribute("x"), "module", "x");
    assert_eq!(
        m.del_attribute("x"),
        Err(PyError::AttributeError("module has no attribute 'x'".to_string()))
    );
}

#[test]
fn type_lookup_rules() {
    let mut t = class("K");
    assert_eq!(t.get_attribute("__name__"), Ok(Attr::Value(Value::Str("K".to_string()))));
    assert_eq!(t.get_attribute("__module__"), Ok(Attr::Value(Value::Str("builtins".to_string()))));
    assert_eq!(t.get_attribute("__mro__"), Ok(Attr::Delegated));
    assert_eq!(t.get_attribute("whatever"), Ok(Attr::Delegated));
    assert_eq!(t.set_attribute("whatever", Value::Ref(9)), Ok(()));
    assert_eq!(t.get_attribute("whatever"), Ok(Attr::Value(Value::Ref(9))));
    assert_eq!(t.del_attribute("whatever"), Ok(()));
    assert_eq!(
        t.del_attribute("whatever"),
        Err(PyError::AttributeError("type has no attribute 'whatever'".to_string()))
    );
    let arr = class("array");
    assert_eq!(arr.get_attribute("__module__"), Ok(Attr::Value(Value::Str("array".to_string()))));
}

#[test]
fn container_refuses_assignment() {
    let mut l = PyObject::Container { class_name: "list".to_string() };
    assert_eq!(
        l.set_attribute("x", Value::PyNone),
        Err(PyError::AttributeError("cannot set attribute 'x' on 'list'".to_string()))
    );
    assert_eq!(l.get_attribute("append"), Ok(Attr::Value(Value::BuiltinMethod("append".to_string()))));
    expect_no_attr(l.get_attribute("push"), "list", "push");
}

#[test]
fn dead_proxy_raises_reference_error() {
    let mut p = PyObject::WeakProxy { target: None };
    let gone = || PyError::ReferenceError("weakly-referenced object no longer exists".to_string());
    assert_eq!(p.get_attribute("x"), Err(gone()));
    assert_eq!(p.set_attribute("x", Value::PyNone), Err(gone()));
    assert_eq!(p.del_attribute("x"), Err(gone()));
}

#[test]
fn live_proxy_forwards() {
    let mut p = PyObject::WeakProxy { target: Some(Box::new(instance("Foo"))) };
    assert_eq!(p.set_attribute("x", Value::Ref(1)), Ok(()));
    assert_eq!(p.get_attribute("x"), Ok(Attr::Value(Value::Ref(1))));
    expect_no_attr(p.get_attribute("zz"), "Foo", "zz");
    assert_eq!(p.get_attribute("__class__"), Ok(Attr::Value(Value::TypeObject("weakproxy".to_string()))));
    assert_eq!(p.del_attribute("x"), Ok(()));
    expect_no_attr(p.get_attribute("x"), "Foo", "x");
}

#[test]
fn partial_reads_its_namespace_except_dunders() {
    let mut dict = AttrMap::new();
    dict.insert("func", Value::Ref(4));
    dict.insert("__name__", Value::Str("n".to_string()));
    let p = PyObject::Partial { dict };
    assert_eq!(p.get_attribute("func"), Ok(Attr::Value(Value::Ref(4))));
    expect_no_attr(p.get_attribute("__name__"), "functools.partial", "__name__");
}

#[test]
fn exception_chaining_fields_are_set() {
    let mut e = PyObject::Exception {
        class_name: "ValueError".to_string(),
        args: Vec::new(),
        cause: None,
        context: None,
        traceback: None,
        suppress_context: false,
        extra: None,
    };
    assert_eq!(e.set_attribute("__cause__", Value::Ref(3)), Ok(()));
    assert_eq!(e.set_attribute("__suppress_context__", Value::Bool(true)), Ok(()));
    assert_eq!(e.set_attribute("note", Value::Str("n".to_string())), Ok(()));
    match &e {
        PyObject::Exception { cause, suppress_context, extra, context, .. } => {
            assert_eq!(cause, &Some(Value::Ref(3)));
            assert!(*suppress_context);
            assert_eq!(context, &None);
            let extra = extra.as_ref().unwrap();
            assert_eq!(extra.get("note"), Some(Value::Str("n".to_string())));
        }
        _ => panic!("not an exception"),
    }
    assert_eq!(e.get_attribute("__cause__"), Ok(Attr::Value(Value::Ref(3))));
    assert_eq!(e.get_attribute("__suppress_context__"), Ok(Attr::Value(Value::Bool(true))));
    assert_eq!(e.get_attribute("note"), Ok(Attr::Value(Value::Str("n".to_string()))));
}

#[test]
fn plain_value_refuses_and_names() {
    let mut o = PyObject::Other { class_name: "int".to_string() };
    assert_eq!(
        o.set_attribute("x", Value::PyNone),
        Err(PyError::AttributeError("cannot set attribute 'x' on 'int'".to_string()))
    );
    expect_no_attr(o.get_attribute("x"), "int", "x");
    assert_eq!(o.del_attribute("x"), Err(PyError::AttributeError("'int' object has no attribute 'x'".to_string())));
}

#[test]
fn native_values_delegate_to_their_type() {
    let o = PyObject::Native { class_name: "memoryview".to_string() };
    assert_eq!(o.get_attribute("upper"), Ok(Attr::Delegated));
    assert_eq!(o.reported_type_name(), "memoryview");
    assert_eq!(o.get_attribute_impl("upper"), Ok(Attr::Delegated));
}

#[test]
fn strings_answer_their_method_table() {
    let s = PyObject::Native { class_name: "str".to_string() };
    assert_eq!(s.get_attribute("upper"), Ok(Attr::Value(Value::BuiltinMethod("upper".to_string()))));
    expect_no_attr(s.get_attribute("nope"), "str", "nope");
    assert_eq!(s.get_attribute("__doc__"), Ok(Attr::Value(Value::PyNone)));
}

#[test]
fn coroutines_answer_their_method_table() {
    let c = PyObject::Native { class_name: "coroutine".to_string() };
    assert_eq!(c.get_attribute("send"), Ok(Attr::Value(Value::BuiltinMethod("send".to_string()))));
    assert_eq!(c.get_attribute("aclose"), Ok(Attr::Value(Value::BuiltinMethod("aclose".to_string()))));
    expect_no_attr(c.get_attribute("gi_frame"), "coroutine", "gi_frame");
}

#[test]
fn free_functions_match_the_trait() {
    let mut m = module("m");
    assert_eq!(assign_attr(&mut m, "k", Value::Bool(false)), Ok(()));
    assert_eq!(resolve_attr(&m, "k"), Ok(Attr::Value(Value::Bool(false))));
    assert_eq!(delete_attr(&mut m, "k"), Ok(()));
    expect_no_attr(resolve_attr(&m, "k"), "module", "k");
}

#[test]
fn refused_assignment_leaves_object_unchanged() {
    let mut o = PyObject::Instance(InstanceData {
        class_name: "P".to_string(),
        type_obj: Value::TypeObject("P".to_string()),
        slots: Some(vec!["a".to_string()]),
        class_dicts: Vec::new(),
        exception_base: false,
        dict: AttrMap::new(),
    });
    assert!(o.set_attribute("b", Value::Ref(1)).is_err());
    match &o {
        PyObject::Instance(d) => assert_eq!(d.dict.names().len(), 0),
        _ => panic!("not an instance"),
    }
}

#[test]
fn str_attribute_table() {
    assert_eq!(str_attribute("split"), Ok(StrAttr::Split));
    assert_eq!(str_attribute("__len__"), Ok(StrAttr::Len));
    assert_eq!(str_attribute("encode"), Ok(StrAttr::Encode));
    assert_eq!(
        str_attribute("nope"),
        Err(PyError::AttributeError("'str' object has no attribute 'nope'".to_string()))
    );
}

fn exception(class_name: &str, args: Vec<Value>) -> PyObject {
    PyObject::Exception {
        class_name: class_name.to_string(),
        args,
        cause: None,
        context: None,
        traceback: None,
        suppress_context: false,
        extra: None,
    }
}

#[test]
fn exception_basic_fields() {
    let e = exception("KeyError", vec![Value::Str("k".to_string())]);
    assert_eq!(e.get_attribute("__name__"), Ok(Attr::Value(Value::Str("KeyError".to_string()))));
    assert_eq!(e.get_attribute("__context__"), Ok(Attr::Value(Value::PyNone)));
    assert_eq!(e.get_attribute("__notes__"), Ok(Attr::Value(Value::EmptyList)));
    assert_eq!(e.get_attribute("__dict__"), Ok(Attr::NamespaceCopy));
    assert_eq!(e.get_attribute("args"), Ok(Attr::Delegated));
    assert_eq!(e.get_attribute("with_traceback"), Ok(Attr::Value(Value::BuiltinMethod("with_traceback".to_string()))));
    expect_no_attr(e.get_attribute("missing"), "KeyError", "missing");
}

#[test]
fn stop_iteration_value() {
    assert_eq!(exception("StopIteration", vec![]).get_attribute("value"), Ok(Attr::Value(Value::PyNone)));
    assert_eq!(
        exception("StopIteration", vec![Value::Int(4)]).get_attribute("value"),
        Ok(Attr::Value(Value::Int(4)))
    );
    assert_eq!(
        exception("StopIteration", vec![Value::Int(4), Value::Int(5)]).get_attribute("value"),
        Ok(Attr::Delegated)
    );
    expect_no_attr(exception("ValueError", vec![]).get_attribute("value"), "ValueError", "value");
}

#[test]
fn syntax_error_position_from_message() {
    let e = exception("SyntaxError", vec![Value::Str("L3:7: invalid syntax".to_string())]);
    assert_eq!(e.get_attribute("lineno"), Ok(Attr::Value(Value::Int(3))));
    assert_eq!(e.get_attribute("offset"), Ok(Attr::Value(Value::Int(7))));
    assert_eq!(e.get_attribute("msg"), Ok(Attr::Value(Value::Str("L3:7: invalid syntax".to_string()))));
    assert_eq!(e.get_attribute("text"), Ok(Attr::Value(Value::PyNone)));
    let plain = exception("ValueError", vec![Value::Str("no position".to_string())]);
    assert_eq!(plain.get_attribute("lineno"), Ok(Attr::Value(Value::PyNone)));
    let bad = exception("ValueError", vec![Value::Str("Lx:7:".to_string())]);
    assert_eq!(bad.get_attribute("offset"), Ok(Attr::Value(Value::PyNone)));
}

#[test]
fn unicode_error_arguments() {
    let e = exception(
        "UnicodeEncodeError",
        vec![Value::Str("ascii".to_string()), Value::Str("é".to_string()), Value::Int(0), Value::Int(1)],
    );
    assert_eq!(e.get_attribute("encoding"), Ok(Attr::Value(Value::Str("ascii".to_string()))));
    assert_eq!(e.get_attribute("end"), Ok(Attr::Value(Value::Int(1))));
    assert_eq!(e.get_attribute("reason"), Ok(Attr::Value(Value::PyNone)));
    let other = exception("ValueError", vec![Value::Str("x".to_string())]);
    expect_no_attr(other.get_attribute("encoding"), "ValueError", "encoding");
}

#[test]
fn class_specific_exception_fields() {
    assert_eq!(exception("SystemExit", vec![Value::Int(2)]).get_attribute("code"), Ok(Attr::Value(Value::Int(2))));
    assert_eq!(exception("OSError", vec![]).get_attribute("errno"), Ok(Attr::Value(Value::PyNone)));
    assert_eq!(exception("AttributeError", vec![]).get_attribute("obj"), Ok(Attr::Value(Value::PyNone)));
    assert_eq!(
        exception("ImportError", vec![Value::Str("m".to_string())]).get_attribute("msg"),
        Ok(Attr::Value(Value::Str("m".to_string())))
    );
    let mut named = exception("NameError", vec![]);
    assert_eq!(named.set_attribute("name", Value::Str("x".to_string())), Ok(()));
    assert_eq!(named.get_attribute("name"), Ok(Attr::Value(Value::Str("x".to_string()))));
}

#[test]
fn exception_cannot_delete() {
    let mut e = exception("ValueError", vec![]);
    assert_eq!(
        e.del_attribute("x"),
        Err(PyError::AttributeError("'ValueError' object has no attribute 'x'".to_string()))
    );
}

#[test]
fn property_accessors() {
    let p = PyObject::Property {
        getter: Some(Value::Ref(1)),
        setter: None,
        deleter: None,
        doc: Some("the doc".to_string()),
    };
    assert_eq!(p.get_attribute("fget"), Ok(Attr::Value(Value::Ref(1))));
    assert_eq!(p.get_attribute("__doc__"), Ok(Attr::Value(Value::Str("the doc".to_string()))));
    assert_eq!(p.get_attribute("__get__"), Ok(Attr::Value(Value::BuiltinMethod("__get__".to_string()))));
    assert_eq!(
        lookup_attr(&p, "fset"),
        Err(PyError::AttributeError("property has no setter".to_string()))
    );
    expect_no_attr(p.get_attribute("fset"), "property", "fset");
    assert_eq!(p.get_attribute("setter"), Ok(Attr::Value(Value::BuiltinMethod("setter".to_string()))));
    expect_no_attr(p.get_attribute("nope"), "property", "nope");
}

#[test]
fn location_prefix_parsing() {
    assert_eq!(parse_location("L12:-3: msg"), Some((12, -3)));
    assert_eq!(parse_location("L+1:2:"), Some((1, 2)));
    assert_eq!(parse_location("L1:2"), None);
    assert_eq!(parse_location("L:2:"), None);
    assert_eq!(parse_location("12:3:"), None);
    assert_eq!(parse_location("L99999999999999999999:1:"), None);
    assert_eq!(parse_location("L-9223372036854775808:0:"), Some((i64::MIN, 0)));
}

#[test]
fn exception_group_fields() {
    let mut g = PyObject::ExceptionGroup { class_name: "ExceptionGroup".to_string(), args: vec![Value::Str("boom".to_string())] };
    assert_eq!(g.get_attribute("message"), Ok(Attr::Value(Value::Str("boom".to_string()))));
    assert_eq!(g.get_attribute("exceptions"), Ok(Attr::Delegated));
    assert_eq!(g.get_attribute("__traceback__"), Ok(Attr::Value(Value::PyNone)));
    assert_eq!(g.set_attribute("__traceback__", Value::Ref(1)), Ok(()));
    assert_eq!(g.get_attribute("__traceback__"), Ok(Attr::Value(Value::PyNone)));
    expect_no_attr(g.get_attribute("x"), "ExceptionGroup", "x");
    let empty = PyObject::ExceptionGroup { class_name: "BaseExceptionGroup".to_string(), args: vec![] };
    assert_eq!(empty.get_attribute("message"), Ok(Attr::Value(Value::Str(String::new()))));
}

#[test]
fn generator_and_iterator_tables() {
    let g = PyObject::Native { class_name: "generator".to_string() };
    assert_eq!(g.get_attribute("send"), Ok(Attr::Value(Value::BuiltinMethod("send".to_string()))));
    expect_no_attr(g.get_attribute("gi_code"), "generator", "gi_code");
    let it = PyObject::Native { class_name: "list_iterator".to_string() };
    assert_eq!(
        it.get_attribute("__length_hint__"),
        Ok(Attr::Value(Value::BuiltinMethod("__length_hint__".to_string())))
    );
    expect_no_attr(it.get_attribute("send"), "list_iterator", "send");
}

#[test]
fn complex_conversions_are_refused() {
    let c = PyObject::Native { class_name: "complex".to_string() };
    assert_eq!(c.get_attribute("__float__"), Err(PyError::TypeError("can't convert complex to float".to_string())));
    assert_eq!(c.get_attribute("__int__"), Err(PyError::TypeError("can't convert complex to int".to_string())));
    assert_eq!(c.get_attribute("real"), Ok(Attr::Delegated));
    assert_eq!(c.get_attribute("conjugate"), Ok(Attr::Value(Value::BuiltinMethod("conjugate".to_string()))));
    expect_no_attr(c.get_attribute("nope"), "complex", "nope");
}

#[test]
fn type_tables_of_builtin_values() {
    let d = PyObject::Native { class_name: "deque".to_string() };
    assert_eq!(d.get_attribute("rotate"), Ok(Attr::Value(Value::BuiltinMethod("rotate".to_string()))));
    assert_eq!(d.get_attribute("maxlen"), Ok(Attr::Delegated));
    let i = PyObject::Native { class_name: "int".to_string() };
    assert_eq!(i.get_attribute("denominator"), Ok(Attr::Value(Value::Int(1))));
    assert_eq!(i.get_attribute("imag"), Ok(Attr::Value(Value::Int(0))));
    assert_eq!(i.get_attribute("numerator"), Ok(Attr::Delegated));
    assert_eq!(i.get_attribute("to_bytes"), Ok(Attr::Value(Value::BuiltinMethod("to_bytes".to_string()))));
    let b = PyObject::Native { class_name: "bool".to_string() };
    assert_eq!(b.get_attribute("bit_length"), Ok(Attr::Value(Value::BuiltinMethod("bit_length".to_string()))));
    assert_eq!(
        lookup_attr(&b, "nope"),
        Err(PyError::AttributeError("'int' object has no attribute 'nope'".to_string()))
    );
    let f = PyObject::Native { class_name: "float".to_string() };
    assert_eq!(f.get_attribute("hex"), Ok(Attr::Value(Value::BuiltinMethod("hex".to_string()))));
    assert_eq!(f.get_attribute("real"), Ok(Attr::Delegated));
    let r = PyObject::Native { class_name: "range".to_string() };
    assert_eq!(r.get_attribute("index"), Ok(Attr::Value(Value::BuiltinMethod("index".to_string()))));
    assert_eq!(r.get_attribute("start"), Ok(Attr::Delegated));
    expect_no_attr(r.get_attribute("append"), "range", "append");
    let p = PyObject::Native { class_name: "re.Pattern".to_string() };
    assert_eq!(p.get_attribute("fullmatch"), Ok(Attr::Value(Value::BuiltinMethod("fullmatch".to_string()))));
    assert_eq!(p.get_attribute("pattern"), Ok(Attr::Delegated));
    let s = PyObject::Container { class_name: "set".to_string() };
    assert_eq!(s.get_attribute("isdisjoint"), Ok(Attr::Value(Value::BuiltinMethod("isdisjoint".to_string()))));
    let fs = PyObject::Container { class_name: "frozenset".to_string() };
    expect_no_attr(fs.get_attribute("add"), "frozenset", "add");
    let dict = PyObject::Container { class_name: "dict".to_string() };
    assert_eq!(dict.get_attribute("move_to_end"), Ok(Attr::Value(Value::BuiltinMethod("move_to_end".to_string()))));
    let tuple = PyObject::Container { class_name: "tuple".to_string() };
    assert_eq!(tuple.get_attribute("count"), Ok(Attr::Delegated));
    let sl = PyObject::Native { class_name: "slice".to_string() };
    assert_eq!(sl.get_attribute("indices"), Ok(Attr::Value(Value::BuiltinMethod("indices".to_string()))));
}

fn function(defaults: usize, kwonly_defaults: usize) -> PyObject {
    PyObject::Function { name: "f".to_string(), dict: AttrMap::new(), defaults, kwonly_defaults }
}

#[test]
fn function_attributes() {
    let mut f = function(2, 1);
    assert_eq!(f.get_attribute("__name__"), Ok(Attr::Value(Value::Str("f".to_string()))));
    assert_eq!(f.get_attribute("__doc__"), Ok(Attr::Value(Value::PyNone)));
    assert_eq!(f.get_attribute("__defaults__"), Ok(Attr::Delegated));
    assert_eq!(f.get_attribute("__kwdefaults__"), Ok(Attr::Delegated));
    expect_no_attr(f.get_attribute("custom"), "function", "custom");
    assert_eq!(f.set_attribute("__name__", Value::Str("g".to_string())), Ok(()));
    assert_eq!(f.get_attribute("__name__"), Ok(Attr::Value(Value::Str("g".to_string()))));
    assert_eq!(f.set_attribute("custom", Value::Int(3)), Ok(()));
    assert_eq!(f.get_attribute("custom"), Ok(Attr::Value(Value::Int(3))));
    let plain = function(1, 1);
    assert_eq!(plain.get_attribute("__defaults__"), Ok(Attr::Value(Value::PyNone)));
    let none = function(0, 0);
    assert_eq!(none.get_attribute("__kwdefaults__"), Ok(Attr::Value(Value::PyNone)));
    assert_eq!(none.get_attribute("__annotations__"), Ok(Attr::Delegated));
}

#[test]
fn missing_attribute_error_records_a_copy_of_the_object() {
    let mut o = instance("Foo");
    assert_eq!(o.set_attribute("x", Value::Int(3)), Ok(()));
    let mut expected = instance("Foo");
    assert_eq!(expected.set_attribute("x", Value::Int(3)), Ok(()));
    match o.get_attribute("y") {
        Err(PyError::AttributeErrorWithContext { obj, .. }) => assert_eq!(*obj, expected),
        other => panic!("expected an AttributeError, got {:?}", other),
    }
    let proxy = PyObject::WeakProxy { target: Some(Box::new(module("m"))) };
    match proxy.get_attribute("k") {
        Err(PyError::AttributeErrorWithContext { obj, obj_type, .. }) => {
            assert_eq!(obj_type, "module");
            assert_eq!(*obj, module("m"));
        }
        other => panic!("expected an AttributeError, got {:?}", other),
    }
}

#[test]
fn slice_members_are_the_stored_objects() {
    let s = PyObject::Slice { start: Value::Ref(11), stop: Value::Str("x".to_string()), step: Value::PyNone };
    assert_eq!(s.get_attribute("start"), Ok(Attr::Value(Value::Ref(11))));
    assert_eq!(s.get_attribute("stop"), Ok(Attr::Value(Value::Str("x".to_string()))));
    assert_eq!(s.get_attribute("step"), Ok(Attr::Value(Value::PyNone)));
    assert_eq!(s.get_attribute("indices"), Ok(Attr::Value(Value::BuiltinMethod("indices".to_string()))));
    expect_no_attr(s.get_attribute("nope"), "slice", "nope");
}

#[test]
fn module_assignment_is_repeated_in_its_globals() {
    let mut m = module("mod");
    let (r, w) = assign_attr_syncing_globals(&mut m, "flag", Value::Bool(true));
    assert_eq!(r, Ok(()));
    let w = w.expect("a module assignment writes its globals");
    assert_eq!(w.module, "mod");
    assert_eq!(w.name, "flag");
    assert_eq!(w.value, Value::Bool(true));
    assert_eq!(m.get_attribute("flag"), Ok(Attr::Value(Value::Bool(true))));
    let mut o = instance("Foo");
    let (r, w) = assign_attr_syncing_globals(&mut o, "x", Value::Int(1));
    assert_eq!(r, Ok(()));
    assert!(w.is_none());
    let mut l = PyObject::Container { class_name: "list".to_string() };
    let (r, w) = assign_attr_syncing_globals(&mut l, "x", Value::Int(1));
    assert!(r.is_err());
    assert!(w.is_none());
}

#[test]
fn class_base_is_its_first_base_or_object() {
    let plain = class("A");
    assert_eq!(plain.get_attribute("__base__"), Ok(Attr::Value(Value::TypeObject("object".to_string()))));
    let derived = PyObject::Type {
        name: "B".to_string(),
        metatype: None,
        dict: AttrMap::new(),
        base_dicts: vec![AttrMap::new()],
        bases: vec![Value::Ref(40), Value::Ref(41)],
    };
    assert_eq!(derived.get_attribute("__base__"), Ok(Attr::Value(Value::Ref(40))));
    assert_eq!(derived.get_attribute("__bases__"), Ok(Attr::Delegated));
}

#[test]
fn with_traceback_stores_the_traceback() {
    let mut e = exception("ValueError", vec![]);
    assert_eq!(
        with_traceback(&mut e, None),
        Err(PyError::TypeError("with_traceback() takes exactly one argument".to_string()))
    );
    assert_eq!(e, exception("ValueError", vec![]));
    assert_eq!(with_traceback(&mut e, Some(Value::Ref(9))), Ok(()));
    assert_eq!(e.get_attribute("__traceback__"), Ok(Attr::Value(Value::Ref(9))));
}

#[test]
fn code_object_fields() {
    let c = PyObject::Code(CodeData {
        filename: "m.py".to_string(),
        name: "f".to_string(),
        arg_count: 2,
        nlocals: 3,
        varnames: vec!["a".to_string(), "b".to_string(), "t".to_string()],
        flags: 3,
        first_lineno: 10,
        kwonlyarg_count: 0,
        posonlyarg_count: 1,
        names: vec!["print".to_string()],
    });
    assert_eq!(c.get_attribute("co_filename"), Ok(Attr::Value(Value::Str("m.py".to_string()))));
    assert_eq!(c.get_attribute("co_name"), Ok(Attr::Value(Value::Str("f".to_string()))));
    assert_eq!(c.get_attribute("co_argcount"), Ok(Attr::Value(Value::Int(2))));
    assert_eq!(c.get_attribute("co_firstlineno"), Ok(Attr::Value(Value::Int(10))));
    assert_eq!(c.get_attribute("co_posonlyargcount"), Ok(Attr::Value(Value::Int(1))));
    assert_eq!(
        c.get_attribute("co_varnames"),
        Ok(Attr::Strings(vec!["a".to_string(), "b".to_string(), "t".to_string()]))
    );
    assert_eq!(c.get_attribute("co_names"), Ok(Attr::Strings(vec!["print".to_string()])));
    assert_eq!(c.get_attribute("co_consts"), Ok(Attr::Delegated));
    expect_no_attr(c.get_attribute("co_lnotab"), "code", "co_lnotab");
}
