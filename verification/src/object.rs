//! Attribute access on the interpreter's objects: what `obj.name`
//! resolves to, and how `obj.name = value` and `del obj.name` act on the
//! object's namespace.

use vstd::prelude::*;
use crate::attrmap::{AttrMap, Value, ValueView};
use crate::error::{PyError, PyErrorView};
use crate::unicode::{string_from_chars, chars_of};
use crate::exc_attrs::{exception_lookup, exception_get, property_lookup, property_get};
use crate::method_tables::{native_lookup, native_get};

verus! {

/// A user-defined instance, with what attribute access reads of its type.
#[derive(Debug, PartialEq)]
pub struct InstanceData {
    /// The name of its type.
    pub class_name: String,
    /// Its type object (its `__class__`).
    pub type_obj: Value,
    /// The names allowed by `__slots__`, when its type or a base declares
    /// them.
    pub slots: Option<Vec<String>>,
    /// The namespace of its type, then those of the type's bases in method
    /// resolution order.
    pub class_dicts: Vec<AttrMap>,
    /// Whether its type derives from a built-in exception class.
    pub exception_base: bool,
    /// Its own namespace.
    pub dict: AttrMap,
}

/// An object, as far as attribute access tells kinds apart.
#[derive(Debug, PartialEq)]
pub enum PyObject {
    Instance(InstanceData),
    /// A class: its name, the metaclass when one is recorded, its own
    /// namespace, those of its bases in method resolution order, and its
    /// direct bases.
    Type { name: String, metatype: Option<Value>, dict: AttrMap, base_dicts: Vec<AttrMap>, bases: Vec<Value> },
    Module { name: String, dict: AttrMap },
    /// A function: its code object's name, its attribute namespace, how
    /// many default values it holds and how many of them belong to
    /// keyword-only parameters.
    Function { name: String, dict: AttrMap, defaults: usize, kwonly_defaults: usize },
    /// A `functools.partial` object and its attribute namespace.
    Partial { dict: AttrMap },
    /// A built-in exception with its arguments, chaining fields and extra
    /// attributes.
    Exception {
        class_name: String,
        args: Vec<Value>,
        cause: Option<Value>,
        context: Option<Value>,
        traceback: Option<Value>,
        suppress_context: bool,
        extra: Option<AttrMap>,
    },
    /// An exception group with its arguments.
    ExceptionGroup { class_name: String, args: Vec<Value> },
    /// A `property` with its accessors and doc string.
    Property { getter: Option<Value>, setter: Option<Value>, deleter: Option<Value>, doc: Option<String> },
    /// A `dict`, `list`, `tuple`, `set` or `frozenset`.
    Container { class_name: String },
    /// A weak proxy: its referent while it is alive.
    WeakProxy { target: Option<Box<PyObject>> },
    /// A built-in value whose attributes come from its type's method table
    /// (strings, numbers, bytes, iterators, ...).
    Native { class_name: String },
    /// A value with no attributes of its own.
    Other { class_name: String },
    /// A `slice` with the objects it was built from, whatever they are.
    Slice { start: Value, stop: Value, step: Value },
    /// A code object, with what attribute access reads of it.
    Code(CodeData),
}

/// What a code object records.
#[derive(Debug, PartialEq)]
pub struct CodeData {
    pub filename: String,
    pub name: String,
    pub arg_count: u32,
    pub nlocals: u32,
    pub varnames: Vec<String>,
    pub flags: u32,
    pub first_lineno: u32,
    pub kwonlyarg_count: u32,
    pub posonlyarg_count: u32,
    pub names: Vec<String>,
}

/// Two lists of namespaces hold the same bindings, in the same order.
pub open spec fn same_dicts(a: Seq<AttrMap>, b: Seq<AttrMap>) -> bool {
    a.len() == b.len() && forall|i: int| 0 <= i < a.len() ==> #[trigger] a[i].pairs() == b[i].pairs()
}

pub open spec fn same_dict_opt(a: Option<AttrMap>, b: Option<AttrMap>) -> bool {
    match (a, b) {
        (None, None) => true,
        (Some(x), Some(y)) => x.pairs() == y.pairs(),
        _ => false,
    }
}

pub open spec fn same_names_opt(a: Option<Vec<String>>, b: Option<Vec<String>>) -> bool {
    match (a, b) {
        (None, None) => true,
        (Some(x), Some(y)) => x@ == y@,
        _ => false,
    }
}

/// `a` is a value copy of `b`: the same kind, with equal fields, lists and
/// namespaces compared by their contents.
pub open spec fn copy_of(a: PyObject, b: PyObject) -> bool
    decreases b,
{
    match (a, b) {
        (PyObject::Instance(x), PyObject::Instance(y)) =>
            x.class_name == y.class_name && x.type_obj == y.type_obj && same_names_opt(x.slots, y.slots)
            && same_dicts(x.class_dicts@, y.class_dicts@) && x.exception_base == y.exception_base
            && x.dict.pairs() == y.dict.pairs(),
        (PyObject::Type { name: n1, metatype: m1, dict: d1, base_dicts: b1, bases: s1 },
         PyObject::Type { name: n2, metatype: m2, dict: d2, base_dicts: b2, bases: s2 }) =>
            n1 == n2 && m1 == m2 && d1.pairs() == d2.pairs() && same_dicts(b1@, b2@) && s1@ == s2@,
        (PyObject::Module { name: n1, dict: d1 }, PyObject::Module { name: n2, dict: d2 }) =>
            n1 == n2 && d1.pairs() == d2.pairs(),
        (PyObject::Function { name: n1, dict: d1, defaults: f1, kwonly_defaults: k1 },
         PyObject::Function { name: n2, dict: d2, defaults: f2, kwonly_defaults: k2 }) =>
            n1 == n2 && d1.pairs() == d2.pairs() && f1 == f2 && k1 == k2,
        (PyObject::Partial { dict: d1 }, PyObject::Partial { dict: d2 }) => d1.pairs() == d2.pairs(),
        (PyObject::Exception { class_name: c1, args: a1, cause: u1, context: x1, traceback: t1, suppress_context: s1, extra: e1 },
         PyObject::Exception { class_name: c2, args: a2, cause: u2, context: x2, traceback: t2, suppress_context: s2, extra: e2 }) =>
            c1 == c2 && a1@ == a2@ && u1 == u2 && x1 == x2 && t1 == t2 && s1 == s2 && same_dict_opt(e1, e2),
        (PyObject::ExceptionGroup { class_name: c1, args: a1 }, PyObject::ExceptionGroup { class_name: c2, args: a2 }) =>
            c1 == c2 && a1@ == a2@,
        (PyObject::Property { getter: g1, setter: s1, deleter: d1, doc: o1 },
         PyObject::Property { getter: g2, setter: s2, deleter: d2, doc: o2 }) =>
            g1 == g2 && s1 == s2 && d1 == d2 && o1 == o2,
        (PyObject::Container { class_name: c1 }, PyObject::Container { class_name: c2 }) => c1 == c2,
        (PyObject::WeakProxy { target: None }, PyObject::WeakProxy { target: None }) => true,
        (PyObject::WeakProxy { target: Some(t1) }, PyObject::WeakProxy { target: Some(t2) }) => copy_of(*t1, *t2),
        (PyObject::Native { class_name: c1 }, PyObject::Native { class_name: c2 }) => c1 == c2,
        (PyObject::Other { class_name: c1 }, PyObject::Other { class_name: c2 }) => c1 == c2,
        (PyObject::Slice { start: a1, stop: b1, step: c1 }, PyObject::Slice { start: a2, stop: b2, step: c2 }) =>
            a1 == a2 && b1 == b2 && c1 == c2,
        (PyObject::Code(x), PyObject::Code(y)) =>
            x.filename == y.filename && x.name == y.name && x.arg_count == y.arg_count && x.nlocals == y.nlocals
            && x.varnames@ == y.varnames@ && x.flags == y.flags && x.first_lineno == y.first_lineno
            && x.kwonlyarg_count == y.kwonlyarg_count && x.posonlyarg_count == y.posonlyarg_count
            && x.names@ == y.names@,
        _ => false,
    }
}

fn copy_dicts(v: &Vec<AttrMap>) -> (r: Vec<AttrMap>)
    ensures
        same_dicts(r@, v@),
{
    let mut out: Vec<AttrMap> = Vec::new();
    let mut i: usize = 0;
    while i < v.len()
        invariant
            i <= v@.len(),
            same_dicts(out@, v@.subrange(0, i as int)),
        decreases v@.len() - i,
    {
        out.push(v[i].copy());
        i += 1;
    }
    assert(v@.subrange(0, i as int) =~= v@);
    out
}

fn copy_values(v: &Vec<Value>) -> (r: Vec<Value>)
    ensures
        r@ == v@,
{
    let mut out: Vec<Value> = Vec::new();
    let mut i: usize = 0;
    while i < v.len()
        invariant
            i <= v@.len(),
            out@ == v@.subrange(0, i as int),
        decreases v@.len() - i,
    {
        out.push(v[i].duplicate());
        i += 1;
        assert(out@ =~= v@.subrange(0, i as int));
    }
    assert(v@.subrange(0, i as int) =~= v@);
    out
}

fn copy_names(v: &Vec<String>) -> (r: Vec<String>)
    ensures
        r@ == v@,
{
    let mut out: Vec<String> = Vec::new();
    let mut i: usize = 0;
    while i < v.len()
        invariant
            i <= v@.len(),
            out@ == v@.subrange(0, i as int),
        decreases v@.len() - i,
    {
        out.push(v[i].clone());
        i += 1;
        assert(out@ =~= v@.subrange(0, i as int));
    }
    assert(v@.subrange(0, i as int) =~= v@);
    out
}

fn copy_value_opt(v: &Option<Value>) -> (r: Option<Value>)
    ensures
        r == *v,
{
    match v {
        Some(x) => Some(x.duplicate()),
        None => None,
    }
}

impl InstanceData {
    fn copy(&self) -> (r: InstanceData)
        ensures
            copy_of(PyObject::Instance(r), PyObject::Instance(*self)),
    {
        InstanceData {
            class_name: self.class_name.clone(),
            type_obj: self.type_obj.duplicate(),
            slots: match &self.slots {
                Some(v) => Some(copy_names(v)),
                None => None,
            },
            class_dicts: copy_dicts(&self.class_dicts),
            exception_base: self.exception_base,
            dict: self.dict.copy(),
        }
    }
}

impl PyObject {
    /// A value copy of the object.
    pub fn copy(&self) -> (r: PyObject)
        ensures
            copy_of(r, *self),
        decreases *self,
    {
        match self {
            PyObject::Instance(d) => PyObject::Instance(d.copy()),
            PyObject::Type { name, metatype, dict, base_dicts, bases } => PyObject::Type {
                name: name.clone(),
                metatype: copy_value_opt(metatype),
                dict: dict.copy(),
                base_dicts: copy_dicts(base_dicts),
                bases: copy_values(bases),
            },
            PyObject::Module { name, dict } => PyObject::Module { name: name.clone(), dict: dict.copy() },
            PyObject::Function { name, dict, defaults, kwonly_defaults } => PyObject::Function {
                name: name.clone(),
                dict: dict.copy(),
                defaults: *defaults,
                kwonly_defaults: *kwonly_defaults,
            },
            PyObject::Partial { dict } => PyObject::Partial { dict: dict.copy() },
            PyObject::Exception { class_name, args, cause, context, traceback, suppress_context, extra } =>
                PyObject::Exception {
                    class_name: class_name.clone(),
                    args: copy_values(args),
                    cause: copy_value_opt(cause),
                    context: copy_value_opt(context),
                    traceback: copy_value_opt(traceback),
                    suppress_context: *suppress_context,
                    extra: match extra {
                        Some(m) => Some(m.copy()),
                        None => None,
                    },
                },
            PyObject::ExceptionGroup { class_name, args } =>
                PyObject::ExceptionGroup { class_name: class_name.clone(), args: copy_values(args) },
            PyObject::Property { getter, setter, deleter, doc } => PyObject::Property {
                getter: copy_value_opt(getter),
                setter: copy_value_opt(setter),
                deleter: copy_value_opt(deleter),
                doc: match doc {
                    Some(d) => Some(d.clone()),
                    None => None,
                },
            },
            PyObject::Container { class_name } => PyObject::Container { class_name: class_name.clone() },
            PyObject::WeakProxy { target } => match target {
                Some(t) => PyObject::WeakProxy { target: Some(Box::new((&**t).copy())) },
                None => PyObject::WeakProxy { target: None },
            },
            PyObject::Native { class_name } => PyObject::Native { class_name: class_name.clone() },
            PyObject::Other { class_name } => PyObject::Other { class_name: class_name.clone() },
            PyObject::Slice { start, stop, step } =>
                PyObject::Slice { start: start.duplicate(), stop: stop.duplicate(), step: step.duplicate() },
            PyObject::Code(c) => PyObject::Code(CodeData {
                filename: c.filename.clone(),
                name: c.name.clone(),
                arg_count: c.arg_count,
                nlocals: c.nlocals,
                varnames: copy_names(&c.varnames),
                flags: c.flags,
                first_lineno: c.first_lineno,
                kwonlyarg_count: c.kwonlyarg_count,
                posonlyarg_count: c.posonlyarg_count,
                names: copy_names(&c.names),
            }),
        }
    }
}

/// The outcome of an attribute lookup.
#[derive(Debug, PartialEq)]
pub enum Attr {
    /// The attribute's value.
    Value(Value),
    /// A new tuple of strings.
    Strings(Vec<String>),
    /// `__dict__`: a new dict holding the object's namespace.
    NamespaceCopy,
    /// Resolved by the method table of the object's built-in type (or, for
    /// a class, by its remaining built-in fallbacks).
    Delegated,
}

pub enum AttrView {
    Value(ValueView),
    Strings(Seq<Seq<char>>),
    NamespaceCopy,
    Delegated,
}

impl View for Attr {
    type V = AttrView;

    open spec fn view(&self) -> AttrView {
        match self {
            Attr::Value(v) => AttrView::Value(v@),
            Attr::Strings(v) => AttrView::Strings(v@.map_values(|x: String| x@)),
            Attr::NamespaceCopy => AttrView::NamespaceCopy,
            Attr::Delegated => AttrView::Delegated,
        }
    }
}

pub open spec fn result_view(r: Result<Attr, PyError>) -> Result<AttrView, PyErrorView> {
    match r {
        Ok(a) => Ok(a@),
        Err(e) => Err(e@),
    }
}

/// `'T' object has no attribute 'N'`.
pub open spec fn no_attr_message(t: Seq<char>, n: Seq<char>) -> Seq<char> {
    "'"@ + t + "' object has no attribute '"@ + n + "'"@
}

/// `cannot set attribute 'N' on 'T'`.
pub open spec fn cannot_set_message(n: Seq<char>, t: Seq<char>) -> Seq<char> {
    "cannot set attribute '"@ + n + "' on '"@ + t + "'"@
}

pub open spec fn is_dunder_prefixed(n: Seq<char>) -> bool {
    n.len() >= 2 && n[0] == '_' && n[1] == '_'
}

/// The type name an object reports.
pub open spec fn type_name_of(o: PyObject) -> Seq<char> {
    match o {
        PyObject::Instance(d) => d.class_name@,
        PyObject::Type { .. } => "type"@,
        PyObject::Module { .. } => "module"@,
        PyObject::Function { .. } => "function"@,
        PyObject::Partial { .. } => "functools.partial"@,
        PyObject::Exception { class_name, .. } => class_name@,
        PyObject::ExceptionGroup { class_name, .. } => class_name@,
        PyObject::Property { .. } => "property"@,
        PyObject::Container { class_name } => class_name@,
        PyObject::WeakProxy { .. } => "weakproxy"@,
        PyObject::Native { class_name } => class_name@,
        PyObject::Other { class_name } => class_name@,
        PyObject::Slice { .. } => "slice"@,
        PyObject::Code(_) => "code"@,
    }
}

/// `__class__`: an instance's type, a class's recorded metaclass or
/// `type`, and for any other value a type object named after its type.
pub open spec fn class_of(o: PyObject) -> ValueView {
    match o {
        PyObject::Instance(d) => d.type_obj@,
        PyObject::Type { metatype: Some(m), .. } => m@,
        PyObject::Type { metatype: None, .. } => ValueView::TypeObject("type"@),
        _ => ValueView::TypeObject(type_name_of(o)),
    }
}

/// The first namespace among `dicts` that binds `n`, and its value there.
pub open spec fn first_class_hit(dicts: Seq<AttrMap>, n: Seq<char>) -> Option<Value>
    decreases dicts.len(),
{
    if dicts.len() == 0 {
        None
    } else if dicts[0]@.contains_key(n) {
        Some(dicts[0]@[n])
    } else {
        first_class_hit(dicts.drop_first(), n)
    }
}

pub open spec fn names_contain(names: Seq<String>, n: Seq<char>) -> bool {
    exists|i: int| 0 <= i < names.len() && names[i]@ == n
}

/// An instance's slots forbid `n`.
pub open spec fn slots_forbid(d: InstanceData, n: Seq<char>) -> bool {
    d.slots matches Some(s) && !names_contain(s@, n)
}

pub open spec fn attribute_error(m: Seq<char>) -> Result<AttrView, PyErrorView> {
    Err(PyErrorView::AttributeError(m))
}

pub open spec fn found(v: ValueView) -> Result<AttrView, PyErrorView> {
    Ok(AttrView::Value(v))
}

/// Lookup on an instance: `__dict__` and `__weakref__`, the slots
/// restriction (names bound on the class stay readable), the instance
/// namespace, the class namespaces in order, the dict-method fallback and
/// the exception protocol defaults of exception subclasses.
pub open spec fn instance_lookup(d: InstanceData, n: Seq<char>) -> Result<AttrView, PyErrorView> {
    let hit = first_class_hit(d.class_dicts@, n);
    if n == "__dict__"@ {
        Ok(AttrView::NamespaceCopy)
    } else if n == "__weakref__"@ {
        found(ValueView::PyNone)
    } else if slots_forbid(d, n) && hit is None {
        attribute_error(no_attr_message(d.class_name@, n))
    } else if d.dict@.contains_key(n) {
        found(d.dict@[n]@)
    } else if hit is Some {
        found(hit->Some_0@)
    } else if (n == "__iter__"@ || n == "items"@ || n == "keys"@ || n == "values"@)
        && !(d.class_name@ == "dict_items"@ || d.class_name@ == "dict_keys"@ || d.class_name@ == "dict_values"@) {
        found(ValueView::BuiltinMethod(n))
    } else if d.exception_base && (n == "with_traceback"@ || n == "add_note"@) {
        found(ValueView::BuiltinMethod(n))
    } else if d.exception_base && (n == "__context__"@ || n == "__traceback__"@ || n == "__cause__"@) {
        found(ValueView::PyNone)
    } else if d.exception_base && n == "__suppress_context__"@ {
        found(ValueView::Bool(false))
    } else if d.exception_base && n == "__notes__"@ {
        found(ValueView::EmptyList)
    } else {
        attribute_error(no_attr_message(d.class_name@, n))
    }
}

/// Names a class answers from its built-in machinery unless its own
/// namespace binds them.
pub open spec fn type_builtin_unless_bound(n: Seq<char>) -> bool {
    n == "__or__"@ || n == "__ror__"@ || n == "register"@ || n == "__subclasses__"@ || n == "mro"@
}

/// Lookup on a class.
pub open spec fn type_lookup(name: Seq<char>, dict: AttrMap, base_dicts: Seq<AttrMap>, bases: Seq<Value>, n: Seq<char>) -> Result<AttrView, PyErrorView> {
    if n == "__dict__"@ {
        Ok(AttrView::NamespaceCopy)
    } else if n == "__base__"@ {
        found(if bases.len() > 0 { bases[0]@ } else { ValueView::TypeObject("object"@) })
    } else if n == "__mro__"@ || n == "__bases__"@ {
        Ok(AttrView::Delegated)
    } else if n == "__name__"@ || n == "__qualname__"@ {
        found(ValueView::Str(name))
    } else if n == "__annotations__"@ && !dict@.contains_key(n) {
        Ok(AttrView::Delegated)
    } else if n == "__module__"@ && !dict@.contains_key(n) {
        found(ValueView::Str(if name == "array"@ { "array"@ } else { "builtins"@ }))
    } else if type_builtin_unless_bound(n) && !dict@.contains_key(n) {
        Ok(AttrView::Delegated)
    } else if dict@.contains_key(n) {
        found(dict@[n]@)
    } else {
        match first_class_hit(base_dicts, n) {
            Some(v) => found(v@),
            None => Ok(AttrView::Delegated),
        }
    }
}

/// Lookup on a module.
pub open spec fn module_lookup(name: Seq<char>, dict: AttrMap, n: Seq<char>) -> Result<AttrView, PyErrorView> {
    if n == "__dict__"@ {
        Ok(AttrView::NamespaceCopy)
    } else if n == "__name__"@ {
        found(ValueView::Str(name))
    } else if dict@.contains_key(n) {
        found(dict@[n]@)
    } else {
        attribute_error(no_attr_message("module"@, n))
    }
}

/// Lookup on a function named `fname` with namespace `dict`, `defaults`
/// default values of which `kwonly` belong to keyword-only parameters.
pub open spec fn function_lookup(fname: Seq<char>, dict: AttrMap, defaults: usize, kwonly: usize, n: Seq<char>) -> Result<AttrView, PyErrorView> {
    let bound = dict@.contains_key(n);
    if n == "__name__"@ || n == "__qualname__"@ || n == "name"@ {
        if bound { found(dict@[n]@) } else { found(ValueView::Str(fname)) }
    } else if n == "__doc__"@ || n == "__code__"@ || n == "__globals__"@ || n == "__closure__"@ || n == "__module__"@ {
        if bound { found(dict@[n]@) } else { found(ValueView::PyNone) }
    } else if n == "__defaults__"@ {
        if bound {
            found(dict@[n]@)
        } else if defaults <= kwonly {
            found(ValueView::PyNone)
        } else {
            Ok(AttrView::Delegated)
        }
    } else if n == "__kwdefaults__"@ {
        if bound {
            found(dict@[n]@)
        } else if kwonly == 0 {
            found(ValueView::PyNone)
        } else {
            Ok(AttrView::Delegated)
        }
    } else if n == "__annotations__"@ || n == "__dict__"@ {
        Ok(AttrView::Delegated)
    } else if bound {
        found(dict@[n]@)
    } else {
        attribute_error(no_attr_message("function"@, n))
    }
}

/// Lookup on an exception group of class `t` with arguments `args`.
pub open spec fn exception_group_lookup(t: Seq<char>, args: Seq<Value>, n: Seq<char>) -> Result<AttrView, PyErrorView> {
    if n == "__name__"@ {
        found(ValueView::Str(t))
    } else if n == "args"@ || n == "__str__"@ || n == "__repr__"@ || n == "exceptions"@ {
        Ok(AttrView::Delegated)
    } else if n == "message"@ {
        if args.len() > 0 { found(args[0]@) } else { found(ValueView::Str(Seq::empty())) }
    } else if n == "__cause__"@ || n == "__context__"@ || n == "__traceback__"@ {
        found(ValueView::PyNone)
    } else if n == "__suppress_context__"@ {
        found(ValueView::Bool(false))
    } else if n == "__notes__"@ {
        found(ValueView::EmptyList)
    } else if n == "add_note"@ || n == "with_traceback"@ {
        found(ValueView::BuiltinMethod(n))
    } else {
        attribute_error(no_attr_message(t, n))
    }
}

/// A slice answers `start`, `stop` and `step` with the objects it was built
/// from, unchanged and unchecked; its other attributes (`indices`,
/// `__hash__`, `__reduce__`) come from the `slice` method table.
pub open spec fn slice_lookup(start: ValueView, stop: ValueView, step: ValueView, n: Seq<char>) -> Result<AttrView, PyErrorView> {
    if n == "start"@ {
        found(start)
    } else if n == "stop"@ {
        found(stop)
    } else if n == "step"@ {
        found(step)
    } else {
        native_lookup("slice"@, n)
    }
}

fn slice_get(start: &Value, stop: &Value, step: &Value, n: &str) -> (r: Result<Attr, PyError>)
    ensures
        result_view(r) == slice_lookup(start@, stop@, step@, n@),
{
    if str_is(n, "start") {
        Ok(Attr::Value(start.duplicate()))
    } else if str_is(n, "stop") {
        Ok(Attr::Value(stop.duplicate()))
    } else if str_is(n, "step") {
        Ok(Attr::Value(step.duplicate()))
    } else {
        native_get("slice", n)
    }
}

pub open spec fn names_view(v: Vec<String>) -> Seq<Seq<char>> {
    v@.map_values(|x: String| x@)
}

/// A code object answers its recorded fields under their `co_` names;
/// `co_consts` is left to the interpreter, which evaluates the constants.
pub open spec fn code_lookup(c: CodeData, n: Seq<char>) -> Result<AttrView, PyErrorView> {
    if n == "co_filename"@ {
        found(ValueView::Str(c.filename@))
    } else if n == "co_name"@ {
        found(ValueView::Str(c.name@))
    } else if n == "co_argcount"@ {
        found(ValueView::Int(c.arg_count as i64))
    } else if n == "co_nlocals"@ {
        found(ValueView::Int(c.nlocals as i64))
    } else if n == "co_varnames"@ {
        Ok(AttrView::Strings(names_view(c.varnames)))
    } else if n == "co_flags"@ {
        found(ValueView::Int(c.flags as i64))
    } else if n == "co_firstlineno"@ {
        found(ValueView::Int(c.first_lineno as i64))
    } else if n == "co_kwonlyargcount"@ {
        found(ValueView::Int(c.kwonlyarg_count as i64))
    } else if n == "co_posonlyargcount"@ {
        found(ValueView::Int(c.posonlyarg_count as i64))
    } else if n == "co_names"@ {
        Ok(AttrView::Strings(names_view(c.names)))
    } else if n == "co_consts"@ {
        Ok(AttrView::Delegated)
    } else {
        attribute_error(no_attr_message("code"@, n))
    }
}

fn code_get(c: &CodeData, n: &str) -> (r: Result<Attr, PyError>)
    ensures
        result_view(r) == code_lookup(*c, n@),
{
    if str_is(n, "co_filename") {
        Ok(Attr::Value(Value::Str(c.filename.clone())))
    } else if str_is(n, "co_name") {
        Ok(Attr::Value(Value::Str(c.name.clone())))
    } else if str_is(n, "co_argcount") {
        Ok(Attr::Value(Value::Int(c.arg_count as i64)))
    } else if str_is(n, "co_nlocals") {
        Ok(Attr::Value(Value::Int(c.nlocals as i64)))
    } else if str_is(n, "co_varnames") {
        let v = copy_names(&c.varnames);
        Ok(Attr::Strings(v))
    } else if str_is(n, "co_flags") {
        Ok(Attr::Value(Value::Int(c.flags as i64)))
    } else if str_is(n, "co_firstlineno") {
        Ok(Attr::Value(Value::Int(c.first_lineno as i64)))
    } else if str_is(n, "co_kwonlyargcount") {
        Ok(Attr::Value(Value::Int(c.kwonlyarg_count as i64)))
    } else if str_is(n, "co_posonlyargcount") {
        Ok(Attr::Value(Value::Int(c.posonlyarg_count as i64)))
    } else if str_is(n, "co_names") {
        let v = copy_names(&c.names);
        Ok(Attr::Strings(v))
    } else if str_is(n, "co_consts") {
        Ok(Attr::Delegated)
    } else {
        Err(PyError::AttributeError(no_attr_msg("code", n)))
    }
}

/// The value a `functools.partial` object binds to `n` in its namespace.
pub open spec fn partial_hit(o: PyObject, n: Seq<char>) -> Option<Value> {
    match o {
        PyObject::Partial { dict } => if dict@.contains_key(n) { Some(dict@[n]) } else { None },
        _ => None,
    }
}

/// `get_attribute_impl`: the per-kind lookup, before the `__doc__`
/// default and the naming of a missing attribute.
pub open spec fn lookup(o: PyObject, n: Seq<char>) -> Result<AttrView, PyErrorView>
    decreases o, 0int,
{
    if !is_dunder_prefixed(n) && partial_hit(o, n) is Some {
        found(partial_hit(o, n)->Some_0@)
    } else if n == "__class__"@ {
        found(class_of(o))
    } else if n == "__dir__"@ {
        found(ValueView::BuiltinMethod("__dir__"@))
    } else {
        match o {
            PyObject::WeakProxy { target: Some(t) } => get_attribute_spec(*t, n),
            PyObject::WeakProxy { target: None } => Err(PyErrorView::ReferenceError(
                "weakly-referenced object no longer exists"@)),
            PyObject::Module { name, dict } => module_lookup(name@, dict, n),
            PyObject::Type { name, dict, base_dicts, bases, .. } => type_lookup(name@, dict, base_dicts@, bases@, n),
            PyObject::Instance(d) => instance_lookup(d, n),
            PyObject::Exception { class_name, args, cause, context, traceback, suppress_context, extra } =>
                exception_lookup(class_name@, args@, cause, context, traceback, suppress_context, extra, n),
            PyObject::Property { getter, setter, deleter, doc } => property_lookup(getter, setter, deleter, doc, n),
            PyObject::Native { class_name } => native_lookup(class_name@, n),
            PyObject::Container { class_name } => native_lookup(class_name@, n),
            PyObject::ExceptionGroup { class_name, args } => exception_group_lookup(class_name@, args@, n),
            PyObject::Function { name, dict, defaults, kwonly_defaults } =>
                function_lookup(name@, dict, defaults, kwonly_defaults, n),
            PyObject::Partial { .. } => attribute_error(no_attr_message(type_name_of(o), n)),
            PyObject::Other { .. } => attribute_error(no_attr_message(type_name_of(o), n)),
            PyObject::Slice { start, stop, step } => slice_lookup(start@, stop@, step@, n),
            PyObject::Code(c) => code_lookup(c, n),
        }
    }
}

/// The object whose own lookup answers `n` on `o`: a live weak proxy hands
/// the lookup on to its referent.
pub open spec fn answering_object(o: PyObject, n: Seq<char>) -> PyObject
    decreases o,
{
    if !is_dunder_prefixed(n) && partial_hit(o, n) is Some {
        o
    } else if n == "__class__"@ || n == "__dir__"@ {
        o
    } else {
        match o {
            PyObject::WeakProxy { target: Some(t) } => answering_object(*t, n),
            _ => o,
        }
    }
}

/// The lookup of `n` on `o` is handed on to a live weak proxy's referent.
pub open spec fn forwards(o: PyObject, n: Seq<char>) -> bool {
    &&& o matches PyObject::WeakProxy { target: Some(_) }
    &&& !(!is_dunder_prefixed(n) && partial_hit(o, n) is Some)
    &&& !(n == "__class__"@ || n == "__dir__"@)
}

/// A lookup that is not handed on never raises an `AttributeError` that
/// records an object; only `get_attribute` attaches one.
proof fn lemma_lookup_names_no_object(o: PyObject, n: Seq<char>)
    requires
        !forwards(o, n),
    ensures
        !(lookup(o, n) matches Err(PyErrorView::AttributeErrorWithContext { .. })),
{
}

/// `get_attribute`: the lookup, where a failed `__doc__` is `None` and a
/// missing attribute raises an `AttributeError` naming the attribute and
/// the object's type.
pub open spec fn get_attribute_spec(o: PyObject, n: Seq<char>) -> Result<AttrView, PyErrorView>
    decreases o, 1int,
{
    match lookup(o, n) {
        Err(e) => if n == "__doc__"@ {
            found(ValueView::PyNone)
        } else if e matches PyErrorView::AttributeError(_) {
            Err(PyErrorView::AttributeErrorWithContext {
                message: no_attr_message(type_name_of(o), n),
                name: n,
                obj_type: type_name_of(o),
            })
        } else {
            Err(e)
        },
        Ok(a) => Ok(a),
    }
}

/// `a + b` as a string.
pub(crate) fn concat(a: &str, b: &str) -> (r: String)
    ensures
        r@ == a@ + b@,
{
    let mut x = chars_of(a);
    let y = chars_of(b);
    let mut i: usize = 0;
    let ghost base = x@;
    while i < y.len()
        invariant
            i <= y@.len(),
            x@ == base + y@.subrange(0, i as int),
        decreases y@.len() - i,
    {
        x.push(y[i]);
        assert(y@.subrange(0, i + 1) =~= y@.subrange(0, i as int).push(y@[i as int]));
        i += 1;
    }
    assert(y@.subrange(0, i as int) =~= y@);
    string_from_chars(x.as_slice())
}

pub(crate) fn no_attr_msg(t: &str, n: &str) -> (r: String)
    ensures
        r@ == no_attr_message(t@, n@),
{
    let a = concat("'", t);
    let b = concat(a.as_str(), "' object has no attribute '");
    let c = concat(b.as_str(), n);
    concat(c.as_str(), "'")
}

fn cannot_set_msg(n: &str, t: &str) -> (r: String)
    ensures
        r@ == cannot_set_message(n@, t@),
{
    let a = concat("cannot set attribute '", n);
    let b = concat(a.as_str(), "' on '");
    let c = concat(b.as_str(), t);
    concat(c.as_str(), "'")
}

pub(crate) fn str_is(a: &str, lit: &str) -> (r: bool)
    ensures
        r == (a@ == lit@),
{
    a.to_owned() == lit.to_owned()
}

fn dunder_prefixed(n: &str) -> (r: bool)
    ensures
        r == is_dunder_prefixed(n@),
{
    let c = chars_of(n);
    c.len() >= 2 && c[0] == '_' && c[1] == '_'
}

fn string_eq(a: &String, b: &String) -> (r: bool)
    ensures
        r == (a@ == b@),
{
    *a == *b
}

fn names_contain_exec(names: &Vec<String>, n: &str) -> (r: bool)
    ensures
        r == names_contain(names@, n@),
{
    let key = n.to_owned();
    let mut i: usize = 0;
    while i < names.len()
        invariant
            i <= names@.len(),
            key@ == n@,
            forall|k: int| 0 <= k < i ==> names@[k]@ != n@,
        decreases names@.len() - i,
    {
        let same = string_eq(&names[i], &key);
        if same {
            assert(names@[i as int]@ == n@);
            return true;
        }
        i += 1;
    }
    false
}

fn first_class_hit_exec(dicts: &Vec<AttrMap>, n: &str) -> (r: Option<Value>)
    ensures
        r == first_class_hit(dicts@, n@),
{
    let mut i: usize = 0;
    assert(dicts@.subrange(0, dicts@.len() as int) =~= dicts@);
    while i < dicts.len()
        invariant
            i <= dicts@.len(),
            first_class_hit(dicts@, n@) == first_class_hit(dicts@.subrange(i as int, dicts@.len() as int), n@),
        decreases dicts@.len() - i,
    {
        let ghost rest = dicts@.subrange(i as int, dicts@.len() as int);
        match dicts[i].get(n) {
            Some(v) => {
                return Some(v);
            },
            None => {
                assert(rest.drop_first() =~= dicts@.subrange(i + 1, dicts@.len() as int));
            },
        }
        i += 1;
    }
    None
}

impl PyObject {
    /// The type name the object reports.
    pub fn reported_type_name(&self) -> (r: String)
        ensures
            r@ == type_name_of(*self),
    {
        match self {
            PyObject::Instance(d) => d.class_name.clone(),
            PyObject::Type { .. } => "type".to_owned(),
            PyObject::Module { .. } => "module".to_owned(),
            PyObject::Function { .. } => "function".to_owned(),
            PyObject::Partial { .. } => "functools.partial".to_owned(),
            PyObject::Exception { class_name, .. } => class_name.clone(),
            PyObject::ExceptionGroup { class_name, .. } => class_name.clone(),
            PyObject::Property { .. } => "property".to_owned(),
            PyObject::Container { class_name } => class_name.clone(),
            PyObject::WeakProxy { .. } => "weakproxy".to_owned(),
            PyObject::Native { class_name } => class_name.clone(),
            PyObject::Other { class_name } => class_name.clone(),
            PyObject::Slice { .. } => "slice".to_owned(),
            PyObject::Code(_) => "code".to_owned(),
        }
    }
}

fn class_of_exec(o: &PyObject) -> (r: Value)
    ensures
        r@ == class_of(*o),
{
    match o {
        PyObject::Instance(d) => d.type_obj.duplicate(),
        PyObject::Type { metatype: Some(m), .. } => m.duplicate(),
        PyObject::Type { metatype: None, .. } => Value::TypeObject("type".to_owned()),
        _ => Value::TypeObject(o.reported_type_name()),
    }
}

fn instance_get(d: &InstanceData, n: &str) -> (r: Result<Attr, PyError>)
    ensures
        result_view(r) == instance_lookup(*d, n@),
{
    if str_is(n, "__dict__") {
        return Ok(Attr::NamespaceCopy);
    }
    if str_is(n, "__weakref__") {
        return Ok(Attr::Value(Value::PyNone));
    }
    let hit = first_class_hit_exec(&d.class_dicts, n);
    if let Some(slots) = &d.slots {
        if !names_contain_exec(slots, n) && hit.is_none() {
            return Err(PyError::AttributeError(no_attr_msg(d.class_name.as_str(), n)));
        }
    }
    if let Some(v) = d.dict.get(n) {
        return Ok(Attr::Value(v));
    }
    if let Some(v) = hit {
        return Ok(Attr::Value(v));
    }
    if (str_is(n, "__iter__") || str_is(n, "items") || str_is(n, "keys") || str_is(n, "values"))
        && !(str_is(d.class_name.as_str(), "dict_items") || str_is(d.class_name.as_str(), "dict_keys")
        || str_is(d.class_name.as_str(), "dict_values")) {
        return Ok(Attr::Value(Value::BuiltinMethod(n.to_owned())));
    }
    if d.exception_base {
        if str_is(n, "with_traceback") || str_is(n, "add_note") {
            return Ok(Attr::Value(Value::BuiltinMethod(n.to_owned())));
        }
        if str_is(n, "__context__") || str_is(n, "__traceback__") || str_is(n, "__cause__") {
            return Ok(Attr::Value(Value::PyNone));
        }
        if str_is(n, "__suppress_context__") {
            return Ok(Attr::Value(Value::Bool(false)));
        }
        if str_is(n, "__notes__") {
            return Ok(Attr::Value(Value::EmptyList));
        }
    }
    Err(PyError::AttributeError(no_attr_msg(d.class_name.as_str(), n)))
}

fn type_get(name: &String, dict: &AttrMap, base_dicts: &Vec<AttrMap>, bases: &Vec<Value>, n: &str) -> (r: Result<Attr, PyError>)
    ensures
        result_view(r) == type_lookup(name@, *dict, base_dicts@, bases@, n@),
{
    if str_is(n, "__dict__") {
        return Ok(Attr::NamespaceCopy);
    }
    if str_is(n, "__base__") {
        if bases.len() > 0 {
            return Ok(Attr::Value(bases[0].duplicate()));
        }
        return Ok(Attr::Value(Value::TypeObject("object".to_owned())));
    }
    if str_is(n, "__mro__") || str_is(n, "__bases__") {
        return Ok(Attr::Delegated);
    }
    if str_is(n, "__name__") || str_is(n, "__qualname__") {
        return Ok(Attr::Value(Value::Str(name.clone())));
    }
    let bound = dict.contains(n);
    if str_is(n, "__annotations__") && !bound {
        return Ok(Attr::Delegated);
    }
    if str_is(n, "__module__") && !bound {
        let m = if str_is(name.as_str(), "array") { "array".to_owned() } else { "builtins".to_owned() };
        return Ok(Attr::Value(Value::Str(m)));
    }
    if (str_is(n, "__or__") || str_is(n, "__ror__") || str_is(n, "register") || str_is(n, "__subclasses__")
        || str_is(n, "mro")) && !bound {
        return Ok(Attr::Delegated);
    }
    if let Some(v) = dict.get(n) {
        return Ok(Attr::Value(v));
    }
    match first_class_hit_exec(base_dicts, n) {
        Some(v) => Ok(Attr::Value(v)),
        None => Ok(Attr::Delegated),
    }
}

fn module_get(name: &String, dict: &AttrMap, n: &str) -> (r: Result<Attr, PyError>)
    ensures
        result_view(r) == module_lookup(name@, *dict, n@),
{
    if str_is(n, "__dict__") {
        return Ok(Attr::NamespaceCopy);
    }
    if str_is(n, "__name__") {
        return Ok(Attr::Value(Value::Str(name.clone())));
    }
    match dict.get(n) {
        Some(v) => Ok(Attr::Value(v)),
        None => Err(PyError::AttributeError(no_attr_msg("module", n))),
    }
}

fn function_get(fname: &String, dict: &AttrMap, defaults: usize, kwonly: usize, n: &str) -> (r: Result<Attr, PyError>)
    ensures
        result_view(r) == function_lookup(fname@, *dict, defaults, kwonly, n@),
{
    let hit = dict.get(n);
    if str_is(n, "__name__") || str_is(n, "__qualname__") || str_is(n, "name") {
        return match hit {
            Some(v) => Ok(Attr::Value(v)),
            None => Ok(Attr::Value(Value::Str(fname.clone()))),
        };
    }
    if str_is(n, "__doc__") || str_is(n, "__code__") || str_is(n, "__globals__") || str_is(n, "__closure__")
        || str_is(n, "__module__") {
        return match hit {
            Some(v) => Ok(Attr::Value(v)),
            None => Ok(Attr::Value(Value::PyNone)),
        };
    }
    if str_is(n, "__defaults__") {
        return match hit {
            Some(v) => Ok(Attr::Value(v)),
            None => if defaults <= kwonly { Ok(Attr::Value(Value::PyNone)) } else { Ok(Attr::Delegated) },
        };
    }
    if str_is(n, "__kwdefaults__") {
        return match hit {
            Some(v) => Ok(Attr::Value(v)),
            None => if kwonly == 0 { Ok(Attr::Value(Value::PyNone)) } else { Ok(Attr::Delegated) },
        };
    }
    if str_is(n, "__annotations__") || str_is(n, "__dict__") {
        return Ok(Attr::Delegated);
    }
    match hit {
        Some(v) => Ok(Attr::Value(v)),
        None => Err(PyError::AttributeError(no_attr_msg("function", n))),
    }
}

fn exception_group_get(t: &String, args: &Vec<Value>, n: &str) -> (r: Result<Attr, PyError>)
    ensures
        result_view(r) == exception_group_lookup(t@, args@, n@),
{
    if str_is(n, "__name__") {
        return Ok(Attr::Value(Value::Str(t.clone())));
    }
    if str_is(n, "args") || str_is(n, "__str__") || str_is(n, "__repr__") || str_is(n, "exceptions") {
        return Ok(Attr::Delegated);
    }
    if str_is(n, "message") {
        if args.len() > 0 {
            return Ok(Attr::Value(args[0].duplicate()));
        }
        let empty = String::new();
        assert(empty@ =~= Seq::<char>::empty());
        return Ok(Attr::Value(Value::Str(empty)));
    }
    if str_is(n, "__cause__") || str_is(n, "__context__") || str_is(n, "__traceback__") {
        return Ok(Attr::Value(Value::PyNone));
    }
    if str_is(n, "__suppress_context__") {
        return Ok(Attr::Value(Value::Bool(false)));
    }
    if str_is(n, "__notes__") {
        return Ok(Attr::Value(Value::EmptyList));
    }
    if str_is(n, "add_note") || str_is(n, "with_traceback") {
        return Ok(Attr::Value(Value::BuiltinMethod(n.to_owned())));
    }
    Err(PyError::AttributeError(no_attr_msg(t.as_str(), n)))
}

/// `get_attribute_impl`: the lookup proper, before the `__doc__` default
/// and the naming of a missing attribute.
pub fn lookup_attr(o: &PyObject, name: &str) -> (r: Result<Attr, PyError>)
    ensures
        result_view(r) == lookup(*o, name@),
    decreases *o, 0int,
{
    if !dunder_prefixed(name) {
        if let PyObject::Partial { dict } = o {
            if let Some(v) = dict.get(name) {
                return Ok(Attr::Value(v));
            }
        }
    }
    if str_is(name, "__class__") {
        return Ok(Attr::Value(class_of_exec(o)));
    }
    if str_is(name, "__dir__") {
        return Ok(Attr::Value(Value::BuiltinMethod("__dir__".to_owned())));
    }
    match o {
        PyObject::WeakProxy { target: Some(t) } => resolve_attr(&**t, name),
        PyObject::WeakProxy { target: None } => Err(PyError::ReferenceError(
            "weakly-referenced object no longer exists".to_owned(),
        )),
        PyObject::Module { name: mod_name, dict } => module_get(mod_name, dict, name),
        PyObject::Type { name: class_name, dict, base_dicts, bases, .. } => type_get(class_name, dict, base_dicts, bases, name),
        PyObject::Instance(d) => instance_get(d, name),
        PyObject::Exception { class_name, args, cause, context, traceback, suppress_context, extra } =>
            exception_get(class_name, args, cause, context, traceback, *suppress_context, extra, name),
        PyObject::Property { getter, setter, deleter, doc } => property_get(getter, setter, deleter, doc, name),
        PyObject::Native { class_name } => native_get(class_name.as_str(), name),
        PyObject::Container { class_name } => native_get(class_name.as_str(), name),
        PyObject::ExceptionGroup { class_name, args } => exception_group_get(class_name, args, name),
        PyObject::Function { name: fname, dict, defaults, kwonly_defaults } =>
            function_get(fname, dict, *defaults, *kwonly_defaults, name),
        PyObject::Slice { start, stop, step } => slice_get(start, stop, step, name),
        PyObject::Code(c) => code_get(c, name),
        PyObject::Partial { .. } | PyObject::Other { .. } => {
            let t = o.reported_type_name();
            Err(PyError::AttributeError(no_attr_msg(t.as_str(), name)))
        },
    }
}

/// `get_attribute`: the lookup, where a failed `__doc__` is `None` and a
/// missing attribute raises an `AttributeError` that records the
/// attribute's name and the object's type.
pub fn resolve_attr(o: &PyObject, name: &str) -> (r: Result<Attr, PyError>)
    ensures
        result_view(r) == get_attribute_spec(*o, name@),
        r matches Err(PyError::AttributeErrorWithContext { obj, .. }) ==> copy_of(*obj, answering_object(*o, name@)),
    decreases *o, 1int,
{
    if let PyObject::WeakProxy { target: Some(t) } = o {
        if !str_is(name, "__class__") && !str_is(name, "__dir__") {
            assert(forwards(*o, name@));
            return resolve_attr(&**t, name);
        }
    }
    proof {
        lemma_lookup_names_no_object(*o, name@);
    }
    match lookup_attr(o, name) {
        Err(e) => {
            if str_is(name, "__doc__") {
                Ok(Attr::Value(Value::PyNone))
            } else if let PyError::AttributeError(_) = e {
                let t = o.reported_type_name();
                Err(PyError::AttributeErrorWithContext {
                    message: no_attr_msg(t.as_str(), name),
                    name: name.to_owned(),
                    obj_type: t,
                    obj: Box::new(o.copy()),
                })
            } else {
                Err(e)
            }
        },
        Ok(a) => Ok(a),
    }
}

pub open spec fn unit_view(r: Result<(), PyError>) -> Result<(), PyErrorView> {
    match r {
        Ok(()) => Ok(()),
        Err(e) => Err(e@),
    }
}

pub open spec fn attr_fail(m: Seq<char>) -> Result<(), PyErrorView> {
    Err(PyErrorView::AttributeError(m))
}

/// `InstanceData` fields other than the namespace agree.
pub open spec fn same_instance_shape(a: InstanceData, b: InstanceData) -> bool {
    a.class_name == b.class_name && a.type_obj == b.type_obj && a.slots == b.slots
        && a.class_dicts == b.class_dicts && a.exception_base == b.exception_base
}

/// `new` is `old` with its namespace replaced by one whose bindings are
/// `m` (for the kinds that hold a namespace).
pub open spec fn with_namespace(old: PyObject, new: PyObject, m: Map<Seq<char>, Value>) -> bool {
    match (old, new) {
        (PyObject::Instance(d), PyObject::Instance(d2)) => same_instance_shape(d, d2) && d2.dict@ == m,
        (PyObject::Module { name, .. }, PyObject::Module { name: name2, dict: dict2 }) => name2 == name && dict2@ == m,
        (PyObject::Type { name, metatype, base_dicts, bases, .. },
            PyObject::Type { name: name2, metatype: metatype2, dict: dict2, base_dicts: base_dicts2, bases: bases2 }) =>
            name2 == name && metatype2 == metatype && base_dicts2 == base_dicts && bases2 == bases && dict2@ == m,
        (PyObject::Function { name, defaults, kwonly_defaults, .. },
            PyObject::Function { name: name2, dict: dict2, defaults: defaults2, kwonly_defaults: kwonly2 }) =>
            name2 == name && defaults2 == defaults && kwonly2 == kwonly_defaults && dict2@ == m,
        (PyObject::Partial { .. }, PyObject::Partial { dict: dict2 }) => dict2@ == m,
        _ => false,
    }
}

/// The namespace of an object that holds one.
pub open spec fn namespace_of(o: PyObject) -> Map<Seq<char>, Value> {
    match o {
        PyObject::Instance(d) => d.dict@,
        PyObject::Module { dict, .. } => dict@,
        PyObject::Type { dict, .. } => dict@,
        PyObject::Function { dict, .. } => dict@,
        PyObject::Partial { dict } => dict@,
        _ => Map::empty(),
    }
}

/// `r` and `new` are what `set_attribute(n, v)` gives on `old`.
pub open spec fn set_outcome(old: PyObject, n: Seq<char>, v: Value, r: Result<(), PyErrorView>, new: PyObject) -> bool
    decreases old,
{
    match old {
        PyObject::Instance(d) => if d.class_name@ == "Dialect"@ {
            r == attr_fail("attribute is read-only"@) && new == old
        } else if slots_forbid(d, n) {
            r == attr_fail(no_attr_message(d.class_name@, n)) && new == old
        } else {
            r == Ok::<(), PyErrorView>(()) && with_namespace(old, new, d.dict@.insert(n, v))
        },
        PyObject::Module { .. } | PyObject::Type { .. } | PyObject::Function { .. } | PyObject::Partial { .. } =>
            r == Ok::<(), PyErrorView>(()) && with_namespace(old, new, namespace_of(old).insert(n, v)),
        PyObject::Container { class_name } =>
            r == attr_fail(cannot_set_message(n, class_name@)) && new == old,
        PyObject::Exception { class_name, args, cause, context, traceback, suppress_context, extra } => {
            &&& r == Ok::<(), PyErrorView>(())
            &&& new matches PyObject::Exception { class_name: t2, args: a2, cause: c2, context: x2, traceback: tb2,
                    suppress_context: s2, extra: e2 }
            &&& t2 == class_name
            &&& a2 == args
            &&& if n == "__cause__"@ {
                    c2 == Some(v) && x2 == context && tb2 == traceback && s2 == suppress_context && e2 == extra
                } else if n == "__context__"@ {
                    c2 == cause && x2 == Some(v) && tb2 == traceback && s2 == suppress_context && e2 == extra
                } else if n == "__traceback__"@ {
                    c2 == cause && x2 == context && tb2 == Some(v) && s2 == suppress_context && e2 == extra
                } else if n == "__suppress_context__"@ {
                    c2 == cause && x2 == context && tb2 == traceback && s2 == (v == Value::Bool(true)) && e2 == extra
                } else {
                    c2 == cause && x2 == context && tb2 == traceback && s2 == suppress_context
                    && (e2 matches Some(m2) && m2@ == (match extra {
                        Some(m) => m@,
                        None => Map::<Seq<char>, Value>::empty(),
                    }).insert(n, v))
                }
        },
        PyObject::ExceptionGroup { .. } => r == Ok::<(), PyErrorView>(()) && new == old,
        PyObject::WeakProxy { target: Some(t) } => new matches PyObject::WeakProxy { target: Some(t2) }
            && set_outcome(*t, n, v, r, *t2),
        PyObject::WeakProxy { target: None } =>
            r == Err::<(), PyErrorView>(PyErrorView::ReferenceError("weakly-referenced object no longer exists"@))
            && new == old,
        _ => r == attr_fail(cannot_set_message(n, type_name_of(old))) && new == old,
    }
}

/// `r` and `new` are what `del_attribute(n)` gives on `old`.
pub open spec fn del_outcome(old: PyObject, n: Seq<char>, r: Result<(), PyErrorView>, new: PyObject) -> bool
    decreases old,
{
    match old {
        PyObject::Instance(d) => if d.class_name@ == "Dialect"@ {
            r == attr_fail("attribute is read-only"@) && new == old
        } else if slots_forbid(d, n) {
            r == attr_fail(no_attr_message(d.class_name@, n)) && new == old
        } else if d.dict@.contains_key(n) {
            r == Ok::<(), PyErrorView>(()) && with_namespace(old, new, d.dict@.remove(n))
        } else {
            r == attr_fail(no_attr_message(d.class_name@, n)) && new == old
        },
        PyObject::Module { dict, .. } => if dict@.contains_key(n) {
            r == Ok::<(), PyErrorView>(()) && with_namespace(old, new, dict@.remove(n))
        } else {
            r == attr_fail("module has no attribute '"@ + n + "'"@) && new == old
        },
        PyObject::Type { dict, .. } => if dict@.contains_key(n) {
            r == Ok::<(), PyErrorView>(()) && with_namespace(old, new, dict@.remove(n))
        } else {
            r == attr_fail("type has no attribute '"@ + n + "'"@) && new == old
        },
        PyObject::WeakProxy { target: Some(t) } => new matches PyObject::WeakProxy { target: Some(t2) }
            && del_outcome(*t, n, r, *t2),
        PyObject::WeakProxy { target: None } =>
            r == Err::<(), PyErrorView>(PyErrorView::ReferenceError("weakly-referenced object no longer exists"@))
            && new == old,
        _ => r == attr_fail(no_attr_message(type_name_of(old), n)) && new == old,
    }
}

fn prefixed_msg(prefix: &str, n: &str) -> (r: String)
    ensures
        r@ == prefix@ + n@ + "'"@,
{
    let a = concat(prefix, n);
    concat(a.as_str(), "'")
}

/// `set_attribute`: binds `name` in the object's namespace, updates an
/// exception's chaining fields, forwards through a live weak proxy, or
/// refuses.
pub fn assign_attr(o: &mut PyObject, name: &str, value: Value) -> (r: Result<(), PyError>)
    ensures
        set_outcome(*old(o), name@, value, unit_view(r), *final(o)),
    decreases *old(o),
{
    match o {
        PyObject::Instance(d) => {
            if str_is(d.class_name.as_str(), "Dialect") {
                return Err(PyError::AttributeError("attribute is read-only".to_owned()));
            }
            if let Some(slots) = &d.slots {
                if !names_contain_exec(slots, name) {
                    return Err(PyError::AttributeError(no_attr_msg(d.class_name.as_str(), name)));
                }
            }
            d.dict.insert(name, value);
            Ok(())
        },
        PyObject::Module { dict, .. } => {
            dict.insert(name, value);
            Ok(())
        },
        PyObject::Type { dict, .. } => {
            dict.insert(name, value);
            Ok(())
        },
        PyObject::Function { dict, .. } => {
            dict.insert(name, value);
            Ok(())
        },
        PyObject::Container { class_name } => Err(PyError::AttributeError(cannot_set_msg(name, class_name.as_str()))),
        PyObject::Exception { cause, context, traceback, suppress_context, extra, .. } => {
            if str_is(name, "__cause__") {
                *cause = Some(value);
            } else if str_is(name, "__context__") {
                *context = Some(value);
            } else if str_is(name, "__traceback__") {
                *traceback = Some(value);
            } else if str_is(name, "__suppress_context__") {
                *suppress_context = match value {
                    Value::Bool(true) => true,
                    _ => false,
                };
            } else {
                let mut m = match extra.take() {
                    Some(m) => m,
                    None => AttrMap::new(),
                };
                m.insert(name, value);
                *extra = Some(m);
            }
            Ok(())
        },
        PyObject::Partial { dict } => {
            dict.insert(name, value);
            Ok(())
        },
        PyObject::ExceptionGroup { .. } => Ok(()),
        PyObject::WeakProxy { target } => match target {
            Some(t) => assign_attr(&mut **t, name, value),
            None => Err(PyError::ReferenceError("weakly-referenced object no longer exists".to_owned())),
        },
        _ => {
            let t = o.reported_type_name();
            Err(PyError::AttributeError(cannot_set_msg(name, t.as_str())))
        },
    }
}

/// `exc.with_traceback(tb)`: without an argument (`None`) it raises
/// `TypeError`; otherwise it stores `tb` as the receiver's `__traceback__`
/// (as `exc.__traceback__ = tb` would, with that assignment's errors) and,
/// on success, its result is the receiver itself.
pub fn with_traceback(exc: &mut PyObject, tb: Option<Value>) -> (r: Result<(), PyError>)
    ensures
        tb is None ==> (r matches Err(PyError::TypeError(m)) && m@ == "with_traceback() takes exactly one argument"@
            && *final(exc) == *old(exc)),
        tb matches Some(v) ==> set_outcome(*old(exc), "__traceback__"@, v, unit_view(r), *final(exc)),
{
    match tb {
        None => Err(PyError::TypeError("with_traceback() takes exactly one argument".to_owned())),
        Some(v) => assign_attr(exc, "__traceback__", v),
    }
}

/// A write the interpreter must repeat in a module's global namespace, so
/// that code running in the module sees what `setattr(module, name, value)`
/// bound.
pub struct GlobalsWrite {
    pub module: String,
    pub name: String,
    pub value: Value,
}

/// `set_attribute` as the interpreter performs it: the assignment, and for
/// a module that accepted it the write to make in the module's globals as
/// well (none for any other object, or when the assignment is refused).
pub fn assign_attr_syncing_globals(o: &mut PyObject, name: &str, value: Value)
    -> (r: (Result<(), PyError>, Option<GlobalsWrite>))
    ensures
        set_outcome(*old(o), name@, value, unit_view(r.0), *final(o)),
        r.1 is Some <==> ((*old(o)) is Module && r.0 is Ok),
        r.1 matches Some(w) ==> ((*old(o)) matches PyObject::Module { name: mod_name, .. }
            && w.module == mod_name && w.name@ == name@ && w.value == value),
{
    let module = match o {
        PyObject::Module { name: mod_name, .. } => Some(mod_name.clone()),
        _ => None,
    };
    let copy = value.duplicate();
    let r = assign_attr(o, name, value);
    let accepted = r.is_ok();
    match module {
        Some(m) => if accepted {
            (r, Some(GlobalsWrite { module: m, name: name.to_owned(), value: copy }))
        } else {
            (r, None)
        },
        None => (r, None),
    }
}

/// `del_attribute`: unbinds `name` from the object's namespace, forwards
/// through a live weak proxy, or refuses.
pub fn delete_attr(o: &mut PyObject, name: &str) -> (r: Result<(), PyError>)
    ensures
        del_outcome(*old(o), name@, unit_view(r), *final(o)),
    decreases *old(o),
{
    match o {
        PyObject::Instance(d) => {
            if str_is(d.class_name.as_str(), "Dialect") {
                return Err(PyError::AttributeError("attribute is read-only".to_owned()));
            }
            if let Some(slots) = &d.slots {
                if !names_contain_exec(slots, name) {
                    return Err(PyError::AttributeError(no_attr_msg(d.class_name.as_str(), name)));
                }
            }
            if !d.dict.contains(name) {
                return Err(PyError::AttributeError(no_attr_msg(d.class_name.as_str(), name)));
            }
            let _ = d.dict.remove(name);
            Ok(())
        },
        PyObject::Module { dict, .. } => {
            if !dict.contains(name) {
                return Err(PyError::AttributeError(prefixed_msg("module has no attribute '", name)));
            }
            let _ = dict.remove(name);
            Ok(())
        },
        PyObject::Type { dict, .. } => {
            if !dict.contains(name) {
                return Err(PyError::AttributeError(prefixed_msg("type has no attribute '", name)));
            }
            let _ = dict.remove(name);
            Ok(())
        },
        PyObject::WeakProxy { target } => match target {
            Some(t) => delete_attr(&mut **t, name),
            None => Err(PyError::ReferenceError("weakly-referenced object no longer exists".to_owned())),
        },
        _ => {
            let t = o.reported_type_name();
            Err(PyError::AttributeError(no_attr_msg(t.as_str(), name)))
        },
    }
}

/// Attribute access, as the interpreter calls it on any object.
pub trait ObjectAccess {
    fn get_attribute(&self, name: &str) -> Result<Attr, PyError>;

    fn set_attribute(&mut self, name: &str, value: Value) -> Result<(), PyError>;

    fn del_attribute(&mut self, name: &str) -> Result<(), PyError>;
}

impl PyObject {
    /// The lookup proper, before the `__doc__` default and the naming of a
    /// missing attribute.
    pub fn get_attribute_impl(&self, name: &str) -> (r: Result<Attr, PyError>)
        ensures
            result_view(r) == lookup(*self, name@),
    {
        lookup_attr(self, name)
    }
}

impl ObjectAccess for PyObject {
    fn get_attribute(&self, name: &str) -> (r: Result<Attr, PyError>)
        ensures
            result_view(r) == get_attribute_spec(*self, name@),
            r matches Err(PyError::AttributeErrorWithContext { obj, .. }) ==> copy_of(*obj, answering_object(*self, name@)),
    {
        resolve_attr(self, name)
    }

    fn set_attribute(&mut self, name: &str, value: Value) -> (r: Result<(), PyError>)
        ensures
            set_outcome(*old(self), name@, value, unit_view(r), *final(self)),
    {
        assign_attr(self, name, value)
    }

    fn del_attribute(&mut self, name: &str) -> (r: Result<(), PyError>)
        ensures
            del_outcome(*old(self), name@, unit_view(r), *final(self)),
    {
        delete_attr(self, name)
    }
}

} // verus!
