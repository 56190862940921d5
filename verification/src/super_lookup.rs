//! Attribute lookup on a `super(cls, obj)` object: the walk of the method
//! resolution order after `cls`, how a binding found there is presented,
//! and what is tried when the walk finds nothing.

use vstd::prelude::*;
use crate::error::{PyError, PyErrorView};
use crate::object::{str_is, concat};

verus! {

/// What a class binding holds, as far as `super` cares.
pub enum Binding {
    Function,
    BuiltinFunction,
    BuiltinMethod,
    Property { has_getter: bool },
    StaticMethod { func: u64 },
    ClassMethod { func: u64 },
    /// Any other value.
    Plain,
}

/// A binding of a class namespace: its name, its kind and the value (by
/// identity).
pub struct Slot {
    pub name: String,
    pub binding: Binding,
    pub value: u64,
}

/// A class in a method resolution order.
pub enum BaseKind {
    /// A class with a namespace.
    Type { slots: Vec<Slot> },
    /// A built-in exception class (`OSError`, ...), which has no namespace.
    BuiltinException,
    /// Anything else.
    Other,
}

/// A class of a method resolution order, with its identity.
pub struct Base {
    pub id: u64,
    pub kind: BaseKind,
}

/// What the walk found.
#[derive(Debug, Clone, Copy, PartialEq, Eq, Structural)]
pub enum Found {
    /// `__init__` of a built-in exception base: stores the call's arguments
    /// as `obj.args`.
    ExceptionInit,
    /// The value itself.
    Value(u64),
    /// The function bound to `obj`.
    BoundToObj(u64),
    /// The built-in method rebound to `obj`.
    RebindBuiltin(u64),
    /// The property's getter called on `obj` (the property itself if the
    /// call fails).
    CallGetter(u64),
    /// The class method's function bound to `obj`.
    ClassBound(u64),
}

/// The first binding of `name` in `slots`.
pub open spec fn slot_index(slots: Seq<Slot>, name: Seq<char>) -> int
    decreases slots.len(),
{
    if slots.len() == 0 {
        -1
    } else {
        let i = slot_index(slots.drop_last(), name);
        if i >= 0 { i } else if slots.last().name@ == name { slots.len() - 1 } else { -1 }
    }
}

/// How a binding of `name` found on the walk is presented: `__new__` is
/// never bound, functions are bound to `obj`, built-in methods rebound,
/// properties with a getter read, static methods unwrapped, class
/// methods bound.
pub open spec fn present(name: Seq<char>, s: Slot) -> Found {
    match s.binding {
        Binding::Function => if name == "__new__"@ { Found::Value(s.value) } else { Found::BoundToObj(s.value) },
        Binding::BuiltinFunction => if name == "__new__"@ { Found::Value(s.value) } else { Found::BoundToObj(s.value) },
        Binding::BuiltinMethod => Found::RebindBuiltin(s.value),
        Binding::Property { has_getter } => if has_getter { Found::CallGetter(s.value) } else { Found::Value(s.value) },
        Binding::StaticMethod { func } => Found::Value(func),
        Binding::ClassMethod { func } => Found::ClassBound(func),
        Binding::Plain => Found::Value(s.value),
    }
}

/// What one class of the walk answers for `name`.
pub open spec fn base_hit(b: Base, name: Seq<char>) -> Option<Found> {
    match b.kind {
        BaseKind::BuiltinException => if name == "__init__"@ { Some(Found::ExceptionInit) } else { None },
        BaseKind::Type { slots } => {
            let i = slot_index(slots@, name);
            if i >= 0 { Some(present(name, slots@[i])) } else { None }
        },
        BaseKind::Other => None,
    }
}

/// The first answer for `name` among `mro[from..]`.
pub open spec fn mro_hit(mro: Seq<Base>, from: int, name: Seq<char>) -> Option<Found>
    decreases mro.len() - from,
{
    if from < 0 || from >= mro.len() {
        None
    } else {
        match base_hit(mro[from], name) {
            Some(f) => Some(f),
            None => mro_hit(mro, from + 1, name),
        }
    }
}

/// The position of the class `cls` in `mro`, or `mro.len()`.
pub open spec fn position_of(mro: Seq<Base>, cls: u64) -> int
    decreases mro.len(),
{
    if mro.len() == 0 {
        0
    } else {
        let p = position_of(mro.drop_last(), cls);
        if p < mro.len() - 1 { p } else if mro.last().id == cls { mro.len() - 1 } else { mro.len() as int }
    }
}

/// The answer of one resolution order: the walk starts after `cls`; an
/// order without `cls` answers nothing.
pub open spec fn mro_search(mro: Seq<Base>, cls: u64, name: Seq<char>) -> Option<Found> {
    let p = position_of(mro, cls);
    if p < mro.len() { mro_hit(mro, p + 1, name) } else { None }
}

/// The first answer among the resolution orders `mros[i..]` (the type of
/// `obj`; for a class `obj`, its own order and then its metaclass's).
pub open spec fn chain_search(mros: Seq<Vec<Base>>, i: int, cls: u64, name: Seq<char>) -> Option<Found>
    decreases mros.len() - i,
{
    if i < 0 || i >= mros.len() {
        None
    } else {
        match mro_search(mros[i]@, cls, name) {
            Some(f) => Some(f),
            None => chain_search(mros, i + 1, cls, name),
        }
    }
}

/// What is known of `obj` beyond its resolution orders.
pub struct ObjFacts {
    /// `obj` is an instance (not a class).
    pub is_instance: bool,
    /// Its class derives from a native type (`dict`, `list`, ...).
    pub has_native_base: bool,
    /// It carries a native value (the storage of such a subclass).
    pub has_native_backing: bool,
    /// That native value has the attribute looked up.
    pub native_has_attr: bool,
}

/// The result of `super(cls, obj).name`.
#[derive(Debug, PartialEq)]
pub enum SuperOutcome {
    Found(Found),
    /// `__init__` that builds the native value from the call's arguments.
    NativeInit,
    /// `__setattr__` / `__delattr__` acting on `obj` itself.
    AttrProxy { delete: bool },
    /// A container protocol method acting on the native value.
    NativeProtocol,
    /// The native value's own attribute (a built-in method rebound to it).
    NativeAttr,
    Error(PyError),
}

/// What a `SuperOutcome` is, with the error by its view.
pub enum SuperView {
    Found(Found),
    NativeInit,
    AttrProxy { delete: bool },
    NativeProtocol,
    NativeAttr,
    Error(PyErrorView),
}

impl View for SuperOutcome {
    type V = SuperView;

    open spec fn view(&self) -> SuperView {
        match self {
            SuperOutcome::Found(f) => SuperView::Found(*f),
            SuperOutcome::NativeInit => SuperView::NativeInit,
            SuperOutcome::AttrProxy { delete } => SuperView::AttrProxy { delete: *delete },
            SuperOutcome::NativeProtocol => SuperView::NativeProtocol,
            SuperOutcome::NativeAttr => SuperView::NativeAttr,
            SuperOutcome::Error(e) => SuperView::Error(e@),
        }
    }
}

/// Whether `name` is a container protocol method that `super` forwards to
/// the native value.
pub open spec fn is_native_protocol(name: Seq<char>) -> bool {
    name == "__setitem__"@ || name == "__getitem__"@ || name == "__delitem__"@
        || name == "__contains__"@ || name == "__len__"@ || name == "__iter__"@
}

/// The message of a failed lookup on a `super` object.
pub open spec fn super_missing_message(name: Seq<char>) -> Seq<char> {
    "'super' object has no attribute '"@ + name + "'"@
}

/// `super(cls, obj).name` in full.
pub open spec fn super_outcome(mros: Seq<Vec<Base>>, cls: u64, name: Seq<char>, facts: ObjFacts) -> SuperView {
    match chain_search(mros, 0, cls, name) {
        Some(f) => SuperView::Found(f),
        None => if name == "__init__"@ && !facts.is_instance {
            SuperView::Error(PyErrorView::AttributeError(super_missing_message(name)))
        } else if name == "__init__"@ && facts.has_native_base {
            SuperView::NativeInit
        } else if name == "__setattr__"@ {
            SuperView::AttrProxy { delete: false }
        } else if name == "__delattr__"@ {
            SuperView::AttrProxy { delete: true }
        } else if facts.has_native_backing && is_native_protocol(name) {
            SuperView::NativeProtocol
        } else if facts.has_native_backing && facts.native_has_attr {
            SuperView::NativeAttr
        } else {
            SuperView::Error(PyErrorView::AttributeError(super_missing_message(name)))
        },
    }
}

fn find_slot(slots: &Vec<Slot>, name: &str) -> (r: Option<usize>)
    ensures
        r matches Some(i) ==> i < slots@.len() && slot_index(slots@, name@) == i,
        r is None ==> slot_index(slots@, name@) == -1,
{
    let mut i: usize = 0;
    while i < slots.len()
        invariant
            i <= slots@.len(),
            slot_index(slots@.subrange(0, i as int), name@) == -1,
        decreases slots@.len() - i,
    {
        assert(slots@.subrange(0, i + 1).drop_last() =~= slots@.subrange(0, i as int));
        if str_is(slots[i].name.as_str(), name) {
            proof { lemma_slot_index_prefix(slots@, i as int + 1, name@); }
            return Some(i);
        }
        i += 1;
    }
    assert(slots@.subrange(0, i as int) =~= slots@);
    None
}

/// The first binding found in a prefix is the first binding of the whole.
proof fn lemma_slot_index_prefix(slots: Seq<Slot>, k: int, name: Seq<char>)
    requires
        0 <= k <= slots.len(),
        slot_index(slots.subrange(0, k), name) >= 0,
    ensures
        slot_index(slots, name) == slot_index(slots.subrange(0, k), name),
    decreases slots.len() - k,
{
    if k < slots.len() {
        assert(slots.subrange(0, k + 1).drop_last() =~= slots.subrange(0, k));
        lemma_slot_index_prefix(slots, k + 1, name);
    } else {
        assert(slots.subrange(0, k) =~= slots);
    }
}

fn present_exec(name: &str, s: &Slot) -> (r: Found)
    ensures
        r == present(name@, *s),
{
    match s.binding {
        Binding::Function | Binding::BuiltinFunction => {
            if str_is(name, "__new__") { Found::Value(s.value) } else { Found::BoundToObj(s.value) }
        },
        Binding::BuiltinMethod => Found::RebindBuiltin(s.value),
        Binding::Property { has_getter } => {
            if has_getter { Found::CallGetter(s.value) } else { Found::Value(s.value) }
        },
        Binding::StaticMethod { func } => Found::Value(func),
        Binding::ClassMethod { func } => Found::ClassBound(func),
        Binding::Plain => Found::Value(s.value),
    }
}

fn base_hit_exec(b: &Base, name: &str) -> (r: Option<Found>)
    ensures
        r == base_hit(*b, name@),
{
    match &b.kind {
        BaseKind::BuiltinException => {
            if str_is(name, "__init__") { Some(Found::ExceptionInit) } else { None }
        },
        BaseKind::Type { slots } => match find_slot(slots, name) {
            Some(i) => Some(present_exec(name, &slots[i])),
            None => None,
        },
        BaseKind::Other => None,
    }
}

fn position_exec(mro: &Vec<Base>, cls: u64) -> (p: usize)
    ensures
        p == position_of(mro@, cls),
        p <= mro@.len(),
{
    let mut p: usize = 0;
    while p < mro.len()
        invariant
            p <= mro@.len(),
            position_of(mro@.subrange(0, p as int), cls) == p,
        decreases mro@.len() - p,
    {
        assert(mro@.subrange(0, p + 1).drop_last() =~= mro@.subrange(0, p as int));
        if mro[p].id == cls {
            proof { lemma_position_prefix(mro@, p as int + 1, cls); }
            return p;
        }
        p += 1;
    }
    assert(mro@.subrange(0, p as int) =~= mro@);
    p
}

fn mro_search_exec(mro: &Vec<Base>, cls: u64, name: &str) -> (r: Option<Found>)
    ensures
        r == mro_search(mro@, cls, name@),
{
    let p = position_exec(mro, cls);
    if p == mro.len() {
        return None;
    }
    let mut i: usize = p + 1;
    while i < mro.len()
        invariant
            p < mro@.len(),
            p + 1 <= i <= mro@.len(),
            mro_search(mro@, cls, name@) == mro_hit(mro@, i as int, name@),
        decreases mro@.len() - i,
    {
        match base_hit_exec(&mro[i], name) {
            Some(f) => return Some(f),
            None => {},
        }
        i += 1;
    }
    None
}

/// The position found in a prefix is the position in the whole.
proof fn lemma_position_prefix(mro: Seq<Base>, k: int, cls: u64)
    requires
        0 <= k <= mro.len(),
        position_of(mro.subrange(0, k), cls) < k,
    ensures
        position_of(mro, cls) == position_of(mro.subrange(0, k), cls),
    decreases mro.len() - k,
{
    if k < mro.len() {
        assert(mro.subrange(0, k + 1).drop_last() =~= mro.subrange(0, k));
        lemma_position_prefix(mro, k + 1, cls);
    } else {
        assert(mro.subrange(0, k) =~= mro);
    }
}

/// `super(cls, obj).name`: walks each resolution order of `mros` after
/// `cls` for the first class that answers `name`; when none does, falls
/// back on the native storage of `obj` and on the attribute-proxy methods,
/// and otherwise raises `AttributeError`.
pub fn super_get(mros: &Vec<Vec<Base>>, cls: u64, name: &str, facts: &ObjFacts) -> (r: SuperOutcome)
    ensures
        r@ == super_outcome(mros@, cls, name@, *facts),
{
    let mut i: usize = 0;
    while i < mros.len()
        invariant
            i <= mros@.len(),
            chain_search(mros@, 0, cls, name@) == chain_search(mros@, i as int, cls, name@),
        decreases mros@.len() - i,
    {
        match mro_search_exec(&mros[i], cls, name) {
            Some(f) => return SuperOutcome::Found(f),
            None => {},
        }
        i += 1;
    }
    let missing = || -> (e: PyError)
        ensures
            e@ == PyErrorView::AttributeError(super_missing_message(name@)),
    {
        let a = concat("'super' object has no attribute '", name);
        PyError::AttributeError(concat(a.as_str(), "'"))
    };
    if str_is(name, "__init__") && !facts.is_instance {
        return SuperOutcome::Error(missing());
    }
    if str_is(name, "__init__") && facts.has_native_base {
        return SuperOutcome::NativeInit;
    }
    if str_is(name, "__setattr__") {
        return SuperOutcome::AttrProxy { delete: false };
    }
    if str_is(name, "__delattr__") {
        return SuperOutcome::AttrProxy { delete: true };
    }
    if facts.has_native_backing {
        if str_is(name, "__setitem__") || str_is(name, "__getitem__") || str_is(name, "__delitem__")
            || str_is(name, "__contains__") || str_is(name, "__len__") || str_is(name, "__iter__") {
            return SuperOutcome::NativeProtocol;
        }
        if facts.native_has_attr {
            return SuperOutcome::NativeAttr;
        }
    }
    SuperOutcome::Error(missing())
}

} // verus!
