//! An object's attribute namespace: names bound to values, in insertion
//! order, each name at most once.

use vstd::prelude::*;

verus! {

/// A value an attribute can hold, as the attribute layer sees it.
#[derive(Debug, PartialEq)]
pub enum Value {
    PyNone,
    Bool(bool),
    Int(i64),
    Str(String),
    /// An object of the interpreter, by identity.
    Ref(u64),
    /// A type object made on demand and known only by its name.
    TypeObject(String),
    /// A built-in method of the given name.
    BuiltinMethod(String),
    /// A new empty list.
    EmptyList,
}

/// What a `Value` is, with strings as character sequences.
pub enum ValueView {
    PyNone,
    Bool(bool),
    Int(i64),
    Str(Seq<char>),
    Ref(u64),
    TypeObject(Seq<char>),
    BuiltinMethod(Seq<char>),
    EmptyList,
}

impl View for Value {
    type V = ValueView;

    open spec fn view(&self) -> ValueView {
        match self {
            Value::PyNone => ValueView::PyNone,
            Value::Bool(b) => ValueView::Bool(*b),
            Value::Int(i) => ValueView::Int(*i),
            Value::Str(s) => ValueView::Str(s@),
            Value::Ref(id) => ValueView::Ref(*id),
            Value::TypeObject(s) => ValueView::TypeObject(s@),
            Value::BuiltinMethod(s) => ValueView::BuiltinMethod(s@),
            Value::EmptyList => ValueView::EmptyList,
        }
    }
}

impl Value {
    /// A copy of the value.
    pub fn duplicate(&self) -> (r: Value)
        ensures
            r == *self,
    {
        match self {
            Value::PyNone => Value::PyNone,
            Value::Bool(b) => Value::Bool(*b),
            Value::Int(i) => Value::Int(*i),
            Value::Str(s) => Value::Str(s.clone()),
            Value::Ref(id) => Value::Ref(*id),
            Value::TypeObject(s) => Value::TypeObject(s.clone()),
            Value::BuiltinMethod(s) => Value::BuiltinMethod(s.clone()),
            Value::EmptyList => Value::EmptyList,
        }
    }
}

/// The map an association list stands for: later pairs override earlier
/// ones.
pub open spec fn assoc_map<K, V>(s: Seq<(K, V)>) -> Map<K, V>
    decreases s.len(),
{
    if s.len() == 0 {
        Map::empty()
    } else {
        assoc_map(s.drop_last()).insert(s.last().0, s.last().1)
    }
}

/// No key occurs twice.
pub open spec fn unique_keys<K, V>(s: Seq<(K, V)>) -> bool {
    forall|i: int, j: int| 0 <= i < s.len() && 0 <= j < s.len() && i != j ==> s[i].0 != s[j].0
}

pub(crate) proof fn lemma_assoc_dom<K, V>(s: Seq<(K, V)>, k: K)
    ensures
        assoc_map(s).contains_key(k) <==> exists|i: int| 0 <= i < s.len() && s[i].0 == k,
    decreases s.len(),
{
    if s.len() > 0 {
        lemma_assoc_dom(s.drop_last(), k);
        if assoc_map(s.drop_last()).contains_key(k) {
            let i = choose|i: int| 0 <= i < s.drop_last().len() && s.drop_last()[i].0 == k;
            assert(s[i].0 == k);
        }
        if exists|i: int| 0 <= i < s.len() && s[i].0 == k {
            let i = choose|i: int| 0 <= i < s.len() && s[i].0 == k;
            if i < s.len() - 1 {
                assert(s.drop_last()[i].0 == k);
            }
        }
    }
}

pub(crate) proof fn lemma_assoc_get<K, V>(s: Seq<(K, V)>, i: int)
    requires
        unique_keys(s),
        0 <= i < s.len(),
    ensures
        assoc_map(s).contains_key(s[i].0),
        assoc_map(s)[s[i].0] == s[i].1,
    decreases s.len(),
{
    if i < s.len() - 1 {
        lemma_assoc_get(s.drop_last(), i);
    }
}

pub(crate) proof fn lemma_assoc_update<K, V>(s: Seq<(K, V)>, i: int, v: V)
    requires
        unique_keys(s),
        0 <= i < s.len(),
    ensures
        assoc_map(s.update(i, (s[i].0, v))) =~= assoc_map(s).insert(s[i].0, v),
    decreases s.len(),
{
    let t = s.update(i, (s[i].0, v));
    if i == s.len() - 1 {
        assert(t.drop_last() =~= s.drop_last());
    } else {
        assert(t.drop_last() =~= s.drop_last().update(i, (s[i].0, v)));
        lemma_assoc_update(s.drop_last(), i, v);
        assert(s.last().0 != s[i].0);
    }
}

pub(crate) proof fn lemma_assoc_remove<K, V>(s: Seq<(K, V)>, i: int)
    requires
        unique_keys(s),
        0 <= i < s.len(),
    ensures
        assoc_map(s.remove(i)) =~= assoc_map(s).remove(s[i].0),
    decreases s.len(),
{
    let t = s.remove(i);
    if i == s.len() - 1 {
        assert(t =~= s.drop_last());
        lemma_assoc_dom(s.drop_last(), s[i].0);
    } else {
        assert(t.drop_last() =~= s.drop_last().remove(i));
        assert(t.last() == s.last());
        lemma_assoc_remove(s.drop_last(), i);
        assert(s.last().0 != s[i].0);
    }
}

/// An attribute namespace (the `__dict__` of an instance, module, type or
/// function).
#[derive(Debug, PartialEq)]
pub struct AttrMap {
    entries: Vec<(String, Value)>,
}

impl AttrMap {
    /// The bindings, keyed by the characters of the name.
    pub closed spec fn pairs(self) -> Seq<(Seq<char>, Value)> {
        self.entries@.map_values(|e: (String, Value)| (e.0@, e.1))
    }

    /// The names bound, in the order they were first bound.
    pub closed spec fn order(self) -> Seq<Seq<char>> {
        self.pairs().map_values(|p: (Seq<char>, Value)| p.0)
    }

    #[verifier::type_invariant]
    closed spec fn wf(self) -> bool {
        unique_keys(self.pairs())
    }
}

impl View for AttrMap {
    type V = Map<Seq<char>, Value>;

    closed spec fn view(&self) -> Map<Seq<char>, Value> {
        assoc_map(self.pairs())
    }
}

impl AttrMap {
    /// An empty namespace.
    pub fn new() -> (r: AttrMap)
        ensures
            r@ == Map::<Seq<char>, Value>::empty(),
            r.order() == Seq::<Seq<char>>::empty(),
    {
        let r = AttrMap { entries: Vec::new() };
        assert(r.pairs() =~= Seq::<(Seq<char>, Value)>::empty());
        assert(r.order() =~= Seq::<Seq<char>>::empty());
        r
    }

    /// A copy of the namespace: the same bindings in the same order.
    pub fn copy(&self) -> (r: AttrMap)
        ensures
            r.pairs() == self.pairs(),
    {
        proof {
            use_type_invariant(self);
        }
        let mut out: Vec<(String, Value)> = Vec::new();
        let mut i: usize = 0;
        while i < self.entries.len()
            invariant
                i <= self.entries@.len(),
                out@.map_values(|e: (String, Value)| (e.0@, e.1)) == self.pairs().subrange(0, i as int),
            decreases self.entries@.len() - i,
        {
            let name = self.entries[i].0.clone();
            let value = self.entries[i].1.duplicate();
            let ghost before = out@;
            out.push((name, value));
            proof {
                assert(out@.map_values(|e: (String, Value)| (e.0@, e.1))
                    =~= before.map_values(|e: (String, Value)| (e.0@, e.1)).push(self.pairs()[i as int]));
                assert(self.pairs().subrange(0, i + 1) =~= self.pairs().subrange(0, i as int).push(self.pairs()[i as int]));
            }
            i += 1;
        }
        assert(self.pairs().subrange(0, i as int) =~= self.pairs());
        AttrMap { entries: out }
    }

    /// The names bound, in insertion order.
    pub fn names(&self) -> (r: Vec<String>)
        ensures
            r@.len() == self@.dom().len(),
            forall|i: int| 0 <= i < r@.len() ==> self@.contains_key(#[trigger] r@[i]@),
            r@.map_values(|n: String| n@) == self.order(),
    {
        proof {
            use_type_invariant(self);
        }
        let mut out: Vec<String> = Vec::new();
        let mut i: usize = 0;
        while i < self.entries.len()
            invariant
                unique_keys(self.pairs()),
                i <= self.entries@.len(),
                out@.len() == i,
                forall|k: int| 0 <= k < i ==> #[trigger] out@[k]@ == self.entries@[k].0@,
            decreases self.entries@.len() - i,
        {
            out.push(self.entries[i].0.clone());
            i += 1;
        }
        proof {
            assert forall|k: int| 0 <= k < out@.len() implies self@.contains_key(#[trigger] out@[k]@) by {
                assert(self.pairs()[k].0 == out@[k]@);
                lemma_assoc_get(self.pairs(), k);
            }
            lemma_assoc_dom_len(self.pairs());
            assert(out@.map_values(|n: String| n@) =~= self.order());
        }
        out
    }

    /// The position of `name`, if bound.
    fn find(&self, name: &String) -> (r: Option<usize>)
        ensures
            r matches Some(i) ==> i < self.entries@.len() && self.entries@[i as int].0@ == name@,
            r is None ==> !self@.contains_key(name@),
    {
        proof {
            use_type_invariant(self);
        }
        let mut i: usize = 0;
        while i < self.entries.len()
            invariant
                i <= self.entries@.len(),
                forall|k: int| 0 <= k < i ==> self.entries@[k].0@ != name@,
            decreases self.entries@.len() - i,
        {
            if self.entries[i].0 == *name {
                return Some(i);
            }
            i += 1;
        }
        proof {
            lemma_assoc_dom(self.pairs(), name@);
            if self@.contains_key(name@) {
                let k = choose|k: int| 0 <= k < self.pairs().len() && self.pairs()[k].0 == name@;
                assert(self.entries@[k].0@ == name@);
            }
        }
        None
    }

    /// Whether `name` is bound.
    pub fn contains(&self, name: &str) -> (r: bool)
        ensures
            r == self@.contains_key(name@),
    {
        proof {
            use_type_invariant(self);
        }
        let key = name.to_owned();
        match self.find(&key) {
            Some(i) => {
                proof {
                    assert(self.pairs()[i as int].0 == name@);
                    lemma_assoc_get(self.pairs(), i as int);
                }
                true
            },
            None => false,
        }
    }

    /// The value bound to `name`, if any.
    pub fn get(&self, name: &str) -> (r: Option<Value>)
        ensures
            r == (if self@.contains_key(name@) { Some(self@[name@]) } else { None::<Value> }),
    {
        proof {
            use_type_invariant(self);
        }
        let key = name.to_owned();
        match self.find(&key) {
            Some(i) => {
                proof {
                    assert(self.pairs()[i as int].0 == name@);
                    lemma_assoc_get(self.pairs(), i as int);
                }
                Some(self.entries[i].1.duplicate())
            },
            None => None,
        }
    }

    /// Binds `name` to `value`, replacing any earlier binding.
    pub fn insert(&mut self, name: &str, value: Value)
        ensures
            final(self)@ == old(self)@.insert(name@, value),
            final(self).order() == (if old(self)@.contains_key(name@) { old(self).order() } else { old(self).order().push(name@) }),
    {
        proof {
            use_type_invariant(&*self);
        }
        let key = name.to_owned();
        let found = self.find(&key);
        let ghost before = self.pairs();
        let mut entries: Vec<(String, Value)> = Vec::new();
        std::mem::swap(&mut entries, &mut self.entries);
        assert(entries@.map_values(|e: (String, Value)| (e.0@, e.1)) == before);
        match found {
            Some(i) => {
                entries.set(i, (key, value));
                proof {
                    assert(entries@.map_values(|e: (String, Value)| (e.0@, e.1)) =~= before.update(
                        i as int, (before[i as int].0, value)));
                    lemma_assoc_update(before, i as int, value);
                    lemma_unique_update(before, i as int, value);
                    lemma_assoc_get(before, i as int);
                    assert(entries@.map_values(|e: (String, Value)| (e.0@, e.1)).map_values(|p: (Seq<char>, Value)| p.0)
                        =~= before.map_values(|p: (Seq<char>, Value)| p.0));
                }
            },
            None => {
                proof {
                    lemma_assoc_dom(before, name@);
                }
                entries.push((key, value));
                proof {
                    let after = entries@.map_values(|e: (String, Value)| (e.0@, e.1));
                    assert(after =~= before.push((name@, value)));
                    assert(after.drop_last() =~= before);
                    assert(after.map_values(|p: (Seq<char>, Value)| p.0)
                        =~= before.map_values(|p: (Seq<char>, Value)| p.0).push(name@));
                }
            },
        }
        self.entries = entries;
    }

    /// Unbinds `name`, returning the value it had.
    pub fn remove(&mut self, name: &str) -> (r: Option<Value>)
        ensures
            r == (if old(self)@.contains_key(name@) { Some(old(self)@[name@]) } else { None::<Value> }),
            final(self)@ == old(self)@.remove(name@),
            old(self)@.contains_key(name@) ==> exists|i: int| 0 <= i < old(self).order().len()
                && old(self).order()[i] == name@ && final(self).order() == old(self).order().remove(i),
            !old(self)@.contains_key(name@) ==> final(self).order() == old(self).order(),
    {
        proof {
            use_type_invariant(&*self);
        }
        let key = name.to_owned();
        match self.find(&key) {
            Some(i) => {
                let ghost before = self.pairs();
                proof {
                    assert(before[i as int].0 == name@);
                    lemma_assoc_get(before, i as int);
                }
                let mut entries: Vec<(String, Value)> = Vec::new();
                std::mem::swap(&mut entries, &mut self.entries);
                assert(entries@.map_values(|e: (String, Value)| (e.0@, e.1)) == before);
                let (_, v) = entries.remove(i);
                proof {
                    assert(entries@.map_values(|e: (String, Value)| (e.0@, e.1)) =~= before.remove(i as int));
                    lemma_assoc_remove(before, i as int);
                    lemma_unique_remove(before, i as int);
                    assert(entries@.map_values(|e: (String, Value)| (e.0@, e.1)).map_values(|p: (Seq<char>, Value)| p.0)
                        =~= before.map_values(|p: (Seq<char>, Value)| p.0).remove(i as int));
                }
                self.entries = entries;
                assert(old(self).order()[i as int] == name@);
                assert(self.order() == old(self).order().remove(i as int));
                Some(v)
            },
            None => {
                assert(self@ =~= old(self)@.remove(name@));
                None
            },
        }
    }
}

/// Whether `n` reads `__x__`: it begins and ends with two underscores.
pub open spec fn is_dunder_name(n: Seq<char>) -> bool {
    n.len() >= 2 && n[0] == '_' && n[1] == '_' && n[n.len() - 2] == '_' && n[n.len() - 1] == '_'
}

/// The bindings of `m` whose names are not dunder names.
pub open spec fn user_bindings(m: Map<Seq<char>, Value>) -> Map<Seq<char>, Value> {
    Map::new(|n: Seq<char>| m.contains_key(n) && !is_dunder_name(n), |n: Seq<char>| m[n])
}

fn dunder_name(n: &String) -> (r: bool)
    ensures
        r == is_dunder_name(n@),
{
    let c = crate::unicode::chars_of(n.as_str());
    let len = c.len();
    len >= 2 && c[0] == '_' && c[1] == '_' && c[len - 2] == '_' && c[len - 1] == '_'
}

impl AttrMap {
    /// The bindings whose names are not dunder names, in their order: what
    /// a function's `__dict__` shows of its namespace.
    pub fn without_dunders(&self) -> (r: AttrMap)
        ensures
            r@ == user_bindings(self@),
            r.order() == self.order().filter(|n: Seq<char>| !is_dunder_name(n)),
    {
        proof {
            use_type_invariant(self);
        }
        let mut r = AttrMap::new();
        let mut i: usize = 0;
        proof {
            reveal_with_fuel(Seq::filter, 1);
            assert(self.order().subrange(0, 0) =~= Seq::<Seq<char>>::empty());
        }
        while i < self.entries.len()
            invariant
                i <= self.entries@.len(),
                self.pairs().len() == self.entries@.len(),
                unique_keys(self.pairs()),
                r@ =~= user_bindings(assoc_map(self.pairs().subrange(0, i as int))),
                r.order() == self.order().subrange(0, i as int).filter(|n: Seq<char>| !is_dunder_name(n)),
            decreases self.entries@.len() - i,
        {
            let ghost prefix = self.pairs().subrange(0, i as int);
            let ghost e = self.pairs()[i as int];
            proof {
                assert(self.pairs().subrange(0, i + 1).drop_last() =~= prefix);
                assert(self.pairs().subrange(0, i + 1).last() == e);
                assert(e.0 == self.entries@[i as int].0@);
                assert(e.1 == self.entries@[i as int].1);
            }
            let ghost pred = |n: Seq<char>| !is_dunder_name(n);
            proof {
                lemma_assoc_dom(prefix, e.0);
                if assoc_map(prefix).contains_key(e.0) {
                    let k = choose|k: int| 0 <= k < prefix.len() && prefix[k].0 == e.0;
                    assert(self.pairs()[k].0 == self.pairs()[i as int].0);
                }
                let o = self.order().subrange(0, i + 1);
                assert(o.drop_last() =~= self.order().subrange(0, i as int));
                assert(o.last() == e.0);
                reveal_with_fuel(Seq::filter, 1);
                assert(o.filter(pred) == (if pred(e.0) { o.drop_last().filter(pred).push(e.0) } else { o.drop_last().filter(pred) }));
            }
            if !dunder_name(&self.entries[i].0) {
                let v = self.entries[i].1.duplicate();
                r.insert(self.entries[i].0.as_str(), v);
            }
            proof {
                assert(r@ =~= user_bindings(assoc_map(self.pairs().subrange(0, i + 1))));
            }
            i += 1;
        }
        assert(self.pairs().subrange(0, i as int) =~= self.pairs());
        assert(self.order().subrange(0, i as int) =~= self.order());
        r
    }
}

pub(crate) proof fn lemma_unique_update<K, V>(s: Seq<(K, V)>, i: int, v: V)
    requires
        unique_keys(s),
        0 <= i < s.len(),
    ensures
        unique_keys(s.update(i, (s[i].0, v))),
{
    let t = s.update(i, (s[i].0, v));
    assert forall|a: int, b: int| 0 <= a < t.len() && 0 <= b < t.len() && a != b implies t[a].0 != t[b].0 by {
        assert(t[a].0 == s[a].0);
        assert(t[b].0 == s[b].0);
    }
}

pub(crate) proof fn lemma_unique_remove<K, V>(s: Seq<(K, V)>, i: int)
    requires
        unique_keys(s),
        0 <= i < s.len(),
    ensures
        unique_keys(s.remove(i)),
{
    let t = s.remove(i);
    assert forall|a: int, b: int| 0 <= a < t.len() && 0 <= b < t.len() && a != b implies t[a].0 != t[b].0 by {
        let sa = if a < i { a } else { a + 1 };
        let sb = if b < i { b } else { b + 1 };
        assert(t[a] == s[sa]);
        assert(t[b] == s[sb]);
    }
}

pub(crate) proof fn lemma_assoc_dom_len<K, V>(s: Seq<(K, V)>)
    requires
        unique_keys(s),
    ensures
        assoc_map(s).dom().len() == s.len(),
        assoc_map(s).dom().finite(),
    decreases s.len(),
{
    if s.len() > 0 {
        lemma_assoc_dom_len(s.drop_last());
        lemma_assoc_dom(s.drop_last(), s.last().0);
        if assoc_map(s.drop_last()).contains_key(s.last().0) {
            let i = choose|i: int| 0 <= i < s.drop_last().len() && s.drop_last()[i].0 == s.last().0;
            assert(s[i].0 == s[s.len() - 1].0);
        }
    }
}

} // verus!
