//! The methods of `dict`. Keys are represented by integers: keys that
//! compare equal share one integer. A dict is a sequence of bindings, each
//! key at most once, in the order the keys went in.

use vstd::prelude::*;
use crate::attrmap::{
    assoc_map, unique_keys, lemma_assoc_dom, lemma_assoc_get, lemma_assoc_update, lemma_assoc_remove,
    lemma_unique_update, lemma_unique_remove,
};
use crate::error::PyError;

verus! {

/// A dict over integer keys.
pub struct KeyDict<V> {
    entries: Vec<(u64, V)>,
}

impl<V> View for KeyDict<V> {
    type V = Map<u64, V>;

    open spec fn view(&self) -> Map<u64, V> {
        assoc_map(self.pairs())
    }
}

/// The map `m` with every key of `keys` bound to `v`.
pub open spec fn bind_all<V>(m: Map<u64, V>, keys: Seq<u64>, v: V) -> Map<u64, V>
    decreases keys.len(),
{
    if keys.len() == 0 {
        m
    } else {
        bind_all(m, keys.drop_last(), v).insert(keys.last(), v)
    }
}

impl<V> KeyDict<V> {
    /// The bindings, in the order their keys went in.
    pub closed spec fn pairs(self) -> Seq<(u64, V)> {
        self.entries@
    }

    /// No key is bound twice.
    pub open spec fn wf(self) -> bool {
        unique_keys(self.pairs())
    }

    /// An empty dict.
    pub fn new() -> (d: KeyDict<V>)
        ensures
            d.wf(),
            d.pairs() == Seq::<(u64, V)>::empty(),
            d@ == Map::<u64, V>::empty(),
    {
        KeyDict { entries: Vec::new() }
    }

    /// `__len__()`: the number of bindings.
    pub fn len(&self) -> (r: usize)
        ensures
            r == self.pairs().len(),
    {
        self.entries.len()
    }

    /// The position of the binding of `k`, if any.
    fn find(&self, k: u64) -> (r: Option<usize>)
        requires
            self.wf(),
        ensures
            r matches Some(i) ==> i < self.pairs().len() && self.pairs()[i as int].0 == k
                && self@.contains_key(k) && self@[k] == self.pairs()[i as int].1,
            r is None ==> !self@.contains_key(k),
    {
        let mut i: usize = 0;
        while i < self.entries.len()
            invariant
                self.wf(),
                i <= self.entries@.len(),
                forall|j: int| 0 <= j < i ==> self.entries@[j].0 != k,
            decreases self.entries@.len() - i,
        {
            if self.entries[i].0 == k {
                proof { lemma_assoc_get(self.pairs(), i as int); }
                return Some(i);
            }
            i += 1;
        }
        proof {
            lemma_assoc_dom(self.pairs(), k);
        }
        None
    }

    /// `__contains__(k)`: whether `k` is bound.
    pub fn contains(&self, k: u64) -> (r: bool)
        requires
            self.wf(),
        ensures
            r == self@.contains_key(k),
    {
        self.find(k).is_some()
    }

    /// `d[k] = v`: a bound key keeps its place and takes the new value; a
    /// new key goes to the end.
    pub fn set(&mut self, k: u64, v: V)
        requires
            old(self).wf(),
        ensures
            final(self).wf(),
            final(self)@ == old(self)@.insert(k, v),
            old(self)@.contains_key(k) ==> final(self).pairs().len() == old(self).pairs().len(),
            !old(self)@.contains_key(k) ==> final(self).pairs() == old(self).pairs().push((k, v)),
    {
        match self.find(k) {
            Some(i) => {
                let ghost before = self.pairs();
                self.entries.set(i, (k, v));
                proof {
                    assert(self.pairs() =~= before.update(i as int, (before[i as int].0, v)));
                    lemma_assoc_update(before, i as int, v);
                    lemma_unique_update(before, i as int, v);
                }
            },
            None => {
                let ghost before = self.pairs();
                proof { lemma_assoc_dom(before, k); }
                self.entries.push((k, v));
                proof {
                    assert(self.pairs().drop_last() =~= before);
                    assert forall|a: int, b: int| 0 <= a < self.pairs().len() && 0 <= b < self.pairs().len() && a != b
                        implies self.pairs()[a].0 != self.pairs()[b].0 by {
                        if a < before.len() && b < before.len() {
                        } else if a < before.len() {
                            assert(before[a].0 == self.pairs()[a].0);
                        } else {
                            assert(before[b].0 == self.pairs()[b].0);
                        }
                    }
                }
            },
        }
    }

    /// `pop(k[, default])`: removes `k` and returns its value; a missing key
    /// gives `default`, and `None` when there is no default (the dict then
    /// raises `KeyError`).
    pub fn pop(&mut self, k: u64, default: Option<V>) -> (r: Option<V>)
        requires
            old(self).wf(),
        ensures
            final(self).wf(),
            old(self)@.contains_key(k) ==> r == Some(old(self)@[k]) && final(self)@ == old(self)@.remove(k),
            !old(self)@.contains_key(k) ==> r == default && final(self).pairs() == old(self).pairs(),
    {
        match self.find(k) {
            Some(i) => {
                let ghost before = self.pairs();
                let (_, v) = self.entries.remove(i);
                proof {
                    lemma_assoc_remove(before, i as int);
                    lemma_unique_remove(before, i as int);
                }
                Some(v)
            },
            None => default,
        }
    }

    /// `popitem()` on a module's global namespace, which hands out its
    /// first binding: removes and returns it, or raises `KeyError` when the
    /// namespace is empty.
    pub fn popitem_first(&mut self) -> (r: Result<(u64, V), PyError>)
        requires
            old(self).wf(),
        ensures
            final(self).wf(),
            old(self).pairs().len() == 0 ==> (r matches Err(PyError::KeyError(m))
                && m@ == "popitem(): dictionary is empty"@ && final(self).pairs() == old(self).pairs()),
            old(self).pairs().len() > 0 ==> (r == Ok::<(u64, V), PyError>(old(self).pairs()[0])
                && final(self).pairs() == old(self).pairs().remove(0)
                && final(self)@ == old(self)@.remove(old(self).pairs()[0].0)),
    {
        let ghost before = self.pairs();
        if self.entries.len() == 0 {
            return Err(PyError::KeyError("popitem(): dictionary is empty".to_owned()));
        }
        let e = self.entries.remove(0);
        proof {
            lemma_assoc_remove(before, 0);
            lemma_unique_remove(before, 0);
        }
        Ok(e)
    }

    /// `popitem()`: removes and returns the binding that went in last; an
    /// empty dict raises `KeyError`.
    pub fn popitem(&mut self) -> (r: Result<(u64, V), PyError>)
        requires
            old(self).wf(),
        ensures
            final(self).wf(),
            old(self).pairs().len() == 0 ==> (r matches Err(PyError::KeyError(m))
                && m@ == "popitem(): dictionary is empty"@ && final(self).pairs() == old(self).pairs()),
            old(self).pairs().len() > 0 ==> (r == Ok::<(u64, V), PyError>(old(self).pairs().last())
                && final(self).pairs() == old(self).pairs().drop_last()
                && final(self)@ == old(self)@.remove(old(self).pairs().last().0)),
    {
        let ghost before = self.pairs();
        match self.entries.pop() {
            Some(e) => {
                proof {
                    let n = before.len() - 1;
                    assert(before.remove(n) =~= before.drop_last());
                    lemma_assoc_remove(before, n);
                    lemma_unique_remove(before, n);
                }
                Ok(e)
            },
            None => Err(PyError::KeyError("popitem(): dictionary is empty".to_owned())),
        }
    }

    /// `clear()`: no bindings remain.
    pub fn clear(&mut self)
        ensures
            final(self).wf(),
            final(self)@ == Map::<u64, V>::empty(),
    {
        self.entries.clear();
        assert(self@ =~= Map::<u64, V>::empty());
    }

    /// `update(other)` with another dict: each binding of `other`, in its
    /// order, is set here.
    pub fn update_from(&mut self, other: &KeyDict<V>)
        where V: Copy,
        requires
            old(self).wf(),
        ensures
            final(self).wf(),
            final(self)@ == old(self)@.union_prefer_right(other@),
    {
        let ghost start = self@;
        let mut i: usize = 0;
        while i < other.entries.len()
            invariant
                i <= other.entries@.len(),
                self.wf(),
                self@ == start.union_prefer_right(assoc_map(other.pairs().subrange(0, i as int))),
            decreases other.entries@.len() - i,
        {
            let (k, v) = other.entries[i];
            self.set(k, v);
            proof {
                assert(other.pairs().subrange(0, i + 1).drop_last() =~= other.pairs().subrange(0, i as int));
                assert(self@ =~= start.union_prefer_right(assoc_map(other.pairs().subrange(0, i + 1))));
            }
            i += 1;
        }
        assert(other.pairs().subrange(0, i as int) =~= other.pairs());
    }

    /// `update(pairs)` with an iterable of `(key, value)` pairs: each pair,
    /// in order, is set here (a later pair for the same key wins).
    pub fn update_pairs(&mut self, pairs: &[(u64, V)])
        where V: Copy,
        requires
            old(self).wf(),
        ensures
            final(self).wf(),
            final(self)@ == old(self)@.union_prefer_right(assoc_map(pairs@)),
    {
        let ghost start = self@;
        let mut i: usize = 0;
        while i < pairs.len()
            invariant
                i <= pairs@.len(),
                self.wf(),
                self@ == start.union_prefer_right(assoc_map(pairs@.subrange(0, i as int))),
            decreases pairs@.len() - i,
        {
            let (k, v) = pairs[i];
            self.set(k, v);
            proof {
                assert(pairs@.subrange(0, i + 1).drop_last() =~= pairs@.subrange(0, i as int));
                assert(self@ =~= start.union_prefer_right(assoc_map(pairs@.subrange(0, i + 1))));
            }
            i += 1;
        }
        assert(pairs@.subrange(0, i as int) =~= pairs@);
    }

    /// `get(k[, default])`: the value bound to `k`, or `default`.
    pub fn get(&self, k: u64, default: V) -> (r: V)
        where V: Copy,
        requires
            self.wf(),
        ensures
            r == (if self@.contains_key(k) { self@[k] } else { default }),
    {
        match self.find(k) {
            Some(i) => self.entries[i].1,
            None => default,
        }
    }

    /// `setdefault(k[, default])`: the value bound to `k`; a missing key is
    /// first bound to `default`.
    pub fn setdefault(&mut self, k: u64, default: V) -> (r: V)
        where V: Copy,
        requires
            old(self).wf(),
        ensures
            final(self).wf(),
            old(self)@.contains_key(k) ==> r == old(self)@[k] && final(self).pairs() == old(self).pairs(),
            !old(self)@.contains_key(k) ==> r == default && final(self)@ == old(self)@.insert(k, default),
    {
        match self.find(k) {
            Some(i) => self.entries[i].1,
            None => {
                self.set(k, default);
                default
            },
        }
    }

    /// `copy()`: a dict with the same bindings in the same order.
    pub fn copy(&self) -> (r: KeyDict<V>)
        where V: Copy,
        ensures
            r.pairs() == self.pairs(),
    {
        let mut entries: Vec<(u64, V)> = Vec::new();
        let mut i: usize = 0;
        while i < self.entries.len()
            invariant
                i <= self.entries@.len(),
                entries@ == self.entries@.subrange(0, i as int),
            decreases self.entries@.len() - i,
        {
            entries.push(self.entries[i]);
            assert(self.entries@.subrange(0, i + 1) =~= self.entries@.subrange(0, i as int).push(self.entries@[i as int]));
            i += 1;
        }
        assert(self.entries@.subrange(0, i as int) =~= self.entries@);
        KeyDict { entries }
    }

    /// `__or__(other)`: a new dict with this dict's bindings, then those of
    /// `other` (which win for a shared key).
    pub fn merged(&self, other: &KeyDict<V>) -> (r: KeyDict<V>)
        where V: Copy,
        requires
            self.wf(),
        ensures
            r.wf(),
            r@ == self@.union_prefer_right(other@),
    {
        let mut r = self.copy();
        r.update_from(other);
        r
    }

    /// `dict.fromkeys(keys[, value])`: each key bound to `value`.
    pub fn fromkeys(keys: &[u64], value: V) -> (r: KeyDict<V>)
        where V: Copy,
        ensures
            r.wf(),
            r@ == bind_all(Map::<u64, V>::empty(), keys@, value),
    {
        let mut r = KeyDict::new();
        let mut i: usize = 0;
        while i < keys.len()
            invariant
                i <= keys@.len(),
                r.wf(),
                r@ == bind_all(Map::<u64, V>::empty(), keys@.subrange(0, i as int), value),
            decreases keys@.len() - i,
        {
            r.set(keys[i], value);
            assert(keys@.subrange(0, i + 1).drop_last() =~= keys@.subrange(0, i as int));
            i += 1;
        }
        assert(keys@.subrange(0, i as int) =~= keys@);
        r
    }

    /// The bindings in order (iterating `items()`).
    pub fn items(&self) -> (r: Vec<(u64, V)>)
        where V: Copy,
        ensures
            r@ == self.pairs(),
    {
        self.copy().entries
    }

    /// `__sizeof__()`: the byte size reported for the dict.
    pub fn sizeof(&self) -> (r: i64)
        requires
            72 + 16 * self.pairs().len() <= i64::MAX,
        ensures
            r == 72 + 16 * self.pairs().len(),
    {
        72 + (self.entries.len() as i64) * 16
    }
}

/// The key a module's global namespace uses for a subscript: a string is
/// looked up by its interned id (`interned`); any other key raises
/// `KeyError` showing the key (`shown`, its `str()`).
pub fn globals_key(interned: Option<u64>, shown: &str) -> (r: Result<u64, PyError>)
    ensures
        match interned {
            Some(k) => r == Ok::<u64, PyError>(k),
            None => r matches Err(PyError::KeyError(m)) && m@ == shown@,
        },
{
    match interned {
        Some(k) => Ok(k),
        None => Err(PyError::KeyError(shown.to_owned())),
    }
}

} // verus!
