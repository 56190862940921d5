//! The algebra of `set` and `frozenset`. Elements are represented by keys:
//! elements that compare equal share one key, so a set is a sequence of
//! distinct keys, in the order the elements went in.

use vstd::prelude::*;
use crate::error::PyError;

verus! {

/// A set of element keys.
pub struct KeySet {
    keys: Vec<u64>,
}

impl View for KeySet {
    type V = Set<u64>;

    open spec fn view(&self) -> Set<u64> {
        self.order().to_set()
    }
}

/// Whether every set of `others` holds `k`.
pub open spec fn in_all(others: Seq<KeySet>, k: u64) -> bool {
    forall|i: int| 0 <= i < others.len() ==> #[trigger] others[i]@.contains(k)
}

/// Whether some set of `others` holds `k`.
pub open spec fn in_any(others: Seq<KeySet>, k: u64) -> bool {
    exists|i: int| 0 <= i < others.len() && #[trigger] others[i]@.contains(k)
}

/// The keys held by every set of `others`.
pub open spec fn kept_by_all(others: Seq<KeySet>) -> spec_fn(u64) -> bool {
    |k: u64| in_all(others, k)
}

/// The keys held by no set of `others`.
pub open spec fn kept_by_none(others: Seq<KeySet>) -> spec_fn(u64) -> bool {
    |k: u64| !in_any(others, k)
}

/// The keys outside `s`.
pub open spec fn outside(s: Set<u64>) -> spec_fn(u64) -> bool {
    |k: u64| !s.contains(k)
}

/// Every key held by some set of `others`.
pub open spec fn union_of(others: Seq<KeySet>) -> Set<u64>
    decreases others.len(),
{
    if others.len() == 0 {
        Set::empty()
    } else {
        union_of(others.drop_last()).union(others.last()@)
    }
}

/// Pushing a key onto a sequence inserts it into its set.
proof fn lemma_push_to_set(s: Seq<u64>, k: u64)
    ensures
        s.push(k).to_set() =~= s.to_set().insert(k),
{
    assert forall|x: u64| #[trigger] s.push(k).contains(x) <==> (s.contains(x) || x == k) by {
        if s.push(k).contains(x) && x != k {
            let j = choose|j: int| 0 <= j < s.push(k).len() && s.push(k)[j] == x;
            assert(s[j] == x);
        }
        if s.contains(x) {
            let j = choose|j: int| 0 <= j < s.len() && s[j] == x;
            assert(s.push(k)[j] == x);
        }
        if x == k {
            assert(s.push(k)[s.len() as int] == x);
        }
    }
}

/// Filtering a sequence and then taking its set is filtering its set.
proof fn lemma_filter_to_set(s: Seq<u64>, p: spec_fn(u64) -> bool)
    ensures
        s.filter(p).to_set() =~= s.to_set().filter(p),
{
    broadcast use vstd::seq_lib::group_filter_ensures;
    assert forall|x: u64| #[trigger] s.filter(p).contains(x) <==> (s.contains(x) && p(x)) by {
        if s.filter(p).contains(x) {
            s.lemma_filter_contains_rev(p, x);
            let j = choose|j: int| 0 <= j < s.filter(p).len() && s.filter(p)[j] == x;
            s.lemma_filter_pred(p, j);
        }
        if s.contains(x) && p(x) {
            let j = choose|j: int| 0 <= j < s.len() && s[j] == x;
            s.lemma_filter_contains(p, j);
        }
    }
}

impl KeySet {
    /// The keys, in the order their elements went in.
    pub closed spec fn order(self) -> Seq<u64> {
        self.keys@
    }

    /// No key occurs twice.
    pub open spec fn wf(self) -> bool {
        self.order().no_duplicates()
    }

    /// The empty set.
    pub fn new() -> (s: KeySet)
        ensures
            s.wf(),
            s.order() == Seq::<u64>::empty(),
            s@ == Set::<u64>::empty(),
    {
        let s = KeySet { keys: Vec::new() };
        assert(s@ =~= Set::<u64>::empty());
        s
    }

    /// The number of elements.
    pub fn len(&self) -> (r: usize)
        ensures
            r == self.order().len(),
    {
        self.keys.len()
    }

    /// `__contains__(x)`: whether the key of `x` is in the set.
    pub fn contains(&self, k: u64) -> (r: bool)
        ensures
            r == self@.contains(k),
    {
        let mut i: usize = 0;
        while i < self.keys.len()
            invariant
                i <= self.keys@.len(),
                forall|j: int| 0 <= j < i ==> self.keys@[j] != k,
            decreases self.keys@.len() - i,
        {
            if self.keys[i] == k {
                assert(self.keys@[i as int] == k);
                return true;
            }
            i += 1;
        }
        false
    }

    /// `add(x)`: a key not yet in the set goes to the end; one already in
    /// it changes nothing.
    pub fn add(&mut self, k: u64)
        requires
            old(self).wf(),
        ensures
            final(self).wf(),
            final(self).order() == (if old(self)@.contains(k) { old(self).order() } else { old(self).order().push(k) }),
            final(self)@ == old(self)@.insert(k),
    {
        if !self.contains(k) {
            proof { lemma_push_to_set(self.keys@, k); }
            self.keys.push(k);
        } else {
            assert(old(self)@ =~= old(self)@.insert(k));
        }
    }

    /// The set of the given keys, each counted once (building a set from
    /// any iterable).
    pub fn from_keys(keys: &[u64]) -> (s: KeySet)
        ensures
            s.wf(),
            s@ == keys@.to_set(),
    {
        let mut s = KeySet::new();
        let mut i: usize = 0;
        while i < keys.len()
            invariant
                i <= keys@.len(),
                s.wf(),
                s@ == keys@.subrange(0, i as int).to_set(),
            decreases keys@.len() - i,
        {
            s.add(keys[i]);
            assert(keys@.subrange(0, i + 1) =~= keys@.subrange(0, i as int).push(keys@[i as int]));
            proof { lemma_push_to_set(keys@.subrange(0, i as int), keys@[i as int]); }
            i += 1;
        }
        assert(keys@.subrange(0, i as int) =~= keys@);
        s
    }

    /// The keys, in order (iterating the set).
    pub fn to_vec(&self) -> (r: Vec<u64>)
        ensures
            r@ == self.order(),
    {
        self.copy().keys
    }

    /// `copy()`: a set with the same keys in the same order.
    pub fn copy(&self) -> (r: KeySet)
        ensures
            r.order() == self.order(),
    {
        let mut keys: Vec<u64> = Vec::new();
        let mut i: usize = 0;
        while i < self.keys.len()
            invariant
                i <= self.keys@.len(),
                keys@ == self.keys@.subrange(0, i as int),
            decreases self.keys@.len() - i,
        {
            keys.push(self.keys[i]);
            assert(self.keys@.subrange(0, i + 1) =~= self.keys@.subrange(0, i as int).push(self.keys@[i as int]));
            i += 1;
        }
        assert(self.keys@.subrange(0, i as int) =~= self.keys@);
        KeySet { keys }
    }
}

/// The keys of `keys` for which `keep` holds, in order.
fn select(keys: &Vec<u64>, keep: &Vec<bool>, Ghost(p): Ghost<spec_fn(u64) -> bool>) -> (out: Vec<u64>)
    requires
        keys@.len() == keep@.len(),
        forall|i: int| 0 <= i < keys@.len() ==> keep@[i] == p(keys@[i]),
        keys@.no_duplicates(),
    ensures
        out@ == keys@.filter(p),
        out@.no_duplicates(),
{
    let mut out: Vec<u64> = Vec::new();
    let mut i: usize = 0;
    while i < keys.len()
        invariant
            keys@.len() == keep@.len(),
            forall|j: int| 0 <= j < keys@.len() ==> keep@[j] == p(keys@[j]),
            keys@.no_duplicates(),
            i <= keys@.len(),
            out@ == keys@.subrange(0, i as int).filter(p),
            out@.no_duplicates(),
            forall|x: u64| out@.contains(x) ==> keys@.subrange(0, i as int).contains(x),
        decreases keys@.len() - i,
    {
        let ghost prefix = keys@.subrange(0, i as int);
        let ghost y = keys@[i as int];
        proof {
            assert(keys@.subrange(0, i + 1) =~= prefix.push(y));
            prefix.lemma_filter_push(y, p);
            if prefix.contains(y) {
                let j = choose|j: int| 0 <= j < prefix.len() && prefix[j] == y;
                assert(keys@[j] == keys@[i as int]);
            }
        }
        let ghost before = out@;
        if keep[i] {
            out.push(keys[i]);
            proof {
                assert(!before.contains(y));
                assert forall|a: int, b: int| 0 <= a < out@.len() && 0 <= b < out@.len() && a != b
                    implies out@[a] != out@[b] by {
                    if a < before.len() && b < before.len() {
                        assert(before[a] != before[b]);
                    } else if a < before.len() {
                        assert(before.contains(out@[a]));
                    } else {
                        assert(before.contains(out@[b]));
                    }
                }
            }
        }
        proof {
            assert forall|x: u64| out@.contains(x) implies keys@.subrange(0, i + 1).contains(x) by {
                if x == y {
                    assert(keys@.subrange(0, i + 1)[i as int] == y);
                } else {
                    let j = choose|j: int| 0 <= j < out@.len() && out@[j] == x;
                    assert(before[j] == x);
                    assert(before.contains(x));
                    assert(prefix.contains(x));
                    let m = choose|m: int| 0 <= m < prefix.len() && prefix[m] == x;
                    assert(keys@.subrange(0, i + 1)[m] == x);
                }
            }
        }
        i += 1;
    }
    assert(keys@.subrange(0, i as int) =~= keys@);
    out
}

/// Whether every set of `others` holds `k`.
fn in_all_exec(others: &[KeySet], k: u64) -> (r: bool)
    ensures
        r == in_all(others@, k),
{
    let mut i: usize = 0;
    while i < others.len()
        invariant
            i <= others@.len(),
            forall|j: int| 0 <= j < i ==> #[trigger] others@[j]@.contains(k),
        decreases others@.len() - i,
    {
        if !others[i].contains(k) {
            return false;
        }
        i += 1;
    }
    true
}

/// Whether some set of `others` holds `k`.
fn in_any_exec(others: &[KeySet], k: u64) -> (r: bool)
    ensures
        r == in_any(others@, k),
{
    let mut i: usize = 0;
    while i < others.len()
        invariant
            i <= others@.len(),
            forall|j: int| 0 <= j < i ==> !(#[trigger] others@[j]@.contains(k)),
        decreases others@.len() - i,
    {
        if others[i].contains(k) {
            return true;
        }
        i += 1;
    }
    false
}

impl KeySet {
    /// `intersection(*others)`: the keys of this set held by every other
    /// set, in this set's order.
    pub fn intersection(&self, others: &[KeySet]) -> (r: KeySet)
        requires
            self.wf(),
        ensures
            r.wf(),
            r.order() == self.order().filter(kept_by_all(others@)),
            r@ == self@.filter(kept_by_all(others@)),
    {
        let ghost p = kept_by_all(others@);
        let mut keep: Vec<bool> = Vec::new();
        let mut i: usize = 0;
        while i < self.keys.len()
            invariant
                i <= self.keys@.len(),
                keep@.len() == i,
                p == kept_by_all(others@),
                forall|j: int| 0 <= j < i ==> keep@[j] == p(self.keys@[j]),
            decreases self.keys@.len() - i,
        {
            let b = in_all_exec(others, self.keys[i]);
            assert(p(self.keys@[i as int]) == in_all(others@, self.keys@[i as int]));
            keep.push(b);
            i += 1;
        }
        let keys = select(&self.keys, &keep, Ghost(p));
        proof { lemma_filter_to_set(self.keys@, p); }
        KeySet { keys }
    }

    /// `difference(*others)`: the keys of this set held by no other set,
    /// in this set's order.
    pub fn difference(&self, others: &[KeySet]) -> (r: KeySet)
        requires
            self.wf(),
        ensures
            r.wf(),
            r.order() == self.order().filter(kept_by_none(others@)),
            r@ == self@.filter(kept_by_none(others@)),
    {
        let ghost p = kept_by_none(others@);
        let mut keep: Vec<bool> = Vec::new();
        let mut i: usize = 0;
        while i < self.keys.len()
            invariant
                i <= self.keys@.len(),
                keep@.len() == i,
                p == kept_by_none(others@),
                forall|j: int| 0 <= j < i ==> keep@[j] == p(self.keys@[j]),
            decreases self.keys@.len() - i,
        {
            let b = !in_any_exec(others, self.keys[i]);
            assert(p(self.keys@[i as int]) == !in_any(others@, self.keys@[i as int]));
            keep.push(b);
            i += 1;
        }
        let keys = select(&self.keys, &keep, Ghost(p));
        proof { lemma_filter_to_set(self.keys@, p); }
        KeySet { keys }
    }
}

/// The keys of `s` not in `t`, then those of `t` not in `s`.
pub open spec fn symmetric_difference_set(s: Set<u64>, t: Set<u64>) -> Set<u64> {
    s.difference(t).union(t.difference(s))
}

impl KeySet {
    /// `discard(x)`: the key leaves the set if it is there; the result
    /// tells whether it was.
    pub fn discard(&mut self, k: u64) -> (r: bool)
        requires
            old(self).wf(),
        ensures
            final(self).wf(),
            r == old(self)@.contains(k),
            final(self).order() == old(self).order().filter(outside(set![k])),
            final(self)@ == old(self)@.remove(k),
    {
        let ghost p = outside(set![k]);
        let r = self.contains(k);
        let mut keep: Vec<bool> = Vec::new();
        let mut i: usize = 0;
        while i < self.keys.len()
            invariant
                i <= self.keys@.len(),
                keep@.len() == i,
                p == outside(set![k]),
                forall|j: int| 0 <= j < i ==> keep@[j] == p(self.keys@[j]),
            decreases self.keys@.len() - i,
        {
            let b = self.keys[i] != k;
            assert(p(self.keys@[i as int]) == (self.keys@[i as int] != k));
            keep.push(b);
            i += 1;
        }
        let keys = select(&self.keys, &keep, Ghost(p));
        proof {
            lemma_filter_to_set(self.keys@, p);
            assert(self@.filter(p) =~= self@.remove(k));
        }
        self.keys = keys;
        r
    }

    /// `pop()`: removes and returns some element; an empty set raises
    /// `KeyError`.
    pub fn pop(&mut self) -> (r: Result<u64, PyError>)
        requires
            old(self).wf(),
        ensures
            final(self).wf(),
            old(self).order().len() == 0 ==> (r matches Err(PyError::KeyError(m))
                && m@ == "pop from an empty set"@ && final(self).order() == old(self).order()),
            old(self).order().len() > 0 ==> (r matches Ok(k) && old(self)@.contains(k)
                && final(self)@ == old(self)@.remove(k)
                && final(self).order().len() == old(self).order().len() - 1),
    {
        let ghost before = self.keys@;
        match self.keys.pop() {
            Some(k) => {
                proof {
                    let n = before.len() - 1;
                    assert(before[n] == k);
                    assert forall|x: u64| #[trigger] self.keys@.contains(x) <==> (before.contains(x) && x != k) by {
                        if self.keys@.contains(x) {
                            let j = choose|j: int| 0 <= j < self.keys@.len() && self.keys@[j] == x;
                            assert(before[j] == x);
                            assert(j != n);
                        }
                        if before.contains(x) && x != k {
                            let j = choose|j: int| 0 <= j < before.len() && before[j] == x;
                            assert(j != n);
                            assert(self.keys@[j] == x);
                        }
                    }
                    assert(self@ =~= before.to_set().remove(k));
                    assert(before.contains(k));
                }
                Ok(k)
            },
            None => Err(PyError::KeyError("pop from an empty set".to_owned())),
        }
    }

    /// Adds every key of `other`, in its order.
    fn add_all(&mut self, other: &KeySet)
        requires
            old(self).wf(),
        ensures
            final(self).wf(),
            final(self)@ == old(self)@.union(other@),
    {
        let ghost start = self@;
        let mut i: usize = 0;
        while i < other.keys.len()
            invariant
                i <= other.keys@.len(),
                self.wf(),
                self@ == start.union(other.keys@.subrange(0, i as int).to_set()),
            decreases other.keys@.len() - i,
        {
            self.add(other.keys[i]);
            proof {
                assert(other.keys@.subrange(0, i + 1) =~= other.keys@.subrange(0, i as int).push(other.keys@[i as int]));
                lemma_push_to_set(other.keys@.subrange(0, i as int), other.keys@[i as int]);
                assert(self@ =~= start.union(other.keys@.subrange(0, i + 1).to_set()));
            }
            i += 1;
        }
        assert(other.keys@.subrange(0, i as int) =~= other.keys@);
    }

    /// `union(*others)`: the keys of this set and of every other set.
    pub fn union(&self, others: &[KeySet]) -> (r: KeySet)
        requires
            self.wf(),
        ensures
            r.wf(),
            r@ == self@.union(union_of(others@)),
    {
        let mut r = self.copy();
        r.update(others);
        r
    }

    /// `update(*others)`: every key of every other set joins this one.
    pub fn update(&mut self, others: &[KeySet])
        requires
            old(self).wf(),
        ensures
            final(self).wf(),
            final(self)@ == old(self)@.union(union_of(others@)),
    {
        let ghost start = self@;
        let mut i: usize = 0;
        while i < others.len()
            invariant
                i <= others@.len(),
                self.wf(),
                self@ == start.union(union_of(others@.subrange(0, i as int))),
            decreases others@.len() - i,
        {
            self.add_all(&others[i]);
            proof {
                assert(others@.subrange(0, i + 1).drop_last() =~= others@.subrange(0, i as int));
                assert(self@ =~= start.union(union_of(others@.subrange(0, i + 1))));
            }
            i += 1;
        }
        assert(others@.subrange(0, i as int) =~= others@);
    }

    /// `intersection_update(*others)`: only the keys held by every other
    /// set stay, in their order.
    pub fn intersection_update(&mut self, others: &[KeySet])
        requires
            old(self).wf(),
        ensures
            final(self).wf(),
            final(self).order() == old(self).order().filter(kept_by_all(others@)),
            final(self)@ == old(self)@.filter(kept_by_all(others@)),
    {
        let r = self.intersection(others);
        *self = r;
    }

    /// `difference_update(*others)`: only the keys held by no other set
    /// stay, in their order.
    pub fn difference_update(&mut self, others: &[KeySet])
        requires
            old(self).wf(),
        ensures
            final(self).wf(),
            final(self).order() == old(self).order().filter(kept_by_none(others@)),
            final(self)@ == old(self)@.filter(kept_by_none(others@)),
    {
        let r = self.difference(others);
        *self = r;
    }

    /// `symmetric_difference(other)`: the keys of this set outside `other`,
    /// in this set's order, then those of `other` outside this set, in
    /// `other`'s order.
    pub fn symmetric_difference(&self, other: &KeySet) -> (r: KeySet)
        requires
            self.wf(),
            other.wf(),
        ensures
            r.wf(),
            r.order() == self.order().filter(outside(other@)) + other.order().filter(outside(self@)),
            r@ == symmetric_difference_set(self@, other@),
    {
        let ghost p = outside(other@);
        let ghost q = outside(self@);
        let mut keep: Vec<bool> = Vec::new();
        let mut i: usize = 0;
        while i < self.keys.len()
            invariant
                i <= self.keys@.len(),
                keep@.len() == i,
                p == outside(other@),
                forall|j: int| 0 <= j < i ==> keep@[j] == p(self.keys@[j]),
            decreases self.keys@.len() - i,
        {
            let b = !other.contains(self.keys[i]);
            assert(p(self.keys@[i as int]) == !other@.contains(self.keys@[i as int]));
            keep.push(b);
            i += 1;
        }
        let mut first = select(&self.keys, &keep, Ghost(p));
        let mut keep2: Vec<bool> = Vec::new();
        let mut i: usize = 0;
        while i < other.keys.len()
            invariant
                i <= other.keys@.len(),
                keep2@.len() == i,
                q == outside(self@),
                forall|j: int| 0 <= j < i ==> keep2@[j] == q(other.keys@[j]),
            decreases other.keys@.len() - i,
        {
            let b = !self.contains(other.keys[i]);
            assert(q(other.keys@[i as int]) == !self@.contains(other.keys@[i as int]));
            keep2.push(b);
            i += 1;
        }
        let mut second = select(&other.keys, &keep2, Ghost(q));
        let ghost a = first@;
        let ghost b = second@;
        proof {
            lemma_filter_to_set(self.keys@, p);
            lemma_filter_to_set(other.keys@, q);
            assert(a.to_set() =~= self@.difference(other@));
            assert(b.to_set() =~= other@.difference(self@));
        }
        first.append(&mut second);
        proof {
            assert forall|x: u64| #[trigger] first@.contains(x) <==> (a.contains(x) || b.contains(x)) by {
                if first@.contains(x) {
                    let j = choose|j: int| 0 <= j < first@.len() && first@[j] == x;
                    if j < a.len() { assert(a[j] == x); } else { assert(b[j - a.len()] == x); }
                }
                if a.contains(x) {
                    let j = choose|j: int| 0 <= j < a.len() && a[j] == x;
                    assert(first@[j] == x);
                }
                if b.contains(x) {
                    let j = choose|j: int| 0 <= j < b.len() && b[j] == x;
                    assert(first@[a.len() + j] == x);
                }
            }
            assert(first@.to_set() =~= symmetric_difference_set(self@, other@));
            assert forall|m: int, n: int| 0 <= m < first@.len() && 0 <= n < first@.len() && m != n
                implies first@[m] != first@[n] by {
                if m < a.len() && n < a.len() {
                    assert(a[m] != a[n]);
                } else if m >= a.len() && n >= a.len() {
                    assert(b[m - a.len()] != b[n - a.len()]);
                } else if m < a.len() {
                    assert(a.to_set().contains(a[m]));
                    assert(b.to_set().contains(b[n - a.len()]));
                } else {
                    assert(a.to_set().contains(a[n]));
                    assert(b.to_set().contains(b[m - a.len()]));
                }
            }
        }
        KeySet { keys: first }
    }

    /// `symmetric_difference_update(other)`: each key of `other`, in its
    /// order, leaves this set if it is there and joins it if not.
    pub fn symmetric_difference_update(&mut self, other: &KeySet)
        requires
            old(self).wf(),
            other.wf(),
        ensures
            final(self).wf(),
            final(self)@ == symmetric_difference_set(old(self)@, other@),
    {
        let ghost start = self@;
        let mut i: usize = 0;
        while i < other.keys.len()
            invariant
                i <= other.keys@.len(),
                other.keys@.no_duplicates(),
                self.wf(),
                self@ == symmetric_difference_set(start, other.keys@.subrange(0, i as int).to_set()),
            decreases other.keys@.len() - i,
        {
            let k = other.keys[i];
            let ghost seen = other.keys@.subrange(0, i as int).to_set();
            proof {
                assert(other.keys@.subrange(0, i + 1) =~= other.keys@.subrange(0, i as int).push(k));
                lemma_push_to_set(other.keys@.subrange(0, i as int), k);
                if seen.contains(k) {
                    let j = choose|j: int| 0 <= j < i && other.keys@.subrange(0, i as int)[j] == k;
                    assert(other.keys@[j] == other.keys@[i as int]);
                }
            }
            if self.contains(k) {
                self.discard(k);
            } else {
                self.add(k);
            }
            proof {
                assert(self@ =~= symmetric_difference_set(start, other.keys@.subrange(0, i + 1).to_set()));
            }
            i += 1;
        }
        assert(other.keys@.subrange(0, i as int) =~= other.keys@);
    }

    /// `issubset(other)`: whether every key of this set is in `other`.
    pub fn issubset(&self, other: &KeySet) -> (r: bool)
        ensures
            r == self@.subset_of(other@),
    {
        let mut i: usize = 0;
        while i < self.keys.len()
            invariant
                i <= self.keys@.len(),
                forall|j: int| 0 <= j < i ==> other@.contains(#[trigger] self.keys@[j]),
            decreases self.keys@.len() - i,
        {
            if !other.contains(self.keys[i]) {
                assert(self@.contains(self.keys@[i as int]));
                return false;
            }
            i += 1;
        }
        assert forall|x: u64| self@.contains(x) implies other@.contains(x) by {
            let j = choose|j: int| 0 <= j < self.keys@.len() && self.keys@[j] == x;
        }
        true
    }

    /// `issuperset(other)`: whether every key of `other` is in this set.
    pub fn issuperset(&self, other: &KeySet) -> (r: bool)
        ensures
            r == other@.subset_of(self@),
    {
        other.issubset(self)
    }

    /// `isdisjoint(other)`: whether no key of this set is in `other`.
    pub fn isdisjoint(&self, other: &KeySet) -> (r: bool)
        ensures
            r == self@.disjoint(other@),
    {
        let mut i: usize = 0;
        while i < self.keys.len()
            invariant
                i <= self.keys@.len(),
                forall|j: int| 0 <= j < i ==> !other@.contains(#[trigger] self.keys@[j]),
            decreases self.keys@.len() - i,
        {
            if other.contains(self.keys[i]) {
                assert(self@.contains(self.keys@[i as int]));
                return false;
            }
            i += 1;
        }
        assert forall|x: u64| self@.contains(x) implies !other@.contains(x) by {
            let j = choose|j: int| 0 <= j < self.keys@.len() && self.keys@[j] == x;
        }
        true
    }

    /// `__sizeof__()`: the byte size reported for the set.
    pub fn sizeof(&self) -> (r: i64)
        requires
            72 + 8 * self.order().len() <= i64::MAX,
        ensures
            r == 72 + 8 * self.order().len(),
    {
        72 + (self.keys.len() as i64) * 8
    }
}

} // verus!
