//! `collections.deque`: a double-ended queue with an optional maximum
//! length, and the guards that detect a deque mutated while a method was
//! comparing its elements.

use vstd::prelude::*;
use std::collections::VecDeque;
use crate::error::PyError;
use crate::bigint::BigIntValue;
use vstd::arithmetic::div_mod::{lemma_fundamental_div_mod, lemma_fundamental_div_mod_converse, lemma_mod_pos_bound};

verus! {

/// The last `m` elements of `s` when it is longer than the bound `maxlen`.
pub open spec fn keep_last<T>(s: Seq<T>, maxlen: Option<usize>) -> Seq<T> {
    match maxlen {
        Some(m) => if s.len() > m { s.subrange(s.len() - m, s.len() as int) } else { s },
        None => s,
    }
}

/// The first `m` elements of `s` when it is longer than the bound `maxlen`.
pub open spec fn keep_first<T>(s: Seq<T>, maxlen: Option<usize>) -> Seq<T> {
    match maxlen {
        Some(m) => if s.len() > m { s.subrange(0, m as int) } else { s },
        None => s,
    }
}

/// `s` rotated `k` steps to the right: its last `k` elements move to the
/// front.
pub open spec fn rotate_right<T>(s: Seq<T>, k: int) -> Seq<T> {
    s.subrange(s.len() - k, s.len() as int) + s.subrange(0, s.len() - k)
}

/// The position where `insert(index, x)` puts `x` in a deque of `len`
/// elements: negative indices count from the end, and both ends clamp.
pub open spec fn insert_position(index: i64, len: int) -> int {
    if index < 0 {
        if len + index > 0 { len + index } else { 0 }
    } else {
        if index < len { index as int } else { len }
    }
}

/// A deque and its optional maximum length.
pub struct Deque<T> {
    data: VecDeque<T>,
    maxlen: Option<usize>,
}

impl<T> Deque<T> {
    /// The elements, front first.
    pub closed spec fn items(self) -> Seq<T> {
        self.data@
    }

    /// The maximum length, if the deque is bounded.
    pub closed spec fn bound(self) -> Option<usize> {
        self.maxlen
    }

    /// A bounded deque never holds more than its maximum length.
    pub closed spec fn wf(self) -> bool {
        self.maxlen matches Some(m) ==> self.data@.len() <= m
    }

    /// An empty deque with the given maximum length.
    pub fn new(maxlen: Option<usize>) -> (d: Deque<T>)
        ensures
            d.wf(),
            d.items() == Seq::<T>::empty(),
            d.bound() == maxlen,
    {
        Deque { data: VecDeque::new(), maxlen }
    }

    /// The `maxlen` attribute.
    pub fn maxlen(&self) -> (r: Option<usize>)
        ensures
            r == self.bound(),
    {
        self.maxlen
    }

    pub fn len(&self) -> (r: usize)
        ensures
            r == self.items().len(),
    {
        self.data.len()
    }

    /// Drops elements from the front until the bound holds again, for one
    /// element over it at most.
    fn trim_front(&mut self)
        requires
            old(self).maxlen matches Some(m) ==> old(self).data@.len() <= m + 1,
        ensures
            final(self).data@ == keep_last(old(self).data@, old(self).maxlen),
            final(self).maxlen == old(self).maxlen,
            final(self).wf(),
    {
        if let Some(m) = self.maxlen {
            if self.data.len() > m {
                let _ = self.data.pop_front();
                assert(self.data@ =~= keep_last(old(self).data@, old(self).maxlen));
            }
        }
    }

    /// Drops elements from the back until the bound holds again, for one
    /// element over it at most.
    fn trim_back(&mut self)
        requires
            old(self).maxlen matches Some(m) ==> old(self).data@.len() <= m + 1,
        ensures
            final(self).data@ == keep_first(old(self).data@, old(self).maxlen),
            final(self).maxlen == old(self).maxlen,
            final(self).wf(),
    {
        if let Some(m) = self.maxlen {
            if self.data.len() > m {
                let _ = self.data.pop_back();
                assert(self.data@ =~= keep_first(old(self).data@, old(self).maxlen));
            }
        }
    }

    /// `append(x)`: `x` goes to the back; a full bounded deque drops its
    /// front element.
    pub fn append(&mut self, x: T)
        requires
            old(self).wf(),
        ensures
            final(self).wf(),
            final(self).bound() == old(self).bound(),
            final(self).items() == keep_last(old(self).items().push(x), old(self).bound()),
    {
        self.data.push_back(x);
        self.trim_front();
    }

    /// `appendleft(x)`: `x` goes to the front; a full bounded deque drops
    /// its back element.
    pub fn appendleft(&mut self, x: T)
        requires
            old(self).wf(),
        ensures
            final(self).wf(),
            final(self).bound() == old(self).bound(),
            final(self).items() == keep_first(seq![x] + old(self).items(), old(self).bound()),
    {
        self.data.push_front(x);
        self.trim_back();
    }

    /// `pop()`: removes and returns the back element.
    pub fn pop(&mut self) -> (r: Result<T, PyError>)
        requires
            old(self).wf(),
        ensures
            final(self).wf(),
            final(self).bound() == old(self).bound(),
            old(self).items().len() == 0 ==> (r matches Err(PyError::IndexError(m))
                && m@ == "pop from an empty deque"@ && final(self).items() == old(self).items()),
            old(self).items().len() > 0 ==> (r == Ok::<T, PyError>(old(self).items().last())
                && final(self).items() == old(self).items().drop_last()),
    {
        match self.data.pop_back() {
            Some(x) => Ok(x),
            None => Err(PyError::IndexError("pop from an empty deque".to_owned())),
        }
    }

    /// `popleft()`: removes and returns the front element.
    pub fn popleft(&mut self) -> (r: Result<T, PyError>)
        requires
            old(self).wf(),
        ensures
            final(self).wf(),
            final(self).bound() == old(self).bound(),
            old(self).items().len() == 0 ==> (r matches Err(PyError::IndexError(m))
                && m@ == "pop from an empty deque"@ && final(self).items() == old(self).items()),
            old(self).items().len() > 0 ==> (r == Ok::<T, PyError>(old(self).items()[0])
                && final(self).items() == old(self).items().drop_first()),
    {
        match self.data.pop_front() {
            Some(x) => Ok(x),
            None => Err(PyError::IndexError("pop from an empty deque".to_owned())),
        }
    }

    /// `extend(items)`: appends each item in turn; a bounded deque keeps
    /// its last `maxlen` elements.
    pub fn extend(&mut self, items: Vec<T>)
        requires
            old(self).wf(),
        ensures
            final(self).wf(),
            final(self).bound() == old(self).bound(),
            final(self).items() == keep_last(old(self).items() + items@, old(self).bound()),
    {
        let ghost start = self.data@;
        let mut rest = items;
        let ghost total = rest@;
        let n = rest.len();
        let mut k: usize = 0;
        while rest.len() > 0
            invariant
                n == total.len(),
                self.wf(),
                self.maxlen == old(self).maxlen,
                k <= total.len(),
                rest@ == total.subrange(k as int, total.len() as int),
                self.data@ == keep_last(start + total.subrange(0, k as int), self.maxlen),
            decreases rest@.len(),
        {
            let x = rest.remove(0);
            self.data.push_back(x);
            self.trim_front();
            proof {
                assert(x == total[k as int]);
                lemma_keep_last_push(start + total.subrange(0, k as int), x, self.maxlen);
                assert(start + total.subrange(0, k + 1) =~= (start + total.subrange(0, k as int)).push(x));
                assert(rest@ =~= total.subrange(k + 1, total.len() as int));
            }
            k += 1;
        }
        assert(total.subrange(0, k as int) =~= total);
    }

    /// `extendleft(items)`: prepends each item in turn (so they end up in
    /// reverse order); a bounded deque keeps its first `maxlen` elements.
    pub fn extendleft(&mut self, items: Vec<T>)
        requires
            old(self).wf(),
        ensures
            final(self).wf(),
            final(self).bound() == old(self).bound(),
            final(self).items() == keep_first(items@.reverse() + old(self).items(), old(self).bound()),
    {
        let ghost start = self.data@;
        let mut rest = items;
        let ghost total = rest@;
        let n = rest.len();
        let mut k: usize = 0;
        while rest.len() > 0
            invariant
                n == total.len(),
                self.wf(),
                self.maxlen == old(self).maxlen,
                k <= total.len(),
                rest@ == total.subrange(k as int, total.len() as int),
                self.data@ == keep_first(total.subrange(0, k as int).reverse() + start, self.maxlen),
            decreases rest@.len(),
        {
            let x = rest.remove(0);
            self.data.push_front(x);
            self.trim_back();
            proof {
                assert(x == total[k as int]);
                lemma_keep_first_prepend(total.subrange(0, k as int).reverse() + start, x, self.maxlen);
                assert(total.subrange(0, k + 1).reverse() + start =~= seq![x] + (total.subrange(0, k as int).reverse() + start));
                assert(rest@ =~= total.subrange(k + 1, total.len() as int));
            }
            k += 1;
        }
        assert(total.subrange(0, k as int) =~= total);
    }

    /// `__init__(items)`: the deque is refilled with `items`, keeping its
    /// maximum length (and so the last `maxlen` items).
    pub fn reinit(&mut self, items: Vec<T>)
        requires
            old(self).wf(),
        ensures
            final(self).wf(),
            final(self).bound() == old(self).bound(),
            final(self).items() == keep_last(items@, old(self).bound()),
    {
        self.clear();
        self.extend(items);
        assert(Seq::<T>::empty() + items@ =~= items@);
    }

    /// `clear()`.
    pub fn clear(&mut self)
        requires
            old(self).wf(),
        ensures
            final(self).wf(),
            final(self).bound() == old(self).bound(),
            final(self).items() == Seq::<T>::empty(),
    {
        self.data.clear();
    }

    /// `rotate(n)`: a non-empty deque turns `n` steps to the right (to the
    /// left for negative `n`), that is `n` taken modulo the length.
    pub fn rotate(&mut self, n: i64)
        requires
            old(self).wf(),
        ensures
            final(self).wf(),
            final(self).bound() == old(self).bound(),
            old(self).items().len() == 0 ==> final(self).items() == old(self).items(),
            old(self).items().len() > 0 ==> final(self).items() == rotate_right(
                old(self).items(), (n as int) % (old(self).items().len() as int)),
    {
        let len = self.data.len();
        if len == 0 {
            return;
        }
        let k = euclid_mod(n, len);
        let ghost s = self.data@;
        let mut j: usize = 0;
        while j < k
            invariant
                s == old(self).data@,
                len == s.len(),
                k < len,
                j <= k,
                self.maxlen == old(self).maxlen,
                self.data@ == rotate_right(s, j as int),
            decreases k - j,
        {
            let x = self.data.pop_back().unwrap();
            self.data.push_front(x);
            assert(self.data@ =~= rotate_right(s, j + 1));
            j += 1;
        }
    }

    /// `insert(index, x)`: a full bounded deque refuses; otherwise `x`
    /// goes to `insert_position(index, len)`.
    pub fn insert(&mut self, index: i64, x: T) -> (r: Result<(), PyError>)
        requires
            old(self).wf(),
        ensures
            final(self).wf(),
            final(self).bound() == old(self).bound(),
            (old(self).bound() matches Some(m) && old(self).items().len() >= m) ==> (
                r matches Err(PyError::IndexError(msg)) && msg@ == "deque already at its maximum size"@
                && final(self).items() == old(self).items()),
            !(old(self).bound() matches Some(m) && old(self).items().len() >= m) ==> (
                r is Ok && final(self).items() == old(self).items().insert(
                    insert_position(index, old(self).items().len() as int), x)),
    {
        let len = self.data.len();
        if let Some(m) = self.maxlen {
            if len >= m {
                return Err(PyError::IndexError("deque already at its maximum size".to_owned()));
            }
        }
        let pos: usize = if index < 0 {
            if (len as i128) + (index as i128) > 0 { ((len as i128) + (index as i128)) as usize } else { 0 }
        } else {
            if (index as i128) < (len as i128) { index as usize } else { len }
        };
        self.data.insert(pos, x);
        Ok(())
    }
}

/// `n` modulo `len`, in `0..len`.
fn euclid_mod(n: i64, len: usize) -> (k: usize)
    requires
        len > 0,
    ensures
        k < len,
        k as int == (n as int) % (len as int),
{
    let l = len as u128;
    if n >= 0 {
        let k = (n as u128) % l;
        k as usize
    } else {
        let a = (-(n as i128)) as u128;
        let m = a % l;
        proof {
            let ai = a as int;
            let li = l as int;
            lemma_fundamental_div_mod(ai, li);
            lemma_mod_pos_bound(ai, li);
            let q = ai / li;
            if m == 0 {
                assert(n as int == (-q) * li + 0) by (nonlinear_arith)
                    requires ai == li * q + 0, n as int == -ai;
                lemma_fundamental_div_mod_converse(n as int, li, -q, 0);
            } else {
                assert(n as int == (-q - 1) * li + (li - m)) by (nonlinear_arith)
                    requires ai == li * q + m, n as int == -ai;
                lemma_fundamental_div_mod_converse(n as int, li, -q - 1, li - m);
            }
        }
        if m == 0 { 0 } else { (l - m) as usize }
    }
}

/// Pushing onto a trimmed sequence and trimming again is trimming the
/// whole.
proof fn lemma_keep_last_push<T>(s: Seq<T>, x: T, maxlen: Option<usize>)
    ensures
        keep_last(keep_last(s, maxlen).push(x), maxlen) =~= keep_last(s.push(x), maxlen),
{
}

/// Prepending to a trimmed sequence and trimming again is trimming the
/// whole.
proof fn lemma_keep_first_prepend<T>(s: Seq<T>, x: T, maxlen: Option<usize>)
    ensures
        keep_first(seq![x] + keep_first(s, maxlen), maxlen) =~= keep_first(seq![x] + s, maxlen),
{
}

/// The elements and length of a deque taken before its elements are
/// compared (a comparison may run user code that mutates the deque); any
/// other object is refused.
pub fn snapshot_deque<T: Copy>(obj: Option<&Deque<T>>) -> (r: Result<(Vec<T>, usize), PyError>)
    ensures
        obj is None ==> (r matches Err(PyError::RuntimeError(m)) && m@ == "not a deque"@),
        obj matches Some(d) ==> (r matches Ok((v, n)) && v@ == d.items() && n == d.items().len()),
{
    match obj {
        None => Err(PyError::RuntimeError("not a deque".to_owned())),
        Some(d) => {
            let mut v: Vec<T> = Vec::new();
            let n = d.data.len();
            let mut i: usize = 0;
            while i < n
                invariant
                    n == d.data@.len(),
                    i <= n,
                    v@ == d.data@.subrange(0, i as int),
                decreases n - i,
            {
                v.push(d.data[i]);
                assert(d.data@.subrange(0, i + 1) =~= d.data@.subrange(0, i as int).push(d.data@[i as int]));
                i += 1;
            }
            assert(d.data@.subrange(0, n as int) =~= d.data@);
            Ok((v, n))
        },
    }
}

/// Raises when the deque's length differs from `start_len` taken before a
/// scan: `IndexError` when `err` is `"index"` (as `remove` reports),
/// `RuntimeError` otherwise; both read "deque mutated during iteration".
/// Any other object passes.
pub fn check_deque_not_mutated<T>(obj: Option<&Deque<T>>, start_len: usize, err: &str) -> (r: Result<(), PyError>)
    ensures
        (obj matches Some(d) && d.items().len() != start_len) ==> (if err@ == "index"@ {
            r matches Err(PyError::IndexError(m)) && m@ == "deque mutated during iteration"@
        } else {
            r matches Err(PyError::RuntimeError(m)) && m@ == "deque mutated during iteration"@
        }),
        !(obj matches Some(d) && d.items().len() != start_len) ==> r is Ok,
{
    if let Some(d) = obj {
        if d.data.len() != start_len {
            let is_index = err.to_owned() == "index".to_owned();
            return Err(if is_index {
                PyError::IndexError("deque mutated during iteration".to_owned())
            } else {
                PyError::RuntimeError("deque mutated during iteration".to_owned())
            });
        }
    }
    Ok(())
}

/// Where `index(x, start, stop)` begins or ends its scan of `len`
/// elements: a negative bound counts from the end and stops at 0, a
/// non-negative one stops at `len`.
pub open spec fn clamp_bound(v: int, len: int) -> int {
    if v < 0 {
        if len + v > 0 { len + v } else { 0 }
    } else {
        if v < len { v } else { len }
    }
}

/// One bound of the scan range of `index`; an absent bound is `default`.
pub fn deque_scan_bound(len: usize, bound: Option<&BigIntValue>, default: usize) -> (r: usize)
    ensures
        bound is None ==> r == default,
        bound matches Some(b) ==> r == clamp_bound(b@, len as int),
{
    match bound {
        None => default,
        Some(b) => {
            let big_len = BigIntValue::from_usize(len);
            if b.is_negative() {
                let zero = BigIntValue::from_i64(0);
                let shifted = big_len.add(b);
                let clamped = shifted.max(zero);
                match clamped.to_usize() {
                    Some(v) => v,
                    None => 0,
                }
            } else {
                let clamped = b.min(&big_len);
                match clamped.to_usize() {
                    Some(v) => v,
                    None => len,
                }
            }
        },
    }
}

} // verus!
