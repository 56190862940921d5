//! The methods of the built-in `list` that act on its elements by position:
//! `append`, `pop`, `insert`, `__setitem__`, `__delitem__`, `reverse`,
//! `__reversed__`, `__imul__` and `__sizeof__`; and the gathering of an
//! iterable's items behind `extend`, `__iadd__` and `__init__`.

use vstd::prelude::*;
use crate::bigint::BigIntValue;
use crate::deque::{insert_position, clamp_bound, deque_scan_bound};
use crate::object::concat;
use crate::error::PyError;
use crate::repeat::{repeat_seq, repeat_vec};

verus! {

/// The element an integer index names in a list of `len` elements:
/// a negative index counts from the end. The result may lie outside
/// `0..len`.
pub open spec fn list_position(index: int, len: int) -> int {
    if index < 0 { len + index } else { index }
}

/// `append(x)`: `x` goes to the end.
pub fn list_append<T>(list: &mut Vec<T>, x: T)
    ensures
        final(list)@ == old(list)@.push(x),
{
    list.push(x);
}

/// `pop()` and `pop(index)`: removes and returns the last element, or the
/// one at `index`.
pub fn list_pop<T>(list: &mut Vec<T>, index: Option<i64>) -> (r: Result<T, PyError>)
    ensures
        index is None && old(list)@.len() == 0 ==> (r matches Err(PyError::IndexError(m))
            && m@ == "pop from empty list"@ && final(list)@ == old(list)@),
        index is None && old(list)@.len() > 0 ==> (r == Ok::<T, PyError>(old(list)@.last())
            && final(list)@ == old(list)@.drop_last()),
        index matches Some(i) ==> ({
            let p = list_position(i as int, old(list)@.len() as int);
            if 0 <= p < old(list)@.len() {
                r == Ok::<T, PyError>(old(list)@[p]) && final(list)@ == old(list)@.remove(p)
            } else {
                r matches Err(PyError::IndexError(m)) && m@ == "pop index out of range"@
                    && final(list)@ == old(list)@
            }
        }),
{
    match index {
        None => match list.pop() {
            Some(x) => Ok(x),
            None => Err(PyError::IndexError("pop from empty list".to_owned())),
        },
        Some(i) => {
            let len = list.len() as i128;
            let p: i128 = if i < 0 { len + (i as i128) } else { i as i128 };
            if p < 0 || p >= len {
                Err(PyError::IndexError("pop index out of range".to_owned()))
            } else {
                Ok(list.remove(p as usize))
            }
        },
    }
}

/// `insert(index, x)`: `x` goes before the element at `index`; negative
/// indices count from the end, and both ends clamp.
pub fn list_insert<T>(list: &mut Vec<T>, index: i64, x: T)
    ensures
        final(list)@ == old(list)@.insert(insert_position(index, old(list)@.len() as int), x),
{
    let len = list.len() as i128;
    let i = index as i128;
    let p: i128 = if i < 0 {
        if len + i > 0 { len + i } else { 0 }
    } else {
        if i < len { i } else { len }
    };
    list.insert(p as usize, x);
}

/// `list[index] = x` for an integer index: an index beyond `isize`, or
/// one that names no element, raises `IndexError`.
pub fn list_setitem<T>(list: &mut Vec<T>, index: &BigIntValue, x: T) -> (r: Result<(), PyError>)
    ensures
        !(isize::MIN <= index@ <= isize::MAX) ==> (r matches Err(PyError::IndexError(m))
            && m@ == "list index out of range"@ && final(list)@ == old(list)@),
        isize::MIN <= index@ <= isize::MAX ==> ({
            let p = list_position(index@, old(list)@.len() as int);
            if 0 <= p < old(list)@.len() {
                r is Ok && final(list)@ == old(list)@.update(p, x)
            } else {
                r matches Err(PyError::IndexError(m)) && m@ == "list assignment index out of range"@
                    && final(list)@ == old(list)@
            }
        }),
{
    match index.to_isize() {
        None => Err(PyError::IndexError("list index out of range".to_owned())),
        Some(i) => {
            let len = list.len() as i128;
            let i = i as i128;
            let p: i128 = if i < 0 { len + i } else { i };
            if p < 0 || p >= len {
                Err(PyError::IndexError("list assignment index out of range".to_owned()))
            } else {
                list.set(p as usize, x);
                Ok(())
            }
        },
    }
}

/// `del list[index]` for an integer index: an index beyond `isize`, or one
/// that names no element, raises `IndexError`.
pub fn list_delitem<T>(list: &mut Vec<T>, index: &BigIntValue) -> (r: Result<(), PyError>)
    ensures
        ({
            let p = list_position(index@, old(list)@.len() as int);
            if isize::MIN <= index@ <= isize::MAX && 0 <= p < old(list)@.len() {
                r is Ok && final(list)@ == old(list)@.remove(p)
            } else {
                r matches Err(PyError::IndexError(m)) && m@ == "list index out of range"@
                    && final(list)@ == old(list)@
            }
        }),
{
    match index.to_isize() {
        None => Err(PyError::IndexError("list index out of range".to_owned())),
        Some(i) => {
            let len = list.len() as i128;
            let i = i as i128;
            let p: i128 = if i < 0 { len + i } else { i };
            if p < 0 || p >= len {
                Err(PyError::IndexError("list index out of range".to_owned()))
            } else {
                list.remove(p as usize);
                Ok(())
            }
        },
    }
}

/// `reverse()`: the elements in the opposite order, in place.
pub fn list_reverse<T>(list: &mut Vec<T>)
    ensures
        final(list)@ == old(list)@.reverse(),
{
    let ghost orig = list@;
    let mut out: Vec<T> = Vec::new();
    while list.len() > 0
        invariant
            orig.len() == list@.len() + out@.len(),
            list@ == orig.subrange(0, list@.len() as int),
            out@ == orig.subrange(list@.len() as int, orig.len() as int).reverse(),
        decreases list@.len(),
    {
        let ghost before = list@;
        match list.pop() {
            Some(x) => {
                proof {
                    let k = before.len() - 1;
                    assert(orig.subrange(k, orig.len() as int) =~= seq![x] + orig.subrange(k + 1, orig.len() as int));
                    assert(orig.subrange(k, orig.len() as int).reverse() =~= orig.subrange(k + 1, orig.len() as int).reverse().push(x));
                    assert(list@ =~= orig.subrange(0, list@.len() as int));
                }
                out.push(x);
            },
            None => {},
        }
    }
    assert(orig.subrange(0, orig.len() as int) =~= orig);
    *list = out;
}

/// `__reversed__()`: a new list with the elements in the opposite order.
pub fn list_reversed<T: Copy>(list: &Vec<T>) -> (r: Vec<T>)
    ensures
        r@ == list@.reverse(),
{
    let mut out: Vec<T> = Vec::new();
    let mut i: usize = list.len();
    while i > 0
        invariant
            i <= list@.len(),
            out@ == list@.subrange(i as int, list@.len() as int).reverse(),
        decreases i,
    {
        i -= 1;
        proof {
            assert(list@.subrange(i as int, list@.len() as int) =~= seq![list@[i as int]] + list@.subrange(i + 1, list@.len() as int));
            assert(list@.subrange(i as int, list@.len() as int).reverse() =~= list@.subrange(i + 1, list@.len() as int).reverse().push(list@[i as int]));
        }
        out.push(list[i]);
    }
    assert(list@.subrange(0, list@.len() as int) =~= list@);
    out
}

/// The repeat count `__imul__` takes from its argument: an integer that
/// fits an `i64`, floored at zero; anything else (a non-integer, or an
/// integer beyond `i64`) counts as zero.
pub open spec fn imul_count(count: Option<int>) -> nat {
    match count {
        Some(v) => if 0 < v <= i64::MAX { v as nat } else { 0 },
        None => 0,
    }
}

/// `list *= n`: the list becomes `n` copies of itself, one after the
/// other. `count` is the integer value of the argument, absent when the
/// argument is not an integer.
pub fn list_imul<T: Copy>(list: &mut Vec<T>, count: Option<&BigIntValue>)
    requires
        old(list)@.len() * imul_count(match count { Some(c) => Some(c@), None => None::<int> }) <= usize::MAX,
    ensures
        final(list)@ == repeat_seq(old(list)@, imul_count(match count { Some(c) => Some(c@), None => None::<int> })),
{
    let ghost n = imul_count(match count { Some(c) => Some(c@), None => None::<int> });
    let times: i64 = match count {
        None => 0,
        Some(c) => match c.to_i64() {
            Some(v) => if v > 0 { v } else { 0 },
            None => 0,
        },
    };
    assert(times as nat == n);
    if list.len() == 0 {
        proof { lemma_repeat_empty(list@, n); }
        return;
    }
    proof {
        assert(n <= list@.len() * n) by (nonlinear_arith)
            requires list@.len() >= 1;
    }
    let out = repeat_vec(list, times as usize);
    *list = out;
}

/// Repeating the empty sequence gives the empty sequence.
proof fn lemma_repeat_empty<A>(s: Seq<A>, n: nat)
    requires
        s.len() == 0,
    ensures
        repeat_seq(s, n) =~= s,
    decreases n,
{
    if n > 0 {
        lemma_repeat_empty(s, (n - 1) as nat);
    }
}

/// What comparing one element with the value searched for gave: the
/// element is that value or equals it, it does not, or the comparison
/// raised.
pub enum Probe {
    Match,
    Miss,
    Raised(PyError),
}

/// Whether a probe ends a scan: a match, or a raised comparison.
pub open spec fn decisive(p: Probe) -> bool {
    p is Match || p is Raised
}

/// The first position in `from..to` whose probe ends a scan, or `to` when
/// none does.
pub open spec fn first_decisive(probes: Seq<Probe>, from: int, to: int) -> int
    decreases to - from,
{
    if from >= to {
        to
    } else if decisive(probes[from]) {
        from
    } else {
        first_decisive(probes, from + 1, to)
    }
}

/// The number of matches among `probes[from..to]`.
pub open spec fn match_count(probes: Seq<Probe>, from: int, to: int) -> nat
    decreases to - from,
{
    if from >= to {
        0
    } else {
        (if probes[from] is Match { 1nat } else { 0nat }) + match_count(probes, from + 1, to)
    }
}

pub(crate) proof fn lemma_first_decisive_bounds(probes: Seq<Probe>, from: int, to: int)
    requires
        from <= to,
    ensures
        from <= first_decisive(probes, from, to) <= to,
        forall|i: int| from <= i < first_decisive(probes, from, to) ==> !decisive(#[trigger] probes[i]),
        first_decisive(probes, from, to) < to ==> decisive(probes[first_decisive(probes, from, to)]),
    decreases to - from,
{
    if from < to && !decisive(probes[from]) {
        lemma_first_decisive_bounds(probes, from + 1, to);
    }
}

/// `"<value> is not in list"`, where `shown` is the value's `str()`.
pub open spec fn not_in_list_message(shown: Seq<char>) -> Seq<char> {
    shown + " is not in list"@
}

/// The scan shared by `index`, `remove` and `__contains__`: the first
/// position in `from..to` whose probe ends the scan, or `to`.
fn scan(probes: &Vec<Probe>, from: usize, to: usize) -> (r: usize)
    requires
        from <= to <= probes@.len(),
    ensures
        r == first_decisive(probes@, from as int, to as int),
    decreases to - from,
{
    if from == to {
        to
    } else {
        match &probes[from] {
            Probe::Miss => scan(probes, from + 1, to),
            _ => from,
        }
    }
}

/// Takes the error out of the probe at `at`, which raised.
fn raised_at(probes: Vec<Probe>, at: usize) -> (e: PyError)
    requires
        at < probes@.len(),
        probes@[at as int] is Raised,
    ensures
        probes@[at as int] == Probe::Raised(e),
{
    let mut probes = probes;
    match probes.remove(at) {
        Probe::Raised(e) => e,
        _ => {
            proof { assert(false); }
            PyError::RuntimeError(String::new())
        },
    }
}

/// `index(x[, start[, stop]])` once each element has been compared with
/// `x` (`probes`, one per element): the first position in the clamped
/// range `start..stop` that matches. A comparison that raises before a
/// match propagates; no match raises `ValueError` naming `shown`, the
/// value's `str()`.
pub fn list_index(probes: Vec<Probe>, start: Option<&BigIntValue>, stop: Option<&BigIntValue>, shown: &str) -> (r: Result<usize, PyError>)
    ensures
        ({
            let len = probes@.len() as int;
            let s = match start { Some(b) => clamp_bound(b@, len), None => 0 };
            let e = match stop { Some(b) => clamp_bound(b@, len), None => len };
            let p = first_decisive(probes@, s, e);
            if s < e && p < e {
                match probes@[p] {
                    Probe::Raised(err) => r == Err::<usize, PyError>(err),
                    _ => r == Ok::<usize, PyError>(p as usize),
                }
            } else {
                r matches Err(PyError::ValueError(m)) && m@ == not_in_list_message(shown@)
            }
        }),
{
    let len = probes.len();
    let s = deque_scan_bound(len, start, 0);
    let e = deque_scan_bound(len, stop, len);
    if s < e {
        let p = scan(&probes, s, e);
        proof { lemma_first_decisive_bounds(probes@, s as int, e as int); }
        if p < e {
            match &probes[p] {
                Probe::Match => return Ok(p),
                _ => return Err(raised_at(probes, p)),
            }
        }
    }
    Err(PyError::ValueError(concat(shown, " is not in list")))
}

/// `count(x)` once each element has been compared with `x`: the number of
/// matches, unless a comparison raised, in which case the first raised
/// error propagates.
pub fn list_count(probes: Vec<Probe>) -> (r: Result<usize, PyError>)
    ensures
        ({
            let raised = first_raised(probes@, 0, probes@.len() as int);
            if raised < probes@.len() {
                probes@[raised] matches Probe::Raised(err) && r == Err::<usize, PyError>(err)
            } else {
                r == Ok::<usize, PyError>(match_count(probes@, 0, probes@.len() as int) as usize)
            }
        }),
{
    let len = probes.len();
    let mut i: usize = 0;
    let mut c: usize = 0;
    while i < len
        invariant
            len == probes@.len(),
            i <= len,
            c <= i,
            first_raised(probes@, 0, len as int) == first_raised(probes@, i as int, len as int),
            match_count(probes@, 0, len as int) == c + match_count(probes@, i as int, len as int),
        decreases len - i,
    {
        match &probes[i] {
            Probe::Raised(_) => {
                return Err(raised_at(probes, i));
            },
            Probe::Match => {
                c += 1;
            },
            Probe::Miss => {},
        }
        i += 1;
    }
    Ok(c)
}

/// The first position in `from..to` whose probe raised, or `to`.
pub open spec fn first_raised(probes: Seq<Probe>, from: int, to: int) -> int
    decreases to - from,
{
    if from >= to {
        to
    } else if probes[from] is Raised {
        from
    } else {
        first_raised(probes, from + 1, to)
    }
}

/// `remove(x)` once each element has been compared with `x` (`probes`,
/// one per element): the first element that matches leaves the list. A
/// comparison that raises before a match propagates; no match raises
/// `ValueError` naming `shown`, the value's `str()`.
pub fn list_remove<T>(list: &mut Vec<T>, probes: Vec<Probe>, shown: &str) -> (r: Result<(), PyError>)
    requires
        probes@.len() == old(list)@.len(),
    ensures
        ({
            let p = first_decisive(probes@, 0, probes@.len() as int);
            if p < probes@.len() {
                match probes@[p] {
                    Probe::Raised(err) => r == Err::<(), PyError>(err) && final(list)@ == old(list)@,
                    _ => r is Ok && final(list)@ == old(list)@.remove(p),
                }
            } else {
                r matches Err(PyError::ValueError(m)) && m@ == not_in_list_message(shown@)
                    && final(list)@ == old(list)@
            }
        }),
{
    let p = scan(&probes, 0, probes.len());
    proof { lemma_first_decisive_bounds(probes@, 0, probes@.len() as int); }
    if p < probes.len() {
        match &probes[p] {
            Probe::Match => {
                list.remove(p);
                return Ok(());
            },
            _ => return Err(raised_at(probes, p)),
        }
    }
    Err(PyError::ValueError(concat(shown, " is not in list")))
}

/// `__contains__(x)` once each element has been compared with `x`:
/// whether some element matches. A comparison that raises before a match
/// propagates.
pub fn list_contains(probes: Vec<Probe>) -> (r: Result<bool, PyError>)
    ensures
        ({
            let p = first_decisive(probes@, 0, probes@.len() as int);
            if p < probes@.len() {
                match probes@[p] {
                    Probe::Raised(err) => r == Err::<bool, PyError>(err),
                    _ => r == Ok::<bool, PyError>(true),
                }
            } else {
                r == Ok::<bool, PyError>(false)
            }
        }),
{
    let p = scan(&probes, 0, probes.len());
    proof { lemma_first_decisive_bounds(probes@, 0, probes@.len() as int); }
    if p < probes.len() {
        match &probes[p] {
            Probe::Match => Ok(true),
            _ => Err(raised_at(probes, p)),
        }
    } else {
        Ok(false)
    }
}

/// After `sort()` has ordered a detached copy of `snapshot_len` elements:
/// a list whose length changed meanwhile (a comparison mutated it) raises
/// `ValueError`. Any other object passes.
pub fn check_list_not_modified<T>(live: Option<&Vec<T>>, snapshot_len: usize) -> (r: Result<(), PyError>)
    ensures
        (live matches Some(l) && l@.len() != snapshot_len) ==> (r matches Err(PyError::ValueError(m))
            && m@ == "list modified during sort"@),
        !(live matches Some(l) && l@.len() != snapshot_len) ==> r is Ok,
{
    if let Some(l) = live {
        if l.len() != snapshot_len {
            return Err(PyError::ValueError("list modified during sort".to_owned()));
        }
    }
    Ok(())
}

/// `__length_hint__()` of a list iterator at position `index` over a list
/// of `len` elements: the elements left, never below zero.
pub fn list_iter_length_hint(len: usize, index: usize) -> (r: usize)
    ensures
        r == (if index <= len { len - index } else { 0 }),
{
    len.saturating_sub(index)
}

/// `__sizeof__()`: the byte size reported for a list of `len` elements.
pub fn list_sizeof(len: usize) -> (r: i64)
    requires
        56 + 8 * len <= i64::MAX,
    ensures
        r == 56 + 8 * len,
{
    56 + (len as i64) * 8
}

/// What one call of the iterator's `__next__` gave while a list gathers
/// the items of an iterable.
pub enum NextEvent<T> {
    /// The next item.
    Item(T),
    /// `StopIteration`: the iterable is exhausted.
    Exhausted,
    /// Any other error, which ends the gathering.
    Raised(PyError),
}

/// Where gathering stands after one event.
#[derive(Debug, PartialEq)]
pub enum Gather {
    /// Ask the iterator for another item.
    More,
    /// The iterable is exhausted; the gathered items are complete.
    Done,
    /// The iterator raised; the error propagates and the target list is
    /// left untouched.
    Failed(PyError),
}

/// One step of `extend`, `__iadd__` and `__init__`: an item is kept,
/// `StopIteration` completes the gathering, any other error ends it.
pub fn gather_step<T>(items: &mut Vec<T>, event: NextEvent<T>) -> (r: Gather)
    ensures
        match event {
            NextEvent::Item(x) => r is More && final(items)@ == old(items)@.push(x),
            NextEvent::Exhausted => r is Done && final(items)@ == old(items)@,
            NextEvent::Raised(e) => r == Gather::Failed(e) && final(items)@ == old(items)@,
        },
{
    match event {
        NextEvent::Item(x) => {
            items.push(x);
            Gather::More
        },
        NextEvent::Exhausted => Gather::Done,
        NextEvent::Raised(e) => Gather::Failed(e),
    }
}

/// `extend(iterable)` and `__iadd__`, once the iterable's items are
/// gathered: they go to the end, in order.
pub fn list_extend<T>(list: &mut Vec<T>, items: Vec<T>)
    ensures
        final(list)@ == old(list)@ + items@,
{
    let mut items = items;
    list.append(&mut items);
}

/// `clear()`: the list becomes empty.
pub fn list_clear<T>(list: &mut Vec<T>)
    ensures
        final(list)@ == Seq::<T>::empty(),
{
    list.clear();
}

/// `__init__()` and `__init__(iterable)`: the list's contents are replaced
/// by the gathered items (none without an argument).
pub fn list_init<T>(list: &mut Vec<T>, items: Option<Vec<T>>)
    ensures
        final(list)@ == (match items {
            None => Seq::<T>::empty(),
            Some(v) => v@,
        }),
{
    match items {
        None => list.clear(),
        Some(v) => *list = v,
    }
}

} // verus!
