//! The default-value attributes of a Python function, `__defaults__` and
//! `__kwdefaults__`, read off its stored defaults. A function keeps its
//! positional defaults followed by the defaults of its keyword-only
//! parameters, and a mask telling which keyword-only parameters have one.

use vstd::prelude::*;

verus! {

/// The number of `true` entries of `m`.
pub open spec fn count_true(m: Seq<bool>) -> nat
    decreases m.len(),
{
    if m.len() == 0 {
        0
    } else {
        count_true(m.drop_last()) + (if m.last() { 1nat } else { 0nat })
    }
}

/// How many of `ndefaults` stored defaults are positional: the rest belong
/// to the keyword-only parameters that `mask` marks (never below zero).
pub open spec fn positional_count(ndefaults: int, mask: Seq<bool>) -> int {
    if ndefaults >= count_true(mask) { ndefaults - count_true(mask) } else { 0 }
}

/// The `(name, value)` pairs of the first `upto` keyword-only parameters
/// that have a default: the parameter's name comes from `names` after the
/// `argc` positional names, its value from `defaults` after the `pos`
/// positional defaults, the values taken in mask order. A name or a value
/// that is missing drops the pair.
pub open spec fn kw_entries<N, T>(defaults: Seq<T>, mask: Seq<bool>, names: Seq<N>, argc: int, pos: int, upto: int) -> Seq<(N, T)>
    decreases upto,
{
    if upto <= 0 {
        Seq::empty()
    } else {
        let i = upto - 1;
        let prev = kw_entries(defaults, mask, names, argc, pos, i);
        let vi = pos + count_true(mask.subrange(0, i));
        if mask[i] && argc + i < names.len() && vi < defaults.len() {
            prev.push((names[argc + i], defaults[vi]))
        } else {
            prev
        }
    }
}

/// The number of `true` entries of `mask`.
fn count_marked(mask: &Vec<bool>) -> (c: usize)
    ensures
        c == count_true(mask@),
{
    let mut c: usize = 0;
    let mut i: usize = 0;
    while i < mask.len()
        invariant
            i <= mask@.len(),
            c <= i,
            c == count_true(mask@.subrange(0, i as int)),
        decreases mask@.len() - i,
    {
        assert(mask@.subrange(0, i + 1).drop_last() =~= mask@.subrange(0, i as int));
        if mask[i] {
            c += 1;
        }
        i += 1;
    }
    assert(mask@.subrange(0, i as int) =~= mask@);
    c
}

/// `__defaults__` of a function that does not override it: the positional
/// defaults, or `None` when there are none.
pub fn positional_defaults<T: Copy>(defaults: &Vec<T>, kwonly_mask: &Vec<bool>) -> (r: Option<Vec<T>>)
    ensures
        positional_count(defaults@.len() as int, kwonly_mask@) == 0 ==> r is None,
        positional_count(defaults@.len() as int, kwonly_mask@) > 0 ==> (r matches Some(v)
            && v@ == defaults@.subrange(0, positional_count(defaults@.len() as int, kwonly_mask@))),
{
    let k = count_marked(kwonly_mask);
    let pos: usize = if defaults.len() >= k { defaults.len() - k } else { 0 };
    if pos == 0 {
        return None;
    }
    let mut out: Vec<T> = Vec::new();
    let mut i: usize = 0;
    while i < pos
        invariant
            pos <= defaults@.len(),
            i <= pos,
            out@ == defaults@.subrange(0, i as int),
        decreases pos - i,
    {
        out.push(defaults[i]);
        assert(defaults@.subrange(0, i + 1) =~= defaults@.subrange(0, i as int).push(defaults@[i as int]));
        i += 1;
    }
    Some(out)
}

/// `__kwdefaults__` of a function that does not override it: the
/// `(name, value)` pairs of its keyword-only parameters that have a
/// default, or `None` when none has one. `varnames` holds the parameter
/// names, the `arg_count` positional ones first.
pub fn keyword_defaults<N: Copy, T: Copy>(defaults: &Vec<T>, kwonly_mask: &Vec<bool>, varnames: &Vec<N>, arg_count: usize) -> (r: Option<Vec<(N, T)>>)
    ensures
        count_true(kwonly_mask@) == 0 ==> r is None,
        count_true(kwonly_mask@) > 0 ==> (r matches Some(v) && v@ == kw_entries(defaults@, kwonly_mask@,
            varnames@, arg_count as int, positional_count(defaults@.len() as int, kwonly_mask@), kwonly_mask@.len() as int)),
{
    let k = count_marked(kwonly_mask);
    if k == 0 {
        return None;
    }
    let pos: usize = if defaults.len() >= k { defaults.len() - k } else { 0 };
    let ghost p = positional_count(defaults@.len() as int, kwonly_mask@);
    let mut out: Vec<(N, T)> = Vec::new();
    let mut value_idx: usize = pos;
    let mut i: usize = 0;
    while i < kwonly_mask.len()
        invariant
            i <= kwonly_mask@.len(),
            pos == p,
            p <= defaults@.len(),
            value_idx as int == (if p + count_true(kwonly_mask@.subrange(0, i as int)) < defaults@.len() {
                p + count_true(kwonly_mask@.subrange(0, i as int))
            } else {
                defaults@.len() as int
            }),
            out@ == kw_entries(defaults@, kwonly_mask@, varnames@, arg_count as int, p, i as int),
        decreases kwonly_mask@.len() - i,
    {
        assert(kwonly_mask@.subrange(0, i + 1).drop_last() =~= kwonly_mask@.subrange(0, i as int));
        if kwonly_mask[i] {
            if arg_count < varnames.len() && i < varnames.len() - arg_count {
                if value_idx < defaults.len() {
                    out.push((varnames[arg_count + i], defaults[value_idx]));
                }
            }
            if value_idx < defaults.len() {
                value_idx += 1;
            }
        }
        i += 1;
    }
    Some(out)
}

} // verus!
