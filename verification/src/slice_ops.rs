//! `slice.indices(length)`: the concrete start, stop and step that a slice
//! selects from a sequence of the given length.

use vstd::prelude::*;
use crate::error::PyError;

verus! {

/// The bounds a slice position is clamped to: `[0, len]` going forward,
/// `[-1, len - 1]` going backward.
pub open spec fn clamp_bounds(len: int, step: int) -> (int, int) {
    if step < 0 { (-1, len - 1) } else { (0, len) }
}

/// One slice position resolved against a length: a missing position takes
/// the end the step starts from (or runs to); a negative one counts from
/// the end; either is then clamped to the bounds.
pub open spec fn resolve_position(p: Option<int>, len: int, step: int, is_start: bool) -> int {
    let (lower, upper) = clamp_bounds(len, step);
    match p {
        None => if (step < 0) == is_start { upper } else { lower },
        Some(v) => if v < 0 {
            if v + len < lower { lower } else { v + len }
        } else {
            if v > upper { upper } else { v }
        },
    }
}

/// What `slice(start, stop, step).indices(len)` returns.
pub open spec fn slice_indices_spec(start: Option<int>, stop: Option<int>, step: int, len: int) -> (int, int, int) {
    (resolve_position(start, len, step, true), resolve_position(stop, len, step, false), step)
}

pub open spec fn opt_int(o: Option<i64>) -> Option<int> {
    match o {
        None => None,
        Some(v) => Some(v as int),
    }
}

fn resolve_exec(p: Option<i64>, len: i64, step: i64, is_start: bool) -> (r: i64)
    requires
        len >= 0,
        step != 0,
    ensures
        r == resolve_position(opt_int(p), len as int, step as int, is_start),
{
    let (lower, upper): (i64, i64) = if step < 0 { (-1, len - 1) } else { (0, len) };
    match p {
        None => if (step < 0) == is_start { upper } else { lower },
        Some(v) => if v < 0 {
            let moved: i128 = v as i128 + len as i128;
            if moved < lower as i128 { lower } else { moved as i64 }
        } else {
            if v > upper { upper } else { v }
        },
    }
}

/// `slice(start, stop, step).indices(length)`, a missing step counting as
/// one. A negative length raises `ValueError("length should not be
/// negative")`; otherwise a zero step raises `ValueError("slice step cannot
/// be zero")`.
pub fn slice_indices(start: Option<i64>, stop: Option<i64>, step: Option<i64>, length: i64)
    -> (r: Result<(i64, i64, i64), PyError>)
    ensures
        length < 0 ==> (r matches Err(PyError::ValueError(m)) && m@ == "length should not be negative"@),
        length >= 0 && step == Some(0i64) ==> (r matches Err(PyError::ValueError(m)) && m@ == "slice step cannot be zero"@),
        length >= 0 && step != Some(0i64) ==> (r matches Ok(t) && {
            let st: int = match step { None => 1, Some(k) => k as int };
            (t.0 as int, t.1 as int, t.2 as int) == slice_indices_spec(opt_int(start), opt_int(stop), st, length as int)
        }),
{
    if length < 0 {
        return Err(PyError::ValueError("length should not be negative".to_owned()));
    }
    let st: i64 = match step {
        None => 1,
        Some(k) => k,
    };
    if st == 0 {
        return Err(PyError::ValueError("slice step cannot be zero".to_owned()));
    }
    let a = resolve_exec(start, length, st, true);
    let b = resolve_exec(stop, length, st, false);
    Ok((a, b, st))
}

} // verus!
