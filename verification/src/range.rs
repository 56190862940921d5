//! The arithmetic of `range` objects and their iterators: length,
//! membership, the position of a value, indexing, slicing and the
//! iterator's length hint, all on integers of unbounded size.

use vstd::prelude::*;
use vstd::arithmetic::div_mod::{
    lemma_fundamental_div_mod, lemma_div_is_ordered, lemma_div_multiples_vanish,
    lemma_mod_multiples_basic, lemma_div_pos_is_pos,
};
use vstd::arithmetic::mul::{lemma_mul_inequality, lemma_mul_is_commutative};
use crate::bigint::{BigIntValue, trunc_div};
use crate::error::{PyError, PyErrorView};

verus! {

/// `range(start, stop, step)`. A range is never built with a zero step.
pub struct RangeObject {
    pub start: BigIntValue,
    pub stop: BigIntValue,
    pub step: BigIntValue,
}

/// The number of items of `range(start, stop, step)`.
pub open spec fn range_len(start: int, stop: int, step: int) -> int {
    if step > 0 && start < stop {
        (stop - start - 1) / step + 1
    } else if step < 0 && start > stop {
        (start - stop - 1) / (-step) + 1
    } else {
        0
    }
}

/// The item at position `i`.
pub open spec fn range_item(start: int, step: int, i: int) -> int {
    start + step * i
}

/// `n` is an item of `range(start, stop, step)`.
pub open spec fn range_has(start: int, stop: int, step: int, n: int) -> bool {
    if step > 0 {
        start <= n < stop && (n - start) % step == 0
    } else {
        stop < n <= start && (start - n) % (-step) == 0
    }
}

/// The absolute value.
pub open spec fn abs_int(x: int) -> int {
    if x < 0 { -x } else { x }
}

/// Positions `0 <= i < (span - 1) / d + 1` are exactly the multiples
/// `d * i` below `span`.
proof fn lemma_stride_forward(d: int, span: int, i: int)
    requires
        d > 0,
        span >= 1,
        0 <= i < (span - 1) / d + 1,
    ensures
        0 <= d * i <= span - 1,
        (d * i) % d == 0,
        (d * i) / d == i,
{
    let q = (span - 1) / d;
    lemma_fundamental_div_mod(span - 1, d);
    lemma_mul_inequality(i, q, d);
    lemma_mul_is_commutative(i, d);
    lemma_mul_is_commutative(q, d);
    assert(0 <= d * i) by (nonlinear_arith)
        requires d > 0, i >= 0;
    lemma_mod_multiples_basic(i, d);
    lemma_div_multiples_vanish(i, d);
}

/// A multiple `m` of `d` below `span` sits at position `m / d`, which is
/// below `(span - 1) / d + 1`.
proof fn lemma_stride_backward(d: int, span: int, m: int)
    requires
        d > 0,
        0 <= m < span,
        m % d == 0,
    ensures
        0 <= m / d < (span - 1) / d + 1,
        d * (m / d) == m,
{
    lemma_div_is_ordered(m, span - 1, d);
    lemma_div_pos_is_pos(m, d);
    lemma_fundamental_div_mod(m, d);
}

/// The item at each position of a range is in the range, and the
/// position of that item is the position it was taken from.
pub proof fn law_range_item_roundtrip(start: int, stop: int, step: int, i: int)
    requires
        step != 0,
        0 <= i < range_len(start, stop, step),
    ensures
        range_has(start, stop, step, range_item(start, step, i)),
        abs_int(trunc_div(range_item(start, step, i) - start, step)) == i,
{
    if step > 0 {
        lemma_stride_forward(step, stop - start, i);
    } else {
        let d = -step;
        lemma_stride_forward(d, start - stop, i);
        assert(step * i == -(d * i)) by (nonlinear_arith)
            requires d == -step;
    }
}

/// Every item of a range sits at a position below the length, and the
/// item at that position is the value itself.
pub proof fn law_range_member_position(start: int, stop: int, step: int, n: int)
    requires
        step != 0,
        range_has(start, stop, step, n),
    ensures
        0 <= abs_int(trunc_div(n - start, step)) < range_len(start, stop, step),
        range_item(start, step, abs_int(trunc_div(n - start, step))) == n,
{
    if step > 0 {
        lemma_stride_backward(step, stop - start, n - start);
    } else {
        let d = -step;
        let m = start - n;
        lemma_stride_backward(d, start - stop, m);
        assert(trunc_div(n - start, step) == m / d);
        assert(step * (m / d) == -(d * (m / d))) by (nonlinear_arith)
            requires d == -step;
    }
}

impl RangeObject {
    /// `len(range)`.
    pub fn length(&self) -> (r: BigIntValue)
        requires
            self.step@ != 0,
        ensures
            r@ == range_len(self.start@, self.stop@, self.step@),
    {
        let one = BigIntValue::from_i64(1);
        if self.step.is_positive() {
            if self.start.lt(&self.stop) {
                let span = self.stop.sub(&self.start).sub(&one);
                span.div(&self.step).add(&one)
            } else {
                BigIntValue::from_i64(0)
            }
        } else if self.stop.lt(&self.start) {
            let span = self.start.sub(&self.stop).sub(&one);
            let stride = self.step.neg();
            span.div(&stride).add(&one)
        } else {
            BigIntValue::from_i64(0)
        }
    }

    /// `range.__len__`: the length, or `OverflowError` when it does not
    /// fit a machine integer.
    pub fn len_checked(&self) -> (r: Result<BigIntValue, PyError>)
        requires
            self.step@ != 0,
        ensures
            ({
                let len = range_len(self.start@, self.stop@, self.step@);
                &&& len <= i64::MAX ==> (r matches Ok(v) && v@ == len)
                &&& len > i64::MAX ==> (r matches Err(e) && e@ == PyErrorView::OverflowError(
                        "Python int too large to convert to C ssize_t"@))
            }),
    {
        let len = self.length();
        if len.to_i64().is_none() {
            return Err(PyError::OverflowError("Python int too large to convert to C ssize_t".to_owned()));
        }
        Ok(len)
    }

    /// Whether the integer `n` is an item of the range, in constant time.
    pub fn contains_int(&self, n: &BigIntValue) -> (r: bool)
        requires
            self.step@ != 0,
        ensures
            r == range_has(self.start@, self.stop@, self.step@, n@),
    {
        if self.step.is_positive() {
            if n.lt(&self.start) || !n.lt(&self.stop) {
                return false;
            }
            let offset = n.sub(&self.start);
            let rem = offset.rem(&self.step);
            proof {
                lemma_fundamental_div_mod(offset@, self.step@);
            }
            rem.is_zero()
        } else {
            if !self.stop.lt(n) || self.start.lt(n) {
                return false;
            }
            let offset = self.start.sub(n);
            let stride = self.step.neg();
            let rem = offset.rem(&stride);
            proof {
                lemma_fundamental_div_mod(offset@, stride@);
            }
            rem.is_zero()
        }
    }

    /// `range.count(n)` for an integer: 1 when it is an item, else 0.
    pub fn count_int(&self, n: &BigIntValue) -> (r: i64)
        requires
            self.step@ != 0,
        ensures
            r == (if range_has(self.start@, self.stop@, self.step@, n@) { 1i64 } else { 0i64 }),
    {
        if self.contains_int(n) { 1 } else { 0 }
    }

    /// `range.index(n)` for an integer: its position, or `ValueError`.
    pub fn index_int(&self, n: &BigIntValue) -> (r: Result<BigIntValue, PyError>)
        requires
            self.step@ != 0,
        ensures
            range_has(self.start@, self.stop@, self.step@, n@) ==> (r matches Ok(k)
                && 0 <= k@ < range_len(self.start@, self.stop@, self.step@)
                && range_item(self.start@, self.step@, k@) == n@),
            !range_has(self.start@, self.stop@, self.step@, n@) ==> (r matches Err(e)
                && e@ == PyErrorView::ValueError("value not in range"@)),
    {
        if self.contains_int(n) {
            let pos = n.sub(&self.start).div(&self.step);
            proof {
                law_range_member_position(self.start@, self.stop@, self.step@, n@);
            }
            Ok(pos.abs())
        } else {
            Err(PyError::ValueError("value not in range".to_owned()))
        }
    }

    /// `range[i]` for an integer `i` (negative counts from the end), or
    /// `IndexError`.
    pub fn item_at(&self, i: &BigIntValue) -> (r: Result<BigIntValue, PyError>)
        requires
            self.step@ != 0,
        ensures
            ({
                let len = range_len(self.start@, self.stop@, self.step@);
                let pos = if i@ < 0 { len + i@ } else { i@ };
                &&& 0 <= pos < len ==> (r matches Ok(v) && v@ == range_item(self.start@, self.step@, pos))
                &&& !(0 <= pos < len) ==> (r matches Err(e) && e@ == PyErrorView::IndexError(
                        "range object index out of range"@))
            }),
    {
        let length = self.length();
        let pos = if i.is_negative() { length.add(i) } else { i.copy() };
        let zero = BigIntValue::from_i64(0);
        if pos.lt(&zero) || !pos.lt(&length) {
            return Err(PyError::IndexError("range object index out of range".to_owned()));
        }
        Ok(self.start.add(&self.step.mul(&pos)))
    }

    /// `range[slice]`, given the slice's `(start, stop, step)` already
    /// fitted to the range's length: the range of the items at those
    /// positions.
    pub fn subrange(&self, first: &BigIntValue, last: &BigIntValue, stride: &BigIntValue) -> (r: RangeObject)
        ensures
            r.start@ == range_item(self.start@, self.step@, first@),
            r.stop@ == range_item(self.start@, self.step@, last@),
            r.step@ == self.step@ * stride@,
    {
        let start = self.start.add(&first.mul(&self.step));
        let step = self.step.mul(stride);
        let stop = self.start.add(&last.mul(&self.step));
        proof {
            lemma_mul_is_commutative(first@, self.step@);
            lemma_mul_is_commutative(last@, self.step@);
        }
        RangeObject { start, stop, step }
    }
}

/// The items of a slice of a range are the items of the range at the
/// sliced positions.
pub proof fn law_subrange_items(start: int, step: int, first: int, stride: int, j: int)
    ensures
        range_item(range_item(start, step, first), step * stride, j) == range_item(start, step, first + stride * j),
{
    assert(step * first + step * stride * j == step * (first + stride * j)) by (nonlinear_arith);
}

/// `range_iterator.__length_hint__`: how many items are left from
/// `current` on.
pub fn range_iter_length_hint(current: &BigIntValue, stop: &BigIntValue, step: &BigIntValue) -> (r: BigIntValue)
    requires
        step@ != 0,
    ensures
        r@ == (if step@ > 0 {
            if stop@ - current@ > 0 { stop@ - current@ } else { 0 }
        } else {
            if current@ - stop@ > 0 { current@ - stop@ } else { 0 }
        }) / abs_int(step@),
{
    let zero = BigIntValue::from_i64(0);
    let remaining = if step.is_positive() {
        stop.sub(current).max(zero)
    } else {
        current.sub(stop).max(zero)
    };
    remaining.div(&step.abs())
}

} // verus!
