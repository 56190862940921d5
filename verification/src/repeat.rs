//! Sequence repetition for the `__mul__` / `__rmul__` dunders.

use vstd::prelude::*;
use crate::bigint::BigIntValue;
use crate::error::PyError;
use crate::strmethods::utf8_len;
use crate::unicode::{string_from_chars, chars_of};

verus! {

/// `n` copies of `s`, one after the other.
pub open spec fn repeat_seq<A>(s: Seq<A>, n: nat) -> Seq<A>
    decreases n,
{
    if n == 0 {
        Seq::empty()
    } else {
        repeat_seq(s, (n - 1) as nat) + s
    }
}

/// A value that `*` may repeat.
pub enum SeqValue<T> {
    List(Vec<T>),
    Tuple(Vec<T>),
    Str(String),
    Bytes(Vec<u8>),
    ByteArray(Vec<u8>),
    /// Any value of another type.
    Other,
}

/// The result of a repetition.
#[derive(Debug, PartialEq)]
pub enum Repeated<T> {
    /// The receiver itself (`seq * 1` is `seq`).
    Same,
    List(Vec<T>),
    Tuple(Vec<T>),
    Str(String),
    Bytes(Vec<u8>),
    ByteArray(Vec<u8>),
}

/// The repeat count used for an integer count that fits an `i64`:
/// negative counts repeat zero times.
pub open spec fn repeat_count_of(v: int) -> usize {
    if v <= 0 { 0 } else { v as usize }
}

/// `r` is the outcome of repeating `seq` `n` times, where `reserve_ok`
/// says whether the allocator granted room for the result.
pub open spec fn repeat_outcome<T>(seq: SeqValue<T>, n: usize, reserve_ok: bool, r: Result<Repeated<T>, PyError>) -> bool {
    if n == 1 {
        r matches Ok(Repeated::Same)
    } else {
        match seq {
            SeqValue::List(items) => if items@.len() * n > usize::MAX || !reserve_ok {
                r matches Err(PyError::MemoryError(m)) && m@ == "could not allocate list"@
            } else {
                r matches Ok(Repeated::List(v)) && v@ == repeat_seq(items@, n as nat)
            },
            SeqValue::Tuple(items) => if items@.len() * n > usize::MAX || !reserve_ok {
                r matches Err(PyError::MemoryError(m)) && m@ == "could not allocate tuple"@
            } else {
                r matches Ok(Repeated::Tuple(v)) && v@ == repeat_seq(items@, n as nat)
            },
            SeqValue::Str(s) => if utf8_len(s@) * n > usize::MAX {
                r matches Err(PyError::OverflowError(m)) && m@ == "repeated string is too long"@
            } else if !reserve_ok {
                r matches Err(PyError::MemoryError(m)) && m@ == "could not allocate string"@
            } else {
                r matches Ok(Repeated::Str(v)) && v@ == repeat_seq(s@, n as nat)
            },
            SeqValue::Bytes(b) => if b@.len() * n > usize::MAX {
                r matches Err(PyError::OverflowError(m)) && m@ == "bytes object is too large"@
            } else if !reserve_ok {
                r matches Err(PyError::MemoryError(m)) && m@ == "could not allocate bytes"@
            } else {
                r matches Ok(Repeated::Bytes(v)) && v@ == repeat_seq(b@, n as nat)
            },
            SeqValue::ByteArray(b) => if b@.len() * n > usize::MAX {
                r matches Err(PyError::OverflowError(m)) && m@ == "bytearray object is too large"@
            } else if !reserve_ok {
                r matches Err(PyError::MemoryError(m)) && m@ == "could not allocate bytearray"@
            } else {
                r matches Ok(Repeated::ByteArray(v)) && v@ == repeat_seq(b@, n as nat)
            },
            SeqValue::Other => r matches Err(PyError::TypeError(m)) && m@ == "sequence type not repeatable"@,
        }
    }
}

/// `Vec::try_reserve_exact` on an empty vector: whether the allocator
/// grants room for `total` elements. Reserving nothing always succeeds (the
/// empty vector's capacity already suffices), and a request of more than
/// `isize::MAX` bytes always fails (a vector never exceeds `isize::MAX`
/// bytes; the capacity overflows). Between the two the answer depends on
/// the allocator and the machine, and nothing is stated of it.
#[verifier::external_body]
fn can_reserve<E>(total: usize) -> (ok: bool)
    ensures
        total == 0 ==> ok,
        total as int * vstd::layout::size_of::<E>() > isize::MAX ==> !ok,
{
    let mut probe: Vec<E> = Vec::new();
    probe.try_reserve_exact(total).is_ok()
}

pub(crate) fn repeat_vec<A: Copy>(items: &Vec<A>, n: usize) -> (r: Vec<A>)
    requires
        items@.len() * n <= usize::MAX,
    ensures
        r@ == repeat_seq(items@, n as nat),
{
    let mut out: Vec<A> = Vec::new();
    let mut k: usize = 0;
    while k < n
        invariant
            k <= n,
            out@ == repeat_seq(items@, k as nat),
        decreases n - k,
    {
        let ghost base = out@;
        let mut j: usize = 0;
        while j < items.len()
            invariant
                j <= items@.len(),
                out@ == base + items@.subrange(0, j as int),
            decreases items@.len() - j,
        {
            out.push(items[j]);
            assert(items@.subrange(0, j + 1) =~= items@.subrange(0, j as int).push(items@[j as int]));
            j += 1;
        }
        assert(items@.subrange(0, j as int) =~= items@);
        k += 1;
    }
    out
}

/// The repetition of `seq` `n` times once the allocator has answered
/// (`reserve_ok`). `seq * 1` is the receiver itself; list and tuple
/// results too large for memory raise `MemoryError`, string and bytes
/// results whose byte size overflows raise `OverflowError`.
pub fn repeat_sequence<T: Copy>(seq: &SeqValue<T>, n: usize, reserve_ok: bool) -> (r: Result<Repeated<T>, PyError>)
    ensures
        repeat_outcome(*seq, n, reserve_ok, r),
{
    if n == 1 {
        return Ok(Repeated::Same);
    }
    match seq {
        SeqValue::List(items) => match items.len().checked_mul(n) {
            Some(_) if reserve_ok => Ok(Repeated::List(repeat_vec(items, n))),
            _ => Err(PyError::MemoryError("could not allocate list".to_owned())),
        },
        SeqValue::Tuple(items) => match items.len().checked_mul(n) {
            Some(_) if reserve_ok => Ok(Repeated::Tuple(repeat_vec(items, n))),
            _ => Err(PyError::MemoryError("could not allocate tuple".to_owned())),
        },
        SeqValue::Str(s) => match s.as_str().as_bytes().len().checked_mul(n) {
            Some(_) => {
                if !reserve_ok {
                    return Err(PyError::MemoryError("could not allocate string".to_owned()));
                }
                let chars = chars_of(s.as_str());
                proof {
                    crate::strmethods::lemma_utf8_len_at_least_chars(s@);
                    assert(chars@.len() * n <= utf8_len(s@) * n) by (nonlinear_arith)
                        requires chars@.len() <= utf8_len(s@);
                }
                let v = repeat_vec(&chars, n);
                Ok(Repeated::Str(string_from_chars(v.as_slice())))
            },
            None => Err(PyError::OverflowError("repeated string is too long".to_owned())),
        },
        SeqValue::Bytes(b) => match b.len().checked_mul(n) {
            Some(_) => {
                if !reserve_ok {
                    return Err(PyError::MemoryError("could not allocate bytes".to_owned()));
                }
                Ok(Repeated::Bytes(repeat_vec(b, n)))
            },
            None => Err(PyError::OverflowError("bytes object is too large".to_owned())),
        },
        SeqValue::ByteArray(b) => match b.len().checked_mul(n) {
            Some(_) => {
                if !reserve_ok {
                    return Err(PyError::MemoryError("could not allocate bytearray".to_owned()));
                }
                Ok(Repeated::ByteArray(repeat_vec(b, n)))
            },
            None => Err(PyError::OverflowError("bytearray object is too large".to_owned())),
        },
        SeqValue::Other => Err(PyError::TypeError("sequence type not repeatable".to_owned())),
    }
}

/// The repeat count of an integer count: counts beyond the `i64` range
/// raise `OverflowError`, negative counts act as zero.
pub fn repeat_count(count: &BigIntValue) -> (r: Result<usize, PyError>)
    ensures
        count@ < i64::MIN ==> (r matches Err(PyError::OverflowError(m)) && m@ == "negative count"@),
        count@ > i64::MAX ==> (r matches Err(PyError::OverflowError(m)) && m@ == "repeated value is too large"@),
        i64::MIN <= count@ <= i64::MAX ==> r == Ok::<usize, PyError>(repeat_count_of(count@)),
{
    match count.to_i64() {
        None => {
            if count.is_negative() {
                Err(PyError::OverflowError("negative count".to_owned()))
            } else {
                Err(PyError::OverflowError("repeated value is too large".to_owned()))
            }
        },
        Some(v) => {
            let n: usize = if v <= 0 { 0 } else {
                #[verifier::truncate]
                (v as usize)
            };
            Ok(n)
        },
    }
}

/// The number of elements the allocator holds for one copy of `seq`: the
/// items of a list or tuple, the UTF-8 bytes of a string, the bytes of a
/// bytes-like value; nothing for a value of another type.
pub open spec fn unit_size<T>(seq: SeqValue<T>) -> int {
    match seq {
        SeqValue::List(items) => items@.len() as int,
        SeqValue::Tuple(items) => items@.len() as int,
        SeqValue::Str(s) => utf8_len(s@),
        SeqValue::Bytes(b) => b@.len() as int,
        SeqValue::ByteArray(b) => b@.len() as int,
        SeqValue::Other => 0,
    }
}

/// The size in bytes of one element of the result.
pub open spec fn element_bytes<T>(seq: SeqValue<T>) -> int {
    match seq {
        SeqValue::List(_) | SeqValue::Tuple(_) => vstd::layout::size_of::<T>() as int,
        _ => 1,
    }
}

/// The element count the allocator is asked for when `seq` is repeated `n`
/// times: the result's size, or 0 when that count overflows `usize`.
pub open spec fn reserve_request<T>(seq: SeqValue<T>, n: int) -> int {
    if unit_size(seq) * n <= usize::MAX { unit_size(seq) * n } else { 0 }
}

/// The allocator's answer `ok` to the request for `seq` repeated `n` times
/// is one it can give: a request for nothing is granted, a request beyond
/// `isize::MAX` bytes is refused.
pub open spec fn possible_answer<T>(seq: SeqValue<T>, n: int, ok: bool) -> bool {
    &&& reserve_request(seq, n) == 0 ==> ok
    &&& reserve_request(seq, n) * element_bytes(seq) > isize::MAX ==> !ok
}

/// The element count of the result, which the allocator is asked for:
/// `n` copies of the sequence, or 0 when that count overflows `usize`.
fn result_size<T>(seq: &SeqValue<T>, n: usize) -> (total: usize)
    ensures
        total == reserve_request(*seq, n as int),
{
    match seq {
        SeqValue::List(items) => items.len().checked_mul(n).unwrap_or(0),
        SeqValue::Tuple(items) => items.len().checked_mul(n).unwrap_or(0),
        SeqValue::Str(s) => s.as_str().as_bytes().len().checked_mul(n).unwrap_or(0),
        SeqValue::Bytes(b) => b.len().checked_mul(n).unwrap_or(0),
        SeqValue::ByteArray(b) => b.len().checked_mul(n).unwrap_or(0),
        SeqValue::Other => 0,
    }
}

/// `seq * count` for the `__mul__`/`__rmul__` dunders: the count is read
/// as a repeat count, then the sequence is repeated, room for the result
/// being requested from the allocator first.
pub fn dunder_repeat<T: Copy>(seq: &SeqValue<T>, count: &BigIntValue) -> (r: Result<Repeated<T>, PyError>)
    ensures
        count@ < i64::MIN ==> (r matches Err(PyError::OverflowError(m)) && m@ == "negative count"@),
        count@ > i64::MAX ==> (r matches Err(PyError::OverflowError(m)) && m@ == "repeated value is too large"@),
        i64::MIN <= count@ <= i64::MAX ==> exists|reserve_ok: bool|
            possible_answer(*seq, repeat_count_of(count@) as int, reserve_ok)
            && repeat_outcome(*seq, repeat_count_of(count@), reserve_ok, r),
        i64::MIN <= count@ <= i64::MAX && unit_size(*seq) * repeat_count_of(count@) == 0
            ==> repeat_outcome(*seq, repeat_count_of(count@), true, r),
        i64::MIN <= count@ <= i64::MAX
            && unit_size(*seq) * repeat_count_of(count@) <= usize::MAX
            && unit_size(*seq) * repeat_count_of(count@) * element_bytes(*seq) > isize::MAX
            ==> repeat_outcome(*seq, repeat_count_of(count@), false, r),
{
    let n = match repeat_count(count) {
        Ok(n) => n,
        Err(e) => return Err(e),
    };
    let total = result_size(seq, n);
    let reserve_ok = match seq {
        SeqValue::List(_) | SeqValue::Tuple(_) => can_reserve::<T>(total),
        _ => {
            proof {
                broadcast use vstd::layout::layout_of_primitives;
                assert(vstd::layout::size_of::<u8>() == 1);
            }
            can_reserve::<u8>(total)
        },
    };
    assert(possible_answer(*seq, n as int, reserve_ok));
    let r = repeat_sequence(seq, n, reserve_ok);
    assert(repeat_outcome(*seq, n, reserve_ok, r));
    r
}

} // verus!
