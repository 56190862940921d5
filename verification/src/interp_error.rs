//! The kind of error that `str % args` raises for a message of the
//! formatting engine: overflow messages become `OverflowError`, messages
//! about an operand of the wrong type become `TypeError`, and every other
//! formatting complaint is a `ValueError`.

use vstd::prelude::*;
use crate::error::PyError;
use crate::unicode::{string_from_chars, chars_of};
use crate::strsearch::{occurs_at, find_first};

verus! {

/// `pat` occurs somewhere in `s`.
pub open spec fn contains(s: Seq<char>, pat: Seq<char>) -> bool {
    exists|k: int| occurs_at(s, pat, k)
}

/// `s` with every trailing copy of the non-empty `suffix` removed.
pub open spec fn trim_end_all(s: Seq<char>, suffix: Seq<char>) -> Seq<char>
    decreases s.len(),
{
    if suffix.len() > 0 && s.len() >= suffix.len() && s.subrange(s.len() - suffix.len(), s.len() as int) == suffix {
        trim_end_all(s.subrange(0, s.len() - suffix.len()), suffix)
    } else {
        s
    }
}

/// The marker the formatting engine appends to an overflow message.
pub open spec fn overflow_marker() -> Seq<char> {
    " [overflow]"@
}

/// The message names an operand of the wrong type.
pub open spec fn names_wrong_type(m: Seq<char>) -> bool {
    ||| contains(m, "a real number is required"@)
    ||| contains(m, "an integer is required"@)
    ||| contains(m, "must be real number"@)
    ||| contains(m, "not all arguments converted"@)
    ||| contains(m, "requires an int or a unicode character"@)
}

/// The error `str % args` raises for the engine's message `m`.
pub open spec fn interpolation_error_spec(m: Seq<char>) -> crate::error::PyErrorView {
    if contains(m, "too big"@) || contains(m, "[overflow]"@) {
        crate::error::PyErrorView::OverflowError(trim_end_all(m, overflow_marker()))
    } else if names_wrong_type(m) {
        crate::error::PyErrorView::TypeError(m)
    } else {
        crate::error::PyErrorView::ValueError(m)
    }
}

fn contains_exec(s: &Vec<char>, pat: &str) -> (r: bool)
    ensures
        r == contains(s@, pat@),
{
    let p = chars_of(pat);
    match find_first(s, &p) {
        Some(k) => {
            assert(occurs_at(s@, p@, k as int));
            true
        },
        None => false,
    }
}

fn trim_end_exec(s: &Vec<char>, suffix: &Vec<char>) -> (r: Vec<char>)
    requires
        suffix@.len() > 0,
    ensures
        r@ == trim_end_all(s@, suffix@),
{
    let mut end: usize = s.len();
    let n = suffix.len();
    assert(s@.subrange(0, s@.len() as int) =~= s@);
    loop
        invariant
            end <= s@.len(),
            n == suffix@.len(),
            n > 0,
            trim_end_all(s@.subrange(0, end as int), suffix@) == trim_end_all(s@, suffix@),
        decreases end,
    {
        let mut matched = end >= n;
        if matched {
            let mut j: usize = 0;
            while j < n
                invariant
                    end >= n,
                    end <= s@.len(),
                    n == suffix@.len(),
                    j <= n,
                    matched <==> forall|t: int| 0 <= t < j ==> s@[end - n + t] == suffix@[t],
                decreases n - j,
            {
                if s[end - n + j] != suffix[j] {
                    matched = false;
                }
                j += 1;
            }
        }
        let ghost cur = s@.subrange(0, end as int);
        if matched {
            assert(cur.subrange(cur.len() - n, cur.len() as int) =~= suffix@) by {
                assert forall|t: int| 0 <= t < n implies cur.subrange(cur.len() - n, cur.len() as int)[t] == suffix@[t] by {
                    assert(s@[end - n + t] == suffix@[t]);
                }
            }
            assert(cur.subrange(0, cur.len() - n) =~= s@.subrange(0, end - n));
            end = end - n;
        } else {
            assert(!(cur.len() >= n && cur.subrange(cur.len() - n, cur.len() as int) == suffix@)) by {
                if cur.len() >= n && cur.subrange(cur.len() - n, cur.len() as int) == suffix@ {
                    assert forall|t: int| 0 <= t < n implies s@[end - n + t] == suffix@[t] by {
                        assert(cur.subrange(cur.len() - n, cur.len() as int)[t] == suffix@[t]);
                    }
                }
            }
            let mut out: Vec<char> = Vec::new();
            let mut i: usize = 0;
            while i < end
                invariant
                    i <= end,
                    end <= s@.len(),
                    out@ == s@.subrange(0, i as int),
                decreases end - i,
            {
                out.push(s[i]);
                i += 1;
                assert(out@ =~= s@.subrange(0, i as int));
            }
            return out;
        }
    }
}

/// The error `str % args` raises when the formatting engine reports
/// `message`.
pub fn interpolation_error(message: &str) -> (r: PyError)
    ensures
        r@ == interpolation_error_spec(message@),
{
    let m = chars_of(message);
    if contains_exec(&m, "too big") || contains_exec(&m, "[overflow]") {
        let marker = chars_of(" [overflow]");
        proof { reveal_strlit(" [overflow]"); }
        let t = trim_end_exec(&m, &marker);
        PyError::OverflowError(string_from_chars(t.as_slice()))
    } else if contains_exec(&m, "a real number is required")
        || contains_exec(&m, "an integer is required")
        || contains_exec(&m, "must be real number")
        || contains_exec(&m, "not all arguments converted")
        || contains_exec(&m, "requires an int or a unicode character")
    {
        PyError::TypeError(message.to_owned())
    } else {
        PyError::ValueError(message.to_owned())
    }
}

} // verus!
