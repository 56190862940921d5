//! `str` methods that locate a separator or affix: `partition`,
//! `rpartition`, `removeprefix`, `removesuffix`; and `expandtabs`.

use vstd::prelude::*;
use crate::unicode::{string_from_chars, chars_of};
use crate::strmethods::fill;

verus! {

/// `sep` occurs in `s` at character position `k`.
pub open spec fn occurs_at(s: Seq<char>, sep: Seq<char>, k: int) -> bool {
    0 <= k && k + sep.len() <= s.len() && s.subrange(k, k + sep.len()) == sep
}

/// `k` is the first position where `sep` occurs in `s`.
pub open spec fn first_occurrence(s: Seq<char>, sep: Seq<char>, k: int) -> bool {
    occurs_at(s, sep, k) && forall|j: int| 0 <= j < k ==> !occurs_at(s, sep, j)
}

/// `k` is the last position where `sep` occurs in `s`.
pub open spec fn last_occurrence(s: Seq<char>, sep: Seq<char>, k: int) -> bool {
    occurs_at(s, sep, k) && forall|j: int| k < j <= s.len() ==> !occurs_at(s, sep, j)
}

pub(crate) fn occurs_at_exec(s: &Vec<char>, sep: &Vec<char>, k: usize) -> (r: bool)
    ensures
        r == occurs_at(s@, sep@, k as int),
{
    let n = s.len();
    if k > n || sep.len() > n - k {
        return false;
    }
    let mut j: usize = 0;
    while j < sep.len()
        invariant
            n == s@.len(),
            k + sep@.len() <= s@.len(),
            j <= sep@.len(),
            forall|t: int| 0 <= t < j ==> s@[k + t] == sep@[t],
        decreases sep@.len() - j,
    {
        if s[k + j] != sep[j] {
            assert(s@.subrange(k as int, k + sep@.len())[j as int] != sep@[j as int]);
            return false;
        }
        j += 1;
    }
    assert(s@.subrange(k as int, k + sep@.len()) =~= sep@);
    true
}

/// The first position where `sep` occurs in `s`, if any.
pub fn find_first(s: &Vec<char>, sep: &Vec<char>) -> (r: Option<usize>)
    ensures
        r matches Some(k) ==> first_occurrence(s@, sep@, k as int),
        r is None ==> forall|k: int| !occurs_at(s@, sep@, k),
{
    let n = s.len();
    let mut k: usize = 0;
    loop
        invariant
            n == s@.len(),
            k <= n,
            forall|j: int| 0 <= j < k ==> !occurs_at(s@, sep@, j),
        decreases n - k,
    {
        if occurs_at_exec(s, sep, k) {
            return Some(k);
        }
        if k == n {
            return None;
        }
        k += 1;
    }
}

/// The last position where `sep` occurs in `s`, if any.
pub fn find_last(s: &Vec<char>, sep: &Vec<char>) -> (r: Option<usize>)
    ensures
        r matches Some(k) ==> last_occurrence(s@, sep@, k as int),
        r is None ==> forall|k: int| !occurs_at(s@, sep@, k),
{
    let mut k: usize = s.len();
    loop
        invariant
            k <= s@.len(),
            forall|j: int| k < j <= s@.len() ==> !occurs_at(s@, sep@, j),
        decreases k,
    {
        if occurs_at_exec(s, sep, k) {
            return Some(k);
        }
        if k == 0 {
            return None;
        }
        k -= 1;
    }
}

pub(crate) fn slice_to_string(chars: &Vec<char>, from: usize, to: usize) -> (r: String)
    requires
        from <= to <= chars@.len(),
    ensures
        r@ == chars@.subrange(from as int, to as int),
{
    let mut out: Vec<char> = Vec::new();
    let mut k: usize = from;
    while k < to
        invariant
            from <= k <= to <= chars@.len(),
            out@ == chars@.subrange(from as int, k as int),
        decreases to - k,
    {
        out.push(chars[k]);
        assert(chars@.subrange(from as int, k + 1) =~= chars@.subrange(from as int, k as int).push(chars@[k as int]));
        k += 1;
    }
    string_from_chars(out.as_slice())
}

/// `str.partition(sep)`: the text before the first occurrence of `sep`,
/// `sep`, and the text after it; `(s, "", "")` when `sep` does not occur.
pub fn str_partition(s: &str, sep: &str) -> (r: (String, String, String))
    ensures
        (forall|k: int| !occurs_at(s@, sep@, k)) ==> (r.0@ == s@ && r.1@ == Seq::<char>::empty()
            && r.2@ == Seq::<char>::empty()),
        forall|k: int| first_occurrence(s@, sep@, k) ==> (r.0@ == s@.subrange(0, k) && r.1@ == sep@
            && r.2@ == s@.subrange(k + sep@.len(), s@.len() as int)),
{
    let chars = chars_of(s);
    let sep_chars = chars_of(sep);
    let n = chars.len();
    let m = sep_chars.len();
    match find_first(&chars, &sep_chars) {
        Some(k) => {
            let before = slice_to_string(&chars, 0, k);
            let after = slice_to_string(&chars, k + sep_chars.len(), chars.len());
            let mid = slice_to_string(&sep_chars, 0, sep_chars.len());
            assert(sep_chars@.subrange(0, sep_chars@.len() as int) =~= sep_chars@);
            proof {
                assert forall|j: int| first_occurrence(s@, sep@, j) implies j == k as int by {
                    if j < k {
                    } else if j > k {
                    }
                }
            }
            (before, mid, after)
        },
        None => {
            let all = slice_to_string(&chars, 0, chars.len());
            assert(chars@.subrange(0, chars@.len() as int) =~= chars@);
            (all, String::new(), String::new())
        },
    }
}

/// `str.rpartition(sep)`: the text before the last occurrence of `sep`,
/// `sep`, and the text after it; `("", "", s)` when `sep` does not occur.
pub fn str_rpartition(s: &str, sep: &str) -> (r: (String, String, String))
    ensures
        (forall|k: int| !occurs_at(s@, sep@, k)) ==> (r.0@ == Seq::<char>::empty()
            && r.1@ == Seq::<char>::empty() && r.2@ == s@),
        forall|k: int| last_occurrence(s@, sep@, k) ==> (r.0@ == s@.subrange(0, k) && r.1@ == sep@
            && r.2@ == s@.subrange(k + sep@.len(), s@.len() as int)),
{
    let chars = chars_of(s);
    let sep_chars = chars_of(sep);
    let n = chars.len();
    let m = sep_chars.len();
    match find_last(&chars, &sep_chars) {
        Some(k) => {
            let before = slice_to_string(&chars, 0, k);
            let after = slice_to_string(&chars, k + sep_chars.len(), chars.len());
            let mid = slice_to_string(&sep_chars, 0, sep_chars.len());
            assert(sep_chars@.subrange(0, sep_chars@.len() as int) =~= sep_chars@);
            proof {
                assert forall|j: int| last_occurrence(s@, sep@, j) implies j == k as int by {
                    if j < k {
                    } else if j > k {
                    }
                }
            }
            (before, mid, after)
        },
        None => {
            let all = slice_to_string(&chars, 0, chars.len());
            assert(chars@.subrange(0, chars@.len() as int) =~= chars@);
            (String::new(), String::new(), all)
        },
    }
}

/// `str.removeprefix(prefix)`.
pub fn str_removeprefix(s: &str, prefix: &str) -> (r: String)
    ensures
        r@ == (if occurs_at(s@, prefix@, 0) { s@.subrange(prefix@.len() as int, s@.len() as int) } else { s@ }),
{
    let chars = chars_of(s);
    let p = chars_of(prefix);
    if occurs_at_exec(&chars, &p, 0) {
        slice_to_string(&chars, p.len(), chars.len())
    } else {
        assert(chars@.subrange(0, chars@.len() as int) =~= chars@);
        slice_to_string(&chars, 0, chars.len())
    }
}

/// `str.removesuffix(suffix)`.
pub fn str_removesuffix(s: &str, suffix: &str) -> (r: String)
    ensures
        r@ == (if s@.len() >= suffix@.len() && occurs_at(s@, suffix@, s@.len() - suffix@.len()) {
            s@.subrange(0, s@.len() - suffix@.len())
        } else {
            s@
        }),
{
    let chars = chars_of(s);
    let p = chars_of(suffix);
    if chars.len() >= p.len() && occurs_at_exec(&chars, &p, chars.len() - p.len()) {
        slice_to_string(&chars, 0, chars.len() - p.len())
    } else {
        assert(chars@.subrange(0, chars@.len() as int) =~= chars@);
        slice_to_string(&chars, 0, chars.len())
    }
}

/// The output and the current column after expanding the first `n`
/// characters of `s`: a tab advances to the next multiple of `tabsize`
/// with spaces, a line break resets the column, any other character
/// advances it by one.
pub open spec fn expand_tabs_prefix(s: Seq<char>, tabsize: nat, n: nat) -> (Seq<char>, nat)
    decreases n,
{
    if n == 0 {
        (Seq::empty(), 0)
    } else {
        let (out, col) = expand_tabs_prefix(s, tabsize, (n - 1) as nat);
        let c = s[n - 1];
        if c == '\t' {
            let spaces = (tabsize - col % tabsize) as nat;
            (out + fill(' ', spaces), col + spaces)
        } else if c == '\n' || c == '\r' {
            (out.push(c), 0)
        } else {
            (out.push(c), col + 1)
        }
    }
}

/// Text without a tab expands to itself, whatever the tab size.
proof fn lemma_expand_without_tabs(s: Seq<char>, tabsize: nat, n: nat)
    requires
        n <= s.len(),
        forall|i: int| 0 <= i < n ==> s[i] != '\t',
    ensures
        expand_tabs_prefix(s, tabsize, n).0 == s.subrange(0, n as int),
    decreases n,
{
    if n > 0 {
        lemma_expand_without_tabs(s, tabsize, (n - 1) as nat);
        assert(s.subrange(0, n as int) =~= s.subrange(0, n - 1).push(s[n - 1]));
    }
}

/// `str.expandtabs(tabsize)`. Text without a tab comes back unchanged,
/// whatever the tab size. Where there is a tab, it needs a positive tab
/// size, and the expanded text must have room in memory.
pub fn str_expandtabs(s: &str, tabsize: usize) -> (r: String)
    requires
        (exists|i: int| 0 <= i < s@.len() && s@[i] == '\t') ==> tabsize > 0 && s@.len() * (tabsize + 1) <= usize::MAX,
    ensures
        r@ == expand_tabs_prefix(s@, tabsize as nat, s@.len()).0,
        (forall|i: int| 0 <= i < s@.len() ==> s@[i] != '\t') ==> r@ == s@,
{
    let chars = chars_of(s);
    let mut t: usize = 0;
    while t < chars.len()
        invariant
            chars@ == s@,
            t <= chars@.len(),
            forall|k: int| 0 <= k < t ==> s@[k] != '\t',
        ensures
            t <= chars@.len(),
            forall|k: int| 0 <= k < t ==> s@[k] != '\t',
            t < chars@.len() ==> s@[t as int] == '\t',
        decreases chars@.len() - t,
    {
        if chars[t] == '\t' {
            break;
        }
        t += 1;
    }
    if t == chars.len() {
        proof {
            lemma_expand_without_tabs(s@, tabsize as nat, s@.len());
            assert(s@.subrange(0, s@.len() as int) =~= s@);
        }
        return s.to_owned();
    }
    assert(s@[t as int] == '\t');
    let mut out: Vec<char> = Vec::new();
    let mut col: usize = 0;
    let mut i: usize = 0;
    while i < chars.len()
        invariant
            chars@ == s@,
            i <= chars@.len(),
            tabsize > 0,
            s@.len() * (tabsize + 1) <= usize::MAX,
            (out@, col as nat) == expand_tabs_prefix(s@, tabsize as nat, i as nat),
            col <= out@.len() <= i * (tabsize + 1),
        decreases chars@.len() - i,
    {
        let c = chars[i];
        proof {
            assert((i + 1) * (tabsize + 1) <= s@.len() * (tabsize + 1)) by (nonlinear_arith)
                requires i + 1 <= s@.len();
            assert((i + 1) * (tabsize + 1) == i * (tabsize + 1) + tabsize + 1) by (nonlinear_arith);
        }
        if c == '\t' {
            let spaces = tabsize - (col % tabsize);
            let ghost before = out@;
            let mut k: usize = 0;
            while k < spaces
                invariant
                    k <= spaces,
                    out@ == before + fill(' ', k as nat),
                decreases spaces - k,
            {
                out.push(' ');
                assert(fill(' ', (k + 1) as nat) =~= fill(' ', k as nat).push(' '));
                k += 1;
            }
            col = col + spaces;
        } else if c == '\n' || c == '\r' {
            out.push(c);
            col = 0;
        } else {
            out.push(c);
            col = col + 1;
        }
        i += 1;
    }
    string_from_chars(out.as_slice())
}

} // verus!
