//! `str` methods driven by whitespace and line breaks: `split` and
//! `rsplit` without a separator, `strip`, `lstrip`, `rstrip` and
//! `splitlines`.

use vstd::prelude::*;
use crate::unicode::{chars_of, char_is_whitespace, unicode_is_whitespace};
use crate::strsearch::slice_to_string;
use crate::strsplit::{
    strings_view, next_budget, lemma_push_view, lemma_prepend_view, split_spec, rsplit_spec,
    str_split_sep, str_rsplit_sep,
};

verus! {

/// The first position at or after `p` that does not hold whitespace (the
/// length when there is none).
pub open spec fn skip_ws(s: Seq<char>, p: int) -> int
    decreases s.len() - p,
{
    if p >= s.len() {
        s.len() as int
    } else if !unicode_is_whitespace(s[p]) {
        p
    } else {
        skip_ws(s, p + 1)
    }
}

/// The first position at or after `p` that holds whitespace (the length
/// when there is none).
pub open spec fn find_ws(s: Seq<char>, p: int) -> int
    decreases s.len() - p,
{
    if p >= s.len() {
        s.len() as int
    } else if unicode_is_whitespace(s[p]) {
        p
    } else {
        find_ws(s, p + 1)
    }
}

/// The end of `s[..e]` once its trailing whitespace is dropped.
pub open spec fn trim_end_at(s: Seq<char>, e: int) -> int
    decreases e,
{
    if e <= 0 {
        0
    } else if unicode_is_whitespace(s[e - 1]) {
        trim_end_at(s, e - 1)
    } else {
        e
    }
}

/// The last position before `e` that holds whitespace, or -1.
pub open spec fn rfind_ws(s: Seq<char>, e: int) -> int
    decreases e,
{
    if e <= 0 {
        -1
    } else if unicode_is_whitespace(s[e - 1]) {
        e - 1
    } else {
        rfind_ws(s, e - 1)
    }
}

pub proof fn lemma_skip_ws(s: Seq<char>, p: int)
    requires
        0 <= p <= s.len(),
    ensures
        p <= skip_ws(s, p) <= s.len(),
        skip_ws(s, p) < s.len() ==> !unicode_is_whitespace(s[skip_ws(s, p)]),
        forall|j: int| p <= j < skip_ws(s, p) ==> unicode_is_whitespace(#[trigger] s[j]),
    decreases s.len() - p,
{
    if p < s.len() && unicode_is_whitespace(s[p]) {
        lemma_skip_ws(s, p + 1);
    }
}

pub proof fn lemma_find_ws(s: Seq<char>, p: int)
    requires
        0 <= p <= s.len(),
    ensures
        p <= find_ws(s, p) <= s.len(),
        find_ws(s, p) < s.len() ==> unicode_is_whitespace(s[find_ws(s, p)]),
        forall|j: int| p <= j < find_ws(s, p) ==> !unicode_is_whitespace(#[trigger] s[j]),
    decreases s.len() - p,
{
    if p < s.len() && !unicode_is_whitespace(s[p]) {
        lemma_find_ws(s, p + 1);
    }
}

pub proof fn lemma_trim_end(s: Seq<char>, e: int)
    requires
        0 <= e <= s.len(),
    ensures
        0 <= trim_end_at(s, e) <= e,
        trim_end_at(s, e) > 0 ==> !unicode_is_whitespace(s[trim_end_at(s, e) - 1]),
        forall|j: int| trim_end_at(s, e) <= j < e ==> unicode_is_whitespace(#[trigger] s[j]),
    decreases e,
{
    if e > 0 && unicode_is_whitespace(s[e - 1]) {
        lemma_trim_end(s, e - 1);
    }
}

pub proof fn lemma_rfind_ws(s: Seq<char>, e: int)
    requires
        0 <= e <= s.len(),
    ensures
        -1 <= rfind_ws(s, e) < e,
        rfind_ws(s, e) >= 0 ==> unicode_is_whitespace(s[rfind_ws(s, e)]),
        forall|j: int| rfind_ws(s, e) < j < e ==> !unicode_is_whitespace(#[trigger] s[j]),
    decreases e,
{
    if e > 0 && !unicode_is_whitespace(s[e - 1]) {
        lemma_rfind_ws(s, e - 1);
    }
}

/// The words of `s[p..]` (maximal runs without whitespace), at most
/// `budget` of them cut off one by one before the rest is kept whole with
/// its surrounding whitespace dropped (no limit when `budget` is
/// negative).
pub open spec fn ws_split_from(s: Seq<char>, p: int, budget: int) -> Seq<Seq<char>>
    decreases s.len() - p,
{
    let q = skip_ws(s, p);
    if p < 0 || p > s.len() || q >= s.len() {
        Seq::empty()
    } else if budget == 0 {
        seq![s.subrange(q, trim_end_at(s, s.len() as int))]
    } else {
        let r = find_ws(s, q);
        if r >= s.len() {
            seq![s.subrange(q, s.len() as int)]
        } else {
            proof {
                lemma_skip_ws(s, p);
                lemma_find_ws(s, q);
            }
            seq![s.subrange(q, r)] + ws_split_from(s, r, next_budget(budget))
        }
    }
}

/// The words of `s[..e]` cut off from the end, at most `budget` of them,
/// before the rest is kept whole with its surrounding whitespace dropped;
/// in their order in `s`.
pub open spec fn rws_split_from(s: Seq<char>, e: int, budget: int) -> Seq<Seq<char>>
    decreases e,
{
    let t = trim_end_at(s, e);
    if e < 0 || e > s.len() || t <= 0 {
        Seq::empty()
    } else if budget == 0 {
        seq![s.subrange(skip_ws(s, 0), t)]
    } else {
        let j = rfind_ws(s, t);
        if j < 0 {
            seq![s.subrange(0, t)]
        } else {
            proof {
                lemma_trim_end(s, e);
                lemma_rfind_ws(s, t);
            }
            rws_split_from(s, j, next_budget(budget)) + seq![s.subrange(j + 1, t)]
        }
    }
}

/// Whether every whitespace character at which `rws_split_from(s, e,
/// budget)` cuts is a single byte in UTF-8: the cut slices the byte
/// string one byte after it, which needs a character boundary there.
pub open spec fn rws_cuts_on_boundaries(s: Seq<char>, e: int, budget: int) -> bool
    decreases e,
{
    let t = trim_end_at(s, e);
    if e < 0 || e > s.len() || t <= 0 || budget == 0 {
        true
    } else {
        let j = rfind_ws(s, t);
        if j < 0 {
            true
        } else {
            proof {
                lemma_trim_end(s, e);
                lemma_rfind_ws(s, t);
            }
            (s[j] as u32) < 0x80 && rws_cuts_on_boundaries(s, j, next_budget(budget))
        }
    }
}

/// `str.split(None, maxsplit)`.
pub open spec fn split_whitespace_spec(s: Seq<char>, maxsplit: int) -> Seq<Seq<char>> {
    ws_split_from(s, 0, maxsplit)
}

/// `str.rsplit(None, maxsplit)`: with a negative `maxsplit` it is
/// `split`.
pub open spec fn rsplit_whitespace_spec(s: Seq<char>, maxsplit: int) -> Seq<Seq<char>> {
    if maxsplit < 0 {
        ws_split_from(s, 0, -1)
    } else {
        rws_split_from(s, s.len() as int, maxsplit)
    }
}

/// `str.split(None, maxsplit)`: the words of `s`; with a non-negative
/// `maxsplit`, at most that many words are cut off and the rest is kept
/// whole, its surrounding whitespace dropped.
pub fn str_split_whitespace(s: &str, maxsplit: i64) -> (r: Vec<String>)
    ensures
        strings_view(r@) == split_whitespace_spec(s@, maxsplit as int),
{
    let chars = chars_of(s);
    let n = chars.len();
    let mut parts: Vec<String> = Vec::new();
    let mut p: usize = 0;
    let mut budget: i64 = maxsplit;
    loop
        invariant
            n == chars@.len(),
            chars@ == s@,
            p <= n,
            strings_view(parts@) + ws_split_from(s@, p as int, budget as int)
                == split_whitespace_spec(s@, maxsplit as int),
        decreases n - p,
    {
        let ghost before = parts@;
        let mut q: usize = p;
        while q < n && char_is_whitespace(chars[q])
            invariant
                n == chars@.len(),
                chars@ == s@,
                p <= q <= n,
                skip_ws(s@, q as int) == skip_ws(s@, p as int),
            decreases n - q,
        {
            q += 1;
        }
        proof {
            lemma_skip_ws(s@, q as int);
        }
        if q >= n {
            assert(ws_split_from(s@, p as int, budget as int) =~= Seq::<Seq<char>>::empty());
            assert(strings_view(parts@) + Seq::<Seq<char>>::empty() =~= strings_view(parts@));
            return parts;
        }
        assert(skip_ws(s@, q as int) == q);
        if budget == 0 {
            let mut t: usize = n;
            while t > q && char_is_whitespace(chars[t - 1])
                invariant
                    n == chars@.len(),
                    chars@ == s@,
                    q < t <= n,
                    !unicode_is_whitespace(s@[q as int]),
                    trim_end_at(s@, t as int) == trim_end_at(s@, n as int),
                decreases t,
            {
                t -= 1;
            }
            let piece = slice_to_string(&chars, q, t);
            parts.push(piece);
            proof {
                lemma_push_view(before, piece);
            }
            return parts;
        }
        let mut r: usize = q;
        while r < n && !char_is_whitespace(chars[r])
            invariant
                n == chars@.len(),
                chars@ == s@,
                q <= r <= n,
                find_ws(s@, r as int) == find_ws(s@, q as int),
            decreases n - r,
        {
            r += 1;
        }
        if r >= n {
            let piece = slice_to_string(&chars, q, n);
            parts.push(piece);
            proof {
                lemma_push_view(before, piece);
            }
            return parts;
        }
        let piece = slice_to_string(&chars, q, r);
        parts.push(piece);
        let ghost tail = ws_split_from(s@, r as int, next_budget(budget as int));
        proof {
            lemma_push_view(before, piece);
            assert(ws_split_from(s@, p as int, budget as int) == seq![piece@] + tail);
            assert(strings_view(parts@) + tail =~= strings_view(before) + (seq![piece@] + tail));
        }
        p = r;
        if budget > 0 {
            budget -= 1;
        }
    }
}

/// `str.rsplit(None, maxsplit)`: with a non-negative `maxsplit`, at most
/// that many words are cut off from the end and the rest is kept whole,
/// its surrounding whitespace dropped. The cut after a whitespace
/// character slices one byte past it, so each such character must be a
/// single byte in UTF-8.
pub fn str_rsplit_whitespace(s: &str, maxsplit: i64) -> (r: Vec<String>)
    requires
        maxsplit >= 0 ==> rws_cuts_on_boundaries(s@, s@.len() as int, maxsplit as int),
    ensures
        strings_view(r@) == rsplit_whitespace_spec(s@, maxsplit as int),
{
    if maxsplit < 0 {
        return str_split_whitespace(s, -1);
    }
    let chars = chars_of(s);
    let n = chars.len();
    let mut tail: Vec<String> = Vec::new();
    let mut e: usize = n;
    let mut budget: i64 = maxsplit;
    loop
        invariant
            n == chars@.len(),
            chars@ == s@,
            e <= n,
            maxsplit >= 0,
            rws_split_from(s@, e as int, budget as int) + strings_view(tail@)
                == rsplit_whitespace_spec(s@, maxsplit as int),
        decreases e,
    {
        let ghost before = tail@;
        let mut t: usize = e;
        while t > 0 && char_is_whitespace(chars[t - 1])
            invariant
                n == chars@.len(),
                chars@ == s@,
                t <= e <= n,
                trim_end_at(s@, t as int) == trim_end_at(s@, e as int),
            decreases t,
        {
            t -= 1;
        }
        proof {
            lemma_trim_end(s@, t as int);
        }
        if t == 0 {
            assert(Seq::<Seq<char>>::empty() + strings_view(tail@) =~= strings_view(tail@));
            return tail;
        }
        assert(trim_end_at(s@, t as int) == t);
        if budget == 0 {
            let mut a: usize = 0;
            while a < t && char_is_whitespace(chars[a])
                invariant
                    n == chars@.len(),
                    chars@ == s@,
                    a <= t <= n,
                    !unicode_is_whitespace(s@[t - 1]),
                    skip_ws(s@, a as int) == skip_ws(s@, 0),
                    forall|j: int| 0 <= j < a ==> unicode_is_whitespace(#[trigger] s@[j]),
                decreases t - a,
            {
                a += 1;
            }
            proof {
                if a == t {
                    assert(false);
                }
            }
            let piece = slice_to_string(&chars, a, t);
            tail.insert(0, piece);
            proof {
                lemma_prepend_view(before, piece);
            }
            return tail;
        }
        let mut k: usize = t;
        while k > 0 && !char_is_whitespace(chars[k - 1])
            invariant
                n == chars@.len(),
                chars@ == s@,
                k <= t <= n,
                rfind_ws(s@, k as int) == rfind_ws(s@, t as int),
            decreases k,
        {
            k -= 1;
        }
        if k == 0 {
            let piece = slice_to_string(&chars, 0, t);
            tail.insert(0, piece);
            proof {
                lemma_prepend_view(before, piece);
            }
            return tail;
        }
        let j = k - 1;
        let piece = slice_to_string(&chars, j + 1, t);
        tail.insert(0, piece);
        let ghost head = rws_split_from(s@, j as int, next_budget(budget as int));
        proof {
            lemma_prepend_view(before, piece);
            assert(rws_split_from(s@, e as int, budget as int) == head + seq![piece@]);
            assert(head + strings_view(tail@) =~= (head + seq![piece@]) + strings_view(before));
        }
        e = j;
        if budget > 0 {
            budget -= 1;
        }
    }
}

/// The characters `strip` removes when it is given none: space, tab,
/// line feed, carriage return, vertical tab and form feed.
pub open spec fn default_strip_set() -> Seq<char> {
    seq![' ', '\t', '\n', '\r', '\u{b}', '\u{c}']
}

/// The first position at or after `p` whose character is not in `set`.
pub open spec fn lead_in(s: Seq<char>, set: Seq<char>, p: int) -> int
    decreases s.len() - p,
{
    if p >= s.len() {
        s.len() as int
    } else if set.contains(s[p]) {
        lead_in(s, set, p + 1)
    } else {
        p
    }
}

/// The end of `s[lo..e]` once the characters of `set` at its end are
/// dropped.
pub open spec fn trail_in(s: Seq<char>, set: Seq<char>, e: int, lo: int) -> int
    decreases e - lo,
{
    if e <= lo {
        lo
    } else if set.contains(s[e - 1]) {
        trail_in(s, set, e - 1, lo)
    } else {
        e
    }
}

/// `s` without the characters of `set` at its start (when `left`) and
/// at its end (when `right`).
pub open spec fn strip_spec(s: Seq<char>, set: Seq<char>, left: bool, right: bool) -> Seq<char> {
    let a = if left { lead_in(s, set, 0) } else { 0 };
    let b = if right { trail_in(s, set, s.len() as int, a) } else { s.len() as int };
    s.subrange(a, b)
}

fn contains_char(set: &Vec<char>, c: char) -> (r: bool)
    ensures
        r == set@.contains(c),
{
    let mut i: usize = 0;
    while i < set.len()
        invariant
            i <= set@.len(),
            forall|j: int| 0 <= j < i ==> set@[j] != c,
        decreases set@.len() - i,
    {
        if set[i] == c {
            assert(set@[i as int] == c);
            return true;
        }
        i += 1;
    }
    false
}

/// `str.strip(chars)` (both sides), `str.lstrip(chars)` (`left` only) and
/// `str.rstrip(chars)` (`right` only): `s` without the characters of
/// `chars` at its ends, or without ASCII whitespace when `chars` is
/// `None`.
pub fn str_strip(s: &str, chars: Option<&str>, left: bool, right: bool) -> (r: String)
    ensures
        r@ == strip_spec(s@, match chars {
            Some(c) => c@,
            None => default_strip_set(),
        }, left, right),
{
    let set: Vec<char> = match chars {
        Some(c) => chars_of(c),
        None => vec![' ', '\t', '\n', '\r', '\u{b}', '\u{c}'],
    };
    let ghost sv = match chars {
        Some(c) => c@,
        None => default_strip_set(),
    };
    assert(set@ =~= sv);
    let text = chars_of(s);
    let n = text.len();
    let mut a: usize = 0;
    if left {
        while a < n && contains_char(&set, text[a])
            invariant
                n == text@.len(),
                text@ == s@,
                set@ == sv,
                a <= n,
                lead_in(s@, sv, a as int) == lead_in(s@, sv, 0),
            decreases n - a,
        {
            a += 1;
        }
    }
    let mut b: usize = n;
    if right {
        while b > a && contains_char(&set, text[b - 1])
            invariant
                n == text@.len(),
                text@ == s@,
                set@ == sv,
                a <= b <= n,
                trail_in(s@, sv, b as int, a as int) == trail_in(s@, sv, n as int, a as int),
            decreases b,
        {
            b -= 1;
        }
    }
    slice_to_string(&text, a, b)
}

/// Where the line break at `i` ends: after a `\r\n` pair, else after the
/// single character.
pub open spec fn line_end(s: Seq<char>, i: int) -> int {
    if s[i] == '\r' && i + 1 < s.len() && s[i + 1] == '\n' { i + 2 } else { i + 1 }
}

/// The lines of `s[start..]`, the scan for a break at `i`: `\n`, `\r`
/// and `\r\n` end a line, and the break is kept when `keepends`; text
/// after the last break is a line of its own, and a final break does not
/// start an empty one.
pub open spec fn lines_from(s: Seq<char>, start: int, i: int, keepends: bool) -> Seq<Seq<char>>
    decreases s.len() - i,
{
    if i >= s.len() {
        if start < s.len() { seq![s.subrange(start, s.len() as int)] } else { Seq::empty() }
    } else if s[i] == '\r' || s[i] == '\n' {
        let le = line_end(s, i);
        seq![s.subrange(start, if keepends { le } else { i })] + lines_from(s, le, le, keepends)
    } else {
        lines_from(s, start, i + 1, keepends)
    }
}

/// `str.splitlines(keepends)`.
pub fn str_splitlines(s: &str, keepends: bool) -> (r: Vec<String>)
    ensures
        strings_view(r@) == lines_from(s@, 0, 0, keepends),
{
    let chars = chars_of(s);
    let n = chars.len();
    let mut lines: Vec<String> = Vec::new();
    let mut start: usize = 0;
    let mut i: usize = 0;
    while i < n
        invariant
            n == chars@.len(),
            chars@ == s@,
            start <= i <= n,
            strings_view(lines@) + lines_from(s@, start as int, i as int, keepends)
                == lines_from(s@, 0, 0, keepends),
        decreases n - i,
    {
        if chars[i] == '\r' || chars[i] == '\n' {
            let le: usize = if chars[i] == '\r' && i + 1 < n && chars[i + 1] == '\n' { i + 2 } else { i + 1 };
            let stop = if keepends { le } else { i };
            let ghost before = lines@;
            let ghost tail = lines_from(s@, le as int, le as int, keepends);
            let piece = slice_to_string(&chars, start, stop);
            lines.push(piece);
            proof {
                lemma_push_view(before, piece);
                assert(line_end(s@, i as int) == le);
                assert(lines_from(s@, start as int, i as int, keepends) == seq![piece@] + tail);
                assert(strings_view(lines@) + tail =~= strings_view(before) + (seq![piece@] + tail));
            }
            i = le;
            start = le;
        } else {
            i += 1;
        }
    }
    if start < n {
        let ghost before = lines@;
        let piece = slice_to_string(&chars, start, n);
        lines.push(piece);
        proof {
            lemma_push_view(before, piece);
        }
    } else {
        assert(strings_view(lines@) + Seq::<Seq<char>>::empty() =~= strings_view(lines@));
    }
    lines
}

/// `str.split(sep, maxsplit)`: at the given separator, or at runs of
/// whitespace when there is none.
pub fn str_split(s: &str, sep: Option<&str>, maxsplit: i64) -> (r: Vec<String>)
    ensures
        strings_view(r@) == (match sep {
            Some(p) => split_spec(s@, p@, maxsplit as int),
            None => split_whitespace_spec(s@, maxsplit as int),
        }),
{
    match sep {
        Some(p) => str_split_sep(s, p, maxsplit),
        None => str_split_whitespace(s, maxsplit),
    }
}

/// `str.rsplit(sep, maxsplit)`: at the given separator, or at runs of
/// whitespace when there is none.
pub fn str_rsplit(s: &str, sep: Option<&str>, maxsplit: i64) -> (r: Vec<String>)
    requires
        sep is None && maxsplit >= 0 ==> rws_cuts_on_boundaries(s@, s@.len() as int, maxsplit as int),
    ensures
        strings_view(r@) == (match sep {
            Some(p) => rsplit_spec(s@, p@, maxsplit as int),
            None => rsplit_whitespace_spec(s@, maxsplit as int),
        }),
{
    match sep {
        Some(p) => str_rsplit_sep(s, p, maxsplit),
        None => str_rsplit_whitespace(s, maxsplit),
    }
}

} // verus!
