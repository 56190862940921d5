//! `str` methods that cut a string at the occurrences of a separator, count
//! them or replace them: `split` and `rsplit` with a separator, `count`,
//! `replace`, `find`, `rfind`, `index` and `rindex`.
//!
//! Matches are found as Rust's `str` pattern search finds them: scanning
//! forward (or, for `rsplit`, backward), a match is taken and the scan
//! resumes after it, so matches never overlap. The empty separator
//! matches at every character boundary.

use vstd::prelude::*;
use crate::unicode::chars_of;
use crate::strsearch::{occurs_at, occurs_at_exec, slice_to_string, first_occurrence, last_occurrence, find_first, find_last};
use crate::error::{PyError, PyErrorView};

verus! {

/// How far a scan moves on past a match of `sep`: its length, or one
/// character for the empty separator.
pub open spec fn step(sep: Seq<char>) -> int {
    if sep.len() == 0 { 1 } else { sep.len() as int }
}

/// The budget of cuts left after one more cut: a negative budget means no
/// limit and stays as it is.
pub open spec fn next_budget(budget: int) -> int {
    if budget > 0 { budget - 1 } else { budget }
}

/// The character sequences of a list of strings.
pub open spec fn strings_view(v: Seq<String>) -> Seq<Seq<char>> {
    Seq::new(v.len(), |i: int| v[i]@)
}

/// The pieces of `s[start..]` when it is cut at the matches of `sep`
/// found scanning forward from `p`, at most `budget` times (no cut when
/// the budget is 0, no limit when it is negative).
pub open spec fn split_from(s: Seq<char>, sep: Seq<char>, p: int, start: int, budget: int) -> Seq<Seq<char>>
    decreases s.len() + 1 - p,
{
    if budget == 0 || p < 0 || p + sep.len() > s.len() {
        seq![s.subrange(start, s.len() as int)]
    } else if occurs_at(s, sep, p) {
        seq![s.subrange(start, p)] + split_from(s, sep, p + step(sep), p + sep.len(), next_budget(budget))
    } else {
        split_from(s, sep, p + 1, start, budget)
    }
}

/// The pieces of `s[..end]` when it is cut at the matches of `sep` that
/// end at or before `e`, found scanning backward, at most `budget` times;
/// the pieces are in their order in `s`.
pub open spec fn rsplit_from(s: Seq<char>, sep: Seq<char>, e: int, end: int, budget: int) -> Seq<Seq<char>>
    decreases e + 1,
{
    if budget == 0 || e - sep.len() < 0 || e > s.len() {
        seq![s.subrange(0, end)]
    } else if occurs_at(s, sep, e - sep.len()) {
        rsplit_from(s, sep, e - step(sep), e - sep.len(), next_budget(budget)) + seq![s.subrange(e, end)]
    } else {
        rsplit_from(s, sep, e - 1, end, budget)
    }
}

/// `str.split(sep, maxsplit)` with a separator: `s` cut at the first
/// `maxsplit` matches of `sep` (at all of them when `maxsplit` is
/// negative).
pub open spec fn split_spec(s: Seq<char>, sep: Seq<char>, maxsplit: int) -> Seq<Seq<char>> {
    split_from(s, sep, 0, 0, maxsplit)
}

/// `str.rsplit(sep, maxsplit)` with a separator: `s` cut at the last
/// `maxsplit` matches of `sep` found from the end; with a negative
/// `maxsplit` it is `split`.
pub open spec fn rsplit_spec(s: Seq<char>, sep: Seq<char>, maxsplit: int) -> Seq<Seq<char>> {
    if maxsplit < 0 {
        split_from(s, sep, 0, 0, -1)
    } else {
        rsplit_from(s, sep, s.len() as int, s.len() as int, maxsplit)
    }
}

pub(crate) proof fn lemma_prepend_view(v: Seq<String>, x: String)
    ensures
        strings_view(v.insert(0, x)) =~= seq![x@] + strings_view(v),
{
}

pub(crate) proof fn lemma_push_view(v: Seq<String>, x: String)
    ensures
        strings_view(v.push(x)) =~= strings_view(v).push(x@),
{
}

/// `str.split(sep, maxsplit)` for a given separator.
pub fn str_split_sep(s: &str, sep: &str, maxsplit: i64) -> (r: Vec<String>)
    ensures
        strings_view(r@) == split_spec(s@, sep@, maxsplit as int),
{
    let chars = chars_of(s);
    let sc = chars_of(sep);
    let n = chars.len();
    let m = sc.len();
    let mut parts: Vec<String> = Vec::new();
    let mut p: usize = 0;
    let mut start: usize = 0;
    let mut budget: i64 = maxsplit;
    let mut past_end = false;
    while !past_end && budget != 0 && m <= n - p
        invariant
            n == chars@.len(),
            m == sc@.len(),
            chars@ == s@,
            sc@ == sep@,
            start <= p <= n,
            past_end ==> m == 0 && start == n,
            strings_view(parts@) + split_from(s@, sep@, if past_end { n + 1 } else { p as int }, start as int, budget as int)
                == split_spec(s@, sep@, maxsplit as int),
        decreases n + 1 - p - (if past_end { 1int } else { 0int }),
    {
        let ghost before = parts@;
        let ghost rest = split_from(s@, sep@, p as int, start as int, budget as int);
        if m == 0 {
            assert(chars@.subrange(p as int, p as int) =~= sc@);
        }
        if occurs_at_exec(&chars, &sc, p) {
            let piece = slice_to_string(&chars, start, p);
            parts.push(piece);
            let ghost tail = split_from(s@, sep@, p + step(sep@), p + m, next_budget(budget as int));
            start = p + m;
            if m == 0 {
                if p == n {
                    past_end = true;
                } else {
                    p = p + 1;
                }
            } else {
                p = p + m;
            }
            if budget > 0 {
                budget -= 1;
            }
            proof {
                lemma_push_view(before, piece);
                assert(rest == seq![piece@] + tail);
                assert(strings_view(parts@) + tail =~= strings_view(before) + rest);
            }
        } else {
            p += 1;
        }
    }
    let ghost before = parts@;
    let last = slice_to_string(&chars, start, n);
    parts.push(last);
    proof {
        lemma_push_view(before, last);
        assert(strings_view(parts@) =~= strings_view(before) + seq![last@]);
    }
    parts
}

/// `str.rsplit(sep, maxsplit)` for a given separator.
pub fn str_rsplit_sep(s: &str, sep: &str, maxsplit: i64) -> (r: Vec<String>)
    ensures
        strings_view(r@) == rsplit_spec(s@, sep@, maxsplit as int),
{
    if maxsplit < 0 {
        return str_split_sep(s, sep, -1);
    }
    let chars = chars_of(s);
    let sc = chars_of(sep);
    let n = chars.len();
    let m = sc.len();
    let mut tail: Vec<String> = Vec::new();
    let mut e: usize = n;
    let mut end: usize = n;
    let mut budget: i64 = maxsplit;
    let mut before_start = false;
    while !before_start && budget != 0 && e >= m
        invariant
            n == chars@.len(),
            m == sc@.len(),
            chars@ == s@,
            sc@ == sep@,
            e <= end <= n,
            maxsplit >= 0,
            before_start ==> m == 0 && end == 0,
            rsplit_from(s@, sep@, if before_start { -1 } else { e as int }, end as int, budget as int)
                + strings_view(tail@) == rsplit_spec(s@, sep@, maxsplit as int),
        decreases e + (if before_start { 0int } else { 1int }),
    {
        let ghost before = tail@;
        let ghost rest = rsplit_from(s@, sep@, e as int, end as int, budget as int);
        if m == 0 {
            assert(chars@.subrange(e as int, e as int) =~= sc@);
        }
        if occurs_at_exec(&chars, &sc, e - m) {
            let piece = slice_to_string(&chars, e, end);
            tail.insert(0, piece);
            let ghost head = rsplit_from(s@, sep@, e - step(sep@), e - m, next_budget(budget as int));
            end = e - m;
            if m == 0 {
                if e == 0 {
                    before_start = true;
                } else {
                    e = e - 1;
                }
            } else {
                e = e - m;
            }
            if budget > 0 {
                budget -= 1;
            }
            proof {
                lemma_prepend_view(before, piece);
                assert(rest == head + seq![piece@]);
                assert(head + strings_view(tail@) =~= rest + strings_view(before));
            }
        } else {
            e -= 1;
        }
    }
    let ghost before = tail@;
    let head = slice_to_string(&chars, 0, end);
    tail.insert(0, head);
    proof {
        lemma_prepend_view(before, head);
    }
    tail
}

/// The number of matches of `sep` found scanning `s` forward from `p`
/// (for the empty separator, one more than the characters left).
pub open spec fn match_count(s: Seq<char>, sep: Seq<char>, p: int) -> nat
    decreases s.len() + 1 - p,
{
    if p < 0 || p + sep.len() > s.len() {
        0
    } else if occurs_at(s, sep, p) {
        1 + match_count(s, sep, p + step(sep))
    } else {
        match_count(s, sep, p + 1)
    }
}

/// `s` with every match of `from` found scanning forward from `p`
/// replaced by `to`, the part before `start` left out.
pub open spec fn replace_from(s: Seq<char>, from: Seq<char>, to: Seq<char>, p: int, start: int) -> Seq<char>
    decreases s.len() + 1 - p,
{
    if p < 0 || p + from.len() > s.len() {
        s.subrange(start, s.len() as int)
    } else if occurs_at(s, from, p) {
        s.subrange(start, p) + to + replace_from(s, from, to, p + step(from), p + from.len())
    } else {
        replace_from(s, from, to, p + 1, start)
    }
}

fn count_matches(w: &Vec<char>, sc: &Vec<char>) -> (r: usize)
    requires
        w@.len() < usize::MAX,
    ensures
        r == match_count(w@, sc@, 0),
{
    let n = w.len();
    let m = sc.len();
    let mut c: usize = 0;
    let mut p: usize = 0;
    let mut past_end = false;
    while !past_end && m <= n - p
        invariant
            n == w@.len(),
            n < usize::MAX,
            m == sc@.len(),
            p <= n,
            c <= p + (if past_end { 1int } else { 0int }),
            past_end ==> m == 0,
            c + match_count(w@, sc@, if past_end { n + 1 } else { p as int }) == match_count(w@, sc@, 0),
        decreases n + 1 - p - (if past_end { 1int } else { 0int }),
    {
        if m == 0 {
            assert(w@.subrange(p as int, p as int) =~= sc@);
        }
        if occurs_at_exec(w, sc, p) {
            c += 1;
            if m == 0 {
                if p == n {
                    past_end = true;
                } else {
                    p = p + 1;
                }
            } else {
                p = p + m;
            }
        } else {
            p += 1;
        }
    }
    c
}

/// `str.replace(old, new)`: every match of `old`, found scanning forward,
/// replaced by `new` (with an empty `old`, `new` goes between every two
/// characters and at both ends).
pub fn str_replace(s: &str, old: &str, new: &str) -> (r: String)
    ensures
        r@ == replace_from(s@, old@, new@, 0, 0),
{
    let chars = chars_of(s);
    let from = chars_of(old);
    let to = chars_of(new);
    let n = chars.len();
    let m = from.len();
    let mut out: Vec<char> = Vec::new();
    let mut p: usize = 0;
    let mut start: usize = 0;
    let mut past_end = false;
    while !past_end && m <= n - p
        invariant
            n == chars@.len(),
            m == from@.len(),
            chars@ == s@,
            from@ == old@,
            to@ == new@,
            start <= p <= n,
            past_end ==> m == 0 && start == n,
            out@ + replace_from(s@, old@, new@, if past_end { n + 1 } else { p as int }, start as int)
                == replace_from(s@, old@, new@, 0, 0),
        decreases n + 1 - p - (if past_end { 1int } else { 0int }),
    {
        let ghost before = out@;
        let ghost rest = replace_from(s@, old@, new@, p as int, start as int);
        if m == 0 {
            assert(chars@.subrange(p as int, p as int) =~= from@);
        }
        if occurs_at_exec(&chars, &from, p) {
            let ghost tail = replace_from(s@, old@, new@, p + step(old@), p + m);
            let mut k = start;
            while k < p
                invariant
                    start <= k <= p <= n,
                    n == chars@.len(),
                    out@ == before + chars@.subrange(start as int, k as int),
                decreases p - k,
            {
                out.push(chars[k]);
                assert(chars@.subrange(start as int, k + 1) =~= chars@.subrange(start as int, k as int).push(chars@[k as int]));
                k += 1;
            }
            let mut j: usize = 0;
            while j < to.len()
                invariant
                    j <= to@.len(),
                    out@ == before + chars@.subrange(start as int, p as int) + to@.subrange(0, j as int),
                decreases to@.len() - j,
            {
                out.push(to[j]);
                assert(to@.subrange(0, j + 1) =~= to@.subrange(0, j as int).push(to@[j as int]));
                j += 1;
            }
            start = p + m;
            if m == 0 {
                if p == n {
                    past_end = true;
                } else {
                    p = p + 1;
                }
            } else {
                p = p + m;
            }
            proof {
                assert(to@.subrange(0, to@.len() as int) =~= to@);
                assert(out@ + tail =~= before + rest);
            }
        } else {
            p += 1;
        }
    }
    let ghost before = out@;
    let mut k = start;
    while k < n
        invariant
            start <= k <= n,
            n == chars@.len(),
            out@ == before + chars@.subrange(start as int, k as int),
        decreases n - k,
    {
        out.push(chars[k]);
        assert(chars@.subrange(start as int, k + 1) =~= chars@.subrange(start as int, k as int).push(chars@[k as int]));
        k += 1;
    }
    proof {
        assert(out@ =~= before + replace_from(s@, old@, new@, if past_end { n + 1 } else { p as int }, start as int));
    }
    crate::unicode::string_from_chars(out.as_slice())
}

/// Where a slice bound lands in a string of `len` characters: a negative
/// bound counts from the end, and both ends clamp.
pub open spec fn adjust_index(i: int, len: int) -> int {
    if i < 0 {
        if i + len < 0 { 0 } else { i + len }
    } else if i > len {
        len
    } else {
        i
    }
}

/// The character range `s[start:end]` of a string of `len` characters;
/// an absent bound is the matching end, and a range that would run
/// backward is empty.
pub open spec fn slice_range(len: int, start: Option<i64>, end: Option<i64>) -> (int, int) {
    let st = match start {
        Some(v) => adjust_index(v as int, len),
        None => 0,
    };
    let en = match end {
        Some(v) => adjust_index(v as int, len),
        None => len,
    };
    (st, if en < st { st } else { en })
}

/// The characters of `s[start:end]`.
pub open spec fn slice_of(s: Seq<char>, start: Option<i64>, end: Option<i64>) -> Seq<char> {
    let (st, en) = slice_range(s.len() as int, start, end);
    s.subrange(st, en)
}

fn adjust_index_exec(i: i64, len: usize) -> (r: usize)
    ensures
        r == adjust_index(i as int, len as int),
{
    if i < 0 {
        let shifted: i128 = (i as i128) + (len as i128);
        if shifted < 0 {
            0
        } else {
            shifted as usize
        }
    } else if (i as i128) > (len as i128) {
        len
    } else {
        i as usize
    }
}

fn slice_range_exec(len: usize, start: Option<i64>, end: Option<i64>) -> (r: (usize, usize))
    ensures
        r.0 == slice_range(len as int, start, end).0,
        r.1 == slice_range(len as int, start, end).1,
        r.0 <= r.1 <= len,
{
    let st = match start {
        Some(v) => adjust_index_exec(v, len),
        None => 0,
    };
    let en = match end {
        Some(v) => adjust_index_exec(v, len),
        None => len,
    };
    (st, if en < st { st } else { en })
}

fn sub_chars(chars: &Vec<char>, from: usize, to: usize) -> (r: Vec<char>)
    requires
        from <= to <= chars@.len(),
    ensures
        r@ == chars@.subrange(from as int, to as int),
{
    let mut out: Vec<char> = Vec::new();
    let mut k: usize = from;
    while k < to
        invariant
            from <= k <= to <= chars@.len(),
            out@ == chars@.subrange(from as int, k as int),
        decreases to - k,
    {
        out.push(chars[k]);
        assert(chars@.subrange(from as int, k + 1) =~= chars@.subrange(from as int, k as int).push(chars@[k as int]));
        k += 1;
    }
    out
}

/// `str.find(sub, start, end)` (and, with `reverse`, `str.rfind`): the
/// position in `s` of the first (last) match of `sub` that lies wholly in
/// `s[start:end]`, or `None` when there is none.
pub fn str_find(s: &str, sub: &str, start: Option<i64>, end: Option<i64>, reverse: bool) -> (r: Option<usize>)
    ensures
        ({
            let st = slice_range(s@.len() as int, start, end).0;
            let w = slice_of(s@, start, end);
            &&& r matches Some(k) ==> st <= k && (if reverse {
                last_occurrence(w, sub@, k - st)
            } else {
                first_occurrence(w, sub@, k - st)
            })
            &&& r is None ==> forall|j: int| !occurs_at(w, sub@, j)
        }),
{
    let chars = chars_of(s);
    let needle = chars_of(sub);
    let (st, en) = slice_range_exec(chars.len(), start, end);
    let w = sub_chars(&chars, st, en);
    let found = if reverse { find_last(&w, &needle) } else { find_first(&w, &needle) };
    match found {
        Some(k) => Some(st + k),
        None => None,
    }
}

/// `str.index(sub, start, end)` (and, with `reverse`, `str.rindex`): as
/// `find`, but a missing substring raises `ValueError`.
pub fn str_index(s: &str, sub: &str, start: Option<i64>, end: Option<i64>, reverse: bool) -> (r: Result<usize, PyError>)
    ensures
        ({
            let st = slice_range(s@.len() as int, start, end).0;
            let w = slice_of(s@, start, end);
            &&& r matches Ok(k) ==> st <= k && (if reverse {
                last_occurrence(w, sub@, k - st)
            } else {
                first_occurrence(w, sub@, k - st)
            })
            &&& r is Err <==> forall|j: int| !occurs_at(w, sub@, j)
            &&& r matches Err(e) ==> e@ == PyErrorView::ValueError("substring not found"@)
        }),
{
    match str_find(s, sub, start, end, reverse) {
        Some(k) => Ok(k),
        None => Err(PyError::ValueError("substring not found".to_owned())),
    }
}

/// `str.count(sub, start, end)`: the number of non-overlapping matches of
/// `sub` in `s[start:end]` (one more than its length for the empty `sub`).
pub fn str_count(s: &str, sub: &str, start: Option<i64>, end: Option<i64>) -> (r: usize)
    requires
        s@.len() < usize::MAX,
    ensures
        r == match_count(slice_of(s@, start, end), sub@, 0),
{
    let chars = chars_of(s);
    let needle = chars_of(sub);
    let (st, en) = slice_range_exec(chars.len(), start, end);
    let w = sub_chars(&chars, st, en);
    count_matches(&w, &needle)
}

/// `str.startswith(prefixes, start, end)`: whether `s[start:end]` begins
/// with one of `prefixes` (a single prefix is a list of one).
pub fn str_startswith(s: &str, prefixes: &[String], start: Option<i64>, end: Option<i64>) -> (r: bool)
    ensures
        r == exists|i: int| 0 <= i < prefixes@.len() && (#[trigger] prefixes@[i])@.is_prefix_of(slice_of(s@, start, end)),
{
    let chars = chars_of(s);
    let (st, en) = slice_range_exec(chars.len(), start, end);
    let w = sub_chars(&chars, st, en);
    let mut i: usize = 0;
    while i < prefixes.len()
        invariant
            i <= prefixes@.len(),
            w@ == slice_of(s@, start, end),
            forall|j: int| 0 <= j < i ==> !(#[trigger] prefixes@[j])@.is_prefix_of(w@),
        decreases prefixes@.len() - i,
    {
        let pc = chars_of(prefixes[i].as_str());
        if occurs_at_exec(&w, &pc, 0) {
            assert(w@.subrange(0, pc@.len() as int) == pc@);
            assert(prefixes@[i as int]@.is_prefix_of(w@));
            return true;
        }
        proof {
            if prefixes@[i as int]@.is_prefix_of(w@) {
                assert(w@.subrange(0, pc@.len() as int) =~= pc@);
            }
        }
        i += 1;
    }
    false
}

/// `str.endswith(suffixes, start, end)`: whether `s[start:end]` ends with
/// one of `suffixes`.
pub fn str_endswith(s: &str, suffixes: &[String], start: Option<i64>, end: Option<i64>) -> (r: bool)
    ensures
        r == exists|i: int| 0 <= i < suffixes@.len() && (#[trigger] suffixes@[i])@.is_suffix_of(slice_of(s@, start, end)),
{
    let chars = chars_of(s);
    let (st, en) = slice_range_exec(chars.len(), start, end);
    let w = sub_chars(&chars, st, en);
    let mut i: usize = 0;
    while i < suffixes.len()
        invariant
            i <= suffixes@.len(),
            w@ == slice_of(s@, start, end),
            forall|j: int| 0 <= j < i ==> !(#[trigger] suffixes@[j])@.is_suffix_of(w@),
        decreases suffixes@.len() - i,
    {
        let pc = chars_of(suffixes[i].as_str());
        if pc.len() <= w.len() && occurs_at_exec(&w, &pc, w.len() - pc.len()) {
            assert(w@.subrange(w@.len() - pc@.len(), w@.len() as int) == pc@);
            assert(suffixes@[i as int]@.is_suffix_of(w@));
            return true;
        }
        proof {
            if suffixes@[i as int]@.is_suffix_of(w@) {
                assert(w@.subrange(w@.len() - pc@.len(), w@.len() as int) =~= pc@);
            }
        }
        i += 1;
    }
    false
}

/// The parts put one after the other with `sep` between each two.
pub open spec fn join_with(parts: Seq<Seq<char>>, sep: Seq<char>) -> Seq<char>
    decreases parts.len(),
{
    if parts.len() == 0 {
        Seq::empty()
    } else if parts.len() == 1 {
        parts[0]
    } else {
        parts[0] + sep + join_with(parts.drop_first(), sep)
    }
}

/// Joining one more part adds the separator and that part at the end.
pub proof fn lemma_join_push(parts: Seq<Seq<char>>, sep: Seq<char>, x: Seq<char>)
    requires
        parts.len() > 0,
    ensures
        join_with(parts.push(x), sep) =~= join_with(parts, sep) + sep + x,
    decreases parts.len(),
{
    if parts.len() == 1 {
        assert(parts.push(x).drop_first() =~= seq![x]);
        assert(join_with(seq![x], sep) == x);
    } else {
        assert(parts.push(x).drop_first() =~= parts.drop_first().push(x));
        lemma_join_push(parts.drop_first(), sep, x);
        let rest = join_with(parts.drop_first(), sep);
        assert(join_with(parts.push(x), sep) == parts[0] + sep + (rest + sep + x));
        assert(join_with(parts, sep) == parts[0] + sep + rest);
        assert(parts[0] + sep + (rest + sep + x) =~= parts[0] + sep + rest + sep + x);
    }
}

/// `sep.join(parts)` for a list of strings.
pub fn str_join(sep: &str, parts: &[String]) -> (r: String)
    ensures
        r@ == join_with(strings_view(parts@), sep@),
{
    let sc = chars_of(sep);
    let mut out: Vec<char> = Vec::new();
    let mut i: usize = 0;
    while i < parts.len()
        invariant
            i <= parts@.len(),
            sc@ == sep@,
            out@ == join_with(strings_view(parts@.subrange(0, i as int)), sep@),
        decreases parts@.len() - i,
    {
        let ghost before = out@;
        let pc = chars_of(parts[i].as_str());
        if i > 0 {
            let mut j: usize = 0;
            while j < sc.len()
                invariant
                    j <= sc@.len(),
                    out@ == before + sc@.subrange(0, j as int),
                decreases sc@.len() - j,
            {
                out.push(sc[j]);
                assert(sc@.subrange(0, j + 1) =~= sc@.subrange(0, j as int).push(sc@[j as int]));
                j += 1;
            }
            assert(sc@.subrange(0, sc@.len() as int) =~= sc@);
        }
        let ghost middle = out@;
        let mut k: usize = 0;
        while k < pc.len()
            invariant
                k <= pc@.len(),
                out@ == middle + pc@.subrange(0, k as int),
            decreases pc@.len() - k,
        {
            out.push(pc[k]);
            assert(pc@.subrange(0, k + 1) =~= pc@.subrange(0, k as int).push(pc@[k as int]));
            k += 1;
        }
        proof {
            assert(pc@.subrange(0, pc@.len() as int) =~= pc@);
            let done = strings_view(parts@.subrange(0, i as int));
            assert(strings_view(parts@.subrange(0, i + 1)) =~= done.push(parts@[i as int]@));
            if i > 0 {
                lemma_join_push(done, sep@, parts@[i as int]@);
            } else {
                assert(done.push(parts@[i as int]@) =~= seq![parts@[i as int]@]);
            }
        }
        i += 1;
    }
    assert(parts@.subrange(0, parts@.len() as int) =~= parts@);
    crate::unicode::string_from_chars(out.as_slice())
}

} // verus!
