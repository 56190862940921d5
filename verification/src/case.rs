//! Case mappings of `str`: `lower` (with the Greek final-sigma rule),
//! `swapcase`, `title` and `capitalize`.

use vstd::prelude::*;
use crate::unicode::{unicode_is_uppercase, unicode_is_lowercase, unicode_lowercase, unicode_uppercase, char_is_uppercase, char_is_lowercase, char_to_lowercase, char_to_uppercase, string_from_chars, chars_of};

verus! {

/// Concatenation of `f(0) + f(1) + ... + f(n - 1)`.
pub open spec fn concat_map(n: nat, f: spec_fn(int) -> Seq<char>) -> Seq<char>
    decreases n,
{
    if n == 0 {
        Seq::empty()
    } else {
        concat_map((n - 1) as nat, f) + f(n - 1)
    }
}

/// A cased character: one with the `Uppercase` or the `Lowercase` property.
pub open spec fn is_cased(c: char) -> bool {
    unicode_is_uppercase(c) || unicode_is_lowercase(c)
}

/// Position `i` of `s` ends a word for the final-sigma rule: a cased
/// character precedes it and no cased character follows it.
pub open spec fn ends_word(s: Seq<char>, i: int) -> bool {
    (i > 0 && is_cased(s[i - 1])) && !(i + 1 < s.len() && is_cased(s[i + 1]))
}

/// The lowercase mapping of `s[i]`, where a small sigma that ends a word is
/// written as final sigma (U+03C2).
pub open spec fn lower_in_context(s: Seq<char>, i: int) -> Seq<char> {
    unicode_lowercase(s[i]).map_values(
        |lc: char| if lc == '\u{03C3}' && ends_word(s, i) { '\u{03C2}' } else { lc },
    )
}

/// `str.lower` of `s`.
pub open spec fn lower_final_sigma(s: Seq<char>) -> Seq<char> {
    concat_map(s.len(), |i: int| lower_in_context(s, i))
}

/// `str.swapcase` of one character of `s`: uppercase characters are
/// lowercased (with the final-sigma rule), lowercase ones uppercased, the
/// rest kept.
pub open spec fn swapcase_at(s: Seq<char>, i: int) -> Seq<char> {
    if unicode_is_uppercase(s[i]) {
        lower_in_context(s, i)
    } else if unicode_is_lowercase(s[i]) {
        unicode_uppercase(s[i])
    } else {
        seq![s[i]]
    }
}

pub open spec fn swapcase(s: Seq<char>) -> Seq<char> {
    concat_map(s.len(), |i: int| swapcase_at(s, i))
}

/// The titlecase of a character: the first character of its uppercase
/// mapping followed by the lowercase of the remaining ones (a ligature
/// such as U+FB01 becomes "Fi").
pub open spec fn titlecase_of(c: char) -> Seq<char> {
    let up = unicode_uppercase(c);
    if up.len() == 0 {
        Seq::empty()
    } else {
        seq![up[0]] + concat_map((up.len() - 1) as nat, |k: int| unicode_lowercase(up[k + 1]))
    }
}

/// `str.title` of one character: a cased character that follows a cased
/// one is lowercased, any other cased character titlecased.
pub open spec fn title_at(s: Seq<char>, i: int) -> Seq<char> {
    if is_cased(s[i]) {
        if i > 0 && is_cased(s[i - 1]) {
            unicode_lowercase(s[i])
        } else {
            titlecase_of(s[i])
        }
    } else {
        seq![s[i]]
    }
}

pub open spec fn title(s: Seq<char>) -> Seq<char> {
    concat_map(s.len(), |i: int| title_at(s, i))
}

/// `str.capitalize`: the lowercase of `s` with its first character
/// titlecased.
pub open spec fn capitalize(s: Seq<char>) -> Seq<char> {
    let l = lower_final_sigma(s);
    if l.len() == 0 {
        Seq::empty()
    } else {
        titlecase_of(l[0]) + l.drop_first()
    }
}

fn is_cased_char(c: char) -> (r: bool)
    ensures
        r == is_cased(c),
{
    char_is_uppercase(c) || char_is_lowercase(c)
}

/// Appends `lower_in_context(chars, i)` to `out`.
fn push_lower_in_context(out: &mut Vec<char>, chars: &Vec<char>, i: usize)
    requires
        i < chars@.len(),
    ensures
        final(out)@ == old(out)@ + lower_in_context(chars@, i as int),
{
    let n = chars.len();
    let prev_cased = i > 0 && is_cased_char(chars[i - 1]);
    let lower = char_to_lowercase(chars[i]);
    let ghost base = out@;
    let ghost target = lower_in_context(chars@, i as int);
    let mut j: usize = 0;
    while j < lower.len()
        invariant
            n == chars@.len(),
            i < n,
            prev_cased == (i > 0 && is_cased(chars@[i - 1])),
            lower@ == unicode_lowercase(chars@[i as int]),
            target == lower_in_context(chars@, i as int),
            j <= lower@.len(),
            out@ == base + target.subrange(0, j as int),
        decreases lower@.len() - j,
    {
        let lc = lower[j];
        if lc == '\u{03C3}' {
            let next_cased = i + 1 < n && is_cased_char(chars[i + 1]);
            if prev_cased && !next_cased {
                out.push('\u{03C2}');
            } else {
                out.push('\u{03C3}');
            }
        } else {
            out.push(lc);
        }
        assert(target.subrange(0, j + 1) =~= target.subrange(0, j as int).push(target[j as int]));
        j += 1;
    }
    assert(target.subrange(0, j as int) =~= target);
}

/// Appends `chars` to `out`.
fn push_all(out: &mut Vec<char>, chars: &Vec<char>)
    ensures
        final(out)@ == old(out)@ + chars@,
{
    let ghost base = out@;
    let mut j: usize = 0;
    while j < chars.len()
        invariant
            j <= chars@.len(),
            out@ == base + chars@.subrange(0, j as int),
        decreases chars@.len() - j,
    {
        out.push(chars[j]);
        assert(chars@.subrange(0, j + 1) =~= chars@.subrange(0, j as int).push(chars@[j as int]));
        j += 1;
    }
    assert(chars@.subrange(0, j as int) =~= chars@);
}

/// Appends the titlecase of `c` to `out`.
fn push_titlecase(out: &mut Vec<char>, c: char)
    ensures
        final(out)@ == old(out)@ + titlecase_of(c),
{
    let up = char_to_uppercase(c);
    if up.len() == 0 {
        assert(titlecase_of(c) =~= Seq::<char>::empty());
        return;
    }
    let ghost base = out@;
    let ghost f = |k: int| unicode_lowercase(up@[k + 1]);
    out.push(up[0]);
    let mut k: usize = 1;
    while k < up.len()
        invariant
            up@ == unicode_uppercase(c),
            1 <= k <= up@.len(),
            f == (|k: int| unicode_lowercase(up@[k + 1])),
            out@ == base + seq![up@[0]] + concat_map((k - 1) as nat, f),
        decreases up@.len() - k,
    {
        let low = char_to_lowercase(up[k]);
        push_all(out, &low);
        assert(concat_map(k as nat, f) == concat_map((k - 1) as nat, f) + f(k - 1));
        k += 1;
    }
    assert(base + titlecase_of(c) =~= base + seq![up@[0]] + concat_map((k - 1) as nat, f));
}

/// Lowercase with CPython's final-sigma rule: a small sigma produced for a
/// character that ends a word (a cased character before it, none after
/// it) becomes final sigma U+03C2; `'A\u{3a3}'` lowercases to
/// `'a\u{3c2}'`.
pub fn lower_with_final_sigma(s: &str) -> (r: String)
    ensures
        r@ == lower_final_sigma(s@),
{
    let chars = chars_of(s);
    let ghost f = |i: int| lower_in_context(chars@, i);
    let mut out: Vec<char> = Vec::new();
    let mut i: usize = 0;
    while i < chars.len()
        invariant
            i <= chars@.len(),
            chars@ == s@,
            f == (|i: int| lower_in_context(chars@, i)),
            out@ == concat_map(i as nat, f),
        decreases chars@.len() - i,
    {
        push_lower_in_context(&mut out, &chars, i);
        i += 1;
    }
    string_from_chars(out.as_slice())
}

/// `str.swapcase`.
pub fn str_swapcase(s: &str) -> (r: String)
    ensures
        r@ == swapcase(s@),
{
    let chars = chars_of(s);
    let ghost f = |i: int| swapcase_at(chars@, i);
    let mut out: Vec<char> = Vec::new();
    let mut i: usize = 0;
    while i < chars.len()
        invariant
            i <= chars@.len(),
            chars@ == s@,
            f == (|i: int| swapcase_at(chars@, i)),
            out@ == concat_map(i as nat, f),
        decreases chars@.len() - i,
    {
        let c = chars[i];
        if char_is_uppercase(c) {
            push_lower_in_context(&mut out, &chars, i);
        } else if char_is_lowercase(c) {
            let up = char_to_uppercase(c);
            push_all(&mut out, &up);
        } else {
            out.push(c);
        }
        i += 1;
    }
    string_from_chars(out.as_slice())
}

/// `str.title`.
pub fn str_title(s: &str) -> (r: String)
    ensures
        r@ == title(s@),
{
    let chars = chars_of(s);
    let ghost f = |i: int| title_at(chars@, i);
    let mut out: Vec<char> = Vec::new();
    let mut prev_cased = false;
    let mut i: usize = 0;
    while i < chars.len()
        invariant
            i <= chars@.len(),
            chars@ == s@,
            f == (|i: int| title_at(chars@, i)),
            prev_cased == (i > 0 && is_cased(chars@[i - 1])),
            out@ == concat_map(i as nat, f),
        decreases chars@.len() - i,
    {
        let c = chars[i];
        if is_cased_char(c) {
            if !prev_cased {
                push_titlecase(&mut out, c);
            } else {
                let low = char_to_lowercase(c);
                push_all(&mut out, &low);
            }
            prev_cased = true;
        } else {
            out.push(c);
            prev_cased = false;
        }
        i += 1;
    }
    string_from_chars(out.as_slice())
}

/// `str.capitalize`.
pub fn str_capitalize(s: &str) -> (r: String)
    ensures
        r@ == capitalize(s@),
{
    let lower = lower_with_final_sigma(s);
    let chars = chars_of(lower.as_str());
    if chars.len() == 0 {
        return string_from_chars(chars.as_slice());
    }
    let mut out: Vec<char> = Vec::new();
    push_titlecase(&mut out, chars[0]);
    let ghost head = out@;
    let mut i: usize = 1;
    while i < chars.len()
        invariant
            1 <= i <= chars@.len(),
            out@ == head + chars@.subrange(1, i as int),
        decreases chars@.len() - i,
    {
        out.push(chars[i]);
        assert(chars@.subrange(1, i + 1) =~= chars@.subrange(1, i as int).push(chars@[i as int]));
        i += 1;
    }
    assert(chars@.subrange(1, i as int) =~= chars@.drop_first());
    string_from_chars(out.as_slice())
}

} // verus!
