//! Properties of the text operations stated over their inputs and results:
//! the word rule of `str.title`, the final-sigma rule of `str.lower`, and
//! the `!a` conversion of `str.format`.

use vstd::prelude::*;
use crate::case::{concat_map, is_cased, title, titlecase_of, lower_final_sigma, lower_in_context, title_at};
use crate::unicode::unicode_lowercase;
use crate::format_plan::{read_field_spec, index_of, lemma_index_of_bounds, StepView, Conversion, Numbering};

verus! {

proof fn lemma_concat_map_ext(n: nat, f: spec_fn(int) -> Seq<char>, g: spec_fn(int) -> Seq<char>)
    requires
        forall|k: int| 0 <= k < n ==> #[trigger] f(k) == g(k),
    ensures
        concat_map(n, f) == concat_map(n, g),
    decreases n,
{
    if n > 0 {
        lemma_concat_map_ext((n - 1) as nat, f, g);
    }
}

proof fn lemma_concat_map_prefix(n: nat, f: spec_fn(int) -> Seq<char>, i: nat)
    requires
        i <= n,
    ensures
        concat_map(i, f).len() <= concat_map(n, f).len(),
        forall|k: int| 0 <= k < concat_map(i, f).len() ==> concat_map(n, f)[k] == concat_map(i, f)[k],
    decreases n,
{
    if i < n {
        lemma_concat_map_prefix((n - 1) as nat, f, i);
    }
}

proof fn lemma_concat_map_at(n: nat, f: spec_fn(int) -> Seq<char>, i: int, j: int)
    requires
        0 <= i < n,
        0 <= j < f(i).len(),
    ensures
        concat_map(i as nat, f).len() + j < concat_map(n, f).len(),
        concat_map(n, f)[concat_map(i as nat, f).len() + j] == f(i)[j],
{
    lemma_concat_map_prefix(n, f, (i + 1) as nat);
    assert(concat_map((i + 1) as nat, f) == concat_map(i as nat, f) + f(i));
}

/// `str.title`, character by character: it reads the text from the left,
/// and each character adds to what the characters before it gave. A cased
/// character that follows a cased character adds its lowercase mapping (so
/// every letter of a word after the first is lowercased); a cased character
/// that starts a word adds its titlecase; any other character is kept.
pub proof fn law_title_word_rule(s: Seq<char>, i: int)
    requires
        0 <= i < s.len(),
    ensures
        title(Seq::<char>::empty()) == Seq::<char>::empty(),
        i > 0 && is_cased(s[i - 1]) && is_cased(s[i])
            ==> title(s.take(i + 1)) == title(s.take(i)) + unicode_lowercase(s[i]),
        !(i > 0 && is_cased(s[i - 1])) && is_cased(s[i])
            ==> title(s.take(i + 1)) == title(s.take(i)) + titlecase_of(s[i]),
        !is_cased(s[i]) ==> title(s.take(i + 1)) == title(s.take(i)) + seq![s[i]],
{
    let a = s.take(i + 1);
    let b = s.take(i);
    let fa = |k: int| title_at(a, k);
    let fb = |k: int| title_at(b, k);
    assert(title(a) == concat_map(a.len(), fa));
    assert(title(b) == concat_map(b.len(), fb));
    assert forall|k: int| 0 <= k < i implies #[trigger] fa(k) == fb(k) by {
        assert(a[k] == b[k]);
        if k > 0 {
            assert(a[k - 1] == b[k - 1]);
        }
    }
    lemma_concat_map_ext(i as nat, fa, fb);
    assert(concat_map((i + 1) as nat, fa) == concat_map(i as nat, fa) + fa(i));
    assert(a[i] == s[i]);
    if i > 0 {
        assert(a[i - 1] == s[i - 1]);
    }
}

/// Where the lowercase of `s[i]` starts in `s.lower()`: the total length
/// of the lowercase mappings of the characters before it.
pub open spec fn lower_offset(s: Seq<char>, i: int) -> int {
    concat_map(i as nat, |k: int| unicode_lowercase(s[k])).len() as int
}

proof fn lemma_lower_lengths(s: Seq<char>, m: nat)
    ensures
        concat_map(m, |k: int| lower_in_context(s, k)).len() == concat_map(m, |k: int| unicode_lowercase(s[k])).len(),
    decreases m,
{
    if m > 0 {
        lemma_lower_lengths(s, (m - 1) as nat);
    }
}

/// The final-sigma rule of `str.lower`: each character contributes its
/// lowercase mapping at `lower_offset`, except that a small sigma U+03C3
/// it yields becomes the final sigma U+03C2 exactly when a cased character
/// precedes it and none follows it. A sigma followed by a cased character
/// (inside a word) stays U+03C3.
pub proof fn law_lower_final_sigma(s: Seq<char>, i: int, j: int)
    requires
        0 <= i < s.len(),
        0 <= j < unicode_lowercase(s[i]).len(),
    ensures
        lower_final_sigma(s).len() == concat_map(s.len(), |k: int| unicode_lowercase(s[k])).len(),
        lower_offset(s, i) + j < lower_final_sigma(s).len(),
        unicode_lowercase(s[i])[j] != '\u{03C3}'
            ==> lower_final_sigma(s)[lower_offset(s, i) + j] == unicode_lowercase(s[i])[j],
        unicode_lowercase(s[i])[j] == '\u{03C3}' && i + 1 < s.len() && is_cased(s[i + 1])
            ==> lower_final_sigma(s)[lower_offset(s, i) + j] == '\u{03C3}',
        unicode_lowercase(s[i])[j] == '\u{03C3}' && !(i > 0 && is_cased(s[i - 1]))
            ==> lower_final_sigma(s)[lower_offset(s, i) + j] == '\u{03C3}',
        unicode_lowercase(s[i])[j] == '\u{03C3}' && i > 0 && is_cased(s[i - 1]) && !(i + 1 < s.len() && is_cased(s[i + 1]))
            ==> lower_final_sigma(s)[lower_offset(s, i) + j] == '\u{03C2}',
{
    let f = |k: int| lower_in_context(s, k);
    assert(lower_final_sigma(s) == concat_map(s.len(), f));
    lemma_lower_lengths(s, s.len());
    lemma_lower_lengths(s, i as nat);
    assert(f(i).len() == unicode_lowercase(s[i]).len());
    lemma_concat_map_at(s.len(), f, i, j);
}

proof fn lemma_index_of_same(s: Seq<char>, t: Seq<char>, c: char, j: int)
    requires
        s.len() == t.len(),
        forall|m: int| 0 <= m < s.len() ==> (#[trigger] s[m] == c) == (t[m] == c),
    ensures
        index_of(s, c, j) == index_of(t, c, j),
    decreases s.len() - j,
{
    if j >= 0 && j < s.len() && s[j] != c {
        lemma_index_of_same(s, t, c, j + 1);
    }
}

/// Where the first `c` of `s` lies, when the positions before `at` hold
/// none and `s[at]` is one.
proof fn lemma_index_of_is(s: Seq<char>, c: char, at: int)
    requires
        0 <= at < s.len(),
        s[at] == c,
        forall|m: int| 0 <= m < at ==> s[m] != c,
    ensures
        index_of(s, c, 0) == at,
{
    lemma_index_of_bounds(s, c, 0);
}

/// The `!a` conversion of `str.format` reads as `!r`: in a replacement
/// field whose conversion is `!a`, writing `!r` instead changes nothing in
/// what the field plans, and the value the field names is shown by its
/// `repr` (the `Repr` conversion).
pub proof fn law_format_ascii_conversion_is_repr(f: Seq<char>, i: int, close: int, k: int, st: Numbering, npos: nat)
    requires
        0 <= i,
        i + 2 <= k,
        k < close <= f.len(),
        f[k - 1] == '!',
        f[k] == 'a',
        forall|m: int| i < m < k - 1 ==> f[m] != '!',
        forall|m: int| i < m <= k ==> f[m] != ':',
        k + 1 == close || f[k + 1] == ':',
    ensures
        read_field_spec(f, i, close, st, npos) == read_field_spec(f.update(k, 'r'), i, close, st, npos),
        read_field_spec(f, i, close, st, npos).0.len() > 0 ==>
            (read_field_spec(f, i, close, st, npos).0[0] matches StepView::Value { conversion, .. } && conversion == Conversion::Repr),
{
    reveal(read_field_spec);
    reveal_strlit("a");
    reveal_strlit("r");
    reveal_strlit("s");
    let f2 = f.update(k, 'r');
    let field = f.subrange(i + 1, close);
    let field2 = f2.subrange(i + 1, close);
    let p = k - i - 1;
    assert(field2 =~= field.update(p, 'r'));
    assert forall|m: int| 0 <= m < field.len() implies (#[trigger] field[m] == ':') == (field2[m] == ':') by {
        if m == p { assert(field[m] == 'a' && field2[m] == 'r'); }
    }
    lemma_index_of_same(field, field2, ':', 0);
    let colon = index_of(field, ':', 0);
    lemma_index_of_bounds(field, ':', 0);
    assert forall|m: int| 0 <= m <= p implies field[m] != ':' by {
        assert(field[m] == f[i + 1 + m]);
    }
    if k + 1 == close {
        assert(field.len() == p + 1);
        assert(colon == -1);
    } else {
        assert(field[p + 1] == f[k + 1]);
        lemma_index_of_is(field, ':', p + 1);
        assert(colon == p + 1);
    }
    let head = if colon < 0 { field } else { field.subrange(0, colon) };
    let head2 = if colon < 0 { field2 } else { field2.subrange(0, colon) };
    assert(head.len() == p + 1);
    assert(head2 =~= head.update(p, 'r'));
    assert(head[p - 1] == '!') by { assert(head[p - 1] == f[k - 1]); }
    assert forall|m: int| 0 <= m < p - 1 implies head[m] != '!' by {
        assert(head[m] == f[i + 1 + m]);
    }
    lemma_index_of_is(head, '!', p - 1);
    assert forall|m: int| 0 <= m < p - 1 implies head2[m] != '!' by {
        assert(head2[m] == head[m]);
    }
    lemma_index_of_is(head2, '!', p - 1);
    assert(head.subrange(0, p - 1) =~= head2.subrange(0, p - 1));
    assert(head.subrange(p, head.len() as int) =~= "a"@);
    assert(head2.subrange(p, head2.len() as int) =~= "r"@);
    if colon >= 0 {
        assert(field.subrange(colon + 1, field.len() as int) =~= field2.subrange(colon + 1, field2.len() as int));
    }
}

} // verus!
