//! How `re.Pattern.sub`, `subn` and `split` put their result together from
//! the matches the pattern found. A match is given by its span in
//! characters of the text (and, for `split`, the text of its groups); the
//! replacement of each match is given too.

use vstd::prelude::*;
use crate::unicode::chars_of;

verus! {

/// The result of `sub`/`subn` from match `i` on, with the text consumed up
/// to `last_end` and `n` replacements made: matches that start before
/// `last_end` are skipped, a positive `count` caps the replacements, and
/// the text after the last replaced match is kept. The second component
/// is the number of replacements.
pub open spec fn sub_fold(text: Seq<char>, spans: Seq<(usize, usize)>, reps: Seq<Seq<char>>, count: i64, i: int, last_end: int, n: nat) -> (Seq<char>, nat)
    decreases spans.len() - i,
{
    if i < 0 || i >= spans.len() || (count > 0 && n >= count) {
        (text.subrange(last_end, text.len() as int), n)
    } else if spans[i].0 < last_end {
        sub_fold(text, spans, reps, count, i + 1, last_end, n)
    } else {
        let rest = sub_fold(text, spans, reps, count, i + 1, spans[i].1 as int, n + 1);
        (text.subrange(last_end, spans[i].0 as int) + reps[i] + rest.0, rest.1)
    }
}

/// Whether every span lies inside a text of `len` characters.
pub open spec fn spans_inside(spans: Seq<(usize, usize)>, len: int) -> bool {
    forall|i: int| 0 <= i < spans.len() ==> #[trigger] spans[i].0 <= spans[i].1 && spans[i].1 <= len
}

/// `subn(repl, text, count)` (and `sub`, which keeps only the text): each
/// match, in order, is replaced by its replacement; a match overlapping an
/// earlier replaced one is skipped; a positive `count` caps the number of
/// replacements. Returns the new text and the number of replacements.
pub fn pattern_subn(text: &str, spans: &Vec<(usize, usize)>, replacements: &Vec<String>, count: i64) -> (r: (String, usize))
    requires
        spans@.len() == replacements@.len(),
        spans_inside(spans@, text@.len() as int),
    ensures
        r.0@ == sub_fold(text@, spans@, replacements@.map_values(|s: String| s@), count, 0, 0, 0).0,
        r.1 == sub_fold(text@, spans@, replacements@.map_values(|s: String| s@), count, 0, 0, 0).1,
{
    let ghost reps = replacements@.map_values(|s: String| s@);
    let chars = chars_of(text);
    let mut out: Vec<char> = Vec::new();
    let mut last_end: usize = 0;
    let mut n: usize = 0;
    let mut i: usize = 0;
    while i < spans.len()
        invariant
            chars@ == text@,
            reps == replacements@.map_values(|s: String| s@),
            spans@.len() == replacements@.len(),
            spans_inside(spans@, text@.len() as int),
            i <= spans@.len(),
            n <= i,
            last_end <= text@.len(),
            out@ + sub_fold(text@, spans@, reps, count, i as int, last_end as int, n as nat).0
                == sub_fold(text@, spans@, reps, count, 0, 0, 0).0,
            sub_fold(text@, spans@, reps, count, i as int, last_end as int, n as nat).1
                == sub_fold(text@, spans@, reps, count, 0, 0, 0).1,
        ensures
            i >= spans@.len() || (count > 0 && n >= count),
        decreases spans@.len() - i,
    {
        if count > 0 && (n as i128) >= (count as i128) {
            break;
        }
        let (s, e) = spans[i];
        assert(spans@[i as int].0 <= spans@[i as int].1 && spans@[i as int].1 <= text@.len());
        if s < last_end {
            i += 1;
            continue;
        }
        let ghost before = out@;
        let mut k: usize = last_end;
        while k < s
            invariant
                chars@ == text@,
                last_end <= k <= s,
                s <= text@.len(),
                out@ == before + text@.subrange(last_end as int, k as int),
            decreases s - k,
        {
            out.push(chars[k]);
            assert(text@.subrange(last_end as int, k + 1) =~= text@.subrange(last_end as int, k as int).push(text@[k as int]));
            k += 1;
        }
        let rep = chars_of(replacements[i].as_str());
        let ghost mid = out@;
        let mut j: usize = 0;
        while j < rep.len()
            invariant
                j <= rep@.len(),
                out@ == mid + rep@.subrange(0, j as int),
            decreases rep@.len() - j,
        {
            out.push(rep[j]);
            assert(rep@.subrange(0, j + 1) =~= rep@.subrange(0, j as int).push(rep@[j as int]));
            j += 1;
        }
        proof {
            assert(rep@.subrange(0, j as int) =~= rep@);
            assert(reps[i as int] == replacements@[i as int]@);
            assert(out@ =~= before + text@.subrange(last_end as int, s as int) + reps[i as int]);
        }
        last_end = e;
        n += 1;
        i += 1;
    }
    let ghost before = out@;
    let mut k: usize = last_end;
    while k < chars.len()
        invariant
            chars@ == text@,
            last_end <= k <= text@.len(),
            out@ == before + text@.subrange(last_end as int, k as int),
        decreases text@.len() - k,
    {
        out.push(chars[k]);
        assert(text@.subrange(last_end as int, k + 1) =~= text@.subrange(last_end as int, k as int).push(text@[k as int]));
        k += 1;
    }
    let result = crate::unicode::string_from_chars(out.as_slice());
    (result, n)
}

/// A match of a pattern: its span in characters and the text of each
/// group (absent for a group that did not take part).
pub struct MatchSpan {
    pub start: usize,
    pub end: usize,
    pub groups: Vec<Option<String>>,
}

/// An optional string by its characters.
pub open spec fn opt_chars(o: Option<String>) -> Option<Seq<char>> {
    match o {
        Some(s) => Some(s@),
        None => None,
    }
}

/// The groups of a match, by their characters.
pub open spec fn group_texts(m: MatchSpan) -> Seq<Option<Seq<char>>> {
    m.groups@.map_values(|g: Option<String>| opt_chars(g))
}

/// The pieces `split` produces from match `i` on, with the text consumed up
/// to `last_end` and `n` splits made: a non-zero `maxsplit` caps the
/// splits; an empty match at the end of the text ends the split; an empty
/// match right where the previous piece ended splits there and steps over
/// one character; every other match splits around itself. Each split adds
/// the piece before the match and then the match's groups; the text after
/// the last split is the final piece.
pub open spec fn split_fold(text: Seq<char>, ms: Seq<MatchSpan>, maxsplit: usize, i: int, last_end: int, n: nat) -> Seq<Option<Seq<char>>>
    decreases ms.len() - i,
{
    if i < 0 || i >= ms.len() || (maxsplit != 0 && n >= maxsplit)
        || (ms[i].start == ms[i].end && ms[i].start == text.len()) {
        seq![Some(text.subrange(last_end, text.len() as int))]
    } else if ms[i].start == ms[i].end && ms[i].start == last_end {
        seq![Some(text.subrange(last_end, ms[i].start as int))] + group_texts(ms[i])
            + split_fold(text, ms, maxsplit, i + 1, ms[i].start + 1, n + 1)
    } else {
        seq![Some(text.subrange(last_end, ms[i].start as int))] + group_texts(ms[i])
            + split_fold(text, ms, maxsplit, i + 1, ms[i].end as int, n + 1)
    }
}

/// Whether `split` runs over the matches without a piece running backwards:
/// every piece it cuts starts no later than it ends, and stays inside the
/// text.
pub open spec fn split_in_order(len: int, ms: Seq<MatchSpan>, maxsplit: usize, i: int, last_end: int, n: nat) -> bool
    decreases ms.len() - i,
{
    if i < 0 || i >= ms.len() || (maxsplit != 0 && n >= maxsplit)
        || (ms[i].start == ms[i].end && ms[i].start == len) {
        last_end <= len
    } else {
        &&& last_end <= ms[i].start <= ms[i].end <= len
        &&& if ms[i].start == ms[i].end && ms[i].start == last_end {
            split_in_order(len, ms, maxsplit, i + 1, ms[i].start + 1, n + 1)
        } else {
            split_in_order(len, ms, maxsplit, i + 1, ms[i].end as int, n + 1)
        }
    }
}

/// Appends `text[from..to]` to `out`.
fn push_piece(out: &mut Vec<Option<String>>, chars: &Vec<char>, from: usize, to: usize)
    requires
        from <= to <= chars@.len(),
    ensures
        final(out)@.map_values(|o: Option<String>| opt_chars(o))
            == old(out)@.map_values(|o: Option<String>| opt_chars(o)).push(Some(chars@.subrange(from as int, to as int))),
{
    let piece = crate::strsearch::slice_to_string(chars, from, to);
    out.push(Some(piece));
    assert(out@.map_values(|o: Option<String>| opt_chars(o))
        =~= old(out)@.map_values(|o: Option<String>| opt_chars(o)).push(Some(chars@.subrange(from as int, to as int))));
}

/// Appends the groups of `m` to `out`.
fn push_groups(out: &mut Vec<Option<String>>, m: &MatchSpan)
    ensures
        final(out)@.map_values(|o: Option<String>| opt_chars(o))
            == old(out)@.map_values(|o: Option<String>| opt_chars(o)) + group_texts(*m),
{
    let ghost start = out@.map_values(|o: Option<String>| opt_chars(o));
    let mut g: usize = 0;
    while g < m.groups.len()
        invariant
            g <= m.groups@.len(),
            out@.map_values(|o: Option<String>| opt_chars(o)) == start + group_texts(*m).subrange(0, g as int),
        decreases m.groups@.len() - g,
    {
        let item: Option<String> = match &m.groups[g] {
            Some(t) => Some(t.clone()),
            None => None,
        };
        let ghost prev = out@;
        out.push(item);
        assert(out@.map_values(|o: Option<String>| opt_chars(o))
            =~= prev.map_values(|o: Option<String>| opt_chars(o)).push(opt_chars(m.groups@[g as int])));
        assert(group_texts(*m).subrange(0, g + 1) =~= group_texts(*m).subrange(0, g as int).push(opt_chars(m.groups@[g as int])));
        g += 1;
    }
    assert(group_texts(*m).subrange(0, g as int) =~= group_texts(*m));
}

/// `split(text, maxsplit)`: the text cut at each match, in order, with the
/// groups of each match between the pieces; a non-zero `maxsplit` caps the
/// number of cuts.
pub fn pattern_split(text: &str, matches: &Vec<MatchSpan>, maxsplit: usize) -> (r: Vec<Option<String>>)
    requires
        split_in_order(text@.len() as int, matches@, maxsplit, 0, 0, 0),
    ensures
        r@.map_values(|o: Option<String>| opt_chars(o)) == split_fold(text@, matches@, maxsplit, 0, 0, 0),
{
    let chars = chars_of(text);
    let len = chars.len();
    let mut out: Vec<Option<String>> = Vec::new();
    let mut last_end: usize = 0;
    let mut n: usize = 0;
    let mut i: usize = 0;
    assert(out@.map_values(|o: Option<String>| opt_chars(o)) =~= Seq::<Option<Seq<char>>>::empty());
    while i < matches.len()
        invariant
            chars@ == text@,
            len == text@.len(),
            i <= matches@.len(),
            n <= i,
            split_in_order(len as int, matches@, maxsplit, i as int, last_end as int, n as nat),
            out@.map_values(|o: Option<String>| opt_chars(o)) + split_fold(text@, matches@, maxsplit, i as int, last_end as int, n as nat)
                == split_fold(text@, matches@, maxsplit, 0, 0, 0),
        ensures
            i >= matches@.len() || (maxsplit != 0 && n >= maxsplit)
                || (matches@[i as int].start == matches@[i as int].end && matches@[i as int].start == len),
        decreases matches@.len() - i,
    {
        if maxsplit != 0 && n >= maxsplit {
            break;
        }
        let s = matches[i].start;
        let e = matches[i].end;
        if s == e && s == len {
            break;
        }
        let ghost acc = out@.map_values(|o: Option<String>| opt_chars(o));
        push_piece(&mut out, &chars, last_end, s);
        push_groups(&mut out, &matches[i]);
        let ghost next_last: int = if s == e && s == last_end { s + 1 } else { e as int };
        proof {
            assert(out@.map_values(|o: Option<String>| opt_chars(o))
                =~= acc + seq![Some(text@.subrange(last_end as int, s as int))] + group_texts(matches@[i as int]));
        }
        if s == e && s == last_end {
            last_end = s + 1;
        } else {
            last_end = e;
        }
        proof {
            assert(last_end == next_last);
            assert(out@.map_values(|o: Option<String>| opt_chars(o))
                + split_fold(text@, matches@, maxsplit, i + 1, last_end as int, (n + 1) as nat)
                =~= split_fold(text@, matches@, maxsplit, 0, 0, 0));
        }
        n += 1;
        i += 1;
    }
    let ghost acc = out@.map_values(|o: Option<String>| opt_chars(o));
    push_piece(&mut out, &chars, last_end, len);
    proof {
        assert(split_fold(text@, matches@, maxsplit, i as int, last_end as int, n as nat)
            == seq![Some(text@.subrange(last_end as int, text@.len() as int))]);
        assert(out@.map_values(|o: Option<String>| opt_chars(o)) =~= split_fold(text@, matches@, maxsplit, 0, 0, 0));
    }
    out
}

} // verus!
