//! The grammar of `str.format` templates. A template is read into a plan:
//! the literal characters to copy, and for each replacement field the
//! argument it names, the conversion to apply and the pieces of its format
//! spec (whose nested fields name arguments too). Reading stops at the
//! first error, which the plan records after the steps that precede it.

use vstd::prelude::*;
use crate::error::{PyError, PyErrorView};
use crate::unicode::{chars_of, char_is_whitespace, unicode_is_whitespace};
use crate::strsearch::slice_to_string;
use crate::object::concat;

verus! {

/// The argument a replacement field names.
#[derive(Debug, PartialEq)]
pub enum FieldRef {
    /// A positional argument, by index (`{}` counts them off, `{0}` names
    /// one).
    Positional(usize),
    /// A keyword argument (`{name}`).
    Named(String),
    /// An item or attribute of a positional argument (`{0[key]}`).
    Item { index: usize, key: String },
}

/// What `!r`, `!a` or `!s` asks for; any other conversion is ignored.
#[derive(Debug, Clone, Copy, PartialEq, Eq, Structural)]
pub enum Conversion {
    Keep,
    Repr,
    Str,
}

/// One step of a plan.
#[derive(Debug, PartialEq)]
pub enum FormatStep {
    /// Copy a literal character.
    Char(char),
    /// Look up a field's argument and apply the conversion; it becomes the
    /// current value.
    Value { field: FieldRef, conversion: Conversion },
    /// A literal character of the current field's format spec.
    SpecChar(char),
    /// The text of an argument, spliced into the current format spec.
    SpecArg(FieldRef),
    /// Format the current value with the spec built and copy the result.
    Apply,
}

/// A plan: the steps, then the error reading stopped at, if any.
#[derive(Debug, PartialEq)]
pub struct FormatPlan {
    pub steps: Vec<FormatStep>,
    pub error: Option<PyError>,
}

/// A `FieldRef` with its strings as character sequences.
pub enum FieldRefView {
    Positional(nat),
    Named(Seq<char>),
    Item { index: nat, key: Seq<char> },
}

/// A `FormatStep` with its strings as character sequences.
pub enum StepView {
    Char(char),
    Value { field: FieldRefView, conversion: Conversion },
    SpecChar(char),
    SpecArg(FieldRefView),
    Apply,
}

impl View for FieldRef {
    type V = FieldRefView;

    open spec fn view(&self) -> FieldRefView {
        match self {
            FieldRef::Positional(i) => FieldRefView::Positional(*i as nat),
            FieldRef::Named(n) => FieldRefView::Named(n@),
            FieldRef::Item { index, key } => FieldRefView::Item { index: *index as nat, key: key@ },
        }
    }
}

impl View for FormatStep {
    type V = StepView;

    open spec fn view(&self) -> StepView {
        match self {
            FormatStep::Char(c) => StepView::Char(*c),
            FormatStep::Value { field, conversion } => StepView::Value { field: field@, conversion: *conversion },
            FormatStep::SpecChar(c) => StepView::SpecChar(*c),
            FormatStep::SpecArg(f) => StepView::SpecArg(f@),
            FormatStep::Apply => StepView::Apply,
        }
    }
}

/// The steps of a plan, by their views.
pub open spec fn steps_view(s: Seq<FormatStep>) -> Seq<StepView> {
    s.map_values(|x: FormatStep| x@)
}

/// Which field numbering a template has used so far, and the next
/// automatic index.
pub struct Numbering {
    pub next_auto: nat,
    pub used_auto: bool,
    pub used_manual: bool,
}

pub open spec fn is_ascii_digit_char(c: char) -> bool {
    '0' <= c && c <= '9'
}

/// The value of a string of ASCII digits.
pub open spec fn decimal_value(s: Seq<char>) -> int
    decreases s.len(),
{
    if s.len() == 0 {
        0
    } else {
        decimal_value(s.drop_last()) * 10 + ((s.last() as int) - 48)
    }
}

/// The digits of an unsigned number: the text after an optional `+`.
pub open spec fn usize_body(s: Seq<char>) -> Seq<char> {
    if s.len() > 0 && s[0] == '+' { s.drop_first() } else { s }
}

/// Whether every character of `b` is an ASCII digit.
pub open spec fn all_ascii_digits(b: Seq<char>) -> bool {
    forall|i: int| 0 <= i < b.len() ==> is_ascii_digit_char(#[trigger] b[i])
}

/// `str::parse::<usize>`: an optional `+` and at least one ASCII digit,
/// within the range of `usize`.
pub open spec fn parse_usize_spec(s: Seq<char>) -> Option<nat> {
    let body = usize_body(s);
    if body.len() > 0 && all_ascii_digits(body) && decimal_value(body) <= usize::MAX {
        Some(decimal_value(body) as nat)
    } else {
        None
    }
}

/// The first position at or after `i` where `c` occurs in `s`, or `-1`.
pub open spec fn index_of(s: Seq<char>, c: char, i: int) -> int
    decreases s.len() - i,
{
    if i < 0 || i >= s.len() {
        -1
    } else if s[i] == c {
        i
    } else {
        index_of(s, c, i + 1)
    }
}

pub proof fn lemma_index_of_bounds(s: Seq<char>, c: char, i: int)
    ensures
        index_of(s, c, i) == -1 || (0 <= i <= index_of(s, c, i) < s.len() && s[index_of(s, c, i)] == c),
        index_of(s, c, i) != -1 ==> forall|k: int| i <= k < index_of(s, c, i) ==> s[k] != c,
        index_of(s, c, i) == -1 ==> forall|k: int| 0 <= i <= k < s.len() ==> s[k] != c,
    decreases s.len() - i,
{
    if i >= 0 && i < s.len() && s[i] != c {
        lemma_index_of_bounds(s, c, i + 1);
    }
}

/// The position of the `}` that closes a field whose text starts at `i`,
/// counting nested braces, or `-1`.
pub open spec fn field_close(f: Seq<char>, i: int, depth: nat) -> int
    decreases f.len() - i,
{
    if i < 0 || i >= f.len() {
        -1
    } else if f[i] == '}' {
        if depth == 0 { i } else { field_close(f, i + 1, (depth - 1) as nat) }
    } else if f[i] == '{' {
        field_close(f, i + 1, depth + 1)
    } else {
        field_close(f, i + 1, depth)
    }
}

pub proof fn lemma_field_close_bounds(f: Seq<char>, i: int, depth: nat)
    ensures
        field_close(f, i, depth) == -1 || (0 <= i <= field_close(f, i, depth) < f.len()),
    decreases f.len() - i,
{
    if i >= 0 && i < f.len() {
        if f[i] == '}' {
            if depth > 0 {
                lemma_field_close_bounds(f, i + 1, (depth - 1) as nat);
            }
        } else if f[i] == '{' {
            lemma_field_close_bounds(f, i + 1, depth + 1);
        } else {
            lemma_field_close_bounds(f, i + 1, depth);
        }
    }
}

/// The first position at or after `p` that is not white space.
pub open spec fn lead_ws(s: Seq<char>, p: int) -> int
    decreases s.len() - p,
{
    if p < 0 || p >= s.len() {
        s.len() as int
    } else if unicode_is_whitespace(s[p]) {
        lead_ws(s, p + 1)
    } else {
        p
    }
}

/// The end of `s[lo..e]` once its trailing white space is dropped.
pub open spec fn trail_ws(s: Seq<char>, e: int, lo: int) -> int
    decreases e - lo,
{
    if e <= lo {
        lo
    } else if unicode_is_whitespace(s[e - 1]) {
        trail_ws(s, e - 1, lo)
    } else {
        e
    }
}

/// `str::trim`: `s` without white space at either end.
pub open spec fn trim_ws(s: Seq<char>) -> Seq<char> {
    let a = lead_ws(s, 0);
    s.subrange(a, trail_ws(s, s.len() as int, a))
}

/// The conversion a `!` suffix asks for.
pub open spec fn conversion_of(conv: Option<Seq<char>>) -> Conversion {
    match conv {
        Some(c) => if c == "r"@ || c == "a"@ {
            Conversion::Repr
        } else if c == "s"@ {
            Conversion::Str
        } else {
            Conversion::Keep
        },
        None => Conversion::Keep,
    }
}

/// The error a template raises when it switches from automatic to manual
/// numbering.
pub open spec fn auto_to_manual() -> PyErrorView {
    PyErrorView::ValueError("cannot switch from automatic field numbering to manual field specification"@)
}

/// The error a template raises when it switches from manual to automatic
/// numbering.
pub open spec fn manual_to_auto() -> PyErrorView {
    PyErrorView::ValueError("cannot switch from manual field specification to automatic field numbering"@)
}

/// The error of a positional index past the arguments.
pub open spec fn index_past_args() -> PyErrorView {
    PyErrorView::IndexError("Replacement index out of range for positional args tuple"@)
}

/// What reading one name gives: the argument and the numbering after it,
/// or an error.
pub enum Resolved {
    Arg(FieldRefView, Numbering),
    Fail(PyErrorView),
    /// The text slicing of `{N[...]}` fails on this name.
    Panic,
}

/// `{}` (empty name) or `{N}`: a positional argument under the numbering
/// rules; `None` when `name` is neither.
#[verifier::opaque]
pub open spec fn numbered(name: Seq<char>, st: Numbering, npos: nat) -> Option<Result<(FieldRefView, Numbering), PyErrorView>> {
    if name.len() == 0 {
        Some(if st.used_manual {
            Err(manual_to_auto())
        } else if st.next_auto < npos {
            Ok((FieldRefView::Positional(st.next_auto),
                Numbering { next_auto: st.next_auto + 1, used_auto: true, used_manual: st.used_manual }))
        } else {
            Err(index_past_args())
        })
    } else {
        match parse_usize_spec(name) {
            Some(n) => Some(if st.used_auto {
                Err(auto_to_manual())
            } else if n < npos {
                Ok((FieldRefView::Positional(n),
                    Numbering { next_auto: st.next_auto, used_auto: st.used_auto, used_manual: true }))
            } else {
                Err(index_past_args())
            }),
            None => None,
        }
    }
}

/// The argument the name of a replacement field names.
#[verifier::opaque]
pub open spec fn resolve_name(name: Seq<char>, st: Numbering, npos: nat) -> Resolved {
    match numbered(name, st, npos) {
        Some(Ok((f, st1))) => Resolved::Arg(f, st1),
        Some(Err(e)) => Resolved::Fail(e),
        None => {
            let k = index_of(name, '[', 0);
            if k < 0 {
                Resolved::Arg(FieldRefView::Named(name), st)
            } else if k == name.len() - 1 || (name.last() as u32) >= 0x80 {
                Resolved::Panic
            } else {
                match parse_usize_spec(name.subrange(0, k)) {
                    Some(idx) => if idx < npos {
                        Resolved::Arg(FieldRefView::Item { index: idx, key: name.subrange(k + 1, name.len() - 1) }, st)
                    } else {
                        Resolved::Fail(PyErrorView::IndexError("index out of range for positional args"@))
                    },
                    None => Resolved::Fail(PyErrorView::KeyError("'"@ + name + "'"@)),
                }
            }
        },
    }
}

/// The steps of a format spec read from position `j`, and the numbering
/// after it or the error reading stopped at.
#[verifier::opaque]
pub open spec fn read_spec(spec: Seq<char>, j: int, st: Numbering, npos: nat) -> (Seq<StepView>, Result<Numbering, PyErrorView>)
    decreases spec.len() - j,
{
    if j < 0 || j >= spec.len() {
        (Seq::empty(), Ok(st))
    } else if spec[j] == '{' {
        let close = index_of(spec, '}', j + 1);
        proof { lemma_index_of_bounds(spec, '}', j + 1); }
        if close < 0 {
            (Seq::empty(), Err(PyErrorView::ValueError("unterminated nested format field"@)))
        } else {
            let inner = trim_ws(spec.subrange(j + 1, close));
            let r = match numbered(inner, st, npos) {
                Some(r) => r,
                None => Ok((FieldRefView::Named(inner), st)),
            };
            match r {
                Ok((f, st1)) => {
                    let rest = read_spec(spec, close + 1, st1, npos);
                    (seq![StepView::SpecArg(f)] + rest.0, rest.1)
                },
                Err(e) => (Seq::empty(), Err(e)),
            }
        }
    } else {
        let rest = read_spec(spec, j + 1, st, npos);
        (seq![StepView::SpecChar(spec[j])] + rest.0, rest.1)
    }
}

/// What the replacement field `f[i..=close]` reads as: its steps (the
/// argument with its conversion, the pieces of its format spec, and the
/// formatting), the error reading stopped at, whether the name hits the
/// slicing failure of `{N[...]}`, and the numbering after it.
#[verifier::opaque]
pub open spec fn read_field_spec(f: Seq<char>, i: int, close: int, st: Numbering, npos: nat) -> (Seq<StepView>, Option<PyErrorView>, bool, Numbering) {
    let field = f.subrange(i + 1, close);
    let colon = index_of(field, ':', 0);
    let head = if colon < 0 { field } else { field.subrange(0, colon) };
    let spec = if colon < 0 { Seq::empty() } else { field.subrange(colon + 1, field.len() as int) };
    let bang = index_of(head, '!', 0);
    let name = if bang < 0 { head } else { head.subrange(0, bang) };
    let conv = if bang < 0 { None } else { Some(head.subrange(bang + 1, head.len() as int)) };
    match resolve_name(name, st, npos) {
        Resolved::Panic => (Seq::empty(), None, true, st),
        Resolved::Fail(e) => (Seq::empty(), Some(e), false, st),
        Resolved::Arg(fr, st1) => {
            let value = seq![StepView::Value { field: fr, conversion: conversion_of(conv) }];
            let sp = read_spec(spec, 0, st1, npos);
            match sp.1 {
                Err(e) => (value + sp.0, Some(e), false, st1),
                Ok(st2) => (value + sp.0 + seq![StepView::Apply], None, false, st2),
            }
        },
    }
}

/// The plan of a template read from position `i`: its steps, the error
/// reading stopped at, and whether the template hits the slicing failure
/// of `{N[...]}`. One step of the reading is `template_step`.
#[verifier::opaque]
pub open spec fn read_template(f: Seq<char>, i: int, st: Numbering, npos: nat) -> (Seq<StepView>, Option<PyErrorView>, bool)
    decreases f.len() - i, 1int,
{
    template_step(f, i, st, npos)
}

/// Reading past the end of a template gives nothing.
pub proof fn lemma_template_end(f: Seq<char>, i: int, st: Numbering, npos: nat)
    requires
        i < 0 || i >= f.len(),
    ensures
        read_template(f, i, st, npos) == (Seq::<StepView>::empty(), None::<PyErrorView>, false),
{
    reveal_with_fuel(read_template, 1);
    reveal(template_step);
}

/// A doubled brace reads as one literal brace.
pub proof fn lemma_template_double(f: Seq<char>, i: int, st: Numbering, npos: nat)
    requires
        0 <= i,
        i + 1 < f.len(),
        (f[i] == '{' && f[i + 1] == '{') || (f[i] == '}' && f[i + 1] == '}'),
    ensures
        read_template(f, i, st, npos) == (seq![StepView::Char(f[i])] + read_template(f, i + 2, st, npos).0,
            read_template(f, i + 2, st, npos).1, read_template(f, i + 2, st, npos).2),
{
    reveal_with_fuel(read_template, 1);
    reveal(template_step);
}

/// A lone `}` is dropped.
pub proof fn lemma_template_lone_close(f: Seq<char>, i: int, st: Numbering, npos: nat)
    requires
        0 <= i < f.len(),
        f[i] == '}',
        !(i + 1 < f.len() && f[i + 1] == '}'),
    ensures
        read_template(f, i, st, npos) == read_template(f, i + 1, st, npos),
{
    reveal_with_fuel(read_template, 1);
    reveal(template_step);
}

/// Any other character outside a field is copied.
pub proof fn lemma_template_char(f: Seq<char>, i: int, st: Numbering, npos: nat)
    requires
        0 <= i < f.len(),
        f[i] != '{',
        f[i] != '}',
    ensures
        read_template(f, i, st, npos) == (seq![StepView::Char(f[i])] + read_template(f, i + 1, st, npos).0,
            read_template(f, i + 1, st, npos).1, read_template(f, i + 1, st, npos).2),
{
    reveal_with_fuel(read_template, 1);
    reveal(template_step);
}

/// A `{` that no `}` closes stops the reading.
pub proof fn lemma_template_unterminated(f: Seq<char>, i: int, st: Numbering, npos: nat)
    requires
        0 <= i < f.len(),
        f[i] == '{',
        !(i + 1 < f.len() && f[i + 1] == '{'),
        field_close(f, i + 1, 0) < 0,
    ensures
        read_template(f, i, st, npos) == (Seq::<StepView>::empty(),
            Some(PyErrorView::ValueError("unterminated format field"@)), false),
{
    reveal_with_fuel(read_template, 1);
    reveal(template_step);
}

/// A replacement field reads as `read_field_spec`, then the rest.
pub proof fn lemma_template_field(f: Seq<char>, i: int, st: Numbering, npos: nat)
    requires
        0 <= i < f.len(),
        f[i] == '{',
        !(i + 1 < f.len() && f[i + 1] == '{'),
        field_close(f, i + 1, 0) >= 0,
    ensures
        ({
            let close = field_close(f, i + 1, 0);
            let fr = read_field_spec(f, i, close, st, npos);
            read_template(f, i, st, npos) == (if fr.2 {
                (Seq::<StepView>::empty(), None::<PyErrorView>, true)
            } else if fr.1 is Some {
                (fr.0, fr.1, false)
            } else {
                let rest = read_template(f, close + 1, fr.3, npos);
                (fr.0 + rest.0, rest.1, rest.2)
            })
        }),
{
    reveal_with_fuel(read_template, 1);
    reveal(template_step);
}

/// One step of reading a template at position `i`: a doubled brace, a
/// replacement field, a lone `}`, or a literal character, followed by the
/// reading of the rest.
#[verifier::opaque]
pub open spec fn template_step(f: Seq<char>, i: int, st: Numbering, npos: nat) -> (Seq<StepView>, Option<PyErrorView>, bool)
    decreases f.len() - i, 0int,
{
    if i < 0 || i >= f.len() {
        (Seq::empty(), None, false)
    } else if f[i] == '{' {
        if i + 1 < f.len() && f[i + 1] == '{' {
            let rest = read_template(f, i + 2, st, npos);
            (seq![StepView::Char('{')] + rest.0, rest.1, rest.2)
        } else {
            let close = field_close(f, i + 1, 0);
            proof { lemma_field_close_bounds(f, i + 1, 0); }
            if close < 0 {
                (Seq::empty(), Some(PyErrorView::ValueError("unterminated format field"@)), false)
            } else {
                let fr = read_field_spec(f, i, close, st, npos);
                if fr.2 {
                    (Seq::empty(), None, true)
                } else if fr.1 is Some {
                    (fr.0, fr.1, false)
                } else {
                    let rest = read_template(f, close + 1, fr.3, npos);
                    (fr.0 + rest.0, rest.1, rest.2)
                }
            }
        }
    } else if f[i] == '}' {
        if i + 1 < f.len() && f[i + 1] == '}' {
            let rest = read_template(f, i + 2, st, npos);
            (seq![StepView::Char('}')] + rest.0, rest.1, rest.2)
        } else {
            read_template(f, i + 1, st, npos)
        }
    } else {
        let rest = read_template(f, i + 1, st, npos);
        (seq![StepView::Char(f[i])] + rest.0, rest.1, rest.2)
    }
}

/// The numbering of a template before any field.
pub open spec fn fresh() -> Numbering {
    Numbering { next_auto: 0, used_auto: false, used_manual: false }
}

/// The numbering as the reader carries it.
struct NumState {
    next_auto: usize,
    used_auto: bool,
    used_manual: bool,
}

impl View for NumState {
    type V = Numbering;

    closed spec fn view(&self) -> Numbering {
        Numbering { next_auto: self.next_auto as nat, used_auto: self.used_auto, used_manual: self.used_manual }
    }
}

/// A number past every `usize`.
const PAST_USIZE: u128 = 0x1_0000_0000_0000_0000;

fn parse_usize_exec(s: &Vec<char>, from: usize, to: usize) -> (r: Option<usize>)
    requires
        from <= to <= s@.len(),
    ensures
        r matches Some(v) ==> parse_usize_spec(s@.subrange(from as int, to as int)) == Some(v as nat),
        r is None ==> parse_usize_spec(s@.subrange(from as int, to as int)) is None,
{
    let ghost t = s@.subrange(from as int, to as int);
    let plus = from < to && s[from] == '+';
    let start: usize = if plus { from + 1 } else { from };
    let ghost body = usize_body(t);
    assert(body =~= s@.subrange(start as int, to as int));
    if start == to {
        return None;
    }
    let mut acc: u128 = 0;
    let mut i: usize = start;
    while i < to
        invariant
            start <= i <= to <= s@.len(),
            body == s@.subrange(start as int, to as int),
            t == s@.subrange(from as int, to as int),
            body == usize_body(t),
            forall|k: int| start <= k < i ==> is_ascii_digit_char(#[trigger] s@[k]),
            acc == (if decimal_value(s@.subrange(start as int, i as int)) >= PAST_USIZE {
                PAST_USIZE as int
            } else {
                decimal_value(s@.subrange(start as int, i as int))
            }),
            decimal_value(s@.subrange(start as int, i as int)) >= 0,
        decreases to - i,
    {
        let c = s[i];
        if !('0' <= c && c <= '9') {
            assert(body[(i - start) as int] == s@[i as int]);
            assert(!is_ascii_digit_char(body[(i - start) as int]));
            assert(!all_ascii_digits(body));
            return None;
        }
        let d = ((c as u32) - 48) as u128;
        let ghost prev = s@.subrange(start as int, i as int);
        assert(s@.subrange(start as int, i + 1).drop_last() =~= prev);
        assert(decimal_value(s@.subrange(start as int, i + 1)) == decimal_value(prev) * 10 + d);
        if acc >= PAST_USIZE {
            acc = PAST_USIZE;
        } else {
            acc = acc * 10 + d;
            if acc >= PAST_USIZE {
                acc = PAST_USIZE;
            }
        }
        i += 1;
    }
    assert(s@.subrange(start as int, to as int) == body);
    assert(all_ascii_digits(body)) by {
        assert forall|k: int| 0 <= k < body.len() implies is_ascii_digit_char(#[trigger] body[k]) by {
            assert(body[k] == s@[start + k]);
        }
    }
    if acc > 0xffff_ffff_ffff_ffff || acc > (usize::MAX as u128) {
        None
    } else {
        Some(acc as usize)
    }
}

fn find_in(s: &Vec<char>, from: usize, a: usize, to: usize, c: char) -> (r: Option<usize>)
    requires
        from <= a <= to <= s@.len(),
    ensures
        r matches Some(p) ==> a <= p < to && index_of(s@.subrange(from as int, to as int), c, a - from) == p - from,
        r is None ==> index_of(s@.subrange(from as int, to as int), c, a - from) == -1,
{
    let ghost t = s@.subrange(from as int, to as int);
    let mut i: usize = a;
    while i < to
        invariant
            from <= a <= i <= to <= s@.len(),
            t == s@.subrange(from as int, to as int),
            index_of(t, c, a - from) == index_of(t, c, i - from),
        decreases to - i,
    {
        assert(t[i - from] == s@[i as int]);
        if s[i] == c {
            return Some(i);
        }
        i += 1;
    }
    None
}

fn close_field(s: &Vec<char>, start: usize) -> (r: Option<usize>)
    requires
        start <= s@.len(),
    ensures
        r matches Some(p) ==> start <= p < s@.len() && field_close(s@, start as int, 0) == p,
        r is None ==> field_close(s@, start as int, 0) == -1,
{
    let mut i: usize = start;
    let mut depth: usize = 0;
    while i < s.len()
        invariant
            start <= i <= s@.len(),
            depth <= i - start,
            field_close(s@, start as int, 0) == field_close(s@, i as int, depth as nat),
        decreases s@.len() - i,
    {
        let c = s[i];
        if c == '}' {
            if depth == 0 {
                return Some(i);
            }
            depth -= 1;
        } else if c == '{' {
            depth += 1;
        }
        i += 1;
    }
    None
}

fn trim_range(s: &Vec<char>, a: usize, b: usize) -> (r: (usize, usize))
    requires
        a <= b <= s@.len(),
    ensures
        a <= r.0 <= r.1 <= b,
        s@.subrange(r.0 as int, r.1 as int) == trim_ws(s@.subrange(a as int, b as int)),
{
    let ghost t = s@.subrange(a as int, b as int);
    let mut x: usize = a;
    while x < b && char_is_whitespace(s[x])
        invariant
            a <= x <= b <= s@.len(),
            t == s@.subrange(a as int, b as int),
            lead_ws(t, 0) == lead_ws(t, x - a),
        decreases b - x,
    {
        assert(t[x - a] == s@[x as int]);
        x += 1;
    }
    proof {
        if x < b {
            assert(t[x - a] == s@[x as int]);
        }
        assert(lead_ws(t, x - a) == x - a);
    }
    let mut y: usize = b;
    while y > x && char_is_whitespace(s[y - 1])
        invariant
            a <= x <= y <= b <= s@.len(),
            t == s@.subrange(a as int, b as int),
            trail_ws(t, b - a, x - a) == trail_ws(t, y - a, x - a),
        decreases y - x,
    {
        assert(t[y - 1 - a] == s@[y - 1]);
        y -= 1;
    }
    proof {
        if y > x {
            assert(t[y - 1 - a] == s@[y - 1]);
        }
        assert(trail_ws(t, y - a, x - a) == y - a);
        assert(t.subrange(x - a, y - a) =~= s@.subrange(x as int, y as int));
    }
    (x, y)
}

/// What reading a field name gave.
enum NameRead {
    Arg(FieldRef),
    Fail(PyError),
    Panic,
}

proof fn lemma_steps_view_push(s: Seq<FormatStep>, x: FormatStep)
    ensures
        steps_view(s.push(x)) == steps_view(s).push(x@),
{
    assert(steps_view(s.push(x)) =~= steps_view(s).push(x@));
}

/// Pushes `x`; what the steps read with `rest` after them is unchanged
/// when `x` is moved from the front of `rest`'s reading to the steps.
fn push_front_of(out: &mut Vec<FormatStep>, x: FormatStep, Ghost(rest): Ghost<Seq<StepView>>)
    ensures
        steps_view(final(out)@) + rest == steps_view(old(out)@) + (seq![x@] + rest),
{
    let ghost before = out@;
    out.push(x);
    proof {
        lemma_steps_view_push(before, x);
        lemma_push_then_concat(steps_view(before), x@, rest);
    }
}

proof fn lemma_push_then_concat(a: Seq<StepView>, v: StepView, rest: Seq<StepView>)
    ensures
        a.push(v) + rest == a + (seq![v] + rest),
{
    assert(a.push(v) + rest =~= a + (seq![v] + rest));
}

fn push_step(out: &mut Vec<FormatStep>, x: FormatStep)
    ensures
        steps_view(final(out)@) == steps_view(old(out)@).push(x@),
{
    let ghost before = out@;
    out.push(x);
    proof { lemma_steps_view_push(before, x); }
}

fn numbered_exec(s: &Vec<char>, a: usize, b: usize, st: &mut NumState, npos: usize) -> (r: Option<Result<usize, PyError>>)
    requires
        a <= b <= s@.len(),
        old(st).next_auto <= npos,
    ensures
        final(st).next_auto <= npos,
        match numbered(s@.subrange(a as int, b as int), old(st)@, npos as nat) {
            None => r is None && final(st)@ == old(st)@,
            Some(Ok((f, st1))) => (r matches Some(Ok(i)) && f == FieldRefView::Positional(i as nat)) && final(st)@ == st1,
            Some(Err(e)) => r matches Some(Err(e2)) && e2@ == e,
        },
{
    proof {
        reveal(numbered);
        reveal_strlit("cannot switch from manual field specification to automatic field numbering");
        reveal_strlit("cannot switch from automatic field numbering to manual field specification");
        reveal_strlit("Replacement index out of range for positional args tuple");
    }
    if a == b {
        if st.used_manual {
            return Some(Err(PyError::ValueError(
                "cannot switch from manual field specification to automatic field numbering".to_owned())));
        }
        if st.next_auto < npos {
            let idx = st.next_auto;
            st.next_auto = st.next_auto + 1;
            st.used_auto = true;
            return Some(Ok(idx));
        }
        return Some(Err(PyError::IndexError("Replacement index out of range for positional args tuple".to_owned())));
    }
    match parse_usize_exec(s, a, b) {
        Some(n) => {
            if st.used_auto {
                Some(Err(PyError::ValueError(
                    "cannot switch from automatic field numbering to manual field specification".to_owned())))
            } else if n < npos {
                st.used_manual = true;
                Some(Ok(n))
            } else {
                Some(Err(PyError::IndexError("Replacement index out of range for positional args tuple".to_owned())))
            }
        },
        None => None,
    }
}

fn resolve_name_exec(s: &Vec<char>, a: usize, b: usize, st: &mut NumState, npos: usize) -> (r: NameRead)
    requires
        a <= b <= s@.len(),
        old(st).next_auto <= npos,
    ensures
        final(st).next_auto <= npos,
        match resolve_name(s@.subrange(a as int, b as int), old(st)@, npos as nat) {
            Resolved::Arg(f, st1) => (r matches NameRead::Arg(fr) && fr@ == f) && final(st)@ == st1,
            Resolved::Fail(e) => r matches NameRead::Fail(e2) && e2@ == e,
            Resolved::Panic => r is Panic && final(st)@ == old(st)@,
        },
{
    let ghost name = s@.subrange(a as int, b as int);
    proof { reveal(resolve_name); }
    match numbered_exec(s, a, b, st, npos) {
        Some(Ok(i)) => NameRead::Arg(FieldRef::Positional(i)),
        Some(Err(e)) => NameRead::Fail(e),
        None => {
            match find_in(s, a, a, b, '[') {
                None => NameRead::Arg(FieldRef::Named(slice_to_string(s, a, b))),
                Some(k) => {
                    assert(name.last() == s@[b - 1]);
                    if k == b - 1 || (s[b - 1] as u32) >= 0x80 {
                        NameRead::Panic
                    } else {
                        assert(name.subrange(0, k - a) =~= s@.subrange(a as int, k as int));
                        assert(name.subrange(k - a + 1, name.len() - 1) =~= s@.subrange(k + 1, b - 1));
                        match parse_usize_exec(s, a, k) {
                            Some(idx) => {
                                if idx < npos {
                                    NameRead::Arg(FieldRef::Item { index: idx, key: slice_to_string(s, k + 1, b - 1) })
                                } else {
                                    proof { reveal_strlit("index out of range for positional args"); }
                                    NameRead::Fail(PyError::IndexError("index out of range for positional args".to_owned()))
                                }
                            },
                            None => {
                                let n = slice_to_string(s, a, b);
                                let q = concat("'", n.as_str());
                                NameRead::Fail(PyError::KeyError(concat(q.as_str(), "'")))
                            },
                        }
                    }
                },
            }
        },
    }
}

fn read_spec_exec(s: &Vec<char>, a: usize, b: usize, st: &mut NumState, npos: usize, out: &mut Vec<FormatStep>) -> (r: Result<(), PyError>)
    requires
        a <= b <= s@.len(),
        old(st).next_auto <= npos,
    ensures
        final(st).next_auto <= npos,
        steps_view(final(out)@) == steps_view(old(out)@) + read_spec(s@.subrange(a as int, b as int), 0, old(st)@, npos as nat).0,
        match read_spec(s@.subrange(a as int, b as int), 0, old(st)@, npos as nat).1 {
            Ok(st2) => r is Ok && final(st)@ == st2,
            Err(e) => r matches Err(e2) && e2@ == e,
        },
{
    let ghost t = s@.subrange(a as int, b as int);
    proof { reveal_with_fuel(read_spec, 1); }
    let ghost whole = read_spec(t, 0, st@, npos as nat);
    let ghost base = steps_view(out@);
    let mut j: usize = a;
    while j < b
        invariant
            a <= j <= b <= s@.len(),
            t == s@.subrange(a as int, b as int),
            base == steps_view(old(out)@),
            whole == read_spec(t, 0, old(st)@, npos as nat),
            st.next_auto <= npos,
            steps_view(out@) + read_spec(t, j - a, st@, npos as nat).0 == base + whole.0,
            read_spec(t, j - a, st@, npos as nat).1 == whole.1,
        decreases b - j,
    {
        proof { reveal_with_fuel(read_spec, 1); }
        let c = s[j];
        assert(t[j - a] == c);
        let ghost st_before = st@;
        if c == '{' {
            match find_in(s, a, j + 1, b, '}') {
                None => {
                    proof {
                        reveal_strlit("unterminated nested format field");
                        assert(read_spec(t, j - a, st_before, npos as nat).0 =~= Seq::<StepView>::empty());
                        assert(steps_view(out@) =~= base + whole.0);
                    }
                    return Err(PyError::ValueError("unterminated nested format field".to_owned()));
                },
                Some(p) => {
                    proof { lemma_index_of_bounds(t, '}', j + 1 - a); }
                    let (x, y) = trim_range(s, j + 1, p);
                    assert(t.subrange(j + 1 - a, p - a) =~= s@.subrange(j + 1, p as int));
                    let ghost before = steps_view(out@);
                    let ghost st0 = st@;
                    match numbered_exec(s, x, y, st, npos) {
                        Some(Ok(i)) => {
                            push_step(out, FormatStep::SpecArg(FieldRef::Positional(i)));
                        },
                        Some(Err(e)) => {
                            proof {
                                assert(read_spec(t, j - a, st_before, npos as nat).0 =~= Seq::<StepView>::empty());
                                assert(steps_view(out@) =~= base + whole.0);
                            }
                            return Err(e);
                        },
                        None => {
                            let nm = slice_to_string(s, x, y);
                            push_step(out, FormatStep::SpecArg(FieldRef::Named(nm)));
                        },
                    }
                    proof {
                        let rest = read_spec(t, p - a + 1, st@, npos as nat);
                        assert(steps_view(out@) + rest.0 =~= before + read_spec(t, j - a, st0, npos as nat).0);
                    }
                    j = p + 1;
                },
            }
        } else {
            let ghost before = steps_view(out@);
            proof {
                assert(c != '{');
                assert(j - a < t.len());
                assert(read_spec(t, j - a, st@, npos as nat).0 == seq![StepView::SpecChar(c)] + read_spec(t, j - a + 1, st@, npos as nat).0);
            }
            push_front_of(out, FormatStep::SpecChar(c), Ghost(read_spec(t, j - a + 1, st@, npos as nat).0));
            j += 1;
        }
    }
    proof { reveal_with_fuel(read_spec, 1); }
    assert(steps_view(out@) =~= base + whole.0);
    Ok(())
}

fn conversion_exec(s: &Vec<char>, x: usize, y: usize) -> (r: Conversion)
    requires
        x <= y <= s@.len(),
    ensures
        r == conversion_of(Some(s@.subrange(x as int, y as int))),
{
    proof {
        reveal_strlit("r");
        reveal_strlit("a");
        reveal_strlit("s");
    }
    let ghost c = s@.subrange(x as int, y as int);
    if y - x == 1 {
        assert(c =~= seq![s@[x as int]]);
        let ch = s[x];
        if ch == 'r' {
            assert(c =~= "r"@);
            Conversion::Repr
        } else if ch == 'a' {
            assert(c =~= "a"@);
            Conversion::Repr
        } else if ch == 's' {
            assert(c =~= "s"@);
            Conversion::Str
        } else {
            assert(c[0] != "r"@[0] && c[0] != "a"@[0] && c[0] != "s"@[0]);
            Conversion::Keep
        }
    } else {
        assert(c.len() != "r"@.len());
        Conversion::Keep
    }
}

/// Reads the replacement field `s[i..=p]` (see `read_field_spec`),
/// appending its steps; returns the error reading stopped at and whether
/// the name hits the slicing failure.
#[verifier::spinoff_prover]
#[verifier::rlimit(30)]
fn read_field(s: &Vec<char>, i: usize, p: usize, st: &mut NumState, npos: usize, out: &mut Vec<FormatStep>) -> (r: (Option<PyError>, bool))
    requires
        i < p < s@.len(),
        old(st).next_auto <= npos,
    ensures
        final(st).next_auto <= npos,
        steps_view(final(out)@) == steps_view(old(out)@) + read_field_spec(s@, i as int, p as int, old(st)@, npos as nat).0,
        r.1 == read_field_spec(s@, i as int, p as int, old(st)@, npos as nat).2,
        read_field_spec(s@, i as int, p as int, old(st)@, npos as nat).1 is None ==> r.0 is None
            && final(st)@ == read_field_spec(s@, i as int, p as int, old(st)@, npos as nat).3,
        read_field_spec(s@, i as int, p as int, old(st)@, npos as nat).1 matches Some(e) ==> (r.0 matches Some(e2) && e2@ == e),
{
    let ghost f = s@;
    let ghost st0 = st@;
    proof { reveal(read_field_spec); }
    let ghost field = f.subrange(i + 1, p as int);
    let (head_end, spec_a) = match find_in(s, i + 1, i + 1, p, ':') {
        Some(k) => (k, k + 1),
        None => (p, p),
    };
    let ghost head = if index_of(field, ':', 0) < 0 { field } else { field.subrange(0, index_of(field, ':', 0)) };
    let ghost spec = if index_of(field, ':', 0) < 0 { Seq::<char>::empty() } else {
        field.subrange(index_of(field, ':', 0) + 1, field.len() as int)
    };
    proof {
        lemma_index_of_bounds(field, ':', 0);
        assert(head =~= f.subrange(i + 1, head_end as int));
        assert(spec =~= f.subrange(spec_a as int, p as int));
    }
    let (name_end, conv) = match find_in(s, i + 1, i + 1, head_end, '!') {
        Some(k) => (k, conversion_exec(s, k + 1, head_end)),
        None => (head_end, Conversion::Keep),
    };
    let ghost bang = index_of(head, '!', 0);
    let ghost name = if bang < 0 { head } else { head.subrange(0, bang) };
    let ghost conv_text = if bang < 0 { None::<Seq<char>> } else { Some(head.subrange(bang + 1, head.len() as int)) };
    proof {
        lemma_index_of_bounds(head, '!', 0);
        assert(name =~= f.subrange(i + 1, name_end as int));
        if bang >= 0 {
            assert(head.subrange(bang + 1, head.len() as int) =~= f.subrange(name_end + 1, head_end as int));
        }
        assert(conv == conversion_of(conv_text));
    }
    let ghost before = steps_view(out@);
    match resolve_name_exec(s, i + 1, name_end, st, npos) {
        NameRead::Panic => {
            assert(steps_view(out@) =~= before + Seq::<StepView>::empty());
            (None, true)
        },
        NameRead::Fail(e) => {
            assert(steps_view(out@) =~= before + Seq::<StepView>::empty());
            (Some(e), false)
        },
        NameRead::Arg(fr) => {
            let ghost frv = fr@;
            push_step(out, FormatStep::Value { field: fr, conversion: conv });
            let ghost mid = steps_view(out@);
            assert(mid == before + seq![StepView::Value { field: frv, conversion: conv }]) by {
                assert(before.push(StepView::Value { field: frv, conversion: conv })
                    =~= before + seq![StepView::Value { field: frv, conversion: conv }]);
            }
            match read_spec_exec(s, spec_a, p, st, npos, out) {
                Err(e) => {
                    assert(steps_view(out@) =~= before + (seq![StepView::Value { field: frv, conversion: conv }]
                        + read_spec(spec, 0, read_field_st1(f, i as int, p as int, st0, npos as nat), npos as nat).0));
                    (Some(e), false)
                },
                Ok(()) => {
                    let ghost after = steps_view(out@);
                    push_step(out, FormatStep::Apply);
                    assert(steps_view(out@) =~= before + (seq![StepView::Value { field: frv, conversion: conv }]
                        + read_spec(spec, 0, read_field_st1(f, i as int, p as int, st0, npos as nat), npos as nat).0
                        + seq![StepView::Apply]));
                    (None, false)
                },
            }
        },
    }
}

/// The numbering after the name of the field `f[i..=close]` is read.
pub open spec fn read_field_st1(f: Seq<char>, i: int, close: int, st: Numbering, npos: nat) -> Numbering {
    let field = f.subrange(i + 1, close);
    let colon = index_of(field, ':', 0);
    let head = if colon < 0 { field } else { field.subrange(0, colon) };
    let bang = index_of(head, '!', 0);
    let name = if bang < 0 { head } else { head.subrange(0, bang) };
    match resolve_name(name, st, npos) {
        Resolved::Arg(_, st1) => st1,
        _ => st,
    }
}

/// Reads a `str.format` template with `npos` positional arguments into a
/// plan: literal characters (with `{{` and `}}` read as single braces, and
/// a lone `}` dropped), and for each `{field}` its argument (automatic
/// `{}` and manual `{N}` numbering may not be mixed, and an index past the
/// arguments is an error), its conversion and its format spec with any
/// nested `{}` fields. Reading stops at the first error.
#[verifier::spinoff_prover]
#[verifier::rlimit(30)]
pub fn format_plan(fmt: &str, npos: usize) -> (r: FormatPlan)
    requires
        !read_template(fmt@, 0, fresh(), npos as nat).2,
    ensures
        steps_view(r.steps@) == read_template(fmt@, 0, fresh(), npos as nat).0,
        match read_template(fmt@, 0, fresh(), npos as nat).1 {
            None => r.error is None,
            Some(e) => r.error matches Some(e2) && e2@ == e,
        },
{
    let chars = chars_of(fmt);
    let len = chars.len();
    let ghost f = fmt@;
    let ghost whole = read_template(f, 0, fresh(), npos as nat);
    let mut st = NumState { next_auto: 0, used_auto: false, used_manual: false };
    let mut out: Vec<FormatStep> = Vec::new();
    assert(steps_view(out@) =~= Seq::<StepView>::empty());
    assert(st@ == fresh());
    let mut i: usize = 0;
    while i < len
        invariant
            chars@ == f,
            f == fmt@,
            whole == read_template(f, 0, fresh(), npos as nat),
            len == f.len(),
            i <= len,
            st.next_auto <= npos,
            steps_view(out@) + read_template(f, i as int, st@, npos as nat).0 == whole.0,
            read_template(f, i as int, st@, npos as nat).1 == whole.1,
            !read_template(f, i as int, st@, npos as nat).2,
        decreases len - i,
    {
        let c = chars[i];
        let ghost before = steps_view(out@);
        let ghost st0 = st@;
        if c == '{' {
            if i + 1 < len && chars[i + 1] == '{' {
                proof { lemma_template_double(f, i as int, st@, npos as nat); }
                push_front_of(&mut out, FormatStep::Char('{'), Ghost(read_template(f, i + 2, st@, npos as nat).0));
                i += 2;
            } else {
                match close_field(&chars, i + 1) {
                    None => {
                        proof {
                            reveal_strlit("unterminated format field");
                            lemma_template_unterminated(f, i as int, st0, npos as nat);
                            assert(read_template(f, i as int, st0, npos as nat).0 =~= Seq::<StepView>::empty());
                            assert(steps_view(out@) =~= whole.0);
                        }
                        return FormatPlan {
                            steps: out,
                            error: Some(PyError::ValueError("unterminated format field".to_owned())),
                        };
                    },
                    Some(p) => {
                        proof { lemma_template_field(f, i as int, st0, npos as nat); }
                        let (err, panicked) = read_field(&chars, i, p, &mut st, npos, &mut out);
                        if panicked {
                            proof { assert(false); }
                            return FormatPlan { steps: out, error: None };
                        }
                        match err {
                            Some(e) => {
                                proof {
                                    assert(steps_view(out@) =~= before + read_template(f, i as int, st0, npos as nat).0);
                                }
                                return FormatPlan { steps: out, error: Some(e) };
                            },
                            None => {
                                proof {
                                    let fr = read_field_spec(f, i as int, p as int, st0, npos as nat);
                                    let rest = read_template(f, p + 1, st@, npos as nat);
                                    assert(steps_view(out@) + rest.0 =~= before + (fr.0 + rest.0));
                                }
                                i = p + 1;
                            },
                        }
                    },
                }
            }
        } else if c == '}' {
            if i + 1 < len && chars[i + 1] == '}' {
                proof { lemma_template_double(f, i as int, st@, npos as nat); }
                push_front_of(&mut out, FormatStep::Char('}'), Ghost(read_template(f, i + 2, st@, npos as nat).0));
                i += 2;
            } else {
                proof { lemma_template_lone_close(f, i as int, st@, npos as nat); }
                i += 1;
            }
        } else {
            assert(f[i as int] == c);
            proof { lemma_template_char(f, i as int, st@, npos as nat); }
            push_front_of(&mut out, FormatStep::Char(c), Ghost(read_template(f, i + 1, st@, npos as nat).0));
            i += 1;
        }
    }
    proof { lemma_template_end(f, i as int, st@, npos as nat); }
    assert(steps_view(out@) =~= whole.0);
    FormatPlan { steps: out, error: None }
}

/// The scan that tells whether a template has a named field, from position
/// `i`: inside a field (after `{`) the name collects its non-space
/// characters up to a `!` or `:`; a `}` closes the field, which counts as
/// named when its name is not empty and starts with no digit.
pub open spec fn named_scan(f: Seq<char>, i: int, in_field: bool, in_suffix: bool, name: Seq<char>, saw: bool) -> bool
    decreases f.len() - i,
{
    if i < 0 || i >= f.len() {
        saw
    } else {
        let c = f[i];
        if c == '{' {
            if !in_field {
                named_scan(f, i + 1, true, false, Seq::empty(), saw)
            } else {
                named_scan(f, i + 1, in_field, in_suffix, name, saw)
            }
        } else if c == '}' {
            let named = in_field && name.len() > 0 && !all_ascii_digits(name) && !is_ascii_digit_char(name[0]);
            named_scan(f, i + 1, false, in_suffix, name, saw || named)
        } else if in_field {
            if c == '!' || c == ':' {
                named_scan(f, i + 1, in_field, true, name, saw)
            } else if !in_suffix && !unicode_is_whitespace(c) {
                named_scan(f, i + 1, in_field, in_suffix, name.push(c), saw)
            } else {
                named_scan(f, i + 1, in_field, in_suffix, name, saw)
            }
        } else {
            named_scan(f, i + 1, in_field, in_suffix, name, saw)
        }
    }
}

fn all_digits_exec(name: &Vec<char>) -> (r: bool)
    ensures
        r == all_ascii_digits(name@),
{
    let mut k: usize = 0;
    while k < name.len()
        invariant
            k <= name@.len(),
            forall|m: int| 0 <= m < k ==> is_ascii_digit_char(#[trigger] name@[m]),
        decreases name@.len() - k,
    {
        if !('0' <= name[k] && name[k] <= '9') {
            return false;
        }
        k += 1;
    }
    true
}

/// Whether the template `fmt` has a named field (`{name}`), which decides
/// whether a trailing dict argument carries the keyword arguments.
pub fn format_has_named_fields(fmt: &str) -> (r: bool)
    ensures
        r == named_scan(fmt@, 0, false, false, Seq::empty(), false),
{
    let f = chars_of(fmt);
    let mut in_field = false;
    let mut in_suffix = false;
    let mut name: Vec<char> = Vec::new();
    let mut saw = false;
    let mut i: usize = 0;
    while i < f.len()
        invariant
            f@ == fmt@,
            i <= f@.len(),
            named_scan(fmt@, 0, false, false, Seq::empty(), false)
                == named_scan(fmt@, i as int, in_field, in_suffix, name@, saw),
        decreases f@.len() - i,
    {
        let c = f[i];
        if c == '{' {
            if !in_field {
                in_field = true;
                name = Vec::new();
                in_suffix = false;
            }
        } else if c == '}' {
            if in_field && name.len() > 0 && !all_digits_exec(&name) && !('0' <= name[0] && name[0] <= '9') {
                saw = true;
            }
            in_field = false;
        } else if in_field {
            if c == '!' || c == ':' {
                in_suffix = true;
            } else if !in_suffix && !char_is_whitespace(c) {
                name.push(c);
            }
        }
        i += 1;
    }
    saw
}

/// How the arguments after the template divide for `str.format`: a
/// trailing dict carries the keyword arguments only when the template has
/// a named field; every other argument is positional. Returns the number of
/// positional arguments and whether the last argument is the keyword pack.
pub fn format_split_arguments(fmt: &str, nargs: usize, last_is_dict: bool) -> (r: (usize, bool))
    ensures
        r.1 == (nargs > 0 && last_is_dict && named_scan(fmt@, 0, false, false, Seq::empty(), false)),
        r.0 == (if r.1 { nargs - 1 } else { nargs as int }),
{
    if nargs > 0 && last_is_dict && format_has_named_fields(fmt) {
        (nargs - 1, true)
    } else {
        (nargs, false)
    }
}

} // verus!
