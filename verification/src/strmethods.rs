//! Value-level algorithms of `str` methods: classification predicates,
//! padding, partitioning, prefix/suffix removal and tab expansion.

use vstd::prelude::*;
use vstd::utf8::encode_utf8;
use crate::unicode::{
    string_from_chars, chars_of, char_is_whitespace, char_is_numeric, unicode_is_whitespace,
    unicode_is_numeric, str_to_lowercase, str_to_uppercase, unicode_str_lowercase,
    unicode_str_uppercase, char_from_u32, is_scalar_value,
};

verus! {

pub open spec fn is_ascii_digit(c: char) -> bool {
    '0' <= c && c <= '9'
}

pub open spec fn is_ascii_upper(c: char) -> bool {
    'A' <= c && c <= 'Z'
}

pub open spec fn is_ascii_lower(c: char) -> bool {
    'a' <= c && c <= 'z'
}

pub open spec fn is_ascii_alpha(c: char) -> bool {
    is_ascii_upper(c) || is_ascii_lower(c)
}

pub open spec fn is_ascii_alnum(c: char) -> bool {
    is_ascii_alpha(c) || is_ascii_digit(c)
}

/// A visible ASCII character (`'!'` to `'~'`).
pub open spec fn is_ascii_graphic(c: char) -> bool {
    '!' <= c && c <= '~'
}

fn ascii_digit(c: char) -> (r: bool)
    ensures
        r == is_ascii_digit(c),
{
    '0' <= c && c <= '9'
}

fn ascii_upper(c: char) -> (r: bool)
    ensures
        r == is_ascii_upper(c),
{
    'A' <= c && c <= 'Z'
}

fn ascii_lower(c: char) -> (r: bool)
    ensures
        r == is_ascii_lower(c),
{
    'a' <= c && c <= 'z'
}

fn ascii_alpha(c: char) -> (r: bool)
    ensures
        r == is_ascii_alpha(c),
{
    ascii_upper(c) || ascii_lower(c)
}

fn ascii_alnum(c: char) -> (r: bool)
    ensures
        r == is_ascii_alnum(c),
{
    ascii_alpha(c) || ascii_digit(c)
}

/// Which per-character test a classification predicate applies.
pub enum CharClass {
    Digit,
    Alpha,
    Alnum,
    PrintableOrSpace,
    Whitespace,
    Ascii,
}

pub open spec fn in_class(class: CharClass, c: char) -> bool {
    match class {
        CharClass::Digit => is_ascii_digit(c),
        CharClass::Alpha => is_ascii_alpha(c),
        CharClass::Alnum => is_ascii_alnum(c),
        CharClass::PrintableOrSpace => is_ascii_graphic(c) || c == ' ',
        CharClass::Whitespace => unicode_is_whitespace(c),
        CharClass::Ascii => (c as u32) < 0x80,
    }
}

fn all_in_class(chars: &Vec<char>, class: &CharClass) -> (r: bool)
    ensures
        r == (forall|i: int| 0 <= i < chars@.len() ==> in_class(*class, #[trigger] chars@[i])),
{
    let mut i: usize = 0;
    while i < chars.len()
        invariant
            i <= chars@.len(),
            forall|k: int| 0 <= k < i ==> in_class(*class, #[trigger] chars@[k]),
        decreases chars@.len() - i,
    {
        let c = chars[i];
        let ok = match class {
            CharClass::Digit => ascii_digit(c),
            CharClass::Alpha => ascii_alpha(c),
            CharClass::Alnum => ascii_alnum(c),
            CharClass::PrintableOrSpace => ('!' <= c && c <= '~') || c == ' ',
            CharClass::Whitespace => char_is_whitespace(c),
            CharClass::Ascii => (c as u32) < 0x80,
        };
        if !ok {
            return false;
        }
        i += 1;
    }
    true
}

/// `str.isdecimal`: non-empty and made of ASCII digits.
pub fn str_isdecimal(s: &str) -> (r: bool)
    ensures
        r == (s@.len() > 0 && forall|i: int| 0 <= i < s@.len() ==> is_ascii_digit(#[trigger] s@[i])),
{
    let chars = chars_of(s);
    chars.len() > 0 && all_in_class(&chars, &CharClass::Digit)
}

/// `str.isdigit`: every character is an ASCII digit (true of `""`).
pub fn str_isdigit(s: &str) -> (r: bool)
    ensures
        r == (forall|i: int| 0 <= i < s@.len() ==> is_ascii_digit(#[trigger] s@[i])),
{
    let chars = chars_of(s);
    all_in_class(&chars, &CharClass::Digit)
}

/// `str.isalpha`: every character is an ASCII letter (true of `""`).
pub fn str_isalpha(s: &str) -> (r: bool)
    ensures
        r == (forall|i: int| 0 <= i < s@.len() ==> is_ascii_alpha(#[trigger] s@[i])),
{
    let chars = chars_of(s);
    all_in_class(&chars, &CharClass::Alpha)
}

/// `str.isalnum`: every character is an ASCII letter or digit (true of
/// `""`).
pub fn str_isalnum(s: &str) -> (r: bool)
    ensures
        r == (forall|i: int| 0 <= i < s@.len() ==> is_ascii_alnum(#[trigger] s@[i])),
{
    let chars = chars_of(s);
    all_in_class(&chars, &CharClass::Alnum)
}

/// `str.isprintable`: non-empty and made of visible ASCII characters and
/// spaces.
pub fn str_isprintable(s: &str) -> (r: bool)
    ensures
        r == (s@.len() > 0 && forall|i: int| 0 <= i < s@.len()
            ==> (is_ascii_graphic(#[trigger] s@[i]) || s@[i] == ' ')),
{
    let chars = chars_of(s);
    chars.len() > 0 && all_in_class(&chars, &CharClass::PrintableOrSpace)
}

/// `str.isidentifier`: non-empty, starting with `_` or an ASCII letter and
/// continuing with `_`, ASCII letters and digits.
pub fn str_isidentifier(s: &str) -> (r: bool)
    ensures
        r == (s@.len() > 0 && (s@[0] == '_' || is_ascii_alpha(s@[0]))
            && forall|i: int| 1 <= i < s@.len() ==> (#[trigger] s@[i] == '_' || is_ascii_alnum(s@[i]))),
{
    let chars = chars_of(s);
    if chars.len() == 0 {
        return false;
    }
    let first = chars[0];
    if !(first == '_' || ascii_alpha(first)) {
        return false;
    }
    let mut i: usize = 1;
    while i < chars.len()
        invariant
            1 <= i <= chars@.len(),
            chars@ == s@,
            forall|k: int| 1 <= k < i ==> (#[trigger] chars@[k] == '_' || is_ascii_alnum(chars@[k])),
        decreases chars@.len() - i,
    {
        let c = chars[i];
        if !(c == '_' || ascii_alnum(c)) {
            return false;
        }
        i += 1;
    }
    true
}

/// The letter status before position `i`: whether `s[i - 1]` is an ASCII
/// letter.
pub open spec fn follows_letter(s: Seq<char>, i: int) -> bool {
    i > 0 && is_ascii_alpha(s[i - 1])
}

/// `str.istitle` (ASCII letters only): non-empty, every uppercase letter
/// starts a run of letters and every lowercase letter continues one.
pub fn str_istitle(s: &str) -> (r: bool)
    ensures
        r == (s@.len() > 0 && forall|i: int| 0 <= i < s@.len() ==> {
            &&& (is_ascii_upper(#[trigger] s@[i]) ==> !follows_letter(s@, i))
            &&& (is_ascii_lower(s@[i]) ==> follows_letter(s@, i))
        }),
{
    let chars = chars_of(s);
    let mut prev_is_letter = false;
    let mut i: usize = 0;
    while i < chars.len()
        invariant
            i <= chars@.len(),
            chars@ == s@,
            prev_is_letter == follows_letter(chars@, i as int),
            forall|k: int| 0 <= k < i ==> {
                &&& (is_ascii_upper(#[trigger] chars@[k]) ==> !follows_letter(chars@, k))
                &&& (is_ascii_lower(chars@[k]) ==> follows_letter(chars@, k))
            },
        decreases chars@.len() - i,
    {
        let c = chars[i];
        if ascii_upper(c) {
            if prev_is_letter {
                return false;
            }
            prev_is_letter = true;
        } else if ascii_lower(c) {
            if !prev_is_letter {
                return false;
            }
            prev_is_letter = true;
        } else {
            prev_is_letter = false;
        }
        i += 1;
    }
    chars.len() > 0
}

/// Length of the UTF-8 encoding of `s` (what Rust's `str::len` reports).
pub open spec fn utf8_len(s: Seq<char>) -> int {
    encode_utf8(s).len() as int
}

/// `n` copies of `c`.
pub open spec fn fill(c: char, n: nat) -> Seq<char> {
    Seq::new(n, |_i: int| c)
}

fn push_fill(out: &mut Vec<char>, c: char, n: usize)
    ensures
        final(out)@ == old(out)@ + fill(c, n as nat),
{
    let ghost base = out@;
    let mut k: usize = 0;
    while k < n
        invariant
            k <= n,
            out@ == base + fill(c, k as nat),
        decreases n - k,
    {
        out.push(c);
        assert(fill(c, (k + 1) as nat) =~= fill(c, k as nat).push(c));
        k += 1;
    }
}

fn push_str_chars(out: &mut Vec<char>, chars: &Vec<char>, from: usize, to: usize)
    requires
        from <= to <= chars@.len(),
    ensures
        final(out)@ == old(out)@ + chars@.subrange(from as int, to as int),
{
    let ghost base = out@;
    let mut k: usize = from;
    while k < to
        invariant
            from <= k <= to <= chars@.len(),
            out@ == base + chars@.subrange(from as int, k as int),
        decreases to - k,
    {
        out.push(chars[k]);
        assert(chars@.subrange(from as int, k + 1) =~= chars@.subrange(from as int, k as int).push(chars@[k as int]));
        k += 1;
    }
}

/// `str.__len__()`: the number of characters.
pub fn str_len(s: &str) -> (r: usize)
    ensures
        r == s@.len(),
{
    s.unicode_len()
}

/// `str.__sizeof__()`: 49 bytes plus the length of the UTF-8 encoding.
pub fn str_sizeof(s: &str) -> (r: i64)
    requires
        49 + utf8_len(s@) <= i64::MAX,
    ensures
        r == 49 + utf8_len(s@),
{
    let len = s.as_bytes().len();
    49 + len as i64
}

/// `str.ljust(width, fillchar)`: when `width` exceeds the string's byte
/// length, `fillchar` is appended `width - len` times.
pub fn str_ljust(s: &str, width: usize, fillchar: char) -> (r: String)
    ensures
        r@ == (if width > utf8_len(s@) { s@ + fill(fillchar, (width - utf8_len(s@)) as nat) } else { s@ }),
{
    let len = s.as_bytes().len();
    let chars = chars_of(s);
    let mut out: Vec<char> = Vec::new();
    push_str_chars(&mut out, &chars, 0, chars.len());
    assert(chars@.subrange(0, chars@.len() as int) =~= chars@);
    if width > len {
        push_fill(&mut out, fillchar, width - len);
    }
    string_from_chars(out.as_slice())
}

/// `str.rjust(width, fillchar)`: when `width` exceeds the string's byte
/// length, `fillchar` is prepended `width - len` times.
pub fn str_rjust(s: &str, width: usize, fillchar: char) -> (r: String)
    ensures
        r@ == (if width > utf8_len(s@) { fill(fillchar, (width - utf8_len(s@)) as nat) + s@ } else { s@ }),
{
    let len = s.as_bytes().len();
    let chars = chars_of(s);
    let mut out: Vec<char> = Vec::new();
    if width > len {
        push_fill(&mut out, fillchar, width - len);
    }
    push_str_chars(&mut out, &chars, 0, chars.len());
    assert(chars@.subrange(0, chars@.len() as int) =~= chars@);
    string_from_chars(out.as_slice())
}

/// `str.center(width, fillchar)`: the padding `width - len` is split with
/// the smaller half on the left.
pub fn str_center(s: &str, width: usize, fillchar: char) -> (r: String)
    ensures
        r@ == (if width > utf8_len(s@) {
            let pad = width - utf8_len(s@);
            fill(fillchar, (pad / 2) as nat) + s@ + fill(fillchar, (pad - pad / 2) as nat)
        } else {
            s@
        }),
{
    let len = s.as_bytes().len();
    let chars = chars_of(s);
    let mut out: Vec<char> = Vec::new();
    if width <= len {
        push_str_chars(&mut out, &chars, 0, chars.len());
        assert(chars@.subrange(0, chars@.len() as int) =~= chars@);
        return string_from_chars(out.as_slice());
    }
    let pad = width - len;
    let left = pad / 2;
    let right = pad - left;
    push_fill(&mut out, fillchar, left);
    push_str_chars(&mut out, &chars, 0, chars.len());
    push_fill(&mut out, fillchar, right);
    assert(chars@.subrange(0, chars@.len() as int) =~= chars@);
    string_from_chars(out.as_slice())
}

/// `str.zfill(width)`: when `width` exceeds the byte length, zeros are
/// inserted after a leading sign (`+` or `-`) until the sign and the rest
/// are `width` characters wide.
pub fn str_zfill(s: &str, width: usize) -> (r: String)
    ensures
        r@ == (if width <= utf8_len(s@) {
            s@
        } else {
            let sign_len: int = if s@.len() > 0 && (s@[0] == '+' || s@[0] == '-') { 1 } else { 0 };
            let rest = s@.subrange(sign_len, s@.len() as int);
            s@.subrange(0, sign_len) + fill('0', (width - sign_len - rest.len()) as nat) + rest
        }),
{
    let len = s.as_bytes().len();
    let chars = chars_of(s);
    let mut out: Vec<char> = Vec::new();
    if width <= len {
        push_str_chars(&mut out, &chars, 0, chars.len());
        assert(chars@.subrange(0, chars@.len() as int) =~= chars@);
        return string_from_chars(out.as_slice());
    }
    let sign_len: usize = if chars.len() > 0 && (chars[0] == '+' || chars[0] == '-') { 1 } else { 0 };
    proof {
        lemma_utf8_len_at_least_chars(s@);
    }
    let rest_len = chars.len() - sign_len;
    push_str_chars(&mut out, &chars, 0, sign_len);
    push_fill(&mut out, '0', width - sign_len - rest_len);
    push_str_chars(&mut out, &chars, sign_len, chars.len());
    string_from_chars(out.as_slice())
}

/// Every character takes at least one byte in UTF-8.
pub proof fn lemma_utf8_len_at_least_chars(s: Seq<char>)
    ensures
        utf8_len(s) >= s.len(),
    decreases s.len(),
{
    if s.len() > 0 {
        lemma_utf8_len_at_least_chars(s.drop_first());
    }
}

/// `str.isspace`: every character is Unicode whitespace (true of `""`).
pub fn str_isspace(s: &str) -> (r: bool)
    ensures
        r == (forall|i: int| 0 <= i < s@.len() ==> unicode_is_whitespace(#[trigger] s@[i])),
{
    let chars = chars_of(s);
    all_in_class(&chars, &CharClass::Whitespace)
}

/// `str.isascii`: every character is below U+0080.
pub fn str_isascii(s: &str) -> (r: bool)
    ensures
        r == (forall|i: int| 0 <= i < s@.len() ==> (#[trigger] s@[i] as u32) < 0x80),
{
    let chars = chars_of(s);
    all_in_class(&chars, &CharClass::Ascii)
}

/// `str.isnumeric`: non-empty with at least one numeric character.
pub fn str_isnumeric(s: &str) -> (r: bool)
    ensures
        r == (s@.len() > 0 && exists|i: int| 0 <= i < s@.len() && unicode_is_numeric(#[trigger] s@[i])),
{
    let chars = chars_of(s);
    let mut i: usize = 0;
    while i < chars.len()
        invariant
            chars@ == s@,
            i <= chars@.len(),
            forall|k: int| 0 <= k < i ==> !unicode_is_numeric(#[trigger] chars@[k]),
        decreases chars@.len() - i,
    {
        if char_is_numeric(chars[i]) {
            return true;
        }
        i += 1;
    }
    false
}

/// `str.upper`: the Unicode uppercase of `s`.
pub fn str_upper(s: &str) -> (r: String)
    ensures
        r@ == unicode_str_uppercase(s@),
{
    str_to_uppercase(s)
}

/// `str.casefold`: the Unicode lowercase of `s`.
pub fn str_casefold(s: &str) -> (r: String)
    ensures
        r@ == unicode_str_lowercase(s@),
{
    str_to_lowercase(s)
}

/// `str.islower`: lowercasing leaves `s` as it is.
pub fn str_islower(s: &str) -> (r: bool)
    ensures
        r == (s@ == unicode_str_lowercase(s@)),
{
    let lowered = str_to_lowercase(s);
    lowered == s.to_owned()
}

/// `str.isupper`: uppercasing leaves `s` as it is.
pub fn str_isupper(s: &str) -> (r: bool)
    ensures
        r == (s@ == unicode_str_uppercase(s@)),
{
    let raised = str_to_uppercase(s);
    raised == s.to_owned()
}

/// What a `str.translate` table gives for one character.
pub enum Translation {
    /// The character has no entry: it stays.
    Keep,
    /// The entry is `None`: the character goes.
    Delete,
    /// The entry is an integer: the character with that code point (taken
    /// as a `u32`), or, when there is no such character, the integer's
    /// text `shown`.
    Ordinal { code: i64, shown: String },
    /// The entry is a string (or any other value, by its text).
    Text(String),
}

/// What one character becomes under its table entry.
pub open spec fn translated(c: char, t: Translation) -> Seq<char> {
    match t {
        Translation::Keep => seq![c],
        Translation::Delete => Seq::empty(),
        Translation::Ordinal { code, shown } => if is_scalar_value(code as u32) {
            seq![(code as u32) as char]
        } else {
            shown@
        },
        Translation::Text(x) => x@,
    }
}

/// The string `s` with each character replaced as its table entry says.
pub open spec fn translate_spec(s: Seq<char>, t: Seq<Translation>) -> Seq<char>
    decreases s.len(),
{
    if s.len() == 0 {
        Seq::empty()
    } else {
        translate_spec(s.drop_last(), t) + translated(s.last(), t[s.len() - 1])
    }
}

fn push_all(out: &mut Vec<char>, x: &str)
    ensures
        final(out)@ == old(out)@ + x@,
{
    let chars = chars_of(x);
    push_str_chars(out, &chars, 0, chars.len());
    assert(chars@.subrange(0, chars@.len() as int) =~= chars@);
}

/// `str.translate(table)` once each character's table entry is known
/// (`entries`, one per character); without a table the string is
/// returned unchanged.
pub fn str_translate(s: &str, entries: Option<&Vec<Translation>>) -> (r: String)
    requires
        entries matches Some(t) ==> t@.len() == s@.len(),
    ensures
        entries is None ==> r@ == s@,
        entries matches Some(t) ==> r@ == translate_spec(s@, t@),
{
    let chars = chars_of(s);
    match entries {
        None => string_from_chars(chars.as_slice()),
        Some(t) => {
            let mut out: Vec<char> = Vec::new();
            let mut i: usize = 0;
            while i < chars.len()
                invariant
                    chars@ == s@,
                    t@.len() == s@.len(),
                    i <= chars@.len(),
                    out@ == translate_spec(s@.subrange(0, i as int), t@),
                decreases chars@.len() - i,
            {
                let c = chars[i];
                match &t[i] {
                    Translation::Keep => out.push(c),
                    Translation::Delete => {},
                    Translation::Ordinal { code, shown } => {
                        match char_from_u32(*code as u32) {
                            Some(d) => out.push(d),
                            None => push_all(&mut out, shown.as_str()),
                        }
                    },
                    Translation::Text(x) => push_all(&mut out, x.as_str()),
                }
                proof {
                    let p = s@.subrange(0, i + 1);
                    assert(p.drop_last() =~= s@.subrange(0, i as int));
                    assert(p.last() == c);
                    assert(out@ =~= translate_spec(s@.subrange(0, i as int), t@) + translated(c, t@[i as int]));
                }
                i += 1;
            }
            assert(s@.subrange(0, i as int) =~= s@);
            string_from_chars(out.as_slice())
        },
    }
}

} // verus!
