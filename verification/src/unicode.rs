//! The Unicode character properties and case mappings of Rust's `char`,
//! and conversions between strings and character sequences.

use vstd::prelude::*;
use vstd::string::StrSliceExecFns;

verus! {

/// Whether `c` has the Unicode `Uppercase` property (`char::is_uppercase`).
pub uninterp spec fn unicode_is_uppercase(c: char) -> bool;

/// Whether `c` has the Unicode `Lowercase` property (`char::is_lowercase`).
pub uninterp spec fn unicode_is_lowercase(c: char) -> bool;

/// The characters of the full Unicode lowercase mapping of `c`
/// (`char::to_lowercase`).
pub uninterp spec fn unicode_lowercase(c: char) -> Seq<char>;

/// The characters of the full Unicode uppercase mapping of `c`
/// (`char::to_uppercase`).
pub uninterp spec fn unicode_uppercase(c: char) -> Seq<char>;

/// Whether `c` has the Unicode `White_Space` property
/// (`char::is_whitespace`).
pub uninterp spec fn unicode_is_whitespace(c: char) -> bool;

/// Whether `c` is in one of the Unicode numeric general categories `Nd`,
/// `Nl` or `No` (`char::is_numeric`).
pub uninterp spec fn unicode_is_numeric(c: char) -> bool;

/// The full Unicode lowercase of a whole string (`str::to_lowercase`,
/// which also maps a word-final capital sigma to the final form).
pub uninterp spec fn unicode_str_lowercase(s: Seq<char>) -> Seq<char>;

/// The full Unicode uppercase of a whole string (`str::to_uppercase`).
pub uninterp spec fn unicode_str_uppercase(s: Seq<char>) -> Seq<char>;

/// Whether `v` is a Unicode scalar value: a code point that is not a
/// surrogate.
pub open spec fn is_scalar_value(v: u32) -> bool {
    v <= 0xD7FF || (0xE000 <= v && v <= 0x10FFFF)
}

/// `char::from_u32`: the character with code point `v`, or `None` when `v`
/// is a surrogate or beyond `0x10FFFF`.
#[verifier::external_body]
pub(crate) fn char_from_u32(v: u32) -> (r: Option<char>)
    ensures
        r == (if is_scalar_value(v) { Some(v as char) } else { None::<char> }),
{
    char::from_u32(v)
}

/// `char::is_whitespace`: the Unicode `White_Space` property of `c`.
#[verifier::external_body]
pub(crate) fn char_is_whitespace(c: char) -> (r: bool)
    ensures
        r == unicode_is_whitespace(c),
{
    c.is_whitespace()
}

/// `char::is_numeric`: whether `c` is in category `Nd`, `Nl` or `No`.
#[verifier::external_body]
pub(crate) fn char_is_numeric(c: char) -> (r: bool)
    ensures
        r == unicode_is_numeric(c),
{
    c.is_numeric()
}

/// `str::to_lowercase`.
#[verifier::external_body]
pub(crate) fn str_to_lowercase(s: &str) -> (r: String)
    ensures
        r@ == unicode_str_lowercase(s@),
{
    s.to_lowercase()
}

/// `str::to_uppercase`.
#[verifier::external_body]
pub(crate) fn str_to_uppercase(s: &str) -> (r: String)
    ensures
        r@ == unicode_str_uppercase(s@),
{
    s.to_uppercase()
}

/// `char::is_uppercase`: the Unicode `Uppercase` property of `c`.
#[verifier::external_body]
pub(crate) fn char_is_uppercase(c: char) -> (r: bool)
    ensures
        r == unicode_is_uppercase(c),
{
    c.is_uppercase()
}

/// `char::is_lowercase`: the Unicode `Lowercase` property of `c`.
#[verifier::external_body]
pub(crate) fn char_is_lowercase(c: char) -> (r: bool)
    ensures
        r == unicode_is_lowercase(c),
{
    c.is_lowercase()
}

/// `char::to_lowercase`, its characters collected in order.
#[verifier::external_body]
pub(crate) fn char_to_lowercase(c: char) -> (r: Vec<char>)
    ensures
        r@ == unicode_lowercase(c),
{
    c.to_lowercase().collect()
}

/// `char::to_uppercase`, its characters collected in order.
#[verifier::external_body]
pub(crate) fn char_to_uppercase(c: char) -> (r: Vec<char>)
    ensures
        r@ == unicode_uppercase(c),
{
    c.to_uppercase().collect()
}

/// `String::from_iter` over characters: the string made of `chars`.
#[verifier::external_body]
pub(crate) fn string_from_chars(chars: &[char]) -> (r: String)
    ensures
        r@ == chars@,
{
    chars.iter().collect()
}

/// The characters of `s`, in order.
pub fn chars_of(s: &str) -> (r: Vec<char>)
    ensures
        r@ == s@,
{
    let n = s.unicode_len();
    let mut out: Vec<char> = Vec::new();
    let mut i: usize = 0;
    while i < n
        invariant
            n == s@.len(),
            i <= n,
            out@ == s@.subrange(0, i as int),
        decreases n - i,
    {
        out.push(s.get_char(i));
        i += 1;
    }
    out
}

} // verus!
