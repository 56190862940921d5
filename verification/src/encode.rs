//! `str.encode(encoding, errors)` for the UTF-8, Latin-1 and ASCII codecs,
//! with the standard error handlers.

use vstd::prelude::*;
use vstd::string::StrSliceExecFns;
use vstd::utf8::encode_utf8;
use crate::error::PyError;
use crate::unicode::{string_from_chars, chars_of};

verus! {

/// The codec name as compared: ASCII letters lowercased and `_` read as `-`.
pub open spec fn normalize_codec_name(name: Seq<char>) -> Seq<char> {
    name.map_values(|c: char| {
        let l = if 'A' <= c && c <= 'Z' { ((c as u8) + 32) as char } else { c };
        if l == '_' { '-' } else { l }
    })
}

pub open spec fn is_utf8_name(n: Seq<char>) -> bool {
    n == "utf-8"@ || n == "utf8"@
}

pub open spec fn is_latin1_name(n: Seq<char>) -> bool {
    n == "latin-1"@ || n == "latin1"@ || n == "iso-8859-1"@ || n == "iso8859-1"@ || n == "l1"@
        || n == "8859"@ || n == "cp819"@
}

pub open spec fn is_ascii_name(n: Seq<char>) -> bool {
    n == "ascii"@ || n == "us-ascii"@ || n == "646"@
}

/// The ASCII digit byte for `d < 16` (lowercase hexadecimal letters).
pub open spec fn digit_byte(d: nat) -> u8 {
    if d < 10 { (48 + d) as u8 } else { (87 + d) as u8 }
}

/// Decimal representation of `n`, as ASCII bytes.
pub open spec fn decimal_bytes(n: nat) -> Seq<u8>
    decreases n,
{
    if n < 10 {
        seq![digit_byte(n)]
    } else {
        decimal_bytes(n / 10).push(digit_byte(n % 10))
    }
}

/// The last `width` lowercase hexadecimal digits of `n`, as ASCII bytes.
pub open spec fn hex_bytes(n: nat, width: nat) -> Seq<u8>
    decreases width,
{
    if width == 0 {
        Seq::empty()
    } else {
        hex_bytes(n / 16, (width - 1) as nat).push(digit_byte(n % 16))
    }
}

/// `\xhh`, `\uhhhh` or `\Uhhhhhhhh` for the code point `cp`.
pub open spec fn backslash_escape(cp: nat) -> Seq<u8> {
    if cp < 0x100 {
        seq![92u8, 120u8] + hex_bytes(cp, 2)
    } else if cp < 0x10000 {
        seq![92u8, 117u8] + hex_bytes(cp, 4)
    } else {
        seq![92u8, 85u8] + hex_bytes(cp, 8)
    }
}

/// What a character encodes to under a codec that maps code points up to
/// `limit` to themselves (`0xff` for Latin-1, `0x7f` for ASCII) and the
/// `errors` handler; `None` when the handler raises.
pub open spec fn encode_char(c: char, limit: u32, errors: Seq<char>) -> Option<Seq<u8>> {
    let cp = c as u32;
    if cp <= limit {
        Some(seq![cp as u8])
    } else if errors == "surrogateescape"@ && 0xDC80 <= cp <= 0xDCFF {
        Some(seq![(cp - 0xDC00) as u8])
    } else if limit == 0x7f && errors == "surrogateescape"@ && 0x80 <= cp <= 0xFF {
        Some(seq![cp as u8])
    } else if errors == "strict"@ {
        None
    } else if errors == "ignore"@ {
        Some(Seq::empty())
    } else if errors == "replace"@ {
        Some(seq![63u8])
    } else if errors == "xmlcharrefreplace"@ {
        Some(seq![38u8, 35u8] + decimal_bytes(cp as nat) + seq![59u8])
    } else if errors == "backslashreplace"@ || errors == "namereplace"@ {
        Some(backslash_escape(cp as nat))
    } else {
        None
    }
}

/// The bytes of the first `n` characters of `s`, or the position of the
/// first character among them that the handler refuses.
pub open spec fn encode_prefix(s: Seq<char>, limit: u32, errors: Seq<char>, n: nat) -> Result<Seq<u8>, nat>
    decreases n,
{
    if n == 0 {
        Ok(Seq::empty())
    } else {
        match encode_prefix(s, limit, errors, (n - 1) as nat) {
            Err(i) => Err(i),
            Ok(b) => match encode_char(s[n - 1], limit, errors) {
                None => Err((n - 1) as nat),
                Some(o) => Ok(b + o),
            },
        }
    }
}

/// The result of `str.encode`.
#[derive(Debug, PartialEq)]
pub enum Encoded {
    /// The encoded bytes.
    Bytes(Vec<u8>),
    /// The codec is not built in: the codec registry decides, with the
    /// UTF-8 encoding as the result when no codec of that name exists
    /// (`encoder_source` picks the encoder, `registry_result` reads its
    /// answer).
    Lookup { encoding: String, errors: String, utf8_fallback: Vec<u8> },
}

fn eq_lit(a: &String, lit: &str) -> (r: bool)
    ensures
        r == (a@ == lit@),
{
    *a == lit.to_owned()
}

fn normalize_name(name: &str) -> (r: String)
    ensures
        r@ == normalize_codec_name(name@),
{
    let chars = chars_of(name);
    let mut out: Vec<char> = Vec::new();
    let mut i: usize = 0;
    while i < chars.len()
        invariant
            i <= chars@.len(),
            chars@ == name@,
            out@ == normalize_codec_name(name@).subrange(0, i as int),
        decreases chars@.len() - i,
    {
        let c = chars[i];
        let l = if 'A' <= c && c <= 'Z' { ((c as u8) + 32) as char } else { c };
        out.push(if l == '_' { '-' } else { l });
        assert(normalize_codec_name(name@).subrange(0, i + 1) =~= normalize_codec_name(name@).subrange(0, i as int).push(
            normalize_codec_name(name@)[i as int]));
        i += 1;
    }
    assert(normalize_codec_name(name@).subrange(0, i as int) =~= normalize_codec_name(name@));
    string_from_chars(out.as_slice())
}

fn push_decimal(out: &mut Vec<u8>, n: u32)
    ensures
        final(out)@ == old(out)@ + decimal_bytes(n as nat),
    decreases n,
{
    if n >= 10 {
        push_decimal(out, n / 10);
    }
    out.push((48 + n % 10) as u8);
}

fn push_hex(out: &mut Vec<u8>, n: u32, width: u32)
    ensures
        final(out)@ == old(out)@ + hex_bytes(n as nat, width as nat),
    decreases width,
{
    if width > 0 {
        push_hex(out, n / 16, width - 1);
        let d = n % 16;
        out.push(if d < 10 { (48 + d) as u8 } else { (87 + d) as u8 });
    }
}

/// Appends what `c` encodes to, or returns false when the handler raises.
fn encode_one(out: &mut Vec<u8>, c: char, limit: u32, errors: &String) -> (ok: bool)
    ensures
        ok == (encode_char(c, limit, errors@) is Some),
        ok ==> final(out)@ == old(out)@ + encode_char(c, limit, errors@)->Some_0,
{
    let cp = c as u32;
    if cp <= limit {
        out.push(cp as u8);
        return true;
    }
    let surrogate_escape = eq_lit(errors, "surrogateescape");
    if surrogate_escape && 0xDC80 <= cp && cp <= 0xDCFF {
        out.push((cp - 0xDC00) as u8);
        return true;
    }
    if limit == 0x7f && surrogate_escape && 0x80 <= cp && cp <= 0xFF {
        out.push(cp as u8);
        return true;
    }
    if eq_lit(errors, "strict") {
        return false;
    }
    if eq_lit(errors, "ignore") {
        assert(old(out)@ + Seq::<u8>::empty() =~= old(out)@);
        return true;
    }
    if eq_lit(errors, "replace") {
        out.push(63u8);
        return true;
    }
    if eq_lit(errors, "xmlcharrefreplace") {
        let ghost base = out@;
        out.push(38u8);
        out.push(35u8);
        push_decimal(out, cp);
        out.push(59u8);
        assert(out@ =~= base + (seq![38u8, 35u8] + decimal_bytes(cp as nat) + seq![59u8]));
        return true;
    }
    if eq_lit(errors, "backslashreplace") || eq_lit(errors, "namereplace") {
        let ghost base = out@;
        out.push(92u8);
        if cp < 0x100 {
            out.push(120u8);
            push_hex(out, cp, 2);
        } else if cp < 0x10000 {
            out.push(117u8);
            push_hex(out, cp, 4);
        } else {
            out.push(85u8);
            push_hex(out, cp, 8);
        }
        assert(out@ =~= base + backslash_escape(cp as nat));
        return true;
    }
    false
}

/// Encodes `s` with a code-point-limited codec; the error position is the
/// index of the first refused character.
fn encode_limited(s: &str, limit: u32, errors: &String) -> (r: Result<Vec<u8>, usize>)
    ensures
        match encode_prefix(s@, limit, errors@, s@.len()) {
            Ok(b) => r matches Ok(v) && v@ == b,
            Err(i) => r matches Err(j) && j as nat == i,
        },
        r matches Err(i) ==> i < usize::MAX,
{
    let chars = chars_of(s);
    let mut out: Vec<u8> = Vec::new();
    let mut i: usize = 0;
    while i < chars.len()
        invariant
            i <= chars@.len(),
            chars@ == s@,
            encode_prefix(s@, limit, errors@, i as nat) == Ok::<Seq<u8>, nat>(out@),
        decreases chars@.len() - i,
    {
        if !encode_one(&mut out, chars[i], limit, errors) {
            proof {
                lemma_encode_prefix_err_stays(s@, limit, errors@, (i + 1) as nat, s@.len());
                lemma_err_index_in_range(s@, limit, errors@, s@.len());
            }
            return Err(i);
        }
        i += 1;
    }
    Ok(out)
}

/// Once a prefix is refused, every longer prefix is refused at the same
/// position.
proof fn lemma_encode_prefix_err_stays(s: Seq<char>, limit: u32, errors: Seq<char>, m: nat, n: nat)
    requires
        m <= n,
        encode_prefix(s, limit, errors, m) is Err,
    ensures
        encode_prefix(s, limit, errors, n) == encode_prefix(s, limit, errors, m),
    decreases n - m,
{
    if m < n {
        lemma_encode_prefix_err_stays(s, limit, errors, m, (n - 1) as nat);
    }
}

/// The encoding name used when none (or `None`) is given.
pub open spec fn encoding_or_default(encoding: Option<&str>) -> Seq<char> {
    match encoding {
        Some(e) => e@,
        None => "utf-8"@,
    }
}

/// The error handler used when none (or `None`) is given.
pub open spec fn errors_or_default(errors: Option<&str>) -> Seq<char> {
    match errors {
        Some(e) => e@,
        None => "strict"@,
    }
}

/// `str.encode(encoding='utf-8', errors='strict')`. UTF-8, Latin-1 and
/// ASCII (under their usual aliases, compared case-insensitively with `_`
/// read as `-`) are encoded here; a character the codec cannot represent
/// goes to the error handler (`strict`, `ignore`, `replace`,
/// `xmlcharrefreplace`, `backslashreplace`, `namereplace`,
/// `surrogateescape`), and a refusal raises `UnicodeEncodeError(encoding,
/// s, i, i + 1, reason)` for the first refused character `i`. Any other
/// codec name is left to the codec registry.
pub fn str_encode_builtin(s: &str, encoding_arg: Option<&str>, errors_arg: Option<&str>) -> (r: Result<Encoded, PyError>)
    ensures
        ({
            let enc = encoding_or_default(encoding_arg);
            let err = errors_or_default(errors_arg);
            let norm = normalize_codec_name(enc);
            if is_utf8_name(norm) {
                r matches Ok(Encoded::Bytes(v)) && v@ == encode_utf8(s@)
            } else if is_latin1_name(norm) || is_ascii_name(norm) {
                let limit: u32 = if is_latin1_name(norm) { 0xff } else { 0x7f };
                match encode_prefix(s@, limit, err, s@.len()) {
                    Ok(b) => r matches Ok(Encoded::Bytes(v)) && v@ == b,
                    Err(i) => r matches Err(PyError::UnicodeEncodeError { encoding: e, object, start, end, reason })
                        && e@ == enc && object@ == s@ && start == i && end == i + 1
                        && reason@ == (if limit == 0xff { "ordinal not in range(256)"@ } else { "ordinal not in range(128)"@ }),
                }
            } else {
                r matches Ok(Encoded::Lookup { encoding: e, errors: h, utf8_fallback: v })
                    && e@ == enc && h@ == err && v@ == encode_utf8(s@)
            }
        }),
{
    let encoding: String = match encoding_arg {
        Some(e) => e.to_owned(),
        None => "utf-8".to_owned(),
    };
    let errors: String = match errors_arg {
        Some(e) => e.to_owned(),
        None => "strict".to_owned(),
    };
    let norm = normalize_name(encoding.as_str());
    assert(encoding@ == encoding_or_default(encoding_arg));
    if eq_lit(&norm, "utf-8") || eq_lit(&norm, "utf8") {
        let v = s.as_bytes_vec();
        assert(v@ == encode_utf8(s@));
        return Ok(Encoded::Bytes(v));
    }
    let latin1 = eq_lit(&norm, "latin-1") || eq_lit(&norm, "latin1") || eq_lit(&norm, "iso-8859-1")
        || eq_lit(&norm, "iso8859-1") || eq_lit(&norm, "l1") || eq_lit(&norm, "8859")
        || eq_lit(&norm, "cp819");
    let ascii = eq_lit(&norm, "ascii") || eq_lit(&norm, "us-ascii") || eq_lit(&norm, "646");
    if latin1 || ascii {
        let limit: u32 = if latin1 { 0xff } else { 0x7f };
        match encode_limited(s, limit, &errors) {
            Ok(v) => Ok(Encoded::Bytes(v)),
            Err(i) => {
                let reason = if latin1 {
                    "ordinal not in range(256)".to_owned()
                } else {
                    "ordinal not in range(128)".to_owned()
                };
                Err(PyError::UnicodeEncodeError {
                    encoding,
                    object: s.to_owned(),
                    start: i,
                    end: i + 1,
                    reason,
                })
            },
        }
    } else {
        Ok(Encoded::Lookup { encoding, errors, utf8_fallback: s.as_bytes_vec() })
    }
}

/// A refused position lies inside the prefix.
proof fn lemma_err_index_in_range(s: Seq<char>, limit: u32, errors: Seq<char>, n: nat)
    ensures
        encode_prefix(s, limit, errors, n) matches Err(i) ==> i < n,
    decreases n,
{
    if n > 0 {
        lemma_err_index_in_range(s, limit, errors, (n - 1) as nat);
    }
}

/// What the codec registry holds under a name `str.encode` does not
/// encode itself.
pub enum CodecEntry {
    /// A tuple of the given length (its first item is the encoder).
    Tuple(usize),
    /// Another object; `has_encode` says whether reading its `encode`
    /// attribute succeeds.
    Object { has_encode: bool },
}

/// Where the encoder of a registry entry comes from.
#[derive(Debug, PartialEq, Eq)]
pub enum EncoderSource {
    /// The tuple's first item.
    TupleFirst,
    /// The entry's `encode` attribute.
    EncodeAttribute,
    /// There is no encoder: the string is encoded as UTF-8.
    NoEncoder,
}

/// The encoder `str.encode` calls for a registry entry (`None`: no codec
/// of that name is registered).
pub fn encoder_source(entry: Option<CodecEntry>) -> (r: EncoderSource)
    ensures
        r == (match entry {
            Some(CodecEntry::Tuple(len)) => if len > 0 { EncoderSource::TupleFirst } else { EncoderSource::NoEncoder },
            Some(CodecEntry::Object { has_encode }) => if has_encode { EncoderSource::EncodeAttribute } else { EncoderSource::NoEncoder },
            None => EncoderSource::NoEncoder,
        }),
{
    match entry {
        Some(CodecEntry::Tuple(len)) => if len > 0 { EncoderSource::TupleFirst } else { EncoderSource::NoEncoder },
        Some(CodecEntry::Object { has_encode }) => if has_encode { EncoderSource::EncodeAttribute } else { EncoderSource::NoEncoder },
        None => EncoderSource::NoEncoder,
    }
}

/// A value an encoder hands back, as far as `str.encode` reads it.
pub enum CodecValue {
    Bytes(Vec<u8>),
    ByteArray(Vec<u8>),
    /// Any other value, by its `str()`.
    Other { text: String },
}

/// What the encoder returned: a tuple (`text` being the tuple's own
/// `str()`), or a single value.
pub enum CodecReturn {
    Tuple { items: Vec<CodecValue>, text: String },
    Single(CodecValue),
}

/// The outcome of calling the encoder with the string and the error
/// handler.
pub enum EncoderCall {
    Raised(PyError),
    Returned(CodecReturn),
}

/// The bytes a value stands for: bytes and bytearrays as they are, any
/// other value as the UTF-8 encoding of its `str()`.
pub open spec fn value_bytes(v: CodecValue) -> Seq<u8> {
    match v {
        CodecValue::Bytes(b) => b@,
        CodecValue::ByteArray(b) => b@,
        CodecValue::Other { text } => encode_utf8(text@),
    }
}

/// The bytes an encoder's return stands for: a non-empty tuple by its first
/// item, anything else by itself.
pub open spec fn return_bytes(r: CodecReturn) -> Seq<u8> {
    match r {
        CodecReturn::Tuple { items, text } =>
            if items@.len() > 0 { value_bytes(items@[0]) } else { encode_utf8(text@) },
        CodecReturn::Single(v) => value_bytes(v),
    }
}

fn bytes_of_value(v: &CodecValue) -> (r: Vec<u8>)
    ensures
        r@ == value_bytes(*v),
{
    match v {
        CodecValue::Bytes(b) => {
            let mut out: Vec<u8> = Vec::new();
            let mut i: usize = 0;
            while i < b.len()
                invariant
                    i <= b@.len(),
                    out@ == b@.subrange(0, i as int),
                decreases b@.len() - i,
            {
                out.push(b[i]);
                i += 1;
                assert(out@ =~= b@.subrange(0, i as int));
            }
            assert(b@.subrange(0, i as int) =~= b@);
            out
        },
        CodecValue::ByteArray(b) => {
            let mut out: Vec<u8> = Vec::new();
            let mut i: usize = 0;
            while i < b.len()
                invariant
                    i <= b@.len(),
                    out@ == b@.subrange(0, i as int),
                decreases b@.len() - i,
            {
                out.push(b[i]);
                i += 1;
                assert(out@ =~= b@.subrange(0, i as int));
            }
            assert(b@.subrange(0, i as int) =~= b@);
            out
        },
        CodecValue::Other { text } => {
            let v = text.as_str().as_bytes_vec();
            assert(v@ == encode_utf8(text@));
            v
        },
    }
}

/// The end of `str.encode` for a codec left to the registry: without an
/// encoder (`None`) the string's UTF-8 encoding (`fallback`) is the result;
/// an error the encoder raises propagates; otherwise the result is the
/// bytes its return stands for, as a `bytes` object.
pub fn registry_result(fallback: Vec<u8>, call: Option<EncoderCall>) -> (r: Result<Vec<u8>, PyError>)
    ensures
        match call {
            None => r matches Ok(v) && v@ == fallback@,
            Some(EncoderCall::Raised(e)) => r == Err::<Vec<u8>, PyError>(e),
            Some(EncoderCall::Returned(ret)) => r matches Ok(v) && v@ == return_bytes(ret),
        },
{
    match call {
        None => Ok(fallback),
        Some(EncoderCall::Raised(e)) => Err(e),
        Some(EncoderCall::Returned(ret)) => match ret {
            CodecReturn::Tuple { items, text } => {
                if items.len() > 0 {
                    Ok(bytes_of_value(&items[0]))
                } else {
                    let v = text.as_str().as_bytes_vec();
                    assert(v@ == encode_utf8(text@));
                    Ok(v)
                }
            },
            CodecReturn::Single(v) => Ok(bytes_of_value(&v)),
        },
    }
}

} // verus!
