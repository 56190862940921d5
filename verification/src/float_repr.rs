//! Exact views of a double given by its IEEE-754 bits: `float.hex()` and
//! `float.as_integer_ratio()`.

use vstd::prelude::*;
use vstd::arithmetic::power2::{pow2, lemma_pow2_pos, lemma_pow2_adds, lemma_pow2_unfold, lemma2_to64, lemma2_to64_rest};
use crate::bigint::BigIntValue;
use crate::error::{PyError, PyErrorView};
use crate::float_ops::{f64_sign_bit, f64_biased_exponent, f64_fraction, f64_significand};
use crate::unicode::string_from_chars;

verus! {

/// The lowercase hexadecimal digit for `d < 16`.
pub open spec fn hex_digit(d: nat) -> char {
    seq!['0', '1', '2', '3', '4', '5', '6', '7', '8', '9', 'a', 'b', 'c', 'd', 'e', 'f'][d as int]
}

/// The last `width` hexadecimal digits of `n`, most significant first.
pub open spec fn hex_chars(n: nat, width: nat) -> Seq<char>
    decreases width,
{
    if width == 0 {
        Seq::empty()
    } else {
        hex_chars(n / 16, (width - 1) as nat).push(hex_digit(n % 16))
    }
}

/// The decimal digits of `n`.
pub open spec fn decimal_chars(n: nat) -> Seq<char>
    decreases n,
{
    if n < 10 {
        seq![hex_digit(n)]
    } else {
        decimal_chars(n / 10).push(hex_digit(n % 10))
    }
}

/// `float.hex()` of the double with these bits: `[-]0x1.<13 hex
/// digits>p<signed exponent>` for a normal number, `[-]0x0.<13 hex
/// digits>p-1022` for a subnormal one, `[-]0x0.0p+0` for zero and
/// `[-]inf`, `[-]nan` otherwise.
pub open spec fn float_hex_spec(bits: u64) -> Seq<char> {
    let sign: Seq<char> = if f64_sign_bit(bits) { seq!['-'] } else { Seq::empty() };
    let biased = f64_biased_exponent(bits);
    let fraction = f64_fraction(bits);
    if biased == 0x7ff {
        sign + (if fraction == 0 { seq!['i', 'n', 'f'] } else { seq!['n', 'a', 'n'] })
    } else if biased == 0 && fraction == 0 {
        sign + seq!['0', 'x', '0', '.', '0', 'p', '+', '0']
    } else if biased == 0 {
        sign + seq!['0', 'x', '0', '.'] + hex_chars(fraction as nat, 13) + seq!['p', '-', '1', '0', '2', '2']
    } else {
        let e = biased - 1023;
        sign + seq!['0', 'x', '1', '.'] + hex_chars(fraction as nat, 13) + seq!['p']
            + (if e >= 0 { seq!['+'] } else { seq!['-'] })
            + decimal_chars((if e >= 0 { e } else { -e }) as nat)
    }
}

fn digit_char(d: u64) -> (c: char)
    requires
        d < 16,
    ensures
        c == hex_digit(d as nat),
{
    let table = ['0', '1', '2', '3', '4', '5', '6', '7', '8', '9', 'a', 'b', 'c', 'd', 'e', 'f'];
    assert(table@ =~= seq!['0', '1', '2', '3', '4', '5', '6', '7', '8', '9', 'a', 'b', 'c', 'd', 'e', 'f']);
    table[d as usize]
}

fn push_hex(out: &mut Vec<char>, n: u64, width: u64)
    ensures
        final(out)@ == old(out)@ + hex_chars(n as nat, width as nat),
    decreases width,
{
    if width == 0 {
        assert(old(out)@ + Seq::<char>::empty() =~= old(out)@);
        return;
    }
    push_hex(out, n / 16, width - 1);
    out.push(digit_char(n % 16));
    assert(final(out)@ =~= old(out)@ + hex_chars(n as nat, width as nat)) by {
        assert(hex_chars(n as nat, width as nat) == hex_chars((n / 16) as nat, (width - 1) as nat).push(hex_digit((n % 16) as nat)));
    }
}

fn push_decimal(out: &mut Vec<char>, n: u64)
    ensures
        final(out)@ == old(out)@ + decimal_chars(n as nat),
    decreases n,
{
    if n < 10 {
        out.push(digit_char(n));
        assert(final(out)@ =~= old(out)@ + decimal_chars(n as nat));
        return;
    }
    push_decimal(out, n / 10);
    out.push(digit_char(n % 10));
    assert(final(out)@ =~= old(out)@ + decimal_chars(n as nat)) by {
        assert(decimal_chars(n as nat) == decimal_chars((n / 10) as nat).push(hex_digit((n % 10) as nat)));
    }
}

fn push_all(out: &mut Vec<char>, s: &[char])
    ensures
        final(out)@ == old(out)@ + s@,
{
    let mut i: usize = 0;
    while i < s.len()
        invariant
            i <= s@.len(),
            out@ == old(out)@ + s@.subrange(0, i as int),
        decreases s@.len() - i,
    {
        out.push(s[i]);
        assert(s@.subrange(0, i + 1) =~= s@.subrange(0, i as int).push(s@[i as int]));
        i += 1;
    }
    assert(s@.subrange(0, s@.len() as int) =~= s@);
}

/// `float.hex()` of the double with bits `bits`.
pub fn float_hex(bits: u64) -> (r: String)
    ensures
        r@ == float_hex_spec(bits),
{
    let negative = (bits >> 63u64) != 0;
    let biased = (bits >> 52u64) & 0x7ffu64;
    let fraction = bits & 0x000f_ffff_ffff_ffffu64;
    assert(biased < 0x800) by (bit_vector)
        requires biased == (bits >> 52u64) & 0x7ffu64;
    let mut out: Vec<char> = Vec::new();
    if negative {
        out.push('-');
    }
    let ghost sign = out@;
    assert(sign == (if f64_sign_bit(bits) { seq!['-'] } else { Seq::<char>::empty() }));
    if biased == 0x7ff {
        if fraction == 0 {
            push_all(&mut out, &['i', 'n', 'f']);
        } else {
            push_all(&mut out, &['n', 'a', 'n']);
        }
    } else if biased == 0 && fraction == 0 {
        push_all(&mut out, &['0', 'x', '0', '.', '0', 'p', '+', '0']);
    } else if biased == 0 {
        push_all(&mut out, &['0', 'x', '0', '.']);
        push_hex(&mut out, fraction, 13);
        push_all(&mut out, &['p', '-', '1', '0', '2', '2']);
    } else {
        push_all(&mut out, &['0', 'x', '1', '.']);
        push_hex(&mut out, fraction, 13);
        out.push('p');
        if biased >= 1023 {
            out.push('+');
            push_decimal(&mut out, biased - 1023);
        } else {
            out.push('-');
            push_decimal(&mut out, 1023 - biased);
        }
    }
    proof {
        let ghost spec = float_hex_spec(bits);
        assert(out@ =~= spec);
    }
    string_from_chars(out.as_slice())
}

/// The exponent of the lowest significand bit: `biased - 1075` for a
/// normal double, `-1074` for a subnormal one.
pub open spec fn f64_exact_exponent(bits: u64) -> int {
    if f64_biased_exponent(bits) == 0 { -1074 } else { f64_biased_exponent(bits) - 1075 }
}

/// The significand with the double's sign.
pub open spec fn f64_signed_significand(bits: u64) -> int {
    if f64_sign_bit(bits) { -(f64_significand(bits) as int) } else { f64_significand(bits) as int }
}

/// A finite double is exactly `f64_ratio_num(bits) / f64_ratio_den(bits)`.
pub open spec fn f64_ratio_num(bits: u64) -> int {
    let e = f64_exact_exponent(bits);
    if e >= 0 { f64_signed_significand(bits) * pow2(e as nat) } else { f64_signed_significand(bits) }
}

pub open spec fn f64_ratio_den(bits: u64) -> int {
    let e = f64_exact_exponent(bits);
    if e >= 0 { 1 } else { pow2((-e) as nat) as int }
}

/// `float.as_integer_ratio()` of the double with bits `bits`: the
/// fraction in lowest terms, with a positive denominator (a power of two),
/// equal to the double; infinities and NaN have none.
pub fn float_as_integer_ratio(bits: u64) -> (r: Result<(BigIntValue, BigIntValue), PyError>)
    ensures
        f64_biased_exponent(bits) == 0x7ff && f64_fraction(bits) == 0 ==> (r matches Err(e)
            && e@ == PyErrorView::OverflowError("cannot convert Infinity to integer ratio"@)),
        f64_biased_exponent(bits) == 0x7ff && f64_fraction(bits) != 0 ==> (r matches Err(e)
            && e@ == PyErrorView::ValueError("cannot convert NaN to integer ratio"@)),
        f64_biased_exponent(bits) != 0x7ff ==> (r matches Ok((n, d))
            && d@ >= 1
            && n@ * f64_ratio_den(bits) == f64_ratio_num(bits) * d@
            && (exists|k: nat| pow2(k) == d@)
            && (d@ == 1 || n@ % 2 != 0)),
{
    let negative = (bits >> 63u64) != 0;
    let biased = (bits >> 52u64) & 0x7ffu64;
    let fraction = bits & 0x000f_ffff_ffff_ffffu64;
    if biased == 0x7ff {
        if fraction == 0 {
            return Err(PyError::OverflowError("cannot convert Infinity to integer ratio".to_owned()));
        }
        return Err(PyError::ValueError("cannot convert NaN to integer ratio".to_owned()));
    }
    assert(biased < 0x800) by (bit_vector)
        requires biased == (bits >> 52u64) & 0x7ffu64;
    assert(fraction < 0x10_0000_0000_0000) by (bit_vector)
        requires fraction == bits & 0x000f_ffff_ffff_ffffu64;
    proof {
        lemma2_to64();
        lemma2_to64_rest();
    }
    let significand: u64 = if biased == 0 {
        fraction
    } else {
        assert((1u64 << 52u64) | fraction == fraction + 0x10_0000_0000_0000) by (bit_vector)
            requires fraction < 0x10_0000_0000_0000u64;
        (1u64 << 52u64) | fraction
    };
    assert(pow2(52) == 0x10_0000_0000_0000);
    assert(significand as nat == f64_significand(bits));
    if significand == 0 {
        let zero = BigIntValue::from_i64(0);
        let one = BigIntValue::from_i64(1);
        proof {
            assert(f64_signed_significand(bits) == 0);
            assert(pow2(0) == 1);
        }
        return Ok((zero, one));
    }
    if biased >= 1075 {
        let shift = (biased - 1075) as usize;
        let magnitude = BigIntValue::from_u64(significand).shl(shift);
        let n = if negative { magnitude.neg() } else { magnitude };
        let one = BigIntValue::from_i64(1);
        proof {
            assert(f64_exact_exponent(bits) == shift as int);
            assert(pow2(0) == 1);
            let p = pow2(shift as nat) as int;
            let sig = significand as int;
            if negative {
                assert(n@ == -(sig * p));
                assert(f64_ratio_num(bits) == (-sig) * p);
                assert(-(sig * p) == (-sig) * p) by (nonlinear_arith);
            } else {
                assert(n@ == sig * p);
            }
        }
        return Ok((n, one));
    }
    let limit: u64 = if biased == 0 { 1074 } else { 1075 - biased };
    assert(f64_exact_exponent(bits) == -(limit as int));
    let mut m: u64 = significand;
    let mut t: u64 = 0;
    while t < limit && m % 2 == 0
        invariant
            t <= limit <= 1075,
            m > 0,
            m * pow2(t as nat) == significand,
        decreases limit - t,
    {
        proof {
            lemma_pow2_unfold((t + 1) as nat);
            assert((m / 2) * pow2((t + 1) as nat) == m * pow2(t as nat)) by (nonlinear_arith)
                requires m % 2 == 0, pow2((t + 1) as nat) == 2 * pow2(t as nat);
        }
        m = m / 2;
        t += 1;
    }
    let magnitude = BigIntValue::from_u64(m);
    let n = if negative { magnitude.neg() } else { magnitude };
    let d = BigIntValue::from_u64(1).shl((limit - t) as usize);
    proof {
        lemma_pow2_adds(t as nat, (limit - t) as nat);
        lemma_pow2_pos((limit - t) as nat);
        let pt = pow2(t as nat) as int;
        let pr = pow2((limit - t) as nat) as int;
        let sig = significand as int;
        assert(f64_ratio_den(bits) == pt * pr);
        assert(d@ == pr);
        assert(sig == m * pt);
        if negative {
            assert(n@ == -(m as int));
            assert(f64_ratio_num(bits) == -sig);
            assert((-(m as int)) * (pt * pr) == (-sig) * pr) by (nonlinear_arith)
                requires sig == m * pt;
        } else {
            assert(n@ == m as int);
            assert(f64_ratio_num(bits) == sig);
            assert((m as int) * (pt * pr) == sig * pr) by (nonlinear_arith)
                requires sig == m * pt;
        }
        if t == limit {
            assert(pow2(0) == 1);
        } else {
            assert(m % 2 != 0);
            assert(n@ % 2 != 0) by {
                if negative {
                    assert((-(m as int)) % 2 != 0) by (nonlinear_arith)
                        requires m % 2 != 0;
                }
            }
        }
    }
    Ok((n, d))
}

} // verus!
