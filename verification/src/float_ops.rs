//! Decisions behind the float arithmetic dunders and the exact conversion of
//! a float to an integer. The float arithmetic itself is performed by the
//! caller; this module decides which operation applies, with which operand
//! order, and which exception is raised instead.

use vstd::prelude::*;
use crate::bigint::{BigIntValue, trunc_div};
use crate::error::{PyError, PyErrorView};
use vstd::arithmetic::power2::{pow2, lemma_pow2_pos, lemma2_to64, lemma2_to64_rest};
use vstd::arithmetic::div_mod::{lemma_fundamental_div_mod, lemma_fundamental_div_mod_converse, lemma_mod_pos_bound};

verus! {

/// What the operator machinery needs to know of a float operand.
#[derive(Debug, Clone, Copy, PartialEq, Eq, Structural)]
pub struct FloatFacts {
    /// `x == 0.0`
    pub is_zero: bool,
    /// `x < 0.0`
    pub is_negative: bool,
    /// `x.is_finite()`
    pub is_finite: bool,
    /// `x.fract() == 0.0`
    pub is_integral: bool,
    /// `x.is_sign_negative()`
    pub sign_negative: bool,
}

/// An operand of a float dunder: a number with its facts, or a value with
/// no float value (such as an instance of a user class).
#[derive(Debug, Clone, Copy, PartialEq, Eq, Structural)]
pub enum Operand {
    Float(FloatFacts),
    NotNumeric,
}

/// The float operation a dunder performs.
#[derive(Debug, Clone, Copy, PartialEq, Eq, Structural)]
pub enum FloatOp {
    /// `a / b`
    TrueDiv,
    /// `(a / b).floor()`
    FloorDiv,
    /// `a % b`, then the sign adjustment of `float_mod_adjust`
    Mod,
    /// `a.powf(b)`
    Pow,
    /// A negative finite base with a finite non-integral exponent: the
    /// complex result `(-a)^b * (cos(b*pi), sin(b*pi))`.
    ComplexPow,
    /// `a + b`
    Add,
    /// `a - b`
    Sub,
    /// `a * b`
    Mul,
}

/// What a float dunder does with its arguments.
#[derive(Debug, Clone, Copy, PartialEq, Eq, Structural)]
pub enum BinopAction {
    /// Return `NotImplemented` so the other operand's reflected dunder runs.
    NotImplemented,
    /// Compute `op(a, b)`, where `a`, `b` are the last two arguments in that
    /// order, or in the opposite order when `swap` holds.
    Compute { op: FloatOp, swap: bool },
}

/// The left and right operands: the last two arguments, exchanged for a
/// reflected dunder.
pub open spec fn binop_operands(args: Seq<Operand>, reverse: bool) -> (Operand, Operand) {
    let x = args[args.len() - 2];
    let y = args[args.len() - 1];
    if reverse { (y, x) } else { (x, y) }
}

/// The operation selected by `kind` (0 `/`, 1 `//`, 2 `%`, 3 `**`, 4 `+`,
/// 5 `-`, 6 `*`) for the operands `a`, `b`.
pub open spec fn binop_op(kind: u8, a: FloatFacts, b: FloatFacts) -> FloatOp {
    if kind == 0 {
        FloatOp::TrueDiv
    } else if kind == 1 {
        FloatOp::FloorDiv
    } else if kind == 2 {
        FloatOp::Mod
    } else if kind == 3 {
        if a.is_negative && a.is_finite && !b.is_integral && b.is_finite {
            FloatOp::ComplexPow
        } else {
            FloatOp::Pow
        }
    } else if kind == 4 {
        FloatOp::Add
    } else if kind == 5 {
        FloatOp::Sub
    } else {
        FloatOp::Mul
    }
}

/// `0.0 ** b` for a finite negative `b` has no float value.
pub open spec fn zero_to_negative_power(kind: u8, a: FloatFacts, b: FloatFacts) -> bool {
    kind == 3 && a.is_zero && b.is_negative && b.is_finite
}

/// What `float_binop_dunder` gives, with the exception as its view.
pub open spec fn float_binop_spec(args: Seq<Operand>, reverse: bool, kind: u8) -> Result<BinopAction, PyErrorView> {
    if args.len() < 2 {
        Err(PyErrorView::TypeError("binary operator needs 2 arguments"@))
    } else {
        let (a, b) = binop_operands(args, reverse);
        match (a, b) {
            (Operand::Float(fa), Operand::Float(fb)) => {
                if zero_to_negative_power(kind, fa, fb) {
                    Err(PyErrorView::ZeroDivisionError("0.0 cannot be raised to a negative power"@))
                } else if kind > 6 {
                    Err(PyErrorView::TypeError("unknown operator"@))
                } else {
                    Ok(BinopAction::Compute { op: binop_op(kind, fa, fb), swap: reverse })
                }
            },
            _ => Ok(BinopAction::NotImplemented),
        }
    }
}

pub open spec fn binop_result_view(r: Result<BinopAction, PyError>) -> Result<BinopAction, PyErrorView> {
    match r {
        Ok(a) => Ok(a),
        Err(e) => Err(e@),
    }
}

/// The float dunder for `kind` applied to `args` (the receiver may or may
/// not precede the two operands; only the last two count). `reverse`
/// selects the reflected form (`__radd__` and so on).
pub fn float_binop_dunder(args: &[Operand], reverse: bool, kind: u8) -> (r: Result<BinopAction, PyError>)
    ensures
        binop_result_view(r) == float_binop_spec(args@, reverse, kind),
{
    if args.len() < 2 {
        return Err(PyError::TypeError("binary operator needs 2 arguments".to_owned()));
    }
    let x = args[args.len() - 2];
    let y = args[args.len() - 1];
    let (a, b) = if reverse { (y, x) } else { (x, y) };
    let (fa, fb) = match (a, b) {
        (Operand::Float(fa), Operand::Float(fb)) => (fa, fb),
        _ => return Ok(BinopAction::NotImplemented),
    };
    if kind == 3 && fa.is_zero && fb.is_negative && fb.is_finite {
        return Err(PyError::ZeroDivisionError("0.0 cannot be raised to a negative power".to_owned()));
    }
    let op = match kind {
        0 => FloatOp::TrueDiv,
        1 => FloatOp::FloorDiv,
        2 => FloatOp::Mod,
        3 => {
            if fa.is_negative && fa.is_finite && !fb.is_integral && fb.is_finite {
                FloatOp::ComplexPow
            } else {
                FloatOp::Pow
            }
        },
        4 => FloatOp::Add,
        5 => FloatOp::Sub,
        6 => FloatOp::Mul,
        _ => return Err(PyError::TypeError("unknown operator".to_owned())),
    };
    Ok(BinopAction::Compute { op, swap: reverse })
}

/// How the raw remainder `rem = a % b` is turned into Python's `%`.
#[derive(Debug, Clone, Copy, PartialEq, Eq, Structural)]
pub enum ModAdjust {
    /// The result is `0.0`.
    PositiveZero,
    /// The result is `-0.0`.
    NegativeZero,
    /// The result is `rem + b`.
    AddDivisor,
    /// The result is `rem`.
    Keep,
}

/// Python's `%` takes the divisor's sign: a zero remainder becomes a zero
/// with the divisor's sign, and a remainder whose sign differs from the
/// divisor's is moved by one divisor.
pub fn float_mod_adjust(rem: FloatFacts, divisor: FloatFacts) -> (r: ModAdjust)
    ensures
        rem.is_zero ==> r == (if divisor.sign_negative { ModAdjust::NegativeZero } else { ModAdjust::PositiveZero }),
        !rem.is_zero ==> r == (if rem.is_negative != divisor.is_negative { ModAdjust::AddDivisor } else { ModAdjust::Keep }),
{
    if rem.is_zero {
        if divisor.sign_negative {
            ModAdjust::NegativeZero
        } else {
            ModAdjust::PositiveZero
        }
    } else if rem.is_negative != divisor.is_negative {
        ModAdjust::AddDivisor
    } else {
        ModAdjust::Keep
    }
}

/// The sign bit of an IEEE-754 double given by its bits.
pub open spec fn f64_sign_bit(bits: u64) -> bool {
    (bits >> 63u64) != 0
}

/// The biased exponent field (11 bits).
pub open spec fn f64_biased_exponent(bits: u64) -> u64 {
    (bits >> 52u64) & 0x7ffu64
}

/// The stored fraction field (52 bits).
pub open spec fn f64_fraction(bits: u64) -> u64 {
    bits & 0x000f_ffff_ffff_ffffu64
}

/// The significand as an integer: the fraction with the implicit leading
/// one of a normal number.
pub open spec fn f64_significand(bits: u64) -> nat {
    if f64_biased_exponent(bits) == 0 {
        f64_fraction(bits) as nat
    } else {
        (f64_fraction(bits) + pow2(52)) as nat
    }
}

/// The exponent of the significand's lowest bit: `biased - 1075` for a
/// normal double, `-1074` for a subnormal one (and zero).
pub open spec fn f64_lowest_exponent(bits: u64) -> int {
    if f64_biased_exponent(bits) == 0 { -1074 } else { f64_biased_exponent(bits) as int - 1075 }
}

/// The numerator of the double's exact value over `f64_denominator`: the
/// signed significand, scaled by `2^e` when the lowest bit's exponent `e`
/// is not negative.
pub open spec fn f64_numerator(bits: u64) -> int {
    let e = f64_lowest_exponent(bits);
    let mag: int = if e >= 0 { (f64_significand(bits) * pow2(e as nat)) as int } else { f64_significand(bits) as int };
    if f64_sign_bit(bits) { -mag } else { mag }
}

/// The denominator of the double's exact value: `2^-e` for a negative
/// lowest-bit exponent `e`, else 1.
pub open spec fn f64_denominator(bits: u64) -> int {
    let e = f64_lowest_exponent(bits);
    if e >= 0 { 1 } else { pow2((-e) as nat) as int }
}

/// `num / den` rounded toward zero (mode 0), toward positive infinity
/// (mode 1) or toward negative infinity (any other mode).
pub open spec fn rounded_quotient(mode: u8, num: int, den: int) -> int {
    if mode == 0 {
        trunc_div(num, den)
    } else if mode == 1 {
        -((-num) / den)
    } else {
        num / den
    }
}

proof fn lemma_floor_of_negated(m: int, d: int)
    requires
        d > 0,
        m >= 0,
    ensures
        (-m) / d == -(m / d) - (if m % d != 0 { 1int } else { 0int }),
        m % d == 0 ==> (-m) / d == -(m / d),
{
    lemma_fundamental_div_mod(m, d);
    lemma_mod_pos_bound(m, d);
    let q = m / d;
    let r = m % d;
    if r == 0 {
        assert(-m == (-q) * d + 0) by (nonlinear_arith)
            requires m == d * q + r, r == 0;
        lemma_fundamental_div_mod_converse(-m, d, -q, 0);
    } else {
        assert(-m == (-q - 1) * d + (d - r)) by (nonlinear_arith)
            requires m == d * q + r;
        lemma_fundamental_div_mod_converse(-m, d, -q - 1, d - r);
    }
}

/// The exact integer of a float given by its IEEE-754 bits, rounded
/// toward zero (mode 0), up (mode 1) or down (any other mode). NaN and the
/// infinities have no integer value.
pub fn f64_to_int_ceil_floor_trunc(bits: u64, mode: u8) -> (r: Result<BigIntValue, PyError>)
    ensures
        f64_biased_exponent(bits) == 0x7ff && f64_fraction(bits) != 0 ==> (r matches Err(PyError::ValueError(m))
            && m@ == "cannot convert float NaN to integer"@),
        f64_biased_exponent(bits) == 0x7ff && f64_fraction(bits) == 0 ==> (r matches Err(PyError::OverflowError(m))
            && m@ == "cannot convert float infinity to integer"@),
        f64_biased_exponent(bits) != 0x7ff ==> (r matches Ok(v)
            && v@ == rounded_quotient(mode, f64_numerator(bits), f64_denominator(bits))),
{
    let negative = (bits >> 63u64) != 0;
    let biased = (bits >> 52u64) & 0x7ffu64;
    let fraction = bits & 0x000f_ffff_ffff_ffffu64;
    if biased == 0x7ff {
        if fraction != 0 {
            return Err(PyError::ValueError("cannot convert float NaN to integer".to_owned()));
        }
        return Err(PyError::OverflowError("cannot convert float infinity to integer".to_owned()));
    }
    assert(biased < 0x800) by (bit_vector)
        requires biased == (bits >> 52u64) & 0x7ffu64;
    assert(fraction < 0x10_0000_0000_0000) by (bit_vector)
        requires fraction == bits & 0x000f_ffff_ffff_ffffu64;
    proof {
        lemma2_to64();
        lemma2_to64_rest();
    }
    if biased == 0 && fraction == 0 {
        assert(f64_significand(bits) == 0);
        assert(f64_numerator(bits) == 0);
        let zero = BigIntValue::from_i64(0);
        proof {
            let d = f64_denominator(bits);
            lemma_pow2_pos(1074);
            assert(d > 0);
            assert(0int / d == 0);
        }
        return Ok(zero);
    }
    let significand: u64 = if biased == 0 {
        fraction
    } else {
        assert((1u64 << 52u64) | fraction == fraction + 0x10_0000_0000_0000) by (bit_vector)
            requires fraction < 0x10_0000_0000_0000u64;
        (1u64 << 52u64) | fraction
    };
    assert(biased == f64_biased_exponent(bits));
    assert(fraction == f64_fraction(bits));
    assert(pow2(52) == 0x10_0000_0000_0000);
    assert(significand as nat == f64_significand(bits));
    let magnitude = BigIntValue::from_u64(significand);
    let (q, had_frac) = if biased >= 1075 {
        let shifted = magnitude.shl((biased - 1075) as usize);
        (shifted, false)
    } else {
        let shift: usize = if biased == 0 { 1074 } else { (1075 - biased) as usize };
        let one = BigIntValue::from_u64(1);
        let denom = one.shl(shift);
        proof {
            lemma_pow2_pos(shift as nat);
        }
        let q = magnitude.div(&denom);
        let rem = magnitude.rem(&denom);
        proof {
            lemma_fundamental_div_mod(significand as int, denom@);
        }
        (q, !rem.is_zero())
    };
    let ghost m = significand as int;
    let ghost d = f64_denominator(bits);
    proof {
        if biased >= 1075 {
            assert(d == 1);
            assert(q@ == m * pow2((biased - 1075) as nat));
            assert(!had_frac);
        } else {
            let sh: nat = if biased == 0 { 1074 } else { (1075 - biased) as nat };
            lemma_pow2_pos(sh);
            assert(d == pow2(sh));
            assert(q@ == m / d);
            assert(had_frac == (m % d != 0));
            lemma_floor_of_negated(m, d);
        }
    }
    let result = if negative {
        let nq = q.neg();
        if mode == 0 || mode == 1 || !had_frac {
            nq
        } else {
            let minus_one = BigIntValue::from_i64(-1);
            nq.add(&minus_one)
        }
    } else {
        if mode == 1 && had_frac {
            let one = BigIntValue::from_i64(1);
            q.add(&one)
        } else {
            q
        }
    };
    Ok(result)
}

} // verus!
