//! Arbitrary-precision integers, carried by `num_bigint::BigInt` together
//! with the mathematical value they stand for.

use vstd::prelude::*;
use vstd::arithmetic::power2::pow2;
use num_bigint::BigInt;
use num_traits::{ToPrimitive, Zero};

verus! {

#[verifier::external_type_specification]
#[verifier::external_body]
pub struct ExBigInt(BigInt);

/// Integer division rounding toward zero (the rule of Rust's `/` and of
/// `BigInt`'s `Div`).
pub open spec fn trunc_div(a: int, b: int) -> int {
    let q = (if a >= 0 { a } else { -a }) / (if b >= 0 { b } else { -b });
    if (a >= 0) == (b >= 0) || a == 0 { q } else { -q }
}

/// Remainder matching `trunc_div`: it takes the sign of the dividend.
pub open spec fn trunc_rem(a: int, b: int) -> int {
    a - b * trunc_div(a, b)
}

/// The number whose base-2^64 digits, least significant first, are `w`.
pub open spec fn words_value(w: Seq<u64>) -> int
    decreases w.len(),
{
    if w.len() == 0 {
        0
    } else {
        w[0] + pow2(64) * words_value(w.drop_first())
    }
}

/// The smallest number of bits that writes `n`.
pub open spec fn bit_len(n: nat) -> nat
    decreases n,
{
    if n == 0 { 0 } else { 1 + bit_len(n / 2) }
}

/// The base-256 digits of `n`, least significant first, without leading
/// zero digits (`0` is the single digit `0`).
pub open spec fn le_bytes_of(n: nat) -> Seq<u8>
    decreases n,
{
    if n < 256 {
        seq![n as u8]
    } else {
        seq![(n % 256) as u8] + le_bytes_of(n / 256)
    }
}

/// The same digits, most significant first.
pub open spec fn be_bytes_of(n: nat) -> Seq<u8> {
    le_bytes_of(n).reverse()
}

/// The absolute value.
pub open spec fn magnitude(v: int) -> nat {
    (if v < 0 { -v } else { v }) as nat
}

/// An integer of unbounded size. The ghost `value` is the number the
/// `BigInt` holds; every operation below keeps the two in step.
pub struct BigIntValue {
    big: BigInt,
    value: Ghost<int>,
}

impl View for BigIntValue {
    type V = int;

    closed spec fn view(&self) -> int {
        self.value@
    }
}

impl BigIntValue {
    /// The integer `v`.
    pub fn new(v: i64) -> (r: BigIntValue)
        ensures
            r@ == v as int,
    {
        BigIntValue::from_i64(v)
    }

    /// The integer with the given sign whose base-2^64 digits, least
    /// significant first, are `words` (the form `BigInt::to_u64_digits`
    /// gives).
    pub fn from_words(negative: bool, words: &[u64]) -> (r: BigIntValue)
        ensures
            r@ == (if negative { -words_value(words@) } else { words_value(words@) }),
    {
        let mut acc = BigIntValue::from_u64(0);
        let mut i: usize = words.len();
        while i > 0
            invariant
                i <= words@.len(),
                acc@ == words_value(words@.subrange(i as int, words@.len() as int)),
            decreases i,
        {
            let ghost before = acc@;
            let shifted = acc.shl(64);
            let digit = BigIntValue::from_u64(words[i - 1]);
            acc = shifted.add(&digit);
            proof {
                let tail = words@.subrange(i - 1, words@.len() as int);
                assert(tail.drop_first() =~= words@.subrange(i as int, words@.len() as int));
                assert(words_value(tail) == tail[0] + pow2(64) * words_value(tail.drop_first()));
                assert(tail[0] == words@[i - 1]);
                vstd::arithmetic::mul::lemma_mul_is_commutative(before, pow2(64) as int);
            }
            i -= 1;
        }
        assert(words@.subrange(0, words@.len() as int) =~= words@);
        if negative {
            acc.neg()
        } else {
            acc
        }
    }

    /// Whether the value is negative, and the base-2^64 digits of its
    /// magnitude, least significant first (`BigInt::to_u64_digits`).
    #[verifier::external_body]
    fn digits(&self) -> (r: (bool, Vec<u64>))
        ensures
            r.0 == (self@ < 0),
            words_value(r.1@) == (if self@ < 0 { -self@ } else { self@ }),
    {
        let (sign, words) = self.big.to_u64_digits();
        (sign == num_bigint::Sign::Minus, words)
    }

    /// The sign and base-2^64 digits of the value, the inverse of
    /// `from_words`.
    pub fn to_words(&self) -> (r: (bool, Vec<u64>))
        ensures
            r.0 == (self@ < 0),
            (if r.0 { -words_value(r.1@) } else { words_value(r.1@) }) == self@,
    {
        self.digits()
    }

    /// The value, when it fits an `i64`.
    pub fn as_i64(&self) -> (r: Option<i64>)
        ensures
            r == (if i64::MIN <= self@ <= i64::MAX { Some(self@ as i64) } else { None::<i64> }),
    {
        self.to_i64()
    }

    /// `BigInt::from(i64)`: the integer `v`.
    #[verifier::external_body]
    pub(crate) fn from_i64(v: i64) -> (r: BigIntValue)
        ensures
            r@ == v as int,
    {
        BigIntValue { big: BigInt::from(v), value: Ghost(v as int) }
    }

    /// `BigInt::from(u64)`: the integer `v`.
    #[verifier::external_body]
    pub(crate) fn from_u64(v: u64) -> (r: BigIntValue)
        ensures
            r@ == v as int,
    {
        BigIntValue { big: BigInt::from(v), value: Ghost(v as int) }
    }

    /// `&BigInt << usize`: multiplication by `2^k` (the sign is kept).
    #[verifier::external_body]
    pub(crate) fn shl(&self, k: usize) -> (r: BigIntValue)
        requires
            k <= 0x10_0000,
        ensures
            r@ == self@ * pow2(k as nat),
    {
        BigIntValue { big: &self.big << k, value: Ghost(self@ * pow2(k as nat)) }
    }

    /// `&BigInt / &BigInt`: quotient rounded toward zero; the divisor must
    /// not be zero (the division panics on zero).
    #[verifier::external_body]
    pub(crate) fn div(&self, other: &BigIntValue) -> (r: BigIntValue)
        requires
            other@ != 0,
        ensures
            r@ == trunc_div(self@, other@),
    {
        BigIntValue { big: &self.big / &other.big, value: Ghost(trunc_div(self@, other@)) }
    }

    /// `&BigInt % &BigInt`: remainder with the sign of the dividend; the
    /// divisor must not be zero.
    #[verifier::external_body]
    pub(crate) fn rem(&self, other: &BigIntValue) -> (r: BigIntValue)
        requires
            other@ != 0,
        ensures
            r@ == trunc_rem(self@, other@),
    {
        BigIntValue { big: &self.big % &other.big, value: Ghost(trunc_rem(self@, other@)) }
    }

    /// `&BigInt + &BigInt`.
    #[verifier::external_body]
    pub(crate) fn add(&self, other: &BigIntValue) -> (r: BigIntValue)
        ensures
            r@ == self@ + other@,
    {
        BigIntValue { big: &self.big + &other.big, value: Ghost(self@ + other@) }
    }

    /// `BigInt::bits`: the fewest bits that write the magnitude.
    #[verifier::external_body]
    pub(crate) fn bits(&self) -> (r: u64)
        ensures
            r == bit_len(magnitude(self@)),
    {
        self.big.bits()
    }

    /// `BigInt::to_bytes_le().1`: the base-256 digits of the magnitude,
    /// least significant first.
    #[verifier::external_body]
    pub(crate) fn magnitude_le(&self) -> (r: Vec<u8>)
        ensures
            r@ == le_bytes_of(magnitude(self@)),
    {
        self.big.to_bytes_le().1
    }

    /// `BigInt::to_bytes_be().1`: the base-256 digits of the magnitude,
    /// most significant first.
    #[verifier::external_body]
    pub(crate) fn magnitude_be(&self) -> (r: Vec<u8>)
        ensures
            r@ == be_bytes_of(magnitude(self@)),
    {
        self.big.to_bytes_be().1
    }

    /// `&BigInt - &BigInt`.
    #[verifier::external_body]
    pub(crate) fn sub(&self, other: &BigIntValue) -> (r: BigIntValue)
        ensures
            r@ == self@ - other@,
    {
        BigIntValue { big: &self.big - &other.big, value: Ghost(self@ - other@) }
    }

    /// `&BigInt * &BigInt`.
    #[verifier::external_body]
    pub(crate) fn mul(&self, other: &BigIntValue) -> (r: BigIntValue)
        ensures
            r@ == self@ * other@,
    {
        BigIntValue { big: &self.big * &other.big, value: Ghost(self@ * other@) }
    }

    /// The absolute value.
    pub(crate) fn abs(&self) -> (r: BigIntValue)
        ensures
            r@ == (if self@ < 0 { -self@ } else { self@ }),
    {
        if self.is_negative() { self.neg() } else { self.copy() }
    }

    /// `BigInt::clone`.
    #[verifier::external_body]
    pub(crate) fn copy(&self) -> (r: BigIntValue)
        ensures
            r@ == self@,
    {
        BigIntValue { big: self.big.clone(), value: Ghost(self@) }
    }

    /// Whether the value is above zero.
    pub(crate) fn is_positive(&self) -> (r: bool)
        ensures
            r == (self@ > 0),
    {
        !self.is_zero() && !self.is_negative()
    }

    /// `&BigInt < &BigInt`.
    #[verifier::external_body]
    pub(crate) fn lt(&self, other: &BigIntValue) -> (r: bool)
        ensures
            r == (self@ < other@),
    {
        self.big < other.big
    }

    /// `-&BigInt`.
    #[verifier::external_body]
    pub(crate) fn neg(&self) -> (r: BigIntValue)
        ensures
            r@ == -self@,
    {
        BigIntValue { big: -&self.big, value: Ghost(-self@) }
    }

    /// `num_traits::Zero::is_zero`.
    #[verifier::external_body]
    pub(crate) fn is_zero(&self) -> (r: bool)
        ensures
            r == (self@ == 0),
    {
        self.big.is_zero()
    }

    /// `BigInt::sign() == Sign::Minus`.
    #[verifier::external_body]
    pub(crate) fn is_negative(&self) -> (r: bool)
        ensures
            r == (self@ < 0),
    {
        self.big.sign() == num_bigint::Sign::Minus
    }

    /// `num_traits::ToPrimitive::to_i64`: the value when it fits an `i64`.
    #[verifier::external_body]
    pub(crate) fn to_i64(&self) -> (r: Option<i64>)
        ensures
            r == (if i64::MIN <= self@ <= i64::MAX { Some(self@ as i64) } else { None::<i64> }),
    {
        self.big.to_i64()
    }

    /// `num_traits::ToPrimitive::to_isize`: the value when it fits an `isize`.
    #[verifier::external_body]
    pub(crate) fn to_isize(&self) -> (r: Option<isize>)
        ensures
            r == (if isize::MIN <= self@ <= isize::MAX { Some(self@ as isize) } else { None::<isize> }),
    {
        self.big.to_isize()
    }

    /// The larger of the two values.
    pub(crate) fn max(self, other: BigIntValue) -> (r: BigIntValue)
        ensures
            r@ == (if self@ >= other@ { self@ } else { other@ }),
    {
        if self.lt(&other) { other } else { self }
    }

    /// The smaller of the two values.
    pub(crate) fn min(&self, other: &BigIntValue) -> (r: BigIntValue)
        ensures
            r@ == (if self@ <= other@ { self@ } else { other@ }),
    {
        if other.lt(self) { other.copy() } else { self.copy() }
    }

    /// `num_traits::ToPrimitive::to_usize`: the value when it fits a `usize`.
    #[verifier::external_body]
    pub(crate) fn to_usize(&self) -> (r: Option<usize>)
        ensures
            r == (if 0 <= self@ <= usize::MAX { Some(self@ as usize) } else { None::<usize> }),
    {
        self.big.to_usize()
    }

    /// `BigInt::from(usize)`: the integer `v`.
    #[verifier::external_body]
    pub(crate) fn from_usize(v: usize) -> (r: BigIntValue)
        ensures
            r@ == v as int,
    {
        BigIntValue { big: BigInt::from(v), value: Ghost(v as int) }
    }
}

} // verus!
