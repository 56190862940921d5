//! Methods of `int` values that look at their binary form:
//! `bit_length`, `bit_count` and `to_bytes`.

use vstd::prelude::*;
use crate::bigint::{BigIntValue, bit_len, le_bytes_of, be_bytes_of, magnitude};
use crate::error::{PyError, PyErrorView};
use crate::object::{PyObject, str_is};

verus! {

/// `256^i`.
pub open spec fn p256(i: nat) -> nat
    decreases i,
{
    if i == 0 { 1 } else { 256 * p256((i - 1) as nat) }
}

/// The number whose base-256 digits, least significant first, are `s`.
pub open spec fn le_value(s: Seq<u8>) -> nat
    decreases s.len(),
{
    if s.len() == 0 { 0 } else { (s[0] + 256 * le_value(s.drop_first())) as nat }
}

/// The number whose base-256 digits, most significant first, are `s`.
pub open spec fn be_value(s: Seq<u8>) -> nat
    decreases s.len(),
{
    if s.len() == 0 { 0 } else { (be_value(s.drop_last()) * 256 + s.last()) as nat }
}

/// The number of one bits of `n`.
pub open spec fn popcount(n: nat) -> nat
    decreases n,
{
    if n == 0 { 0 } else { n % 2 + popcount(n / 2) }
}

/// `n` zero bytes.
pub open spec fn zero_bytes(n: nat) -> Seq<u8> {
    Seq::new(n, |k: int| 0u8)
}

/// The first `len` bytes of `src`, zero bytes after its end.
pub open spec fn fit_bytes(src: Seq<u8>, len: nat) -> Seq<u8> {
    Seq::new(len, |k: int| if k < src.len() { src[k] } else { 0u8 })
}

pub proof fn lemma_p256_pos(i: nat)
    ensures
        p256(i) >= 1,
    decreases i,
{
    if i > 0 {
        lemma_p256_pos((i - 1) as nat);
    }
}

/// Appending a digit adds it at the next power of 256.
pub proof fn lemma_le_push(s: Seq<u8>, b: u8)
    ensures
        le_value(s.push(b)) == le_value(s) + b * p256(s.len()),
    decreases s.len(),
{
    if s.len() == 0 {
        assert(s.push(b).drop_first() =~= Seq::<u8>::empty());
        assert(le_value(Seq::<u8>::empty()) == 0);
        assert(p256(0) == 1);
        assert(le_value(s.push(b)) == b);
    } else {
        assert(s.push(b).drop_first() =~= s.drop_first().push(b));
        lemma_le_push(s.drop_first(), b);
        let l = le_value(s.drop_first());
        let q = p256((s.len() - 1) as nat);
        assert(s.drop_first().len() == (s.len() - 1) as nat);
        assert(p256(s.len()) == 256 * q);
        assert(256 * (l + b * q) == 256 * l + b * (256 * q)) by (nonlinear_arith);
        assert(le_value(s.push(b)) == s[0] + 256 * le_value(s.drop_first().push(b)));
        assert(le_value(s) == s[0] + 256 * l);
    }
}

pub proof fn lemma_le_bound(s: Seq<u8>)
    ensures
        le_value(s) < p256(s.len()),
    decreases s.len(),
{
    if s.len() > 0 {
        lemma_le_bound(s.drop_first());
        let rest = le_value(s.drop_first());
        assert(s[0] + 256 * rest < 256 * p256((s.len() - 1) as nat)) by (nonlinear_arith)
            requires rest < p256((s.len() - 1) as nat), s[0] < 256;
    }
}

/// The digits of `n` write `n`.
pub proof fn lemma_le_bytes_value(n: nat)
    ensures
        le_value(le_bytes_of(n)) == n,
        le_bytes_of(n).len() >= 1,
    decreases n,
{
    if n >= 256 {
        lemma_le_bytes_value(n / 256);
        let s = le_bytes_of(n);
        assert(s.drop_first() =~= le_bytes_of(n / 256));
        vstd::arithmetic::div_mod::lemma_fundamental_div_mod(n as int, 256);
        assert(s[0] == (n % 256) as u8);
        assert(((n % 256) as u8) as nat == n % 256);
        assert(le_value(s) == s[0] + 256 * le_value(s.drop_first()));
        assert(le_value(s) == n % 256 + 256 * (n / 256));
    } else {
        assert(le_bytes_of(n)[0] as nat == n);
        assert(le_bytes_of(n).drop_first() =~= Seq::<u8>::empty());
        assert(le_value(Seq::<u8>::empty()) == 0);
    }
}

/// Zero digits at the high end do not change the number.
pub proof fn lemma_le_trailing_zeros(s: Seq<u8>, k: nat)
    ensures
        le_value(s + zero_bytes(k)) == le_value(s),
    decreases s.len() + k,
{
    if s.len() > 0 {
        assert((s + zero_bytes(k)).drop_first() =~= s.drop_first() + zero_bytes(k));
        lemma_le_trailing_zeros(s.drop_first(), k);
    } else if k > 0 {
        assert((s + zero_bytes(k)).drop_first() =~= s + zero_bytes((k - 1) as nat));
        lemma_le_trailing_zeros(s, (k - 1) as nat);
        assert(s + zero_bytes(k) =~= zero_bytes(k));
    } else {
        assert(s + zero_bytes(0) =~= s);
    }
}

/// Reading the digits backward as most significant first gives the same
/// number.
pub proof fn lemma_be_reverse(s: Seq<u8>)
    ensures
        be_value(s.reverse()) == le_value(s),
    decreases s.len(),
{
    if s.len() > 0 {
        lemma_be_reverse(s.drop_first());
        assert(s.reverse().drop_last() =~= s.drop_first().reverse());
        assert(s.reverse().last() == s[0]);
    }
}

/// Zero digits at the high end of a most-significant-first sequence do
/// not change the number.
pub proof fn lemma_be_leading_zeros(s: Seq<u8>, k: nat)
    ensures
        be_value(zero_bytes(k) + s) == be_value(s),
    decreases s.len() + k,
{
    if s.len() > 0 {
        assert((zero_bytes(k) + s).drop_last() =~= zero_bytes(k) + s.drop_last());
        lemma_be_leading_zeros(s.drop_last(), k);
    } else if k > 0 {
        assert((zero_bytes(k) + s).drop_last() =~= zero_bytes((k - 1) as nat) + s);
        lemma_be_leading_zeros(s, (k - 1) as nat);
    } else {
        assert(zero_bytes(0) + s =~= s);
    }
}

/// `int.bit_length()`: the number of bits of the magnitude.
pub fn int_bit_length(v: &BigIntValue) -> (r: u64)
    ensures
        r == bit_len(magnitude(v@)),
{
    v.bits()
}

/// The one bits of a sequence of bytes.
pub open spec fn bytes_popcount(s: Seq<u8>) -> nat
    decreases s.len(),
{
    if s.len() == 0 { 0 } else { popcount(s[0] as nat) + bytes_popcount(s.drop_first()) }
}

proof fn lemma_popcount_split(b: nat, r: nat, k: nat)
    requires
        b < vstd::arithmetic::power2::pow2(k),
        b >= 0,
        r >= 0,
    ensures
        popcount(b + vstd::arithmetic::power2::pow2(k) * r) == popcount(b) + popcount(r),
    decreases k,
{
    let p = vstd::arithmetic::power2::pow2(k);
    if k == 0 {
        vstd::arithmetic::power2::lemma2_to64();
        assert(b == 0);
        assert(p * r == r) by (nonlinear_arith) requires p == 1;
    } else {
        vstd::arithmetic::power2::lemma_pow2_unfold(k);
        let h = vstd::arithmetic::power2::pow2((k - 1) as nat);
        let x = b + p * r;
        assert(p == 2 * h);
        let m: int = (h * r) as int;
        assert(p * r == m * 2) by (nonlinear_arith) requires p == 2 * h, m == h * r;
        vstd::arithmetic::div_mod::lemma_mod_multiples_vanish(m, b as int, 2);
        vstd::arithmetic::div_mod::lemma_hoist_over_denominator(b as int, m, 2);
        assert(x % 2 == b % 2);
        assert(x / 2 == b / 2 + m);
        assert(b / 2 < h) by (nonlinear_arith) requires b < p, p == 2 * h;
        lemma_popcount_split(b / 2, r, (k - 1) as nat);
        if x == 0 {
            assert(p * r >= 0) by (nonlinear_arith) requires p >= 1, r >= 0;
            assert(b == 0 && p * r == 0);
            assert(r == 0) by (nonlinear_arith) requires p * r == 0, p >= 1, r >= 0;
        } else if b == 0 {
            assert(b / 2 == 0);
        }
    }
}

/// The one bits of a number are the one bits of its digits.
proof fn lemma_bytes_popcount(s: Seq<u8>)
    ensures
        popcount(le_value(s)) == bytes_popcount(s),
    decreases s.len(),
{
    if s.len() > 0 {
        lemma_bytes_popcount(s.drop_first());
        vstd::arithmetic::power2::lemma2_to64();
        lemma_popcount_split(s[0] as nat, le_value(s.drop_first()), 8);
    }
}

fn byte_popcount(b: u8) -> (r: u8)
    ensures
        r == popcount(b as nat),
        r <= 8,
{
    let mut x: u8 = b;
    let mut c: u8 = 0;
    let mut i: u8 = 0;
    proof {
        vstd::arithmetic::power2::lemma2_to64();
    }
    while x > 0
        invariant
            c + popcount(x as nat) == popcount(b as nat),
            c <= i,
            i <= 8,
            x < vstd::arithmetic::power2::pow2((8 - i) as nat),
        decreases x,
    {
        proof {
            vstd::arithmetic::power2::lemma2_to64();
            vstd::arithmetic::power2::lemma_pow2_unfold((8 - i) as nat);
        }
        c = c + x % 2;
        x = x / 2;
        i = i + 1;
    }
    c
}

/// `int.bit_count()`: the one bits of the value, or, for a negative
/// value `v`, of `-(v + 1)`.
pub fn int_bit_count(v: &BigIntValue) -> (r: u128)
    ensures
        r == popcount(if v@ < 0 { (-(v@ + 1)) as nat } else { v@ as nat }),
{
    let n = if v.is_negative() {
        let one = BigIntValue::from_i64(1);
        v.add(&one).neg()
    } else {
        v.copy()
    };
    let bytes = n.magnitude_le();
    let ghost m = magnitude(n@);
    let mut total: u128 = 0;
    let mut i: usize = 0;
    assert(bytes@.subrange(0, bytes@.len() as int) =~= bytes@);
    while i < bytes.len()
        invariant
            i <= bytes@.len(),
            total <= 8 * i,
            total + bytes_popcount(bytes@.subrange(i as int, bytes@.len() as int)) == bytes_popcount(bytes@),
        decreases bytes@.len() - i,
    {
        let c = byte_popcount(bytes[i]);
        assert(bytes@.subrange(i as int, bytes@.len() as int).drop_first()
            =~= bytes@.subrange(i + 1, bytes@.len() as int));
        total = total + c as u128;
        i += 1;
    }
    proof {
        assert(bytes@.subrange(0, bytes@.len() as int) =~= bytes@);
        assert(bytes@.subrange(i as int, bytes@.len() as int) =~= Seq::<u8>::empty());
        lemma_le_bytes_value(m);
        lemma_bytes_popcount(bytes@);
    }
    total
}

/// What `int.to_bytes` gives when the sign is not encoded: the digits of
/// the magnitude in the requested order, zero-padded to `len` bytes.
pub open spec fn unsigned_to_bytes(mag: nat, len: nat, little: bool) -> Seq<u8> {
    let digits = le_bytes_of(mag);
    if little {
        digits + zero_bytes((len - digits.len()) as nat)
    } else {
        zero_bytes((len - digits.len()) as nat) + digits.reverse()
    }
}

/// The digits `int.to_bytes` places before taking the two's complement
/// of a negative value: the magnitude's digits in the requested order,
/// read from the low end, cut or zero-padded to `len`.
pub open spec fn placed_magnitude(mag: nat, len: nat, little: bool) -> Seq<u8> {
    fit_bytes(if little { le_bytes_of(mag) } else { be_bytes_of(mag) }, len)
}

/// Inverts every digit of `placed` and adds one, carrying upward: the
/// result writes `256^len - placed`, modulo `256^len`.
fn twos_complement_le(placed: &Vec<u8>) -> (r: Vec<u8>)
    ensures
        r@.len() == placed@.len(),
        le_value(r@) == (p256(placed@.len() as nat) - le_value(placed@)) % (p256(placed@.len() as nat) as int),
{
    let n = placed.len();
    let mut out: Vec<u8> = Vec::new();
    let mut carry: u16 = 1;
    let mut k: usize = 0;
    while k < n
        invariant
            k <= n == placed@.len(),
            out@.len() == k,
            carry <= 1,
            le_value(out@) + carry * p256(k as nat) + le_value(placed@.subrange(0, k as int)) == p256(k as nat),
        decreases n - k,
    {
        let b = placed[k];
        let sum: u16 = (255 - b) as u16 + carry;
        let o = (sum % 256) as u8;
        let next: u16 = sum / 256;
        proof {
            let pk = p256(k as nat);
            lemma_le_push(out@, o);
            assert(placed@.subrange(0, k + 1) =~= placed@.subrange(0, k as int).push(b));
            lemma_le_push(placed@.subrange(0, k as int), b);
            assert(o + 256 * next == 255 - b + carry);
            assert(p256((k + 1) as nat) == 256 * pk);
            assert(o * pk + next * (256 * pk) + b * pk == (255 + carry) * pk) by (nonlinear_arith)
                requires o + 256 * next == 255 - b + carry;
            assert(carry * pk + 255 * pk == (255 + carry) * pk) by (nonlinear_arith);
        }
        out.push(o);
        carry = next;
        k += 1;
    }
    proof {
        let pn = p256(n as nat);
        let x = le_value(out@);
        let y = le_value(placed@);
        assert(placed@.subrange(0, n as int) =~= placed@);
        lemma_le_bound(out@);
        lemma_le_bound(placed@);
        lemma_p256_pos(n as nat);
        if y == 0 {
            assert(carry == 1) by {
                if carry == 0 {
                    assert(x == pn);
                }
            }
            assert(x == 0);
            vstd::arithmetic::div_mod::lemma_mod_self_0(pn as int);
        } else {
            assert(carry == 0) by {
                if carry == 1 {
                    assert(x + pn + y == pn);
                }
            }
            vstd::arithmetic::div_mod::lemma_small_mod((pn - y) as nat, pn as nat);
        }
    }
    out
}

fn reverse_bytes(v: &Vec<u8>) -> (r: Vec<u8>)
    ensures
        r@ == v@.reverse(),
{
    let mut out: Vec<u8> = Vec::new();
    let mut k: usize = v.len();
    while k > 0
        invariant
            k <= v@.len(),
            out@ =~= v@.subrange(k as int, v@.len() as int).reverse(),
        decreases k,
    {
        k -= 1;
        out.push(v[k]);
        assert(v@.subrange(k as int, v@.len() as int).reverse()
            =~= v@.subrange(k + 1, v@.len() as int).reverse().push(v@[k as int]));
    }
    assert(v@.subrange(0, v@.len() as int) =~= v@);
    out
}

/// `int.to_bytes(length, byteorder, signed)`, `little` selecting the
/// little-endian order. A negative value with `signed` is written in two's
/// complement over `length` bytes (its digits cut to `length`); any other
/// value is written as its magnitude, which must fit.
pub fn int_to_bytes(v: &BigIntValue, length: i64, little: bool, signed: bool) -> (r: Result<Vec<u8>, PyError>)
    requires
        length <= usize::MAX,
    ensures
        length <= 0 ==> (r matches Err(e) && e@ == PyErrorView::TypeError("length must be positive"@)),
        length > 0 && !(signed && v@ < 0) ==> (if le_bytes_of(magnitude(v@)).len() > length {
            r matches Err(e) && e@ == PyErrorView::TypeError("int too big to convert"@)
        } else {
            r matches Ok(b) && b@ == unsigned_to_bytes(magnitude(v@), length as nat, little)
        }),
        length > 0 && signed && v@ < 0 ==> (r matches Ok(b) && b@.len() == length
            && (if little { le_value(b@) } else { be_value(b@) }) as int
                == (p256(length as nat) - le_value(placed_magnitude(magnitude(v@), length as nat, little)))
                    % (p256(length as nat) as int)),
{
    if length <= 0 {
        return Err(PyError::TypeError("length must be positive".to_owned()));
    }
    let len = length as usize;
    let src = if little { v.magnitude_le() } else { v.magnitude_be() };
    proof {
        lemma_le_bytes_value(magnitude(v@));
    }
    if signed && v.is_negative() {
        let mut placed: Vec<u8> = Vec::new();
        let mut k: usize = 0;
        while k < len
            invariant
                k <= len,
                placed@ =~= fit_bytes(src@, k as nat),
            decreases len - k,
        {
            let b = if k < src.len() { src[k] } else { 0u8 };
            placed.push(b);
            k += 1;
        }
        assert(src@ == (if little { le_bytes_of(magnitude(v@)) } else { be_bytes_of(magnitude(v@)) }));
        let res = twos_complement_le(&placed);
        if little {
            return Ok(res);
        }
        let rev = reverse_bytes(&res);
        proof {
            lemma_be_reverse(res@);
        }
        return Ok(rev);
    }
    if src.len() > len {
        return Err(PyError::TypeError("int too big to convert".to_owned()));
    }
    let mut out: Vec<u8> = Vec::new();
    if little {
        let mut k: usize = 0;
        while k < len
            invariant
                k <= len,
                src@.len() <= len,
                out@ =~= (src@ + zero_bytes((len - src@.len()) as nat)).subrange(0, k as int),
            decreases len - k,
        {
            let b = if k < src.len() { src[k] } else { 0u8 };
            out.push(b);
            k += 1;
        }
        assert(out@ =~= src@ + zero_bytes((len - src@.len()) as nat));
    } else {
        let pad = len - src.len();
        let mut k: usize = 0;
        while k < len
            invariant
                k <= len,
                pad + src@.len() == len,
                out@ =~= (zero_bytes(pad as nat) + src@).subrange(0, k as int),
            decreases len - k,
        {
            let b = if k < pad { 0u8 } else { src[k - pad] };
            out.push(b);
            k += 1;
        }
        assert(out@ =~= zero_bytes(pad as nat) + src@);
    }
    Ok(out)
}

/// Cutting or padding the digits of `m` to `len` keeps `m` modulo
/// `256^len`.
pub proof fn lemma_fit_value(m: nat, len: nat)
    ensures
        le_value(fit_bytes(le_bytes_of(m), len)) == (m as int) % (p256(len) as int),
    decreases len,
{
    if len == 0 {
        assert(fit_bytes(le_bytes_of(m), 0) =~= Seq::<u8>::empty());
    } else {
        let f = fit_bytes(le_bytes_of(m), len);
        lemma_fit_value(m / 256, (len - 1) as nat);
        assert(f.drop_first() =~= fit_bytes(le_bytes_of(m / 256), (len - 1) as nat)) by {
            if m < 256 {
                assert(le_bytes_of(m / 256) =~= seq![0u8]);
            } else {
                assert(le_bytes_of(m).drop_first() =~= le_bytes_of(m / 256));
            }
        }
        assert(f[0] as nat == m % 256);
        lemma_p256_pos((len - 1) as nat);
        vstd::arithmetic::div_mod::lemma_breakdown(m as int, 256, p256((len - 1) as nat) as int);
    }
}

/// Written without the sign, the bytes give back the magnitude, in either
/// order.
pub proof fn law_to_bytes_unsigned_value(mag: nat, len: nat)
    requires
        le_bytes_of(mag).len() <= len,
    ensures
        le_value(unsigned_to_bytes(mag, len, true)) == mag,
        be_value(unsigned_to_bytes(mag, len, false)) == mag,
{
    let d = le_bytes_of(mag);
    lemma_le_bytes_value(mag);
    lemma_le_trailing_zeros(d, (len - d.len()) as nat);
    lemma_be_leading_zeros(d.reverse(), (len - d.len()) as nat);
    lemma_be_reverse(d);
}

/// A negative value written little-endian with its sign is the value
/// modulo `256^len` (two's complement, the high digits cut off).
pub proof fn law_to_bytes_signed_little(v: int, len: nat)
    requires
        v < 0,
    ensures
        (p256(len) - le_value(placed_magnitude(magnitude(v), len, true))) % (p256(len) as int)
            == v % (p256(len) as int),
{
    let m = magnitude(v);
    let p = p256(len) as int;
    lemma_p256_pos(len);
    lemma_fit_value(m, len);
    let r = (m as int) % p;
    let q = (m as int) / p;
    vstd::arithmetic::div_mod::lemma_fundamental_div_mod(m as int, p);
    vstd::arithmetic::div_mod::lemma_mod_bound(m as int, p);
    if r == 0 {
        vstd::arithmetic::div_mod::lemma_mod_self_0(p);
        assert(v == p * (-q)) by (nonlinear_arith)
            requires m == p * q + r, r == 0, v == -(m as int);
        vstd::arithmetic::div_mod::lemma_fundamental_div_mod_converse(v, p, -q, 0);
    } else {
        vstd::arithmetic::div_mod::lemma_small_mod((p - r) as nat, p as nat);
        assert(v == (-q - 1) * p + (p - r)) by (nonlinear_arith)
            requires m == p * q + r, v == -(m as int);
        vstd::arithmetic::div_mod::lemma_fundamental_div_mod_converse(v, p, -q - 1, p - r);
    }
}

/// An operand that may carry an integer value.
pub enum IntOperand {
    Int(BigIntValue),
    Bool(bool),
    Other,
}

/// The integer value of an `int` or a `bool` (`True` is 1, `False` 0).
pub fn int_or_bool_value(o: &IntOperand) -> (r: Option<BigIntValue>)
    ensures
        o matches IntOperand::Int(v) ==> (r matches Some(x) && x@ == v@),
        o matches IntOperand::Bool(b) ==> (r matches Some(x) && x@ == (if *b { 1int } else { 0int })),
        o is Other ==> r is None,
{
    match o {
        IntOperand::Int(v) => Some(v.copy()),
        IntOperand::Bool(b) => Some(BigIntValue::from_i64(if *b { 1 } else { 0 })),
        IntOperand::Other => None,
    }
}

/// The first argument of `int.__new__` names `bool` (the type, or a value
/// of it).
pub open spec fn names_bool(cls: Option<&PyObject>) -> bool {
    match cls {
        Some(PyObject::Type { name, .. }) => name@ == "bool"@,
        Some(PyObject::Native { class_name }) => class_name@ == "bool"@,
        _ => false,
    }
}

/// `int.__new__(cls, ...)`: refused for `bool`, which has its own
/// allocator; any other class goes on to `int()`.
pub fn int_new_checked(cls: Option<&PyObject>) -> (r: Result<(), PyError>)
    ensures
        names_bool(cls) ==> (r matches Err(e) && e@ == PyErrorView::TypeError(
            "int.__new__(bool) is not safe, use bool.__new__()"@)),
        !names_bool(cls) ==> r is Ok,
{
    let is_bool = match cls {
        Some(PyObject::Type { name, .. }) => str_is(name.as_str(), "bool"),
        Some(PyObject::Native { class_name }) => str_is(class_name.as_str(), "bool"),
        _ => false,
    };
    if is_bool {
        return Err(PyError::TypeError("int.__new__(bool) is not safe, use bool.__new__()".to_owned()));
    }
    Ok(())
}

} // verus!
