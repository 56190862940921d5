use pyattrs::bigint::BigIntValue;
use pyattrs::error::PyError;
use pyattrs::float_ops::{
    f64_to_int_ceil_floor_trunc, float_binop_dunder, float_mod_adjust, BinopAction, FloatFacts,
    FloatOp, ModAdjust, Operand,
};
use pyattrs::attrmap::AttrMap;
use pyattrs::float_repr::{float_as_integer_ratio, float_hex};
use pyattrs::int_attrs::{
    int_bit_count, int_bit_length, int_new_checked, int_or_bool_value, int_to_bytes, IntOperand,
};
use pyattrs::object::PyObject;
use pyattrs::range::{range_iter_length_hint, RangeObject};
use pyattrs::repeat::{dunder_repeat, repeat_count, repeat_sequence, Repeated, SeqValue};

fn facts(x: f64) -> FloatFacts {
    FloatFacts {
        is_zero: x == 0.0,
        is_negative: x < 0.0,
        is_finite: x.is_finite(),
        is_integral: x.fract() == 0.0,
        sign_negative: x.is_sign_negative(),
    }
}

fn num(x: f64) -> Operand {
    Operand::Float(facts(x))
}

fn big(v: i64) -> BigIntValue {
    BigIntValue::new(v)
}

fn int_of(r: Result<BigIntValue, PyError>) -> Option<i64> {
    r.ok().and_then(|v| v.as_i64())
}

#[test]
fn float_add_computes_in_order() {
    assert_eq!(
        float_binop_dunder(&[num(2.0), num(3.0)], false, 4),
        Ok(BinopAction::Compute { op: FloatOp::Add, swap: false })
    );
}

#[test]
fn reflected_dunder_swaps() {
    assert_eq!(
        float_binop_dunder(&[num(2.0), num(3.0)], true, 5),
        Ok(BinopAction::Compute { op: FloatOp::Sub, swap: true })
    );
}

#[test]
fn non_numeric_operand_is_not_implemented() {
    assert_eq!(float_binop_dunder(&[num(2.0), Operand::NotNumeric], false, 6), Ok(BinopAction::NotImplemented));
}

#[test]
fn zero_to_negative_power_raises() {
    assert_eq!(
        float_binop_dunder(&[num(0.0), num(-1.0)], false, 3),
        Err(PyError::ZeroDivisionError("0.0 cannot be raised to a negative power".to_string()))
    );
}

#[test]
fn negative_base_fractional_exponent_is_complex() {
    assert_eq!(
        float_binop_dunder(&[num(-8.0), num(0.5)], false, 3),
        Ok(BinopAction::Compute { op: FloatOp::ComplexPow, swap: false })
    );
    assert_eq!(
        float_binop_dunder(&[num(-8.0), num(2.0)], false, 3),
        Ok(BinopAction::Compute { op: FloatOp::Pow, swap: false })
    );
}

#[test]
fn binop_argument_errors() {
    assert_eq!(
        float_binop_dunder(&[num(1.0), num(1.0)], false, 9),
        Err(PyError::TypeError("unknown operator".to_string()))
    );
    assert_eq!(
        float_binop_dunder(&[num(1.0)], false, 0),
        Err(PyError::TypeError("binary operator needs 2 arguments".to_string()))
    );
}

#[test]
fn binop_reads_last_two_arguments() {
    assert_eq!(
        float_binop_dunder(&[Operand::NotNumeric, num(1.0), num(2.0)], false, 1),
        Ok(BinopAction::Compute { op: FloatOp::FloorDiv, swap: false })
    );
}

#[test]
fn mod_adjust_follows_divisor_sign() {
    assert_eq!(float_mod_adjust(facts(0.0), facts(-3.0)), ModAdjust::NegativeZero);
    assert_eq!(float_mod_adjust(facts(0.0), facts(3.0)), ModAdjust::PositiveZero);
    assert_eq!(float_mod_adjust(facts(-1.0), facts(3.0)), ModAdjust::AddDivisor);
    assert_eq!(float_mod_adjust(facts(1.0), facts(3.0)), ModAdjust::Keep);
}

#[test]
fn float_to_int_rounding_modes() {
    let p = 2.5f64.to_bits();
    let n = (-2.5f64).to_bits();
    assert_eq!(int_of(f64_to_int_ceil_floor_trunc(p, 0)), Some(2));
    assert_eq!(int_of(f64_to_int_ceil_floor_trunc(p, 1)), Some(3));
    assert_eq!(int_of(f64_to_int_ceil_floor_trunc(p, 2)), Some(2));
    assert_eq!(int_of(f64_to_int_ceil_floor_trunc(n, 0)), Some(-2));
    assert_eq!(int_of(f64_to_int_ceil_floor_trunc(n, 1)), Some(-2));
    assert_eq!(int_of(f64_to_int_ceil_floor_trunc(n, 2)), Some(-3));
}

#[test]
fn float_to_int_small_and_exact_values() {
    assert_eq!(int_of(f64_to_int_ceil_floor_trunc(0.1f64.to_bits(), 1)), Some(1));
    assert_eq!(int_of(f64_to_int_ceil_floor_trunc(0.1f64.to_bits(), 2)), Some(0));
    assert_eq!(int_of(f64_to_int_ceil_floor_trunc((-0.0f64).to_bits(), 2)), Some(0));
    assert_eq!(int_of(f64_to_int_ceil_floor_trunc(5e-324f64.to_bits(), 1)), Some(1));
    assert_eq!(int_of(f64_to_int_ceil_floor_trunc(1e18f64.to_bits(), 0)), Some(1_000_000_000_000_000_000));
    assert_eq!(int_of(f64_to_int_ceil_floor_trunc((-9223372036854775808.0f64).to_bits(), 0)), Some(i64::MIN));
}

#[test]
fn float_to_int_beyond_i64() {
    let r = f64_to_int_ceil_floor_trunc(1e20f64.to_bits(), 0).unwrap();
    assert_eq!(r.as_i64(), None);
}

#[test]
fn float_to_int_nan_and_infinity() {
    assert_eq!(
        f64_to_int_ceil_floor_trunc(f64::NAN.to_bits(), 0).err(),
        Some(PyError::ValueError("cannot convert float NaN to integer".to_string()))
    );
    assert_eq!(
        f64_to_int_ceil_floor_trunc(f64::NEG_INFINITY.to_bits(), 2).err(),
        Some(PyError::OverflowError("cannot convert float infinity to integer".to_string()))
    );
}

#[test]
fn bigint_from_words() {
    assert_eq!(BigIntValue::from_words(false, &[5]).as_i64(), Some(5));
    assert_eq!(BigIntValue::from_words(true, &[5, 0]).as_i64(), Some(-5));
    assert_eq!(BigIntValue::from_words(false, &[0, 1]).as_i64(), None);
    assert_eq!(BigIntValue::from_words(true, &[1u64 << 63]).as_i64(), Some(i64::MIN));
}

#[test]
fn repeat_list_three_times() {
    assert_eq!(
        dunder_repeat(&SeqValue::List(vec![1, 2]), &big(3)),
        Ok(Repeated::List(vec![1, 2, 1, 2, 1, 2]))
    );
}

#[test]
fn repeat_once_is_the_receiver() {
    assert_eq!(dunder_repeat(&SeqValue::Tuple(vec![1u8]), &big(1)), Ok(Repeated::Same));
}

#[test]
fn repeat_negative_count_is_empty() {
    assert_eq!(dunder_repeat(&SeqValue::List(vec![1, 2]), &big(-1)), Ok(Repeated::List(Vec::<i32>::new())));
    assert_eq!(repeat_count(&big(-5)), Ok(0));
}

#[test]
fn repeat_string_and_bytes() {
    assert_eq!(dunder_repeat(&SeqValue::<u8>::Str("ab".to_string()), &big(2)), Ok(Repeated::Str("abab".to_string())));
    assert_eq!(dunder_repeat(&SeqValue::<u8>::Bytes(vec![7]), &big(3)), Ok(Repeated::Bytes(vec![7, 7, 7])));
}

#[test]
fn repeat_other_type_is_refused() {
    assert_eq!(
        dunder_repeat(&SeqValue::<u8>::Other, &big(2)),
        Err(PyError::TypeError("sequence type not repeatable".to_string()))
    );
}

#[test]
fn repeat_count_out_of_range() {
    let huge = BigIntValue::from_words(false, &[0, 1]);
    let tiny = BigIntValue::from_words(true, &[0, 1]);
    assert_eq!(
        dunder_repeat(&SeqValue::List(vec![1]), &huge),
        Err(PyError::OverflowError("repeated value is too large".to_string()))
    );
    assert_eq!(
        dunder_repeat(&SeqValue::List(vec![1]), &tiny),
        Err(PyError::OverflowError("negative count".to_string()))
    );
}

#[test]
fn repeat_refused_allocation() {
    assert_eq!(
        repeat_sequence(&SeqValue::List(vec![1]), 3, false),
        Err(PyError::MemoryError("could not allocate list".to_string()))
    );
    assert_eq!(
        repeat_sequence(&SeqValue::<u8>::Bytes(vec![1]), 3, false),
        Err(PyError::MemoryError("could not allocate bytes".to_string()))
    );
    assert_eq!(
        repeat_sequence(&SeqValue::<u8>::Str("ab".to_string()), usize::MAX, true),
        Err(PyError::OverflowError("repeated string is too long".to_string()))
    );
}

fn range(start: i64, stop: i64, step: i64) -> RangeObject {
    RangeObject { start: big(start), stop: big(stop), step: big(step) }
}

#[test]
fn range_length() {
    assert_eq!(range(0, 10, 3).length().as_i64(), Some(4));
    assert_eq!(range(10, 0, -3).length().as_i64(), Some(4));
    assert_eq!(range(5, 5, 1).length().as_i64(), Some(0));
    assert_eq!(range(0, 10, -1).length().as_i64(), Some(0));
}

#[test]
fn range_len_overflow() {
    let r = RangeObject { start: big(0), stop: BigIntValue::from_words(false, &[0, 1]), step: big(1) };
    assert_eq!(
        r.len_checked().err(),
        Some(PyError::OverflowError("Python int too large to convert to C ssize_t".to_string()))
    );
    assert_eq!(int_of(range(0, 10, 3).len_checked()), Some(4));
}

#[test]
fn range_membership_and_count() {
    let r = range(0, 10, 3);
    assert!(r.contains_int(&big(9)));
    assert!(!r.contains_int(&big(10)));
    assert!(!r.contains_int(&big(4)));
    assert!(!r.contains_int(&big(-3)));
    assert_eq!(r.count_int(&big(3)), 1);
    assert_eq!(r.count_int(&big(5)), 0);
    let d = range(10, 0, -3);
    assert!(d.contains_int(&big(1)));
    assert!(!d.contains_int(&big(0)));
}

#[test]
fn range_index_of_value() {
    assert_eq!(int_of(range(0, 10, 3).index_int(&big(6))), Some(2));
    assert_eq!(int_of(range(10, 0, -3).index_int(&big(4))), Some(2));
    assert_eq!(
        range(0, 10, 3).index_int(&big(4)).err(),
        Some(PyError::ValueError("value not in range".to_string()))
    );
}

#[test]
fn range_item_at_position() {
    let r = range(0, 10, 3);
    assert_eq!(int_of(r.item_at(&big(-1))), Some(9));
    assert_eq!(int_of(r.item_at(&big(1))), Some(3));
    assert_eq!(
        r.item_at(&big(4)).err(),
        Some(PyError::IndexError("range object index out of range".to_string()))
    );
    assert_eq!(
        r.item_at(&big(-5)).err(),
        Some(PyError::IndexError("range object index out of range".to_string()))
    );
    assert_eq!(int_of(range(10, 0, -3).item_at(&big(-1))), Some(1));
}

#[test]
fn range_item_and_index_are_inverse() {
    for (a, b, c) in [(0, 10, 3), (10, 0, -3), (-5, 7, 2), (3, -20, -7)] {
        let r = range(a, b, c);
        let n = r.length().as_i64().unwrap();
        for i in 0..n {
            let v = r.item_at(&big(i)).unwrap();
            assert!(r.contains_int(&v));
            assert_eq!(int_of(r.index_int(&v)), Some(i));
        }
    }
}

#[test]
fn range_slice_maps_positions() {
    let s = range(0, 10, 3).subrange(&big(1), &big(3), &big(1));
    assert_eq!((s.start.as_i64(), s.stop.as_i64(), s.step.as_i64()), (Some(3), Some(9), Some(3)));
    let t = range(0, 10, 3).subrange(&big(3), &big(-1), &big(-2));
    assert_eq!((t.start.as_i64(), t.stop.as_i64(), t.step.as_i64()), (Some(9), Some(-3), Some(-6)));
}

#[test]
fn range_iterator_length_hint() {
    assert_eq!(range_iter_length_hint(&big(2), &big(10), &big(3)).as_i64(), Some(2));
    assert_eq!(range_iter_length_hint(&big(11), &big(10), &big(3)).as_i64(), Some(0));
    assert_eq!(range_iter_length_hint(&big(10), &big(0), &big(-3)).as_i64(), Some(3));
}

#[test]
fn bigint_words_round_trip() {
    for (neg, words) in [(false, vec![5u64]), (true, vec![0u64, 1]), (false, vec![]), (true, vec![u64::MAX, 3])] {
        let v = BigIntValue::from_words(neg, &words);
        let (n2, w2) = v.to_words();
        let back = BigIntValue::from_words(n2, &w2);
        assert_eq!(back.as_i64(), v.as_i64());
        let trimmed: Vec<u64> = {
            let mut t = words.clone();
            while t.last() == Some(&0) {
                t.pop();
            }
            t
        };
        assert_eq!(w2, trimmed);
        assert_eq!(n2, neg && !trimmed.is_empty());
    }
}

#[test]
fn float_hex_forms() {
    assert_eq!(float_hex(1.0f64.to_bits()), "0x1.0000000000000p+0");
    assert_eq!(float_hex(0.5f64.to_bits()), "0x1.0000000000000p-1");
    assert_eq!(float_hex((-2.5f64).to_bits()), "-0x1.4000000000000p+1");
    assert_eq!(float_hex(0.0f64.to_bits()), "0x0.0p+0");
    assert_eq!(float_hex((-0.0f64).to_bits()), "-0x0.0p+0");
    assert_eq!(float_hex(f64::INFINITY.to_bits()), "inf");
    assert_eq!(float_hex(f64::NEG_INFINITY.to_bits()), "-inf");
    assert_eq!(float_hex(f64::NAN.to_bits()), "nan");
    assert_eq!(float_hex(5e-324f64.to_bits()), "0x0.0000000000001p-1022");
    assert_eq!(float_hex(f64::MAX.to_bits()), "0x1.fffffffffffffp+1023");
}

fn ratio(x: f64) -> (Option<i64>, Option<i64>) {
    let (n, d) = float_as_integer_ratio(x.to_bits()).unwrap();
    (n.as_i64(), d.as_i64())
}

#[test]
fn float_integer_ratio() {
    assert_eq!(ratio(0.5), (Some(1), Some(2)));
    assert_eq!(ratio(2.5), (Some(5), Some(2)));
    assert_eq!(ratio(-0.75), (Some(-3), Some(4)));
    assert_eq!(ratio(3.0), (Some(3), Some(1)));
    assert_eq!(ratio(0.0), (Some(0), Some(1)));
    assert_eq!(ratio(-0.0), (Some(0), Some(1)));
    assert_eq!(ratio(1152921504606846976.0), (Some(1 << 60), Some(1)));
    assert_eq!(ratio(0.1), (Some(3602879701896397), Some(36028797018963968)));
    assert_eq!(ratio(5e-324), (Some(1), None));
}

#[test]
fn float_integer_ratio_non_finite() {
    assert_eq!(
        float_as_integer_ratio(f64::INFINITY.to_bits()).err(),
        Some(PyError::OverflowError("cannot convert Infinity to integer ratio".to_string()))
    );
    assert_eq!(
        float_as_integer_ratio(f64::NAN.to_bits()).err(),
        Some(PyError::ValueError("cannot convert NaN to integer ratio".to_string()))
    );
}

#[test]
fn int_bit_length_values() {
    assert_eq!(int_bit_length(&big(0)), 0);
    assert_eq!(int_bit_length(&big(255)), 8);
    assert_eq!(int_bit_length(&big(-256)), 9);
    assert_eq!(int_bit_length(&BigIntValue::from_words(false, &[0, 1])), 65);
}

#[test]
fn int_bit_count_values() {
    assert_eq!(int_bit_count(&big(7)), 3);
    assert_eq!(int_bit_count(&big(0)), 0);
    assert_eq!(int_bit_count(&big(-1)), 0);
    assert_eq!(int_bit_count(&big(-8)), 3);
    assert_eq!(int_bit_count(&BigIntValue::from_words(false, &[u64::MAX, 1])), 65);
}

#[test]
fn int_to_bytes_unsigned() {
    assert_eq!(int_to_bytes(&big(1024), 2, false, false), Ok(vec![4, 0]));
    assert_eq!(int_to_bytes(&big(1024), 3, true, false), Ok(vec![0, 4, 0]));
    assert_eq!(int_to_bytes(&big(0), 1, true, false), Ok(vec![0]));
    assert_eq!(int_to_bytes(&big(-5), 2, false, false), Ok(vec![0, 5]));
    assert_eq!(
        int_to_bytes(&big(1024), 1, false, false),
        Err(PyError::TypeError("int too big to convert".to_string()))
    );
    assert_eq!(
        int_to_bytes(&big(5), 0, false, false),
        Err(PyError::TypeError("length must be positive".to_string()))
    );
}

#[test]
fn int_to_bytes_signed_negative() {
    assert_eq!(int_to_bytes(&big(-1), 2, false, true), Ok(vec![255, 255]));
    assert_eq!(int_to_bytes(&big(-2), 2, true, true), Ok(vec![254, 255]));
    assert_eq!(int_to_bytes(&big(-256), 2, true, true), Ok(vec![0, 255]));
    assert_eq!(int_to_bytes(&big(-129), 1, true, true), Ok(vec![127]));
    assert_eq!(int_to_bytes(&big(-2), 1, false, true), Ok(vec![254]));
    assert_eq!(int_to_bytes(&big(-256), 2, false, true), Ok(vec![255, 255]));
    assert_eq!(int_to_bytes(&big(3), 2, false, true), Ok(vec![0, 3]));
}

#[test]
fn int_or_bool_and_int_new() {
    assert_eq!(int_or_bool_value(&IntOperand::Bool(true)).and_then(|v| v.as_i64()), Some(1));
    assert_eq!(int_or_bool_value(&IntOperand::Int(big(-4))).and_then(|v| v.as_i64()), Some(-4));
    assert!(int_or_bool_value(&IntOperand::Other).is_none());
    let bool_type = PyObject::Type {
        name: "bool".to_string(),
        metatype: None,
        dict: AttrMap::new(),
        base_dicts: Vec::new(),
        bases: Vec::new(),
    };
    assert_eq!(
        int_new_checked(Some(&bool_type)),
        Err(PyError::TypeError("int.__new__(bool) is not safe, use bool.__new__()".to_string()))
    );
    let int_type = PyObject::Type { name: "int".to_string(), metatype: None, dict: AttrMap::new(), base_dicts: Vec::new(), bases: Vec::new() };
    assert_eq!(int_new_checked(Some(&int_type)), Ok(()));
    assert_eq!(int_new_checked(None), Ok(()));
    let true_value = PyObject::Native { class_name: "bool".to_string() };
    assert!(int_new_checked(Some(&true_value)).is_err());
}

#[test]
fn repeat_to_nothing_always_succeeds() {
    assert_eq!(dunder_repeat(&SeqValue::List(vec![1, 2]), &big(0)), Ok(Repeated::List(Vec::<i32>::new())));
    assert_eq!(dunder_repeat(&SeqValue::<u8>::Str("ab".to_string()), &big(-3)), Ok(Repeated::Str(String::new())));
    assert_eq!(dunder_repeat(&SeqValue::<u8>::Bytes(Vec::new()), &big(i64::MAX)), Ok(Repeated::Bytes(Vec::new())));
}

#[test]
fn repeat_beyond_the_address_space_is_a_memory_error() {
    assert_eq!(
        dunder_repeat(&SeqValue::List(vec![0u64]), &big(i64::MAX)),
        Err(PyError::MemoryError("could not allocate list".to_string()))
    );
    assert_eq!(
        dunder_repeat(&SeqValue::<u8>::Str("ab".to_string()), &big(i64::MAX)),
        Err(PyError::MemoryError("could not allocate string".to_string()))
    );
}
