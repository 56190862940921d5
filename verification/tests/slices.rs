use pyattrs::error::PyError;
use pyattrs::slice_ops::slice_indices;

#[test]
fn full_slice_covers_the_sequence() {
    assert_eq!(slice_indices(None, None, None, 10), Ok((0, 10, 1)));
    assert_eq!(slice_indices(None, None, Some(-1), 10), Ok((9, -1, -1)));
}

#[test]
fn negative_positions_count_from_the_end() {
    assert_eq!(slice_indices(Some(-3), None, None, 10), Ok((7, 10, 1)));
    assert_eq!(slice_indices(Some(-1), Some(-4), Some(-1), 10), Ok((9, 6, -1)));
}

#[test]
fn out_of_range_positions_are_clamped() {
    assert_eq!(slice_indices(Some(-100), Some(100), Some(2), 10), Ok((0, 10, 2)));
    assert_eq!(slice_indices(Some(100), Some(-100), Some(-1), 10), Ok((9, -1, -1)));
    assert_eq!(slice_indices(Some(5), Some(2), Some(-2), 10), Ok((5, 2, -2)));
    assert_eq!(slice_indices(Some(-1), None, Some(-1), 0), Ok((-1, -1, -1)));
    assert_eq!(slice_indices(Some(i64::MIN), Some(i64::MAX), None, 3), Ok((0, 3, 1)));
}

#[test]
fn invalid_length_or_step() {
    assert_eq!(
        slice_indices(None, None, None, -1),
        Err(PyError::ValueError("length should not be negative".to_string()))
    );
    assert_eq!(
        slice_indices(None, None, Some(0), 5),
        Err(PyError::ValueError("slice step cannot be zero".to_string()))
    );
}
