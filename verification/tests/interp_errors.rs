use pyattrs::error::PyError;
use pyattrs::interp_error::interpolation_error;

#[test]
fn overflow_messages_lose_their_marker() {
    assert_eq!(interpolation_error("width too big"), PyError::OverflowError("width too big".to_string()));
    assert_eq!(
        interpolation_error("precision too big [overflow]"),
        PyError::OverflowError("precision too big".to_string())
    );
    assert_eq!(
        interpolation_error("%c arg not in range(0x110000) [overflow] [overflow]"),
        PyError::OverflowError("%c arg not in range(0x110000)".to_string())
    );
}

#[test]
fn operand_type_messages_are_type_errors() {
    let m = "%d format: a real number is required, not str";
    assert_eq!(interpolation_error(m), PyError::TypeError(m.to_string()));
    let m = "not all arguments converted during string formatting";
    assert_eq!(interpolation_error(m), PyError::TypeError(m.to_string()));
    let m = "%c requires an int or a unicode character, not float";
    assert_eq!(interpolation_error(m), PyError::TypeError(m.to_string()));
}

#[test]
fn other_format_messages_are_value_errors() {
    let m = "unsupported format character 'y' (0x79) at index 1";
    assert_eq!(interpolation_error(m), PyError::ValueError(m.to_string()));
    assert_eq!(interpolation_error("incomplete format"), PyError::ValueError("incomplete format".to_string()));
}
