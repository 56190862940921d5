use pyattrs::error::PyError;
use pyattrs::format_plan::{format_plan, format_split_arguments, Conversion, FieldRef, FormatPlan, FormatStep};

fn chars(s: &str) -> Vec<FormatStep> {
    s.chars().map(FormatStep::Char).collect()
}

fn value(f: FieldRef) -> FormatStep {
    FormatStep::Value { field: f, conversion: Conversion::Keep }
}

#[test]
fn literal_text_and_escaped_braces() {
    let plan = format_plan("a{{b}}c}", 0);
    assert_eq!(plan, FormatPlan { steps: chars("a{b}c"), error: None });
}

#[test]
fn automatic_fields_count_off_arguments() {
    let plan = format_plan("{}-{}", 2);
    let mut steps = vec![value(FieldRef::Positional(0)), FormatStep::Apply];
    steps.extend(chars("-"));
    steps.push(value(FieldRef::Positional(1)));
    steps.push(FormatStep::Apply);
    assert_eq!(plan, FormatPlan { steps, error: None });
}

#[test]
fn automatic_field_past_arguments_is_index_error() {
    let plan = format_plan("x{}{}", 1);
    let mut steps = chars("x");
    steps.push(value(FieldRef::Positional(0)));
    steps.push(FormatStep::Apply);
    assert_eq!(
        plan,
        FormatPlan {
            steps,
            error: Some(PyError::IndexError(
                "Replacement index out of range for positional args tuple".to_string()
            )),
        }
    );
}

#[test]
fn mixing_numbering_is_refused() {
    let plan = format_plan("{0}{}", 2);
    assert_eq!(
        plan.error,
        Some(PyError::ValueError(
            "cannot switch from manual field specification to automatic field numbering".to_string()
        ))
    );
    let plan = format_plan("{}{1}", 2);
    assert_eq!(
        plan.error,
        Some(PyError::ValueError(
            "cannot switch from automatic field numbering to manual field specification".to_string()
        ))
    );
}

#[test]
fn named_item_conversion_and_spec() {
    let plan = format_plan("{name!r:>{}}", 1);
    let steps = vec![
        FormatStep::Value { field: FieldRef::Named("name".to_string()), conversion: Conversion::Repr },
        FormatStep::SpecChar('>'),
        FormatStep::SpecArg(FieldRef::Positional(0)),
        FormatStep::Apply,
    ];
    assert_eq!(plan, FormatPlan { steps, error: None });
    let plan = format_plan("{0[key]!s}", 1);
    let steps = vec![
        FormatStep::Value {
            field: FieldRef::Item { index: 0, key: "key".to_string() },
            conversion: Conversion::Str,
        },
        FormatStep::Apply,
    ];
    assert_eq!(plan, FormatPlan { steps, error: None });
}

#[test]
fn field_errors() {
    assert_eq!(
        format_plan("ab{0", 1).error,
        Some(PyError::ValueError("unterminated format field".to_string()))
    );
    assert_eq!(
        format_plan("{:{0}", 1).error,
        Some(PyError::ValueError("unterminated format field".to_string()))
    );
    assert_eq!(
        format_plan("{x:{y}", 1).error,
        Some(PyError::ValueError("unterminated format field".to_string()))
    );
    assert_eq!(
        format_plan("{3[0]}", 1).error,
        Some(PyError::IndexError("index out of range for positional args".to_string()))
    );
    assert_eq!(
        format_plan("{a[0]}", 1).error,
        Some(PyError::KeyError("'a[0]'".to_string()))
    );
    assert_eq!(format_plan("{5}", 2).error, Some(PyError::IndexError(
        "Replacement index out of range for positional args tuple".to_string()
    )));
}

#[test]
fn nested_spec_field_unterminated() {
    let plan = format_plan("{0:{ }", 2);
    assert_eq!(plan.error, Some(PyError::ValueError("unterminated format field".to_string())));
    let plan = format_plan("{0:x{}", 2);
    assert_eq!(plan.error, Some(PyError::ValueError("unterminated format field".to_string())));
}

#[test]
fn nested_field_numbering_error_follows_the_value_step() {
    let plan = format_plan("{0:{}}", 2);
    assert_eq!(
        plan,
        FormatPlan {
            steps: vec![value(FieldRef::Positional(0))],
            error: Some(PyError::ValueError(
                "cannot switch from manual field specification to automatic field numbering".to_string()
            )),
        }
    );
}

#[test]
fn named_fields_are_detected() {
    use_named();
}

fn use_named() {
    assert!(pyattrs::format_plan::format_has_named_fields("{name}"));
    assert!(pyattrs::format_plan::format_has_named_fields("a {x!r:>4} b"));
    assert!(!pyattrs::format_plan::format_has_named_fields("{} {0} {1:>3}"));
    assert!(!pyattrs::format_plan::format_has_named_fields("{:name}"));
    assert!(!pyattrs::format_plan::format_has_named_fields("{0x}"));
    assert!(!pyattrs::format_plan::format_has_named_fields("no fields"));
}

#[test]
fn trailing_dict_is_keywords_only_with_named_fields() {
    assert_eq!(format_split_arguments("{name} {0}", 2, true), (1, true));
    assert_eq!(format_split_arguments("{} {}", 2, true), (2, false));
    assert_eq!(format_split_arguments("{name}", 2, false), (2, false));
    assert_eq!(format_split_arguments("{name}", 0, true), (0, false));
    assert_eq!(format_split_arguments("{0!r:>{width}}", 1, true), (1, false));
}
