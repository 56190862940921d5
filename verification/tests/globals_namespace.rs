use pyattrs::error::PyError;
use pyattrs::keydict::{globals_key, KeyDict};

#[test]
fn globals_popitem_hands_out_the_first_binding() {
    let mut g: KeyDict<i32> = KeyDict::new();
    g.update_pairs(&[(7, 70), (8, 80)]);
    assert_eq!(g.popitem_first(), Ok((7, 70)));
    assert_eq!(g.items(), vec![(8, 80)]);
    assert_eq!(g.popitem_first(), Ok((8, 80)));
    assert_eq!(
        g.popitem_first(),
        Err(PyError::KeyError("popitem(): dictionary is empty".to_string()))
    );
}

#[test]
fn globals_keys_must_be_strings() {
    assert_eq!(globals_key(Some(4), "x"), Ok(4));
    assert_eq!(globals_key(None, "42"), Err(PyError::KeyError("42".to_string())));
}
