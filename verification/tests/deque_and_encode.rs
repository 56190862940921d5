use pyattrs::bigint::BigIntValue;
use pyattrs::deque::{check_deque_not_mutated, deque_scan_bound, snapshot_deque, Deque};
use pyattrs::encode::{str_encode_builtin, Encoded};
use pyattrs::error::PyError;

fn items<T: Copy>(d: &Deque<T>) -> Vec<T> {
    snapshot_deque(Some(d)).unwrap().0
}

fn deque_of(v: &[i32], maxlen: Option<usize>) -> Deque<i32> {
    let mut d = Deque::new(maxlen);
    d.extend(v.to_vec());
    d
}

#[test]
fn bounded_append_drops_front() {
    let mut d = Deque::new(Some(2));
    d.append(1);
    d.append(2);
    d.append(3);
    assert_eq!(items(&d), vec![2, 3]);
    assert_eq!(d.len(), 2);
    assert_eq!(d.maxlen(), Some(2));
}

#[test]
fn bounded_appendleft_drops_back() {
    let mut d = deque_of(&[1, 2], Some(2));
    d.appendleft(0);
    assert_eq!(items(&d), vec![0, 1]);
}

#[test]
fn pop_and_popleft() {
    let mut d = deque_of(&[1, 2, 3], None);
    assert_eq!(d.pop(), Ok(3));
    assert_eq!(d.popleft(), Ok(1));
    assert_eq!(items(&d), vec![2]);
    d.clear();
    let empty = Err(PyError::IndexError("pop from an empty deque".to_string()));
    assert_eq!(d.pop(), empty);
    assert_eq!(d.popleft(), Err(PyError::IndexError("pop from an empty deque".to_string())));
}

#[test]
fn append_then_pop_restores() {
    let mut d = deque_of(&[4, 5], Some(3));
    d.append(6);
    assert_eq!(d.pop(), Ok(6));
    assert_eq!(items(&d), vec![4, 5]);
    d.appendleft(3);
    assert_eq!(d.popleft(), Ok(3));
    assert_eq!(items(&d), vec![4, 5]);
}

#[test]
fn extend_keeps_last_maxlen() {
    let d = deque_of(&[1, 2, 3, 4], Some(3));
    assert_eq!(items(&d), vec![2, 3, 4]);
}

#[test]
fn extendleft_reverses() {
    let mut d: Deque<char> = Deque::new(None);
    d.append('a');
    d.extendleft(vec!['b', 'c', 'd']);
    assert_eq!(items(&d), vec!['d', 'c', 'b', 'a']);
}

#[test]
fn extendleft_bounded_keeps_first() {
    let mut d = deque_of(&[1], Some(2));
    d.extendleft(vec![2, 3]);
    assert_eq!(items(&d), vec![3, 2]);
}

#[test]
fn rotate_both_ways() {
    let mut d = deque_of(&[1, 2, 3], None);
    d.rotate(1);
    assert_eq!(items(&d), vec![3, 1, 2]);
    d.rotate(-1);
    assert_eq!(items(&d), vec![1, 2, 3]);
    d.rotate(4);
    assert_eq!(items(&d), vec![3, 1, 2]);
    d.rotate(-4);
    assert_eq!(items(&d), vec![1, 2, 3]);
    let mut e: Deque<i32> = Deque::new(None);
    e.rotate(5);
    assert_eq!(items(&e), Vec::<i32>::new());
}

#[test]
fn insert_positions_and_full_deque() {
    let mut d = deque_of(&[1, 2, 3], None);
    assert_eq!(d.insert(-1, 9), Ok(()));
    assert_eq!(items(&d), vec![1, 2, 9, 3]);
    assert_eq!(d.insert(10, 8), Ok(()));
    assert_eq!(items(&d), vec![1, 2, 9, 3, 8]);
    assert_eq!(d.insert(-10, 0), Ok(()));
    assert_eq!(items(&d), vec![0, 1, 2, 9, 3, 8]);
    let mut full = deque_of(&[1, 2], Some(2));
    assert_eq!(
        full.insert(0, 5),
        Err(PyError::IndexError("deque already at its maximum size".to_string()))
    );
    assert_eq!(items(&full), vec![1, 2]);
}

#[test]
fn reinit_keeps_maxlen() {
    let mut d = deque_of(&[1], Some(2));
    d.reinit(vec![5, 6, 7]);
    assert_eq!(items(&d), vec![6, 7]);
    assert_eq!(d.maxlen(), Some(2));
}

#[test]
fn snapshot_refuses_non_deque() {
    assert_eq!(
        snapshot_deque::<i32>(None),
        Err(PyError::RuntimeError("not a deque".to_string()))
    );
    assert_eq!(snapshot_deque(Some(&deque_of(&[1, 2], None))), Ok((vec![1, 2], 2)));
}

#[test]
fn mutation_during_iteration_is_reported() {
    let d = deque_of(&[1, 2], None);
    assert_eq!(
        check_deque_not_mutated(Some(&d), 3, "index"),
        Err(PyError::IndexError("deque mutated during iteration".to_string()))
    );
    assert_eq!(
        check_deque_not_mutated(Some(&d), 3, "count"),
        Err(PyError::RuntimeError("deque mutated during iteration".to_string()))
    );
    assert_eq!(check_deque_not_mutated(Some(&d), 2, "index"), Ok(()));
    assert_eq!(check_deque_not_mutated::<i32>(None, 7, "index"), Ok(()));
}

#[test]
fn scan_bounds_clamp() {
    assert_eq!(deque_scan_bound(5, None, 0), 0);
    assert_eq!(deque_scan_bound(5, Some(&BigIntValue::new(-2)), 0), 3);
    assert_eq!(deque_scan_bound(5, Some(&BigIntValue::new(-10)), 0), 0);
    assert_eq!(deque_scan_bound(5, Some(&BigIntValue::new(7)), 0), 5);
    assert_eq!(deque_scan_bound(5, Some(&BigIntValue::new(2)), 0), 2);
    let huge = BigIntValue::from_words(false, &[0, 0, 1]);
    assert_eq!(deque_scan_bound(5, Some(&huge), 0), 5);
}

#[test]
fn encode_default_is_utf8() {
    assert_eq!(str_encode_builtin("hé", None, None), Ok(Encoded::Bytes("hé".as_bytes().to_vec())));
    assert_eq!(str_encode_builtin("x", Some("UTF_8"), None), Ok(Encoded::Bytes(vec![b'x'])));
}

#[test]
fn encode_latin1_identity() {
    assert_eq!(str_encode_builtin("Ç", Some("latin-1"), None), Ok(Encoded::Bytes(vec![0xC7])));
    assert_eq!(str_encode_builtin("aÿ", Some("L1"), None), Ok(Encoded::Bytes(vec![b'a', 0xFF])));
}

#[test]
fn encode_ascii_strict_names_first_refused() {
    assert_eq!(
        str_encode_builtin("aéé", Some("ascii"), None),
        Err(PyError::UnicodeEncodeError {
            encoding: "ascii".to_string(),
            object: "aéé".to_string(),
            start: 1,
            end: 2,
            reason: "ordinal not in range(128)".to_string(),
        })
    );
    assert_eq!(
        str_encode_builtin("€", Some("latin1"), Some("strict")),
        Err(PyError::UnicodeEncodeError {
            encoding: "latin1".to_string(),
            object: "€".to_string(),
            start: 0,
            end: 1,
            reason: "ordinal not in range(256)".to_string(),
        })
    );
}

#[test]
fn encode_error_handlers() {
    assert_eq!(str_encode_builtin("aé", Some("ascii"), Some("replace")), Ok(Encoded::Bytes(b"a?".to_vec())));
    assert_eq!(str_encode_builtin("aé", Some("ascii"), Some("ignore")), Ok(Encoded::Bytes(b"a".to_vec())));
    assert_eq!(
        str_encode_builtin("aé", Some("ascii"), Some("xmlcharrefreplace")),
        Ok(Encoded::Bytes(b"a&#233;".to_vec()))
    );
    assert_eq!(
        str_encode_builtin("aé", Some("ascii"), Some("backslashreplace")),
        Ok(Encoded::Bytes(b"a\\xe9".to_vec()))
    );
    assert_eq!(
        str_encode_builtin("a€", Some("ascii"), Some("namereplace")),
        Ok(Encoded::Bytes(b"a\\u20ac".to_vec()))
    );
    assert_eq!(
        str_encode_builtin("\u{1F600}", Some("latin-1"), Some("backslashreplace")),
        Ok(Encoded::Bytes(b"\\U0001f600".to_vec()))
    );
    assert_eq!(
        str_encode_builtin("é", Some("ascii"), Some("surrogateescape")),
        Ok(Encoded::Bytes(vec![0xE9]))
    );
}

#[test]
fn encode_other_codec_is_looked_up() {
    assert_eq!(
        str_encode_builtin("x", Some("cp1252"), None),
        Ok(Encoded::Lookup {
            encoding: "cp1252".to_string(),
            errors: "strict".to_string(),
            utf8_fallback: vec![b'x'],
        })
    );
}
