use pyattrs::strsplit::{
    str_count, str_endswith, str_find, str_index, str_join, str_replace, str_rsplit_sep,
    str_split_sep, str_startswith,
};
use pyattrs::strws::{str_rsplit, str_rsplit_whitespace, str_split, str_split_whitespace};
use pyattrs::error::PyError;

fn strings(v: &[&str]) -> Vec<String> {
    v.iter().map(|s| s.to_string()).collect()
}

#[test]
fn split_on_separator() {
    assert_eq!(str_split_sep("a,b,,c", ",", -1), strings(&["a", "b", "", "c"]));
}

#[test]
fn split_with_maxsplit() {
    assert_eq!(str_split_sep("a,b,c,d", ",", 2), strings(&["a", "b", "c,d"]));
    assert_eq!(str_split_sep("a,b", ",", 0), strings(&["a,b"]));
}

#[test]
fn split_multichar_separator_does_not_overlap() {
    assert_eq!(str_split_sep("aaaa", "aa", -1), strings(&["", "", ""]));
    assert_eq!(str_split_sep("a::b::", "::", -1), strings(&["a", "b", ""]));
}

#[test]
fn split_empty_string() {
    assert_eq!(str_split_sep("", ",", -1), strings(&[""]));
}

#[test]
fn split_on_empty_separator_cuts_every_boundary() {
    assert_eq!(str_split_sep("ab", "", -1), strings(&["", "a", "b", ""]));
    assert_eq!(str_split_sep("ab", "", 1), strings(&["", "ab"]));
}

#[test]
fn rsplit_with_maxsplit_cuts_from_the_end() {
    assert_eq!(str_rsplit_sep("a,b,c,d", ",", 2), strings(&["a,b", "c", "d"]));
    assert_eq!(str_rsplit_sep("a,b,c", ",", -1), strings(&["a", "b", "c"]));
}

#[test]
fn rsplit_overlapping_separator_scans_backward() {
    assert_eq!(str_rsplit_sep("aaa", "aa", 1), strings(&["a", ""]));
    assert_eq!(str_split_sep("aaa", "aa", 1), strings(&["", "a"]));
}

#[test]
fn rsplit_on_empty_separator() {
    assert_eq!(str_rsplit_sep("ab", "", 1), strings(&["ab", ""]));
    assert_eq!(str_rsplit_sep("ab", "", 9), strings(&["", "a", "b", ""]));
}

#[test]
fn split_whitespace_all_words() {
    assert_eq!(str_split_whitespace("  a  b\tc\n", -1), strings(&["a", "b", "c"]));
    assert_eq!(str_split_whitespace("   ", -1), Vec::<String>::new());
}

#[test]
fn split_whitespace_with_maxsplit() {
    assert_eq!(str_split_whitespace("  a  b  c  ", 1), strings(&["a", "b  c"]));
    assert_eq!(str_split_whitespace("  a  b  ", 0), strings(&["a  b"]));
    assert_eq!(str_split_whitespace("a b", 5), strings(&["a", "b"]));
}

#[test]
fn split_whitespace_unicode_space() {
    assert_eq!(str_split_whitespace("a\u{3000}b", -1), strings(&["a", "b"]));
}

#[test]
fn rsplit_whitespace_with_maxsplit() {
    assert_eq!(str_rsplit_whitespace("  a  b  c  ", 1), strings(&["a  b", "c"]));
    assert_eq!(str_rsplit_whitespace("  a  b  ", 0), strings(&["a  b"]));
    assert_eq!(str_rsplit_whitespace("a b c", -1), strings(&["a", "b", "c"]));
    assert_eq!(str_rsplit_whitespace("a b", 7), strings(&["a", "b"]));
}

#[test]
fn count_non_overlapping() {
    assert_eq!(str_count("aaaa", "aa", None, None), 2);
    assert_eq!(str_count("banana", "an", None, None), 2);
    assert_eq!(str_count("banana", "an", Some(2), None), 1);
    assert_eq!(str_count("banana", "x", None, None), 0);
}

#[test]
fn count_empty_substring_is_length_plus_one() {
    assert_eq!(str_count("abc", "", None, None), 4);
    assert_eq!(str_count("abc", "", Some(-1), None), 2);
}

#[test]
fn find_and_rfind() {
    assert_eq!(str_find("hello", "l", None, None, false), Some(2));
    assert_eq!(str_find("hello", "l", None, None, true), Some(3));
    assert_eq!(str_find("hello", "z", None, None, false), None);
    assert_eq!(str_find("hello", "l", Some(3), None, false), Some(3));
    assert_eq!(str_find("hello", "l", Some(-2), None, false), Some(3));
    assert_eq!(str_find("hello", "lo", None, Some(4), false), None);
}

#[test]
fn index_missing_raises_value_error() {
    assert_eq!(str_index("hello", "e", None, None, false), Ok(1));
    assert_eq!(
        str_index("hello", "z", None, None, true),
        Err(PyError::ValueError("substring not found".to_string()))
    );
}

#[test]
fn startswith_endswith_any_of() {
    let p = strings(&["x", "he"]);
    assert!(str_startswith("hello", &p, None, None));
    assert!(!str_startswith("hello", &strings(&["el"]), None, None));
    assert!(str_startswith("hello", &strings(&["el"]), Some(1), None));
    assert!(str_endswith("hello", &strings(&["lo"]), None, None));
    assert!(!str_endswith("hello", &strings(&["lo"]), None, Some(4)));
    assert!(str_endswith("hello", &strings(&["ll"]), None, Some(4)));
}

#[test]
fn replace_all_matches() {
    assert_eq!(str_replace("a-b-c", "-", "+"), "a+b+c");
    assert_eq!(str_replace("aaa", "aa", "b"), "ba");
    assert_eq!(str_replace("abc", "x", "y"), "abc");
}

#[test]
fn replace_empty_pattern_inserts_everywhere() {
    assert_eq!(str_replace("ab", "", "-"), "-a-b-");
}

#[test]
fn join_parts() {
    assert_eq!(str_join(", ", &strings(&["a", "b", "c"])), "a, b, c");
    assert_eq!(str_join("-", &strings(&["x"])), "x");
    assert_eq!(str_join("-", &[]), "");
}

#[test]
fn split_then_join_gives_back_the_string() {
    for (s, sep) in [("a,b,,c", ","), ("aaaa", "aa"), ("ab", ""), ("", "x")] {
        for m in [-1i64, 0, 1, 2] {
            let parts = str_split_sep(s, sep, m);
            assert_eq!(str_join(sep, &parts), s);
            let rparts = str_rsplit_sep(s, sep, m);
            assert_eq!(str_join(sep, &rparts), s);
        }
    }
}

#[test]
fn replace_equals_join_of_split() {
    let s = "one two  three";
    assert_eq!(str_replace(s, " ", "_"), str_join("_", &str_split_sep(s, " ", -1)));
}

#[test]
fn split_count_law() {
    let s = "a,b,,c";
    assert_eq!(str_split_sep(s, ",", -1).len(), str_count(s, ",", None, None) + 1);
}

#[test]
fn split_dispatches_on_separator() {
    assert_eq!(str_split(" a b ", None, -1), strings(&["a", "b"]));
    assert_eq!(str_split(" a b ", Some(" "), -1), strings(&["", "a", "b", ""]));
    assert_eq!(str_rsplit("a b c", None, 1), strings(&["a b", "c"]));
    assert_eq!(str_rsplit("a,b,c", Some(","), 1), strings(&["a,b", "c"]));
}
