use pyattrs::strmethods::{str_center, str_ljust, str_rjust, str_zfill};
use pyattrs::strsearch::{
    str_expandtabs, str_partition, str_removeprefix, str_removesuffix, str_rpartition,
};
use pyattrs::strws::{str_splitlines, str_strip};

#[test]
fn ljust_pads_right() {
    assert_eq!(str_ljust("ab", 5, '*'), "ab***");
    assert_eq!(str_ljust("abcdef", 3, '*'), "abcdef");
}

#[test]
fn ljust_counts_bytes() {
    assert_eq!(str_ljust("é", 3, '*'), "é*");
}

#[test]
fn rjust_pads_left() {
    assert_eq!(str_rjust("ab", 4, '0'), "00ab");
}

#[test]
fn center_puts_smaller_half_left() {
    assert_eq!(str_center("ab", 5, '*'), "*ab**");
    assert_eq!(str_center("ab", 6, '-'), "--ab--");
}

#[test]
fn zfill_after_sign() {
    assert_eq!(str_zfill("-42", 5), "-0042");
    assert_eq!(str_zfill("+7", 3), "+07");
    assert_eq!(str_zfill("42", 1), "42");
    assert_eq!(str_zfill("7", 3), "007");
}

#[test]
fn partition_first_separator() {
    let (a, b, c) = str_partition("a,b,c", ",");
    assert_eq!((a.as_str(), b.as_str(), c.as_str()), ("a", ",", "b,c"));
}

#[test]
fn partition_missing_separator() {
    let (a, b, c) = str_partition("abc", ",");
    assert_eq!((a.as_str(), b.as_str(), c.as_str()), ("abc", "", ""));
}

#[test]
fn rpartition_last_separator() {
    let (a, b, c) = str_rpartition("a,b,c", ",");
    assert_eq!((a.as_str(), b.as_str(), c.as_str()), ("a,b", ",", "c"));
}

#[test]
fn rpartition_missing_separator() {
    let (a, b, c) = str_rpartition("abc", ",");
    assert_eq!((a.as_str(), b.as_str(), c.as_str()), ("", "", "abc"));
}

#[test]
fn removeprefix_and_removesuffix() {
    assert_eq!(str_removeprefix("TestHook", "Test"), "Hook");
    assert_eq!(str_removeprefix("TestHook", "Hook"), "TestHook");
    assert_eq!(str_removesuffix("MiscTests", "Tests"), "Misc");
    assert_eq!(str_removesuffix("MiscTests", "Misc"), "MiscTests");
}

#[test]
fn expandtabs_to_columns() {
    assert_eq!(str_expandtabs("a\tbc\td", 4), "a   bc  d");
    assert_eq!(str_expandtabs("ab\n\tc", 2), "ab\n  c");
}

#[test]
fn strip_default_whitespace() {
    assert_eq!(str_strip("  hi \n", None, true, true), "hi");
    assert_eq!(str_strip("  hi \n", None, true, false), "hi \n");
    assert_eq!(str_strip("  hi \n", None, false, true), "  hi");
}

#[test]
fn strip_given_characters() {
    assert_eq!(str_strip("xxhixy", Some("xy"), true, true), "hi");
    assert_eq!(str_strip("xyxy", Some("xy"), true, true), "");
    assert_eq!(str_strip("None-x-None", Some("None"), true, false), "-x-None");
}

#[test]
fn strip_default_keeps_unicode_space() {
    assert_eq!(str_strip("\u{3000}a", None, true, true), "\u{3000}a");
}

#[test]
fn splitlines_drops_breaks() {
    let lines = str_splitlines("a\nb\r\nc\rd", false);
    assert_eq!(lines, vec!["a", "b", "c", "d"]);
}

#[test]
fn splitlines_keeps_breaks() {
    let lines = str_splitlines("a\nb\r\n", true);
    assert_eq!(lines, vec!["a\n", "b\r\n"]);
}

#[test]
fn splitlines_trailing_break_and_empty() {
    assert_eq!(str_splitlines("a\nb\n", false), vec!["a", "b"]);
    assert_eq!(str_splitlines("", false), Vec::<String>::new());
    assert_eq!(str_splitlines("\n\n", false), vec!["", ""]);
}

#[test]
fn str_len_and_sizeof_count_chars_and_bytes() {
    assert_eq!(pyattrs::strmethods::str_len("héllo"), 5);
    assert_eq!(pyattrs::strmethods::str_sizeof("héllo"), 55);
    assert_eq!(pyattrs::strmethods::str_sizeof(""), 49);
}

#[test]
fn translate_by_table_entries() {
    use_translate();
}

fn use_translate() {
    let entries = vec![
        pyattrs::strmethods::Translation::Keep,
        pyattrs::strmethods::Translation::Delete,
        pyattrs::strmethods::Translation::Ordinal { code: 0x41, shown: "65".to_string() },
        pyattrs::strmethods::Translation::Ordinal { code: 0xD800, shown: "55296".to_string() },
        pyattrs::strmethods::Translation::Text("xy".to_string()),
    ];
    assert_eq!(pyattrs::strmethods::str_translate("abcde", Some(&entries)), "aA55296xy");
    assert_eq!(pyattrs::strmethods::str_translate("abc", None), "abc");
}

#[test]
fn expandtabs_without_tabs_ignores_the_tab_size() {
    assert_eq!(str_expandtabs("no tabs here", usize::MAX), "no tabs here");
    assert_eq!(str_expandtabs("line\nnext", 0), "line\nnext");
    assert_eq!(str_expandtabs("", usize::MAX), "");
}
