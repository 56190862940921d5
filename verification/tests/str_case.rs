use pyattrs::case::{lower_with_final_sigma, str_capitalize, str_swapcase, str_title};
use pyattrs::strmethods::{
    str_casefold, str_isalnum, str_isalpha, str_isascii, str_isdecimal, str_isdigit,
    str_isidentifier, str_islower, str_isnumeric, str_isprintable, str_isspace, str_istitle,
    str_isupper, str_upper,
};

#[test]
fn lower_uses_final_sigma_at_word_end() {
    assert_eq!(lower_with_final_sigma("ΑΣ"), "ας");
}

#[test]
fn lower_sigma_at_word_start_is_medial() {
    assert_eq!(lower_with_final_sigma("ΣΑ"), "σα");
}

#[test]
fn lower_lone_sigma_is_medial() {
    assert_eq!(lower_with_final_sigma("Σ"), "σ");
}

#[test]
fn lower_sigma_before_space_is_final() {
    assert_eq!(lower_with_final_sigma("ΟΔΟΣ ΑΒ"), "οδος αβ");
}

#[test]
fn lower_ascii() {
    assert_eq!(lower_with_final_sigma("Hello World"), "hello world");
}

#[test]
fn swapcase_ascii() {
    assert_eq!(str_swapcase("Hello World"), "hELLO wORLD");
}

#[test]
fn swapcase_capital_sigma_at_end() {
    assert_eq!(str_swapcase("ΑΣ"), "ας");
}

#[test]
fn swapcase_expands_sharp_s() {
    assert_eq!(str_swapcase("ß"), "SS");
}

#[test]
fn title_each_word() {
    assert_eq!(str_title("hello world"), "Hello World");
}

#[test]
fn title_after_apostrophe() {
    assert_eq!(str_title("they're bill's"), "They'Re Bill'S");
}

#[test]
fn title_ligature_titlecases() {
    assert_eq!(str_title("\u{FB01}sh"), "Fish");
}

#[test]
fn capitalize_lowers_the_rest() {
    assert_eq!(str_capitalize("hELLO wORLD"), "Hello world");
}

#[test]
fn capitalize_empty() {
    assert_eq!(str_capitalize(""), "");
}

#[test]
fn isdecimal_cases() {
    assert!(str_isdecimal("123"));
    assert!(!str_isdecimal(""));
    assert!(!str_isdecimal("12a"));
}

#[test]
fn isdigit_cases() {
    assert!(str_isdigit("0987"));
    assert!(str_isdigit(""));
    assert!(!str_isdigit("1.5"));
}

#[test]
fn isalpha_isalnum_cases() {
    assert!(str_isalpha("abcXYZ"));
    assert!(!str_isalpha("ab1"));
    assert!(str_isalnum("ab1"));
    assert!(!str_isalnum("ab 1"));
}

#[test]
fn isprintable_cases() {
    assert!(str_isprintable("a b!"));
    assert!(!str_isprintable(""));
    assert!(!str_isprintable("a\tb"));
}

#[test]
fn isidentifier_cases() {
    assert!(str_isidentifier("_a1"));
    assert!(!str_isidentifier("1a"));
    assert!(!str_isidentifier(""));
    assert!(!str_isidentifier("a-b"));
}

#[test]
fn istitle_cases() {
    assert!(str_istitle("Hello World"));
    assert!(!str_istitle("Hello world"));
    assert!(!str_istitle("HEllo"));
    assert!(!str_istitle(""));
}

#[test]
fn isspace_cases() {
    assert!(str_isspace(" \t\n"));
    assert!(str_isspace("\u{3000}"));
    assert!(str_isspace(""));
    assert!(!str_isspace("a "));
}

#[test]
fn isascii_cases() {
    assert!(str_isascii("abc~"));
    assert!(str_isascii(""));
    assert!(!str_isascii("é"));
}

#[test]
fn isnumeric_cases() {
    assert!(str_isnumeric("½"));
    assert!(str_isnumeric("a1"));
    assert!(!str_isnumeric("abc"));
    assert!(!str_isnumeric(""));
}

#[test]
fn upper_and_casefold() {
    assert_eq!(str_upper("straße"), "STRASSE");
    assert_eq!(str_casefold("ÀB"), "àb");
}

#[test]
fn islower_isupper_cases() {
    assert!(str_islower("abc"));
    assert!(!str_islower("aBc"));
    assert!(str_islower("123"));
    assert!(str_isupper("ABC"));
    assert!(!str_isupper("ABc"));
}
