use pyattrs::pattern_ops::{pattern_split, pattern_subn, MatchSpan};

fn m(start: usize, end: usize, groups: Vec<Option<&str>>) -> MatchSpan {
    MatchSpan { start, end, groups: groups.into_iter().map(|g| g.map(|s| s.to_string())).collect() }
}

fn pieces(v: Vec<Option<String>>) -> Vec<Option<String>> {
    v
}

fn s(x: &str) -> Option<String> {
    Some(x.to_string())
}

#[test]
fn subn_replaces_each_match() {
    let (out, n) = pattern_subn("a1b22c", &vec![(1, 2), (3, 5)], &vec!["#".to_string(), "@".to_string()], 0);
    assert_eq!(out, "a#b@c");
    assert_eq!(n, 2);
}

#[test]
fn subn_count_caps_replacements() {
    let (out, n) = pattern_subn("a1b22c", &vec![(1, 2), (3, 5)], &vec!["#".to_string(), "@".to_string()], 1);
    assert_eq!(out, "a#b22c");
    assert_eq!(n, 1);
}

#[test]
fn subn_skips_overlapping_match_and_handles_empty() {
    let (out, n) = pattern_subn("abc", &vec![(0, 2), (1, 3)], &vec!["X".to_string(), "Y".to_string()], 0);
    assert_eq!(out, "Xc");
    assert_eq!(n, 1);
    let (out, n) = pattern_subn("ab", &vec![(0, 0), (1, 1), (2, 2)], &vec!["-".to_string(), "-".to_string(), "-".to_string()], 0);
    assert_eq!(out, "-a-b-");
    assert_eq!(n, 3);
    let (out, n) = pattern_subn("", &vec![], &vec![], 0);
    assert_eq!(out, "");
    assert_eq!(n, 0);
}

#[test]
fn split_around_matches_with_groups() {
    let out = pattern_split("a,b;c", &vec![m(1, 2, vec![Some(",")]), m(3, 4, vec![None])], 0);
    assert_eq!(pieces(out), vec![s("a"), s(","), s("b"), None, s("c")]);
}

#[test]
fn split_maxsplit_caps_cuts() {
    let out = pattern_split("a,b,c", &vec![m(1, 2, vec![]), m(3, 4, vec![])], 1);
    assert_eq!(out, vec![s("a"), s("b,c")]);
}

#[test]
fn split_on_empty_matches() {
    let out = pattern_split("ab", &vec![m(0, 0, vec![]), m(1, 1, vec![]), m(2, 2, vec![])], 0);
    assert_eq!(out, vec![s(""), s(""), s("")]);
    let out = pattern_split("ab", &vec![m(1, 1, vec![])], 0);
    assert_eq!(out, vec![s("a"), s("b")]);
    let out = pattern_split("", &vec![m(0, 0, vec![])], 0);
    assert_eq!(out, vec![s("")]);
}

#[test]
fn split_counts_in_characters() {
    let out = pattern_split("é-ü", &vec![m(1, 2, vec![])], 0);
    assert_eq!(out, vec![s("é"), s("ü")]);
}
