use chunk_encoder::commands::build_batch_contents;
use chunk_encoder::text::{replace_all, usize_to_decimal};

#[test]
fn replace_all_replaces_every_occurrence() {
    assert_eq!(replace_all("a{x}b{x}c", "{x}", "Q"), "aQbQc");
}

#[test]
fn replace_all_scans_left_to_right_without_overlap() {
    assert_eq!(replace_all("aaa", "aa", "B"), "Ba");
    assert_eq!(replace_all("aaaa", "aa", "B"), "BB");
}

#[test]
fn replace_all_without_occurrence_keeps_text() {
    assert_eq!(replace_all("no placeholder here", "{x}", "Q"), "no placeholder here");
    assert_eq!(replace_all("", "{x}", "Q"), "");
}

#[test]
fn replace_all_handles_non_ascii_text() {
    assert_eq!(replace_all("é{x}ü", "{x}", "ß"), "éßü");
}

#[test]
fn replace_all_agrees_with_str_replace() {
    let cases = [
        ("{tmp_dir}\\split-1-2.bat", "{tmp_dir}", "tmp"),
        ("x.y4m.y4m", ".y4m", ".ivf"),
        ("abcabcab", "abc", ""),
        ("{a}{a}{a}", "{a}", "{a}{a}"),
    ];
    for (s, p, r) in cases.iter() {
        assert_eq!(replace_all(s, p, r), s.replace(p, r));
    }
}

#[test]
fn decimal_formatting_matches_display() {
    assert_eq!(usize_to_decimal(0), "0");
    assert_eq!(usize_to_decimal(7), "7");
    assert_eq!(usize_to_decimal(10), "10");
    assert_eq!(usize_to_decimal(1234567), "1234567");
    assert_eq!(usize_to_decimal(usize::MAX), usize::MAX.to_string());
}

#[test]
fn batch_contents_fill_placeholders_in_order() {
    let args = vec![("a", String::from("1")), ("b", String::from("2"))];
    assert_eq!(build_batch_contents("{a} and {b} and {a}", args), "@echo off\n1 and 2 and 1\nexit");
}

#[test]
fn batch_contents_later_arguments_see_earlier_values() {
    let args = vec![("a", String::from("{b}")), ("b", String::from("x"))];
    assert_eq!(build_batch_contents("{a}", args), "@echo off\nx\nexit");
}

#[test]
fn batch_contents_without_arguments() {
    assert_eq!(build_batch_contents("run {it}", Vec::new()), "@echo off\nrun {it}\nexit");
}
