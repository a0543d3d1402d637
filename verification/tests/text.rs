use rustbuster::text::contains_char;
use rustbuster::text::contains_sub;
use rustbuster::text::pad_left;
use rustbuster::text::pad_right;
use rustbuster::text::parse_bounded;
use rustbuster::text::replace_all;
use rustbuster::text::split_by;
use rustbuster::text::u64_to_string;

#[test]
fn replace_all_replaces_every_occurrence() {
    assert_eq!(replace_all("a FUZZ b FUZZ", "FUZZ", "x"), "a x b x");
    assert_eq!(replace_all("FUZZFUZZ", "FUZZ", "y"), "yy");
    assert_eq!(replace_all("no keyword", "FUZZ", "x"), "no keyword");
    assert_eq!(replace_all("http://FUZZ.host/FUZZ", "FUZZ", "w"), "http://w.host/w");
}

#[test]
fn replace_all_with_empty_replacement_deletes() {
    assert_eq!(replace_all("aXbXc", "X", ""), "abc");
}

#[test]
fn contains_sub_finds_verbatim_substrings() {
    assert!(contains_sub("this contains a strange word!", "strange word!"));
    assert!(!contains_sub("this does not", "strange word!"));
    assert!(contains_sub("anything", ""));
    assert!(!contains_sub("short", "much longer pattern"));
}

#[test]
fn contains_char_finds_single_characters() {
    assert!(contains_char("20-300", '-'));
    assert!(!contains_char("20,300", '-'));
}

#[test]
fn parse_bounded_accepts_digits_only() {
    assert_eq!(parse_bounded("30", u64::MAX), Some(30));
    assert_eq!(parse_bounded("0", u64::MAX), Some(0));
    assert_eq!(parse_bounded("007", u64::MAX), Some(7));
    assert_eq!(parse_bounded("", u64::MAX), None);
    assert_eq!(parse_bounded("ab", u64::MAX), None);
    assert_eq!(parse_bounded("1a2", u64::MAX), None);
    assert_eq!(parse_bounded("-1", u64::MAX), None);
}

#[test]
fn parse_bounded_rejects_values_over_the_bound() {
    assert_eq!(parse_bounded("4294967295", u32::MAX as u64), Some(4294967295));
    assert_eq!(parse_bounded("4294967296", u32::MAX as u64), None);
    assert_eq!(parse_bounded("99999999999999999999999", u64::MAX), None);
}

#[test]
fn split_by_keeps_empty_fields() {
    assert_eq!(split_by("a,b,,c", ','), vec!["a", "b", "", "c"]);
    assert_eq!(split_by("", ','), vec![""]);
    assert_eq!(split_by("20-300", '-'), vec!["20", "300"]);
    assert_eq!(split_by("-", '-'), vec!["", ""]);
}

#[test]
fn u64_to_string_renders_decimal() {
    assert_eq!(u64_to_string(0), "0");
    assert_eq!(u64_to_string(7), "7");
    assert_eq!(u64_to_string(404), "404");
    assert_eq!(u64_to_string(1234567890), "1234567890");
}

#[test]
fn pads_align_within_width() {
    assert_eq!(pad_right("ab", 5), "ab   ");
    assert_eq!(pad_left("ab", 5), "   ab");
    assert_eq!(pad_right("abcdef", 3), "abcdef");
    assert_eq!(pad_left("abcdef", 3), "abcdef");
}
