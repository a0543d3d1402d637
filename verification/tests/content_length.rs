use rustbuster::error::FuzzError;
use rustbuster::filters::FilterContentLength;

#[test]
fn content_length_exclude_lengths_from_str_separate() {
    let exclude_lengths = FilterContentLength::from("30,12");
    assert_eq!(exclude_lengths, Ok(FilterContentLength::Separate(vec![30, 12])));
}

#[test]
fn content_length_exclude_lengths_from_str_separate_ignores_other() {
    let exclude_lengths = FilterContentLength::from("20,2,ab");
    assert_eq!(exclude_lengths, Ok(FilterContentLength::Separate(vec![20, 2])));
}

#[test]
fn content_length_exclude_lengths_from_str_range() {
    let exclude_lengths = FilterContentLength::from("20-300");
    assert_eq!(exclude_lengths, Ok(FilterContentLength::Range(20, 300)));
}

#[test]
fn content_length_exclude_lengths_from_str_err_range_is_refused() {
    let exclude_lengths = FilterContentLength::from("300-20");
    assert_eq!(exclude_lengths, Err(FuzzError::InvalidRange));
}

#[test]
fn content_length_matches_empty() {
    assert!(!FilterContentLength::Empty.matches(4))
}

#[test]
fn content_length_matches_separate() {
    assert!(FilterContentLength::Separate(vec![200, 40, 404]).matches(404));
    assert!(!FilterContentLength::Separate(vec![200, 40, 404]).matches(500));
}

#[test]
fn content_length_matches_range_inclusive() {
    assert!(!FilterContentLength::Range(200, 404).matches(500));
    assert!(FilterContentLength::Range(200, 500).matches(500));
}

#[test]
fn content_length_range_is_inclusive_at_the_top_only() {
    assert!(FilterContentLength::Range(200, 500).matches(500));
    assert!(!FilterContentLength::Range(200, 500).matches(501));
}
