use rustbuster::filters::FilterBody;
use rustbuster::filters::FilterContentLength;
use rustbuster::filters::ProbeResponseFilters;
use rustbuster::probe::ProbeResponse;

#[test]
fn filter_none_matches_returns_response() {
    let filters = ProbeResponseFilters::new(
        vec![404],
        FilterContentLength::Empty,
        FilterBody::Empty,
    );

    let response = ProbeResponse::new(
        String::default(),
        "url".to_string(),
        200,
        "hello".to_string(),
    );

    match filters.filter(response) {
        None => panic!("expected response"),
        Some(r) => {
            assert_eq!(r.status_code(), 200);
            assert_eq!(r.body().len(), 5);
        }
    }
}

#[test]
fn filter_ignores_status_codes() {
    let filters = ProbeResponseFilters::new(
        vec![404],
        FilterContentLength::Empty,
        FilterBody::Empty,
    );

    let response = ProbeResponse::new(
        String::default(),
        "url".to_string(),
        404,
        "".to_string(),
    );

    assert_eq!(filters.filter(response), None);
}

#[test]
fn filter_ignores_content_length() {
    let filters = ProbeResponseFilters::new(
        Vec::new(),
        FilterContentLength::Separate(vec![35usize]),
        FilterBody::Empty,
    );

    let response = ProbeResponse::new(
        String::default(),
        "url".to_string(),
        404,
        "qwertyuioplkjhgfdsazxcvbnmlkpoiujyh".to_string(),
    );

    assert_eq!(filters.filter(response), None);
}

#[test]
fn filter_body_contains_is_ignored() {
    let filters = ProbeResponseFilters::new(
        Vec::new(),
        FilterContentLength::Empty,
        FilterBody::Text("strange word!".to_string()),
    );

    let response = ProbeResponse::new(
        String::default(),
        "url".to_string(),
        404,
        "this contains a strange word!".to_string(),
    );

    assert_eq!(filters.filter(response), None);
}

#[test]
fn filter_body_from_empty_is_empty() {
    assert_eq!(FilterBody::from(""), FilterBody::Empty);
    assert_eq!(
        FilterBody::from("needle"),
        FilterBody::Text("needle".to_string())
    );
}

#[test]
fn filter_body_matches_substring_verbatim() {
    let filter = FilterBody::from("strange word!");
    assert!(filter.matches("this contains a strange word!"));
    assert!(!filter.matches("this contains a Strange Word!"));
    assert!(!FilterBody::Empty.matches("anything"));
}

#[test]
fn filter_keeps_response_with_other_status() {
    let filters = ProbeResponseFilters::new(
        vec![404],
        FilterContentLength::Empty,
        FilterBody::Empty,
    );
    let response = ProbeResponse::new(
        "word".to_string(),
        "url".to_string(),
        200,
        "body".to_string(),
    );
    assert!(filters.filter(response).is_some());
}
