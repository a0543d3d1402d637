use rustbuster::error::FuzzError;
use rustbuster::probe::HttpProbe;
use rustbuster::probe::ProbeResponse;
use rustbuster::probe::response_from;

fn has_header(headers: &Vec<(String, String)>, name: &str) -> bool {
    headers.iter().any(|(k, _)| k == name)
}

#[test]
fn builder_error_when_no_fuzz_keyword_found() {
    match HttpProbe::builder()
        .with_url("http://localhost:9999".to_string())
        .build()
    {
        Ok(_) => panic!("not supposed to succeed"),
        Err(e) => match e {
            FuzzError::FuzzKeywordNotFound => {}
            _ => panic!("wrong error type"),
        },
    }
}

#[test]
fn http_error_when_no_fuzz_keyword_found() {
    match HttpProbe::builder()
        .with_url("http://localhost:9999".to_string())
        .build()
    {
        Ok(_) => panic!("not supposed to succeed"),
        Err(e) => match e {
            FuzzError::FuzzKeywordNotFound => {}
            _ => panic!("wrong error type"),
        },
    }
}

#[test]
fn builder_no_error_when_fuzz_keyword_found() {
    assert!(HttpProbe::builder()
        .with_url("http://FUZZ.localhost:9999".to_string())
        .build()
        .is_ok());
}

#[test]
fn http_no_error_when_fuzz_keyword_found() {
    assert!(HttpProbe::builder()
        .with_url("http://FUZZ.localhost:9999".to_string())
        .build()
        .is_ok());
}

#[test]
fn builder_no_error_when_fuzz_keyword_found_in_dir() {
    assert!(HttpProbe::builder()
        .with_url("http://localhost:9999/FUZZ".to_string())
        .build()
        .is_ok());
}

#[test]
fn http_no_error_when_fuzz_keyword_found_in_dir() {
    assert!(HttpProbe::builder()
        .with_url("http://localhost:9999/FUZZ".to_string())
        .build()
        .is_ok());
}

#[test]
fn no_error_when_fuzz_keyword_found_in_body() {
    assert!(HttpProbe::builder()
        .with_url("http://localhost:9999/fixed".to_string())
        .with_body("Hello FUZZ".to_string())
        .build()
        .is_ok());
}

#[test]
fn no_error_when_fuzz_keyword_found_in_header_value() {
    let builder = HttpProbe::builder()
        .with_url("http://localhost:9999".to_string())
        .with_headers(vec![("x-api-key".to_string(), "FUZZ".to_string())])
        .unwrap();
    assert!(builder.build().is_ok());
}

#[test]
fn http_headers_containing_fuzz_are_fuzzed_headers() {
    let builder = HttpProbe::builder()
        .with_headers(vec![
            ("user-agent".to_string(), "hello".to_string()),
            ("cookie".to_string(), "FUZZ".to_string()),
        ])
        .unwrap();

    assert!(has_header(&builder.fuzzed_headers, "cookie"));
    assert!(!has_header(&builder.fuzzed_headers, "user-agent"));
    assert!(!has_header(&builder.headers, "cookie"));
    assert!(has_header(&builder.headers, "user-agent"));
}

#[test]
fn builder_headers_containing_fuzz_are_fuzzed_headers() {
    let builder = HttpProbe::builder()
        .with_headers(vec![
            ("user-agent".to_string(), "hello".to_string()),
            ("cookie".to_string(), "FUZZ".to_string()),
        ])
        .unwrap();

    assert!(has_header(&builder.fuzzed_headers, "cookie"));
    assert!(!has_header(&builder.fuzzed_headers, "user-agent"));
    assert!(has_header(&builder.headers, "user-agent"));
    assert!(!has_header(&builder.headers, "cookie"));
}

#[test]
fn invalid_plain_header_name_is_refused_at_build_time() {
    let r = HttpProbe::builder().with_headers(vec![(
        "User Agent".to_string(),
        "hello".to_string(),
    )]);
    assert_eq!(
        r.err(),
        Some(FuzzError::HeaderNameInvalid("User Agent".to_string()))
    );
}

#[test]
fn invalid_plain_header_value_is_refused_at_build_time() {
    let r = HttpProbe::builder().with_headers(vec![(
        "x-key".to_string(),
        "bad\nvalue".to_string(),
    )]);
    assert_eq!(
        r.err(),
        Some(FuzzError::HeaderValueInvalid("bad\nvalue".to_string()))
    );
}

#[test]
fn prepare_substitutes_every_occurrence() {
    let probe = HttpProbe::builder()
        .with_url("http://host/FUZZ/again/FUZZ".to_string())
        .with_body("payload FUZZ".to_string())
        .build()
        .unwrap();

    let prep = probe.prepare("admin").unwrap();
    assert_eq!(prep.url, "http://host/admin/again/admin");
    assert_eq!(prep.body, "payload admin");
    assert_eq!(prep.method, "GET");
}

#[test]
fn prepare_substitutes_header_names_and_values() {
    let probe = HttpProbe::builder()
        .with_url("http://host/fixed".to_string())
        .with_headers(vec![("FUZZ".to_string(), "100".to_string())])
        .unwrap()
        .build()
        .unwrap();

    let prep = probe.prepare("x-replaced-word").unwrap();
    assert_eq!(
        prep.headers,
        vec![("x-replaced-word".to_string(), "100".to_string())]
    );
}

#[test]
fn prepare_refuses_invalid_substituted_header_name() {
    let probe = HttpProbe::builder()
        .with_url("http://host/fixed".to_string())
        .with_headers(vec![("FUZZ".to_string(), "100".to_string())])
        .unwrap()
        .build()
        .unwrap();

    let r = probe.prepare("not a header");
    assert_eq!(
        r.err(),
        Some(FuzzError::HeaderNameInvalid("not a header".to_string()))
    );
}

#[test]
fn display_plain_is_the_resolved_url() {
    let response = ProbeResponse::new(
        "hello".to_string(),
        "http://host/hello".to_string(),
        200,
        "hello".to_string(),
    );
    assert_eq!(response.display(false), "http://host/hello");
}

#[test]
fn display_verbose_pads_path_and_status() {
    let response = ProbeResponse::new(
        "hello".to_string(),
        "http://host/hello".to_string(),
        200,
        "hello".to_string(),
    );
    assert_eq!(
        response.display(true),
        "/hello                         (       200) [Size: 5]"
    );
}

#[test]
fn display_verbose_unparseable_url_has_empty_path() {
    let response = ProbeResponse::new(
        "w".to_string(),
        "not a url".to_string(),
        404,
        "".to_string(),
    );
    assert_eq!(
        response.display(true),
        "                               (       404) [Size: 0]"
    );
}

#[test]
fn response_from_recovers_missing_body_as_empty() {
    let r = response_from("w".to_string(), "u".to_string(), 200, None);
    assert_eq!(r.body(), "");
    assert_eq!(r.content_length(), 0);

    let r = response_from("w".to_string(), "u".to_string(), 200, Some("abc".to_string()));
    assert_eq!(r.body(), "abc");
    assert_eq!(r.content_length(), 3);
}
