use staticserve::handler::{accepts_gzip, elapsed_micros, plan_request};
use staticserve::RequestPlan;

fn gzip_of_plan(accept_encoding: Option<&str>) -> bool {
    match plan_request("GET", "/file.txt", accept_encoding) {
        RequestPlan::Fetch { gzip, .. } => gzip,
        RequestPlan::NotAllowed => panic!("GET was rejected"),
    }
}

#[test]
fn bare_gzip_token_is_accepted() {
    assert!(accepts_gzip("gzip"));
}

#[test]
fn gzip_among_other_encodings_is_accepted() {
    assert!(accepts_gzip("deflate, gzip;q=0.8"));
    assert!(accepts_gzip("identity,gzip"));
    assert!(accepts_gzip("br, gzip , deflate"));
}

#[test]
fn whitespace_and_parameters_do_not_hide_the_token() {
    assert!(accepts_gzip(" gzip "));
    assert!(accepts_gzip("\tgzip;q=1.0"));
    assert!(accepts_gzip("gzip ; q=0"));
}

#[test]
fn other_tokens_are_not_gzip() {
    assert!(!accepts_gzip(""));
    assert!(!accepts_gzip("identity"));
    assert!(!accepts_gzip("gzipx"));
    assert!(!accepts_gzip("x gzip"));
    assert!(!accepts_gzip("deflate, br"));
}

#[test]
fn the_token_is_case_sensitive() {
    assert!(!accepts_gzip("GZIP"));
    assert!(!accepts_gzip("Gzip"));
}

#[test]
fn a_missing_header_never_allows_gzip() {
    assert!(!gzip_of_plan(None));
    assert!(gzip_of_plan(Some("gzip")));
    assert!(!gzip_of_plan(Some("deflate")));
}

#[test]
fn elapsed_time_is_reported_in_whole_micros() {
    assert_eq!(elapsed_micros(1_000, 3_500_999), 3_499);
    assert_eq!(elapsed_micros(500, 500), 0);
    assert_eq!(elapsed_micros(0, 999), 0);
}
