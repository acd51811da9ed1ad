use staticserve::error::Error;
use staticserve::handler::plan_request;
use staticserve::paths::{finalize_path, StaticServer};
use staticserve::response::{complete_read, method_not_allowed_response};
use std::io::Read;

fn segments_for(path: &str) -> Vec<String> {
    match plan_request("GET", path, None) {
        staticserve::RequestPlan::Fetch { segments, .. } => segments,
        staticserve::RequestPlan::NotAllowed => panic!("GET was rejected"),
    }
}

#[test]
fn traversal_stays_below_root() {
    let server = StaticServer::new("/srv/public");
    let segments = segments_for("/../../etc/passwd");
    let canonical = server.canonicalize(&segments);
    let rendered = server.render(&canonical);
    assert_eq!(rendered, "/srv/public/etc/passwd");
    let target = server.render(&finalize_path(canonical, false));
    assert_eq!(target, "/srv/public/etc/passwd.html");
    assert!(target.starts_with("/srv/public/"));
}

#[test]
fn many_dotdots_resolve_to_root() {
    let server = StaticServer::new("/srv/public");
    let segments = segments_for("/../../../../..");
    let canonical = server.canonicalize(&segments);
    assert_eq!(server.render(&canonical), "/srv/public");
}

#[test]
fn directory_is_served_through_index_html() {
    let server = StaticServer::new("/srv/public");
    let canonical = server.canonicalize(&segments_for("/docs"));
    let target = server.render(&finalize_path(canonical, true));
    assert_eq!(target, "/srv/public/docs/index.html");
}

#[test]
fn empty_path_serves_root_index() {
    let server = StaticServer::new("/srv/public");
    let canonical = server.canonicalize(&segments_for("/"));
    let target = server.render(&finalize_path(canonical, true));
    assert_eq!(target, "/srv/public/index.html");
}

#[test]
fn extensionless_file_gains_html_suffix() {
    let server = StaticServer::new("/srv/public");
    let canonical = server.canonicalize(&segments_for("/about"));
    let target = server.render(&finalize_path(canonical, false));
    assert_eq!(target, "/srv/public/about.html");
}

#[test]
fn file_with_extension_is_untouched() {
    let server = StaticServer::new("/srv/public");
    let canonical = server.canonicalize(&segments_for("/img/logo.png"));
    let target = server.render(&finalize_path(canonical, false));
    assert_eq!(target, "/srv/public/img/logo.png");
}

#[test]
fn dot_segments_are_skipped() {
    let server = StaticServer::new("/srv/public");
    let canonical = server.canonicalize(&segments_for("/a/./b/../c"));
    assert_eq!(server.render(&canonical), "/srv/public/a/c");
}

#[test]
fn relative_root_renders_relative_paths() {
    let server = StaticServer::new("public");
    let canonical = server.canonicalize(&segments_for("/style.css"));
    assert_eq!(server.render(&canonical), "public/style.css");
}

#[test]
fn non_get_method_is_rejected_whatever_the_path() {
    assert!(matches!(
        plan_request("POST", "/index.html", Some("gzip")),
        staticserve::RequestPlan::NotAllowed
    ));
    assert!(matches!(
        plan_request("PUT", "/../../etc/passwd", None),
        staticserve::RequestPlan::NotAllowed
    ));
    let resp = method_not_allowed_response();
    assert_eq!(resp.status, 405);
    assert_eq!(resp.content_length, 0);
    assert!(resp.body.is_empty());
    assert!(resp.content_type.is_none());
    assert!(!resp.gzip);
}

#[test]
fn large_file_with_gzip_accepted_is_compressed() {
    let data: Vec<u8> = (0..2000u32).map(|i| (i % 251) as u8).collect();
    let ctype = staticserve::content_type::content_type("notes.txt");
    let resp = complete_read(Ok(data.clone()), true, ctype).unwrap();
    assert_eq!(resp.status, 200);
    assert!(resp.gzip);
    assert_eq!(resp.content_type.as_deref(), Some("text/plain"));
    assert_eq!(resp.content_length, resp.body.len() as u64);
    assert_ne!(resp.body, data);
    let mut decoder = flate2::read::GzDecoder::new(&resp.body[..]);
    let mut restored = Vec::new();
    decoder.read_to_end(&mut restored).unwrap();
    assert_eq!(restored, data);
}

#[test]
fn small_file_is_never_compressed() {
    let data: Vec<u8> = vec![7u8; 1024];
    let resp = complete_read(Ok(data.clone()), true, None).unwrap();
    assert_eq!(resp.status, 200);
    assert!(!resp.gzip);
    assert_eq!(resp.body, data);
    assert_eq!(resp.content_length, 1024);
}

#[test]
fn large_file_without_gzip_accepted_round_trips() {
    let data: Vec<u8> = (0..5000u32).map(|i| (i % 13) as u8).collect();
    let resp = complete_read(Ok(data.clone()), false, None).unwrap();
    assert_eq!(resp.status, 200);
    assert!(!resp.gzip);
    assert_eq!(resp.body, data);
    assert_eq!(resp.content_length, 5000);
}

#[test]
fn missing_file_becomes_404() {
    let read: Result<Vec<u8>, Error> = Err(Error::from_io(true, String::from("gone")));
    let resp = complete_read(read, true, None).unwrap();
    assert_eq!(resp.status, 404);
    assert!(resp.body.is_empty());
    assert_eq!(resp.content_length, 0);
}

#[test]
fn other_io_failure_becomes_500_with_empty_body() {
    let read: Result<Vec<u8>, Error> = Err(Error::from_io(false, String::from("disk on fire")));
    let resp = complete_read(read, false, None).unwrap();
    assert_eq!(resp.status, 500);
    assert!(resp.body.is_empty());
    assert_eq!(resp.content_length, 0);
}

#[test]
fn transport_failure_is_propagated() {
    let read: Result<Vec<u8>, Error> = Err(Error::Transport(String::from("peer hung up")));
    let out = complete_read(read, false, None);
    match out {
        Err(Error::Transport(m)) => assert_eq!(m, "peer hung up"),
        _ => panic!("a transport failure must pass through untranslated"),
    }
}
