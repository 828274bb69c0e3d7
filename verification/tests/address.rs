use link_checker::address::{accept, parse, resolve};
use link_checker::error::CrawlError;

#[test]
fn parse_returns_the_canonical_text() {
    assert_eq!(parse("https://x.test"), Ok("https://x.test/".to_string()));
    assert_eq!(parse("HTTPS://X.test/a/../b"), Ok("https://x.test/b".to_string()));
    assert_eq!(parse("  https://x.test/p?q=1#f\n"), Ok("https://x.test/p?q=1#f".to_string()));
}

#[test]
fn parse_rejects_a_relative_reference() {
    assert_eq!(parse("/a/b"), Err(CrawlError::InvalidUrl));
    assert_eq!(parse("c.png"), Err(CrawlError::InvalidUrl));
    assert_eq!(parse(""), Err(CrawlError::InvalidUrl));
}

#[test]
fn parse_rejects_a_malformed_url() {
    assert_eq!(parse("https://"), Err(CrawlError::InvalidUrl));
    assert_eq!(parse("https://x.test:99999/"), Err(CrawlError::InvalidUrl));
}

#[test]
fn accept_keeps_the_url_and_maps_the_error() {
    assert_eq!(accept(Ok("https://x.test/".to_string())), Ok("https://x.test/".to_string()));
    let failure = url::Url::parse("nowhere").map(String::from);
    assert!(failure.is_err());
    assert_eq!(accept(failure), Err(CrawlError::InvalidUrl));
}

#[test]
fn resolve_path_absolute_reference() {
    assert_eq!(resolve("/a/b", "https://x.test/p/q"), Some("https://x.test/a/b".to_string()));
}

#[test]
fn resolve_path_relative_reference() {
    assert_eq!(resolve("c.png", "https://x.test/p/q"), Some("https://x.test/p/c.png".to_string()));
}

#[test]
fn resolve_absolute_reference_ignores_the_base() {
    let reference = "https://other.test/z?k=v";
    assert_eq!(resolve(reference, "https://x.test/p/q"), Some(reference.to_string()));
    assert_eq!(resolve(reference, "http://y.test/"), Some(reference.to_string()));
    assert_eq!(resolve("http://x.test/", "https://x.test/p/q"), Some("http://x.test/".to_string()));
}

#[test]
fn resolve_scheme_relative_reference() {
    assert_eq!(resolve("//cdn.test/i.png", "https://x.test/p/q"), Some("https://cdn.test/i.png".to_string()));
}

#[test]
fn resolve_fragment_only_reference() {
    assert_eq!(resolve("#top", "https://x.test/p/q?k=v"), Some("https://x.test/p/q?k=v#top".to_string()));
}

#[test]
fn resolve_parent_directory_reference() {
    assert_eq!(resolve("../r", "https://x.test/p/q/s"), Some("https://x.test/p/r".to_string()));
}

#[test]
fn resolve_drops_a_malformed_reference() {
    assert_eq!(resolve("https://", "https://x.test/p/q"), None);
    assert_eq!(resolve("http://[::1", "https://x.test/p/q"), None);
}

#[test]
fn resolve_against_a_base_that_is_no_url_is_absent() {
    assert_eq!(resolve("c.png", "not a url"), None);
}

#[test]
fn resolve_against_a_base_that_cannot_be_a_base_is_absent() {
    assert_eq!(resolve("c.png", "mailto:someone@x.test"), None);
}
