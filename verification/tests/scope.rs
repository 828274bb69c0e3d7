use link_checker::error::CrawlError;
use link_checker::scope::{filter_urls, in_scope, scope_of};

fn strings(items: &[&str]) -> Vec<String> {
    items.iter().map(|s| s.to_string()).collect()
}

#[test]
fn location_with_the_host_is_in_scope() {
    assert!(in_scope("https://x.test/page", "x.test"));
    assert!(in_scope("x.test", "x.test"));
}

#[test]
fn location_without_the_host_is_out_of_scope() {
    assert!(!in_scope("https://y.test/page", "x.test"));
    assert!(!in_scope("x.tes", "x.test"));
    assert!(!in_scope("", "x.test"));
}

#[test]
fn scope_is_a_substring_match() {
    assert!(in_scope("https://notx.test/page", "x.test"));
    assert!(in_scope("https://y.test/?from=x.test", "x.test"));
}

#[test]
fn filter_keeps_in_scope_locations_in_order() {
    let kept = filter_urls(
        strings(&["https://x.test/a", "https://y.test/b", "https://x.test/c", "https://x.test/a"]),
        "x.test",
    );
    assert_eq!(kept, strings(&["https://x.test/a", "https://x.test/c", "https://x.test/a"]));
}

#[test]
fn filter_of_nothing_is_nothing() {
    assert_eq!(filter_urls(Vec::new(), "x.test"), Vec::<String>::new());
}

#[test]
fn filter_can_drop_everything() {
    assert_eq!(filter_urls(strings(&["https://y.test/", "https://z.test/"]), "x.test"), Vec::<String>::new());
}

#[test]
fn scope_of_a_url_is_its_host() {
    assert_eq!(scope_of("https://x.test/"), Ok("x.test".to_string()));
    assert_eq!(scope_of("https://user@Sub.X.test:8080/p"), Ok("sub.x.test".to_string()));
    assert_eq!(scope_of("http://127.0.0.1/"), Ok("127.0.0.1".to_string()));
}

#[test]
fn scope_of_a_hostless_url_is_missing() {
    assert_eq!(scope_of("mailto:someone@x.test"), Err(CrawlError::MissingHost));
    assert_eq!(scope_of("data:text/plain,hi"), Err(CrawlError::MissingHost));
}
