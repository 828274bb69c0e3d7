use link_checker::error::CrawlError;
use link_checker::markup::Kind;
use link_checker::page::{choose_base, find_broken_links_or_images, get_base_url, resolve_all};
use link_checker::visited::VisitedSet;

fn strings(items: &[&str]) -> Vec<String> {
    items.iter().map(|s| s.to_string()).collect()
}

#[test]
fn choose_base_prefers_the_declared_base() {
    let declared = Some("https://cdn.test/".to_string());
    let own = Some("https://x.test".to_string());
    assert_eq!(choose_base(declared.clone(), own.clone()), declared);
    assert_eq!(choose_base(declared.clone(), None), declared);
    assert_eq!(choose_base(None, own.clone()), own);
    assert_eq!(choose_base(None, None), None);
}

#[test]
fn base_is_the_document_url_up_to_its_path() {
    assert_eq!(get_base_url("https://x.test/p/q.html?k=v#f", "<p>no base</p>"), Ok("https://x.test/".to_string()));
    assert_eq!(get_base_url("http://user:pw@x.test:8080/p/", ""), Ok("http://user:pw@x.test:8080/".to_string()));
}

#[test]
fn declared_base_takes_precedence() {
    let page = r#"<head><base href="https://cdn.test/"></head><body><img src="i.png"></body>"#;
    assert_eq!(get_base_url("https://x.test/p/q.html", page), Ok("https://cdn.test/".to_string()));
    assert_eq!(get_base_url("https://elsewhere.test/", page), Ok("https://cdn.test/".to_string()));
}

#[test]
fn declared_base_keeps_its_path() {
    let page = r#"<head><base href="https://cdn.test/assets/v2/"></head>"#;
    assert_eq!(get_base_url("https://x.test/", page), Ok("https://cdn.test/assets/v2/".to_string()));
}

#[test]
fn relative_declared_base_is_fatal() {
    let page = r#"<head><base href="/assets/"></head>"#;
    assert_eq!(get_base_url("https://x.test/p", page), Err(CrawlError::InvalidUrl));
}

#[test]
fn base_of_a_document_from_no_url_is_fatal() {
    assert_eq!(get_base_url("nowhere", "<p></p>"), Err(CrawlError::InvalidUrl));
}

#[test]
fn resolve_all_drops_what_cannot_be_resolved() {
    let urls = resolve_all(
        "https://x.test/p/q",
        &strings(&["/a/b", "https://", "c.png", "https://other.test/", "#top"]),
    );
    assert_eq!(
        urls,
        strings(&[
            "https://x.test/a/b",
            "https://x.test/p/c.png",
            "https://other.test/",
            "https://x.test/p/q#top",
        ])
    );
}

#[test]
fn relative_references_resolve_against_the_declared_base() {
    let page = r#"<head><base href="https://cdn.test/"></head>
<body><a href="docs/intro">intro</a><a href="/top">top</a><img src="img/logo.png"></body>"#;
    let base = get_base_url("https://x.test/deep/page.html", page).unwrap();
    let mut viewed = VisitedSet::new();
    let links = find_broken_links_or_images(&base, page, Kind::Link, &mut viewed);
    let images = find_broken_links_or_images(&base, page, Kind::Image, &mut viewed);
    assert_eq!(links, strings(&["https://cdn.test/docs/intro", "https://cdn.test/top"]));
    assert_eq!(images, strings(&["https://cdn.test/img/logo.png"]));
}

#[test]
fn batch_holds_each_new_url_once() {
    let page = r#"<a href="/a">1</a><a href="/b">2</a><a href="https://x.test/a">3</a><a href="https://">bad</a><a href="/b#s">4</a>"#;
    let mut viewed = VisitedSet::new();
    assert!(viewed.admit_url("https://x.test/b"));
    let batch = find_broken_links_or_images("https://x.test/", page, Kind::Link, &mut viewed);
    assert_eq!(batch, strings(&["https://x.test/a", "https://x.test/b#s"]));
    assert!(viewed.contains("https://x.test/a"));
    assert!(viewed.contains("https://x.test/b#s"));
    let again = find_broken_links_or_images("https://x.test/", page, Kind::Link, &mut viewed);
    assert_eq!(again, Vec::<String>::new());
}

#[test]
fn link_and_image_to_one_url_are_checked_once() {
    let page = r#"<a href="/logo.png">logo</a><img src="/logo.png"><img src="/hero.png">"#;
    let mut viewed = VisitedSet::new();
    let links = find_broken_links_or_images("https://x.test/", page, Kind::Link, &mut viewed);
    let images = find_broken_links_or_images("https://x.test/", page, Kind::Image, &mut viewed);
    assert_eq!(links, strings(&["https://x.test/logo.png"]));
    assert_eq!(images, strings(&["https://x.test/hero.png"]));
}
