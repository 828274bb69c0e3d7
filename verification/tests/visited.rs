use link_checker::visited::{distinct_values, VisitedSet};

fn strings(items: &[&str]) -> Vec<String> {
    items.iter().map(|s| s.to_string()).collect()
}

#[test]
fn new_ledger_contains_nothing() {
    let ledger = VisitedSet::new();
    assert!(!ledger.contains("https://x.test/"));
}

#[test]
fn first_admission_is_true_then_false() {
    let mut ledger = VisitedSet::new();
    assert!(ledger.admit_url("https://x.test/a"));
    assert!(!ledger.admit_url("https://x.test/a"));
    assert!(!ledger.admit_url("https://x.test/a"));
    assert!(ledger.contains("https://x.test/a"));
}

#[test]
fn distinct_urls_are_admitted_independently() {
    let mut ledger = VisitedSet::new();
    assert!(ledger.admit_url("https://x.test/a"));
    assert!(ledger.admit_url("https://x.test/b"));
    assert!(ledger.admit_url("https://x.test/a/"));
    assert!(!ledger.admit_url("https://x.test/b"));
}

#[test]
fn admit_all_keeps_first_occurrences_in_order() {
    let mut ledger = VisitedSet::new();
    let batch = ledger.admit_all(&strings(&[
        "https://x.test/b",
        "https://x.test/a",
        "https://x.test/b",
        "https://x.test/c",
        "https://x.test/a",
    ]));
    assert_eq!(batch, strings(&["https://x.test/b", "https://x.test/a", "https://x.test/c"]));
    assert!(ledger.contains("https://x.test/a"));
    assert!(ledger.contains("https://x.test/b"));
    assert!(ledger.contains("https://x.test/c"));
}

#[test]
fn admit_all_drops_what_was_visited_before() {
    let mut ledger = VisitedSet::new();
    assert!(ledger.admit_url("https://x.test/a"));
    let batch = ledger.admit_all(&strings(&["https://x.test/a", "https://x.test/b"]));
    assert_eq!(batch, strings(&["https://x.test/b"]));
}

#[test]
fn admit_all_twice_yields_nothing_the_second_time() {
    let mut ledger = VisitedSet::new();
    let urls = strings(&["https://x.test/a", "https://x.test/b"]);
    assert_eq!(ledger.admit_all(&urls), urls);
    assert_eq!(ledger.admit_all(&urls), Vec::<String>::new());
}

#[test]
fn admit_all_of_nothing_is_nothing() {
    let mut ledger = VisitedSet::new();
    assert_eq!(ledger.admit_all(&Vec::new()), Vec::<String>::new());
    assert!(!ledger.contains(""));
}

#[test]
fn url_shared_by_link_and_image_is_admitted_once() {
    let mut ledger = VisitedSet::new();
    let links = ledger.admit_all(&strings(&["https://x.test/logo.png", "https://x.test/about"]));
    let images = ledger.admit_all(&strings(&["https://x.test/logo.png", "https://x.test/hero.png"]));
    assert_eq!(links, strings(&["https://x.test/logo.png", "https://x.test/about"]));
    assert_eq!(images, strings(&["https://x.test/hero.png"]));
}

#[test]
fn distinct_values_keeps_first_occurrences() {
    assert_eq!(distinct_values(&strings(&["b", "a", "b", "c", "a", "b"])), strings(&["b", "a", "c"]));
    assert_eq!(distinct_values(&Vec::new()), Vec::<String>::new());
}
