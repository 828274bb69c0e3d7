use link_checker::error::CrawlError;

#[test]
fn every_error_has_its_own_message() {
    let errors = [
        CrawlError::InvalidUrl,
        CrawlError::MissingHost,
        CrawlError::FetchFailed,
        CrawlError::TaskFailed,
        CrawlError::UnexpectedEvent,
    ];
    for (i, a) in errors.iter().enumerate() {
        assert!(!a.message().is_empty());
        for b in errors.iter().skip(i + 1) {
            assert_ne!(a.message(), b.message());
        }
    }
}

#[test]
fn invalid_url_message() {
    assert_eq!(CrawlError::InvalidUrl.message(), "relative or malformed URL");
}
