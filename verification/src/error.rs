//! The ways in which a crawl ends without completing.

use vstd::prelude::*;
use vstd::string::StringExecFns;

verus! {

/// A fatal condition: the crawl stops at once and reports no further result.
#[derive(Clone, Copy, Debug, PartialEq, Eq, Structural)]
pub enum CrawlError {
    /// The root URL, a document's base URL or a sitemap location is not an
    /// absolute URL.
    InvalidUrl,
    /// The root document's base URL names no host, so that a sitemap's
    /// locations cannot be held against it.
    MissingHost,
    /// A document could not be fetched.
    FetchFailed,
    /// A probe task could not be joined.
    TaskFailed,
    /// An event arrived that answers no outstanding request.
    UnexpectedEvent,
}

impl CrawlError {
    /// The description of the error for the user.
    pub open spec fn description(self) -> Seq<char> {
        match self {
            CrawlError::InvalidUrl => "relative or malformed URL"@,
            CrawlError::MissingHost => "the base URL has no host"@,
            CrawlError::FetchFailed => "the document could not be fetched"@,
            CrawlError::TaskFailed => "a probe task did not complete"@,
            CrawlError::UnexpectedEvent => "an event arrived that nothing had asked for"@,
        }
    }

    /// Renders the error as text.
    pub fn message(&self) -> (text: String)
        ensures
            text@ == self.description(),
    {
        match self {
            CrawlError::InvalidUrl => String::from_str("relative or malformed URL"),
            CrawlError::MissingHost => String::from_str("the base URL has no host"),
            CrawlError::FetchFailed => String::from_str("the document could not be fetched"),
            CrawlError::TaskFailed => String::from_str("a probe task did not complete"),
            CrawlError::UnexpectedEvent => String::from_str(
                "an event arrived that nothing had asked for",
            ),
        }
    }
}

} // verus!
