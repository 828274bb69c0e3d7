//! A bounded, read-only checker for dead links and images on one site.
//!
//! The library holds the decisions of a crawl: which references a document
//! yields, how they resolve against the document's base, which of them are
//! admitted for a reachability probe, how a probe is classified, and in which
//! order documents are fetched. Fetching and probing are left to the caller,
//! who performs the actions that [`crawl::Crawl`] hands out and reports back
//! what came of them.

pub mod address;
pub mod agenda;
pub mod crawl;
pub mod error;
pub mod markup;
pub mod outcome;
pub mod page;
pub mod run;
pub mod scope;
pub mod sitemap;
pub mod text;
pub mod visited;
