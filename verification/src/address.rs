//! Absolute URLs: reading them, and resolving references against a base.
//!
//! A URL is held as its canonical text, the serialization that the `url`
//! crate gives it. What that crate computes is named here and left
//! uninterpreted; the functions of this module say which of these values
//! they return.

use vstd::prelude::*;
use crate::error::CrawlError;
use crate::text::optional_text;

verus! {

/// The error of the `url` crate's parser, `url::ParseError`. It is carried
/// through as an opaque value; nothing is claimed of what it holds.
#[verifier::external_type_specification]
#[verifier::external_body]
pub struct ExParseError(url::ParseError);

/// The canonical text of the absolute URL that the `url` crate reads `input`
/// as, or `None` where it reads no absolute URL from `input`.
pub uninterp spec fn url_parse(input: Seq<char>) -> Option<Seq<char>>;

/// The canonical text of the URL that the `url` crate resolves `reference`
/// to against the URL read from `base`, or `None` where `base` is no
/// absolute URL or `reference` cannot be resolved against it.
pub uninterp spec fn url_join(base: Seq<char>, reference: Seq<char>) -> Option<Seq<char>>;

/// The host that the `url` crate finds in the URL read from `url`, or `None`
/// where `url` is no absolute URL or names no host.
pub uninterp spec fn url_host(url: Seq<char>) -> Option<Seq<char>>;

/// The part of the URL read from `url` that precedes its path (scheme,
/// credentials, host and port) as the `url` crate delimits it, or `None`
/// where `url` is no absolute URL.
pub uninterp spec fn url_before_path(url: Seq<char>) -> Option<Seq<char>>;

/// Calls `url::Url::parse` and hands back the URL's serialization
/// (`Url::as_str`). Trusted: the result is `url_parse` of the input, and an
/// error is returned exactly where `url_parse` is `None`.
#[verifier::external_body]
fn parse_url(input: &str) -> (parsed: Result<String, url::ParseError>)
    ensures
        match parsed {
            Ok(url) => url_parse(input@) == Some(url@),
            Err(_) => url_parse(input@) is None,
        },
{
    match url::Url::parse(input) {
        Ok(url) => Ok(String::from(url.as_str())),
        Err(error) => Err(error),
    }
}

/// Reads `base` with `url::Url::parse`, then calls `url::ParseOptions::parse`
/// on `reference` with that URL as the base (`Url::options().base_url(..)`),
/// and hands back the serialization of the outcome. Trusted: the result is
/// `url_join` of the two texts, and an error is returned exactly where
/// `url_join` is `None`.
#[verifier::external_body]
fn join_url(base: &str, reference: &str) -> (joined: Result<String, url::ParseError>)
    ensures
        match joined {
            Ok(url) => url_join(base@, reference@) == Some(url@),
            Err(_) => url_join(base@, reference@) is None,
        },
{
    match url::Url::parse(base) {
        Ok(base_url) => match url::Url::options().base_url(Some(&base_url)).parse(reference) {
            Ok(url) => Ok(String::from(url.as_str())),
            Err(error) => Err(error),
        },
        Err(error) => Err(error),
    }
}

/// Reads `url` with `url::Url::parse` and calls `url::Url::host_str` on it.
/// Trusted: the result is `url_host` of the text.
#[verifier::external_body]
pub(crate) fn host_of_url(url: &str) -> (host: Option<String>)
    ensures
        optional_text(host) == url_host(url@),
{
    match url::Url::parse(url) {
        Ok(parsed) => parsed.host_str().map(String::from),
        Err(_) => None,
    }
}

/// Reads `url` with `url::Url::parse` and slices it up to
/// `url::Position::BeforePath`. Trusted: the result is `url_before_path` of
/// the text.
#[verifier::external_body]
pub(crate) fn before_path_of_url(url: &str) -> (prefix: Option<String>)
    ensures
        optional_text(prefix) == url_before_path(url@),
{
    match url::Url::parse(url) {
        Ok(parsed) => Some(String::from(&parsed[..url::Position::BeforePath])),
        Err(_) => None,
    }
}

/// What a reading of a URL amounts to for the crawl: the canonical text, or
/// the fatal error for a text that is no absolute URL.
pub open spec fn accepted(parsed: Result<String, url::ParseError>) -> Result<
    Seq<char>,
    CrawlError,
> {
    match parsed {
        Ok(url) => Ok(url@),
        Err(_) => Err(CrawlError::InvalidUrl),
    }
}

/// Turns the outcome of reading a URL into the crawl's own terms: the URL is
/// kept, any parse error becomes `CrawlError::InvalidUrl`.
pub fn accept(parsed: Result<String, url::ParseError>) -> (url: Result<String, CrawlError>)
    ensures
        match url {
            Ok(text) => accepted(parsed) == Ok::<Seq<char>, CrawlError>(text@),
            Err(error) => accepted(parsed) == Err::<Seq<char>, CrawlError>(error),
        },
{
    match parsed {
        Ok(text) => Ok(text),
        Err(_) => Err(CrawlError::InvalidUrl),
    }
}

/// Reads an absolute URL and returns its canonical text. Fails with
/// `InvalidUrl` exactly where `input` is not an absolute URL.
pub fn parse(input: &str) -> (url: Result<String, CrawlError>)
    ensures
        match url {
            Ok(text) => url_parse(input@) == Some(text@),
            Err(error) => error == CrawlError::InvalidUrl && url_parse(input@) is None,
        },
{
    accept(parse_url(input))
}

/// Resolves the raw reference `raw` against the absolute URL `base`; a
/// reference that cannot be resolved is absent.
pub fn resolve(raw: &str, base: &str) -> (url: Option<String>)
    ensures
        optional_text(url) == url_join(base@, raw@),
{
    match accept(join_url(base, raw)) {
        Ok(text) => Some(text),
        Err(_) => None,
    }
}

} // verus!
