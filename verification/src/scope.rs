//! The domain scope of a sitemap crawl: only locations that mention the
//! crawl's own host are followed.

use vstd::prelude::*;
use crate::address::host_of_url;
use crate::address::url_host;
use crate::error::CrawlError;
use crate::text::lemma_texts_push;
use crate::text::texts;

verus! {

/// Whether `needle` occurs in `haystack` as a run of consecutive characters.
pub open spec fn occurs_in(needle: Seq<char>, haystack: Seq<char>) -> bool {
    exists|start: int|
        0 <= start && start + needle.len() <= haystack.len() && #[trigger] haystack.subrange(
            start,
            start + needle.len(),
        ) == needle
}

/// The locations that are in scope of `host`, in order: those in which the
/// host occurs.
pub open spec fn scoped(host: Seq<char>, urls: Seq<Seq<char>>) -> Seq<Seq<char>>
    decreases urls.len(),
{
    if urls.len() == 0 {
        Seq::empty()
    } else if occurs_in(host, urls.last()) {
        scoped(host, urls.drop_last()).push(urls.last())
    } else {
        scoped(host, urls.drop_last())
    }
}

/// Calls `str::contains` of the standard library with a string pattern.
/// Trusted: it returns `true` exactly when the pattern occurs in the string
/// as a sub-slice, as its documentation says.
#[verifier::external_body]
fn contains_text(haystack: &str, needle: &str) -> (found: bool)
    ensures
        found == occurs_in(needle@, haystack@),
{
    haystack.contains(needle)
}

/// Whether the location `url` is in scope of `host`: whether it mentions the
/// host anywhere in its text.
pub fn in_scope(url: &str, host: &str) -> (inside: bool)
    ensures
        inside == occurs_in(host@, url@),
{
    contains_text(url, host)
}

/// Keeps the locations in which `host` occurs, in order, and drops the rest.
pub fn filter_urls(urls: Vec<String>, host: &str) -> (kept: Vec<String>)
    ensures
        texts(kept@) == scoped(host@, texts(urls@)),
{
    let mut kept: Vec<String> = Vec::new();
    let mut i: usize = 0;
    assert(texts(urls@).take(0) =~= Seq::<Seq<char>>::empty());
    assert(texts(kept@) =~= Seq::<Seq<char>>::empty());
    while i < urls.len()
        invariant
            i <= urls.len(),
            texts(kept@) == scoped(host@, texts(urls@).take(i as int)),
        decreases urls.len() - i,
    {
        proof {
            let next = texts(urls@).take(i + 1);
            assert(next.drop_last() =~= texts(urls@).take(i as int));
            assert(next.last() == urls@[i as int]@);
        }
        if in_scope(urls[i].as_str(), host) {
            proof {
                lemma_texts_push(kept@, urls@[i as int]);
            }
            kept.push(urls[i].clone());
        }
        i = i + 1;
    }
    assert(texts(urls@).take(urls.len() as int) =~= texts(urls@));
    kept
}

/// The host by which a crawl that starts from the base URL `base` is scoped,
/// or the error for a base that names none.
pub open spec fn scope_for(base: Seq<char>) -> Result<Seq<char>, CrawlError> {
    match url_host(base) {
        Some(host) => Ok(host),
        None => Err(CrawlError::MissingHost),
    }
}

/// Determines the host that scopes a sitemap crawl from its base URL. Fails
/// with `MissingHost` exactly where the base URL names no host.
pub fn scope_of(base: &str) -> (scope: Result<String, CrawlError>)
    ensures
        match scope {
            Ok(host) => scope_for(base@) == Ok::<Seq<char>, CrawlError>(host@),
            Err(error) => scope_for(base@) == Err::<Seq<char>, CrawlError>(error),
        },
{
    match host_of_url(base) {
        Some(host) => Ok(host),
        None => Err(CrawlError::MissingHost),
    }
}

/// A location is followed only if the host occurs in it: every location that
/// the filter keeps mentions the host and is one of the given locations, and
/// every given location that mentions the host is kept.
pub proof fn lemma_scoped_mentions_host(host: Seq<char>, urls: Seq<Seq<char>>)
    ensures
        forall|url: Seq<char>|
            scoped(host, urls).contains(url) <==> (urls.contains(url) && occurs_in(host, url)),
    decreases urls.len(),
{
    let kept = scoped(host, urls);
    if urls.len() > 0 {
        let earlier = urls.drop_last();
        let last = urls.last();
        let rest = scoped(host, earlier);
        lemma_scoped_mentions_host(host, earlier);
        assert forall|url: Seq<char>| urls.contains(url) <==> (earlier.contains(url) || url
            == last) by {
            if urls.contains(url) {
                let k = choose|k: int| 0 <= k < urls.len() && urls[k] == url;
                if k < earlier.len() {
                    assert(earlier[k] == url);
                }
            }
            if earlier.contains(url) {
                let k = choose|k: int| 0 <= k < earlier.len() && earlier[k] == url;
                assert(urls[k] == url);
            }
            if url == last {
                assert(urls[urls.len() - 1] == url);
            }
        }
        if occurs_in(host, last) {
            assert forall|url: Seq<char>| kept.contains(url) <==> (rest.contains(url) || url
                == last) by {
                if kept.contains(url) {
                    let k = choose|k: int| 0 <= k < kept.len() && kept[k] == url;
                    if k < rest.len() {
                        assert(rest[k] == url);
                    }
                }
                if rest.contains(url) {
                    let k = choose|k: int| 0 <= k < rest.len() && rest[k] == url;
                    assert(kept[k] == url);
                }
                if url == last {
                    assert(kept[kept.len() - 1] == url);
                }
            }
        }
    }
}

} // verus!
