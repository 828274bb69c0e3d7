//! The reference check of one document: its base URL, the candidates that
//! its references resolve to, and the batch of them that is admitted for a
//! probe.

use vstd::prelude::*;
use crate::address::before_path_of_url;
use crate::address::parse;
use crate::address::resolve;
use crate::address::url_before_path;
use crate::address::url_join;
use crate::address::url_parse;
use crate::error::CrawlError;
use crate::markup::declared_base;
use crate::markup::extract_base;
use crate::markup::extract_references;
use crate::markup::raw_references;
use crate::markup::Kind;
use crate::text::lemma_optional_texts_push;
use crate::text::optional_text;
use crate::text::optional_texts;
use crate::text::present;
use crate::text::present_values;
use crate::text::texts;
use crate::visited::admitted;
use crate::visited::VisitedSet;

verus! {

/// The text that serves as a document's base: the base that the document
/// declares, if it declares one, else the document's own URL up to its path.
pub open spec fn base_text(declared: Option<Seq<char>>, own: Option<Seq<char>>) -> Option<
    Seq<char>,
> {
    match declared {
        Some(href) => Some(href),
        None => own,
    }
}

/// The base URL of the document `markup` that was fetched from `url`: its
/// base text, read as an absolute URL. `None` where there is no base text or
/// it is no absolute URL.
pub open spec fn base_url_of(url: Seq<char>, markup: Seq<char>) -> Option<Seq<char>> {
    match base_text(declared_base(markup), url_before_path(url)) {
        Some(text) => url_parse(text),
        None => None,
    }
}

/// Picks the text that serves as a document's base: a declared base takes
/// precedence over the document's own URL.
pub fn choose_base(declared: Option<String>, own: Option<String>) -> (chosen: Option<String>)
    ensures
        optional_text(chosen) == base_text(optional_text(declared), optional_text(own)),
        declared is Some ==> chosen == declared,
        declared is None ==> chosen == own,
{
    match declared {
        Some(href) => Some(href),
        None => own,
    }
}

/// Determines the base URL of a document, once, before any of its references
/// is resolved. A declared base takes precedence over the document's own
/// URL. Fails with `InvalidUrl` exactly where the base is no absolute URL.
pub fn get_base_url(url: &str, document: &str) -> (base: Result<String, CrawlError>)
    ensures
        match base {
            Ok(text) => base_url_of(url@, document@) == Some(text@),
            Err(error) => error == CrawlError::InvalidUrl && base_url_of(url@, document@) is None,
        },
{
    match choose_base(extract_base(document), before_path_of_url(url)) {
        Some(text) => parse(text.as_str()),
        None => Err(CrawlError::InvalidUrl),
    }
}

/// Base-tag precedence: where a document declares a base, its base URL is
/// that declaration read as an absolute URL, whatever URL the document was
/// fetched from.
pub proof fn lemma_declared_base_takes_precedence(
    url: Seq<char>,
    other: Seq<char>,
    markup: Seq<char>,
)
    requires
        declared_base(markup) is Some,
    ensures
        base_url_of(url, markup) == url_parse(declared_base(markup)->0),
        base_url_of(url, markup) == base_url_of(other, markup),
{
}

/// Each raw reference resolved against `base`, in order; `None` for one that
/// cannot be resolved.
pub open spec fn joined(base: Seq<char>, raws: Seq<Seq<char>>) -> Seq<Option<Seq<char>>> {
    Seq::new(raws.len(), |i: int| url_join(base, raws[i]))
}

/// The URLs that the raw references resolve to against `base`, in order;
/// references that cannot be resolved are dropped.
pub open spec fn resolved(base: Seq<char>, raws: Seq<Seq<char>>) -> Seq<Seq<char>> {
    present(joined(base, raws))
}

/// The candidate URLs of one kind in a document: its raw references of that
/// kind, resolved against `base`.
pub open spec fn candidates(base: Seq<char>, markup: Seq<char>, kind: Kind) -> Seq<Seq<char>> {
    resolved(base, raw_references(markup, kind))
}

/// Resolves every raw reference against `base` and silently drops those
/// that cannot be resolved.
pub fn resolve_all(base: &str, raws: &Vec<String>) -> (urls: Vec<String>)
    ensures
        texts(urls@) == resolved(base@, texts(raws@)),
{
    let mut outcomes: Vec<Option<String>> = Vec::new();
    let mut i: usize = 0;
    assert(optional_texts(outcomes@) =~= joined(base@, texts(raws@).take(0)));
    while i < raws.len()
        invariant
            i <= raws.len(),
            optional_texts(outcomes@) == joined(base@, texts(raws@).take(i as int)),
        decreases raws.len() - i,
    {
        let outcome = resolve(raws[i].as_str(), base);
        proof {
            lemma_optional_texts_push(outcomes@, outcome);
            assert(joined(base@, texts(raws@).take(i + 1)) =~= joined(
                base@,
                texts(raws@).take(i as int),
            ).push(url_join(base@, raws@[i as int]@)));
        }
        outcomes.push(outcome);
        i = i + 1;
    }
    assert(texts(raws@).take(raws.len() as int) =~= texts(raws@));
    present_values(&outcomes)
}

/// Finds the candidate URLs of one kind in a document: extracts the raw
/// references and resolves each against the base URL.
pub fn find_candidates(base_url: &str, document: &str, kind: Kind) -> (urls: Vec<String>)
    ensures
        texts(urls@) == candidates(base_url@, document@, kind),
{
    let raws = extract_references(document, kind);
    resolve_all(base_url, &raws)
}

/// Runs the reference check of one document for one kind of reference:
/// extracts the raw references, resolves each against the base URL, passes
/// them through admission and returns the batch that is to be probed. Every
/// candidate is recorded as visited.
pub fn find_broken_links_or_images(
    base_url: &str,
    document: &str,
    kind: Kind,
    viewed: &mut VisitedSet,
) -> (batch: Vec<String>)
    ensures
        texts(batch@) == admitted(old(viewed)@, candidates(base_url@, document@, kind)),
        final(viewed)@ == old(viewed)@.union(candidates(base_url@, document@, kind).to_set()),
{
    let urls = find_candidates(base_url, document, kind);
    viewed.admit_all(&urls)
}

} // verus!
