//! What the crawl reads from a document: attribute values of its elements
//! and the text of its sitemap locations.
//!
//! Documents are parsed by the `select` crate. What it finds in a document is
//! named here and left uninterpreted; the functions of this module say how
//! the references and locations of a document derive from these values.

use vstd::prelude::*;
use crate::text::first_present;
use crate::text::first_present_of;
use crate::text::optional_text;
use crate::text::optional_texts;
use crate::text::present;
use crate::text::present_values;
use crate::text::texts;
use crate::visited::distinct;
use crate::visited::distinct_values;

verus! {

/// For each element named `tag` that the `select` crate finds in the
/// document `markup`, in document order: the value of its attribute
/// `attribute`, or `None` where it has no such attribute.
pub uninterp spec fn markup_attributes(
    markup: Seq<char>,
    tag: Seq<char>,
    attribute: Seq<char>,
) -> Seq<Option<Seq<char>>>;

/// For each element named `tag` that the `select` crate finds in the
/// document `markup`, in document order: the text that it and its
/// descendants contain.
pub uninterp spec fn markup_texts(markup: Seq<char>, tag: Seq<char>) -> Seq<Seq<char>>;

/// Parses `markup` with `select::document::Document::from`, walks the
/// elements named `tag` with `Document::find` and the predicate `Name`, and
/// reads `Node::attr` of each. Trusted: the values are `markup_attributes` of
/// the three texts. `Document::from` copies the parsed tree by recursion on
/// its depth: a document nested deeper than the stack allows ends the
/// process, which no contract can rule out.
#[verifier::external_body]
fn element_attributes(markup: &str, tag: &str, attribute: &str) -> (values: Vec<Option<String>>)
    ensures
        optional_texts(values@) == markup_attributes(markup@, tag@, attribute@),
{
    let document = select::document::Document::from(markup);
    let mut values = Vec::new();
    for node in document.find(select::predicate::Name(tag)) {
        values.push(node.attr(attribute).map(String::from));
    }
    values
}

/// Parses `markup` with `select::document::Document::from`, walks the
/// elements named `tag` with `Document::find` and the predicate `Name`, and
/// reads `Node::text` of each. Trusted: the texts are `markup_texts` of the
/// two texts. `Node::text` recurses on depth as `Document::from` does, with
/// the same limit on nesting.
#[verifier::external_body]
fn element_texts(markup: &str, tag: &str) -> (contents: Vec<String>)
    ensures
        texts(contents@) == markup_texts(markup@, tag@),
{
    let document = select::document::Document::from(markup);
    let mut contents = Vec::new();
    for node in document.find(select::predicate::Name(tag)) {
        contents.push(node.text());
    }
    contents
}

/// The kind of reference that is checked.
#[derive(Clone, Copy, Debug, PartialEq, Eq, Structural)]
pub enum Kind {
    /// A hyperlink: the `href` of an `a` element.
    Link,
    /// An image: the `src` of an `img` element.
    Image,
}

impl Kind {
    /// The name of the elements that carry references of this kind.
    pub open spec fn tag(self) -> Seq<char> {
        match self {
            Kind::Link => "a"@,
            Kind::Image => "img"@,
        }
    }

    /// The name of the attribute that holds the reference.
    pub open spec fn attribute(self) -> Seq<char> {
        match self {
            Kind::Link => "href"@,
            Kind::Image => "src"@,
        }
    }
}

/// The raw references of one kind in a document: the distinct attribute
/// values of the elements that have the attribute, in the order in which the
/// document first mentions them.
pub open spec fn raw_references(markup: Seq<char>, kind: Kind) -> Seq<Seq<char>> {
    distinct(present(markup_attributes(markup, kind.tag(), kind.attribute())))
}

/// The base that a document declares for itself: the `href` of the first
/// `base` element that has one.
pub open spec fn declared_base(markup: Seq<char>) -> Option<Seq<char>> {
    first_present_of(markup_attributes(markup, "base"@, "href"@))
}

/// The locations that a sitemap lists, in document order and unfiltered: the
/// text of each `loc` element.
pub open spec fn locations(markup: Seq<char>) -> Seq<Seq<char>> {
    markup_texts(markup, "loc"@)
}

/// Collects the raw references of the given kind from a document, as a set:
/// a reference that the document repeats is collected once.
pub fn extract_references(document: &str, kind: Kind) -> (references: Vec<String>)
    ensures
        texts(references@) == raw_references(document@, kind),
        texts(references@).no_duplicates(),
{
    let found = match kind {
        Kind::Link => element_attributes(document, "a", "href"),
        Kind::Image => element_attributes(document, "img", "src"),
    };
    let values = present_values(&found);
    distinct_values(&values)
}

/// Finds the base that a document declares for itself, if it declares one.
pub fn extract_base(document: &str) -> (href: Option<String>)
    ensures
        optional_text(href) == declared_base(document@),
{
    let found = element_attributes(document, "base", "href");
    first_present(&found)
}

/// Reads every location of a sitemap, in document order, without filtering.
pub fn extract_urls(document: &str) -> (urls: Vec<String>)
    ensures
        texts(urls@) == locations(document@),
{
    element_texts(document, "loc")
}

} // verus!
