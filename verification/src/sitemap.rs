//! Sitemaps: the entries that a sitemap contributes to a crawl, and the
//! order in which a queue of entries is worked off.

use std::collections::VecDeque;
use vstd::prelude::*;
use crate::address::parse;
use crate::address::url_parse;
use crate::markup::extract_urls;
use crate::markup::locations;
use crate::scope::filter_urls;
use crate::scope::lemma_scoped_mentions_host;
use crate::scope::occurs_in;
use crate::scope::scoped;
use crate::text::lemma_optional_texts_push;
use crate::text::optional_text;
use crate::text::optional_texts;
use crate::text::texts;
use crate::visited::VisitedSet;

verus! {

/// Each location read as an absolute URL, in order; `None` for one that is
/// none.
pub open spec fn parsed(urls: Seq<Seq<char>>) -> Seq<Option<Seq<char>>> {
    Seq::new(urls.len(), |i: int| url_parse(urls[i]))
}

/// The entries of the sitemap `document` for a crawl scoped by the host
/// `scope`: its locations that mention the host, each read as an absolute
/// URL.
pub open spec fn entries(scope: Seq<char>, document: Seq<char>) -> Seq<Option<Seq<char>>> {
    parsed(scoped(scope, locations(document)))
}

/// Domain scoping: every entry of a sitemap stems from one of its locations
/// in which the host occurs. A location that does not mention the host
/// contributes no entry.
pub proof fn lemma_entries_in_scope(scope: Seq<char>, document: Seq<char>, i: int)
    requires
        0 <= i < entries(scope, document).len(),
    ensures
        ({
            let location = scoped(scope, locations(document))[i];
            &&& locations(document).contains(location)
            &&& occurs_in(scope, location)
            &&& entries(scope, document)[i] == url_parse(location)
        }),
{
    let kept = scoped(scope, locations(document));
    lemma_scoped_mentions_host(scope, locations(document));
    assert(kept.contains(kept[i]));
}

/// Reads each location as an absolute URL, keeping the place of those that
/// are none.
pub fn parse_all(urls: &Vec<String>) -> (queue: VecDeque<Option<String>>)
    ensures
        optional_texts(queue@) == parsed(texts(urls@)),
{
    let mut queue: VecDeque<Option<String>> = VecDeque::new();
    let mut i: usize = 0;
    assert(optional_texts(queue@) =~= parsed(texts(urls@).take(0)));
    while i < urls.len()
        invariant
            i <= urls.len(),
            optional_texts(queue@) == parsed(texts(urls@).take(i as int)),
        decreases urls.len() - i,
    {
        let entry = match parse(urls[i].as_str()) {
            Ok(url) => Some(url),
            Err(_) => None,
        };
        proof {
            lemma_optional_texts_push(queue@, entry);
            assert(parsed(texts(urls@).take(i + 1)) =~= parsed(texts(urls@).take(i as int)).push(
                url_parse(urls@[i as int]@),
            ));
        }
        queue.push_back(entry);
        i = i + 1;
    }
    assert(texts(urls@).take(urls.len() as int) =~= texts(urls@));
    queue
}

/// Reads a sitemap for a crawl scoped by the host `scope`: extracts its
/// locations, drops those out of scope and reads the others as absolute
/// URLs.
pub fn read_sitemap(document: &str, scope: &str) -> (queue: VecDeque<Option<String>>)
    ensures
        optional_texts(queue@) == entries(scope@, document@),
{
    let urls = extract_urls(document);
    let kept = filter_urls(urls, scope);
    parse_all(&kept)
}

/// A queue of entries without the entries at its front that need no work:
/// those whose URL is visited already.
pub open spec fn pending(queue: Seq<Option<Seq<char>>>, visited: Set<Seq<char>>) -> Seq<
    Option<Seq<char>>,
>
    decreases queue.len(),
{
    if queue.len() > 0 && queue[0] is Some && visited.contains(queue[0]->0) {
        pending(queue.drop_first(), visited)
    } else {
        queue
    }
}

/// What the front of a queue of entries asks for.
pub enum Next {
    /// This URL was admitted and is to be fetched.
    Fetch(String),
    /// The next entry is no absolute URL.
    Invalid,
    /// No entry is left.
    Exhausted,
}

/// Takes the next entry that needs work off the queue. Entries whose URL is
/// visited already are dropped; the first other entry is taken off and, if
/// it is a URL, admitted.
pub fn next_location(queue: &mut VecDeque<Option<String>>, visited: &mut VisitedSet) -> (next: Next)
    ensures
        ({
            let rest = pending(optional_texts(old(queue)@), old(visited)@);
            match next {
                Next::Fetch(url) => {
                    &&& rest.len() > 0
                    &&& rest[0] == Some(url@)
                    &&& optional_texts(final(queue)@) == rest.drop_first()
                    &&& final(visited)@ == old(visited)@.insert(url@)
                },
                Next::Invalid => {
                    &&& rest.len() > 0
                    &&& rest[0] is None
                    &&& optional_texts(final(queue)@) == rest.drop_first()
                    &&& final(visited)@ == old(visited)@
                },
                Next::Exhausted => {
                    &&& rest.len() == 0
                    &&& optional_texts(final(queue)@) == rest
                    &&& final(visited)@ == old(visited)@
                },
            }
        }),
{
    loop
        invariant
            visited@ == old(visited)@,
            pending(optional_texts(queue@), visited@) == pending(
                optional_texts(old(queue)@),
                old(visited)@,
            ),
        decreases queue@.len(),
    {
        let ghost before = optional_texts(queue@);
        match queue.pop_front() {
            None => {
                return Next::Exhausted;
            },
            Some(entry) => {
                assert(optional_texts(queue@) =~= before.drop_first());
                assert(before[0] == optional_text(entry));
                match entry {
                    None => {
                        return Next::Invalid;
                    },
                    Some(url) => {
                        if visited.admit_url(url.as_str()) {
                            return Next::Fetch(url);
                        }
                        assert(visited@ =~= old(visited)@);
                    },
                }
            },
        }
    }
}

} // verus!
