//! The ledger of URLs that a crawl has already admitted.
//!
//! A URL is admitted at most once in the lifetime of a ledger; only admitted
//! URLs are handed out for a probe or a fetch.

use vstd::hash_map::StringHashMap;
use vstd::prelude::*;
use crate::text::lemma_texts_push;
use crate::text::texts;

verus! {

/// Canonical URL strings seen so far, each with its "seen" marker.
pub struct VisitedSet {
    seen: StringHashMap<bool>,
}

impl View for VisitedSet {
    type V = Set<Seq<char>>;

    /// The set of URLs admitted so far.
    closed spec fn view(&self) -> Set<Seq<char>> {
        self.seen@.dom()
    }
}

/// The candidates that pass admission against `visited`, in their order:
/// of each URL that is not yet visited, its first occurrence.
pub open spec fn admitted(visited: Set<Seq<char>>, candidates: Seq<Seq<char>>) -> Seq<Seq<char>>
    decreases candidates.len(),
{
    if candidates.len() == 0 {
        Seq::empty()
    } else {
        let earlier = candidates.drop_last();
        let url = candidates.last();
        if visited.contains(url) || earlier.contains(url) {
            admitted(visited, earlier)
        } else {
            admitted(visited, earlier).push(url)
        }
    }
}

/// Admission lets every URL through at most once: the admitted URLs are
/// pairwise distinct, none of them was visited before, each of them is one of
/// the candidates, and every candidate that was not visited before is among
/// them.
pub proof fn lemma_admitted_once(visited: Set<Seq<char>>, candidates: Seq<Seq<char>>)
    ensures
        admitted(visited, candidates).no_duplicates(),
        forall|url: Seq<char>|
            admitted(visited, candidates).contains(url) <==> (candidates.contains(url)
                && !visited.contains(url)),
    decreases candidates.len(),
{
    let batch = admitted(visited, candidates);
    if candidates.len() == 0 {
    } else {
        let earlier = candidates.drop_last();
        let last = candidates.last();
        let rest = admitted(visited, earlier);
        lemma_admitted_once(visited, earlier);
        assert forall|url: Seq<char>| candidates.contains(url) <==> (earlier.contains(url) || url
            == last) by {
            if candidates.contains(url) {
                let k = choose|k: int| 0 <= k < candidates.len() && candidates[k] == url;
                if k < earlier.len() {
                    assert(earlier[k] == url);
                }
            }
            if earlier.contains(url) {
                let k = choose|k: int| 0 <= k < earlier.len() && earlier[k] == url;
                assert(candidates[k] == url);
            }
            if url == last {
                assert(candidates[candidates.len() - 1] == url);
            }
        }
        if visited.contains(last) || earlier.contains(last) {
            assert(batch == rest);
        } else {
            assert(batch == rest.push(last));
            assert(!rest.contains(last));
            assert forall|url: Seq<char>| batch.contains(url) <==> (rest.contains(url) || url
                == last) by {
                if batch.contains(url) {
                    let k = choose|k: int| 0 <= k < batch.len() && batch[k] == url;
                    if k < rest.len() {
                        assert(rest[k] == url);
                    }
                }
                if rest.contains(url) {
                    let k = choose|k: int| 0 <= k < rest.len() && rest[k] == url;
                    assert(batch[k] == url);
                }
                if url == last {
                    assert(batch[batch.len() - 1] == url);
                }
            }
            assert forall|i: int, j: int| 0 <= i < batch.len() && 0 <= j < batch.len() && i
                != j implies batch[i] != batch[j] by {
                if i < rest.len() && j < rest.len() {
                    assert(rest[i] != rest[j]);
                } else if i < rest.len() {
                    assert(rest.contains(rest[i]));
                } else {
                    assert(rest.contains(rest[j]));
                }
            }
        }
    }
}

/// Admitting a second time lets nothing through: once the candidates have
/// been recorded, the same candidates (or any part of them) yield an empty
/// batch.
pub proof fn lemma_admitted_again_is_empty(visited: Set<Seq<char>>, candidates: Seq<Seq<char>>)
    requires
        forall|i: int| 0 <= i < candidates.len() ==> visited.contains(#[trigger] candidates[i]),
    ensures
        admitted(visited, candidates) == Seq::<Seq<char>>::empty(),
    decreases candidates.len(),
{
    if candidates.len() > 0 {
        let earlier = candidates.drop_last();
        assert forall|i: int| 0 <= i < earlier.len() implies visited.contains(
            #[trigger] earlier[i],
        ) by {
            assert(earlier[i] == candidates[i]);
        }
        lemma_admitted_again_is_empty(visited, earlier);
        assert(visited.contains(candidates[candidates.len() - 1]));
    }
}

/// The distinct items of a list, in the order of their first occurrence.
pub open spec fn distinct(items: Seq<Seq<char>>) -> Seq<Seq<char>> {
    admitted(Set::empty(), items)
}

/// The distinct items of a list are pairwise distinct and are the items of
/// the list.
pub proof fn lemma_distinct_is_a_set(items: Seq<Seq<char>>)
    ensures
        distinct(items).no_duplicates(),
        distinct(items).to_set() == items.to_set(),
{
    lemma_admitted_once(Set::empty(), items);
    assert forall|item: Seq<char>| distinct(items).to_set().contains(item)
        <==> items.to_set().contains(item) by {
        assert(distinct(items).contains(item) <==> items.contains(item));
    }
    assert(distinct(items).to_set() =~= items.to_set());
}

/// Drops every repetition of an item, keeping first occurrences in order.
pub fn distinct_values(items: &Vec<String>) -> (kept: Vec<String>)
    ensures
        texts(kept@) == distinct(texts(items@)),
        texts(kept@).no_duplicates(),
{
    let mut seen = VisitedSet::new();
    proof {
        lemma_distinct_is_a_set(texts(items@));
    }
    seen.admit_all(items)
}

impl VisitedSet {
    /// An empty ledger, as at the start of a crawl.
    pub fn new() -> (ledger: VisitedSet)
        ensures
            ledger@ == Set::<Seq<char>>::empty(),
    {
        VisitedSet { seen: StringHashMap::new() }
    }

    /// Whether `url` has been admitted before.
    pub fn contains(&self, url: &str) -> (seen: bool)
        ensures
            seen == self@.contains(url@),
    {
        self.seen.contains_key(url)
    }

    /// Admits `url` if it is new: returns `true` and records it the first
    /// time it is asked about, `false` ever after. Test and record are one
    /// operation on the exclusively borrowed ledger.
    pub fn admit_url(&mut self, url: &str) -> (fresh: bool)
        ensures
            fresh == !old(self)@.contains(url@),
            final(self)@ == old(self)@.insert(url@),
    {
        if self.seen.contains_key(url) {
            assert(old(self)@.insert(url@) =~= old(self)@);
            false
        } else {
            self.seen.insert(url.to_owned(), true);
            assert(self@ =~= old(self)@.insert(url@));
            true
        }
    }

    /// Passes the candidates through admission, in order, and returns those
    /// that were admitted: the batch that is still to be probed.
    pub fn admit_all(&mut self, candidates: &Vec<String>) -> (batch: Vec<String>)
        ensures
            texts(batch@) == admitted(old(self)@, texts(candidates@)),
            final(self)@ == old(self)@.union(texts(candidates@).to_set()),
    {
        let mut batch: Vec<String> = Vec::new();
        let mut i: usize = 0;
        assert(texts(candidates@).take(0) =~= Seq::<Seq<char>>::empty());
        assert(self@ =~= old(self)@.union(Seq::<Seq<char>>::empty().to_set()));
        assert(texts(batch@) =~= Seq::<Seq<char>>::empty());
        while i < candidates.len()
            invariant
                i <= candidates.len(),
                texts(batch@) == admitted(old(self)@, texts(candidates@).take(i as int)),
                self@ == old(self)@.union(texts(candidates@).take(i as int).to_set()),
            decreases candidates.len() - i,
        {
            let ghost seen_before = texts(candidates@).take(i as int);
            let ghost seen_after = texts(candidates@).take(i + 1);
            let ghost url = candidates@[i as int]@;
            assert(seen_after.drop_last() =~= seen_before);
            assert(seen_after.last() == url);
            assert(seen_after.to_set() =~= seen_before.to_set().insert(url)) by {
                assert forall|u: Seq<char>| seen_after.to_set().contains(u) implies seen_before.to_set()
                    .insert(url).contains(u) by {
                    let k = choose|k: int| 0 <= k < seen_after.len() && seen_after[k] == u;
                    if k < i {
                        assert(seen_before[k] == u);
                    }
                }
                assert forall|u: Seq<char>| seen_before.to_set().insert(url).contains(u) implies seen_after
                    .to_set().contains(u) by {
                    if u == url {
                        assert(seen_after[i as int] == u);
                    } else {
                        let k = choose|k: int| 0 <= k < seen_before.len() && seen_before[k] == u;
                        assert(seen_after[k] == u);
                    }
                }
            }
            let fresh = self.admit_url(candidates[i].as_str());
            assert(self@ =~= old(self)@.union(seen_after.to_set()));
            if fresh {
                proof {
                    lemma_texts_push(batch@, candidates@[i as int]);
                }
                batch.push(candidates[i].clone());
            }
            i = i + 1;
        }
        assert(texts(candidates@).take(candidates.len() as int) =~= texts(candidates@));
        batch
    }
}

} // verus!
