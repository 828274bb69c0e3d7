//! Whole runs of a crawl, and what holds of every one of them.

use vstd::prelude::*;
use crate::agenda::done_line;
use crate::agenda::halted;
use crate::agenda::images_checked;
use crate::agenda::links_checked;
use crate::agenda::proceeded;
use crate::agenda::recorded;
use crate::agenda::starting_line;
use crate::agenda::step;
use crate::agenda::ActionView;
use crate::agenda::AgendaView;
use crate::agenda::InputView;
use crate::agenda::ReadingView;
use crate::agenda::StageView;
use crate::agenda::StepView;
use crate::crawl::advanced;
use crate::crawl::page_read;
use crate::crawl::perceived;
use crate::crawl::root_scope;
use crate::crawl::started;
use crate::crawl::CrawlView;
use crate::crawl::EventView;
use crate::crawl::Options;
use crate::error::CrawlError;
use crate::markup::declared_base;
use crate::page::lemma_declared_base_takes_precedence;
use crate::sitemap::pending;
use crate::visited::admitted;
use crate::visited::lemma_admitted_once;

verus! {

/// The URLs that a step hands out for a fetch or a probe.
pub open spec fn dispatched(answer: StepView) -> Seq<Seq<char>> {
    match answer.action {
        ActionView::Fetch(url) => seq![url],
        ActionView::Probe(batch) => batch,
        ActionView::Finish => Seq::empty(),
        ActionView::Abort(_) => Seq::empty(),
    }
}

/// Whether a transition hands out exactly the URLs that it admits: they are
/// pairwise distinct, none was visited before, and the URLs visited after
/// are those visited before together with those handed out.
pub open spec fn hands_out_fresh(state: AgendaView, outcome: (AgendaView, StepView)) -> bool {
    &&& dispatched(outcome.1).no_duplicates()
    &&& forall|url: Seq<char>| #[trigger]
        dispatched(outcome.1).contains(url) ==> !state.visited.contains(url)
    &&& outcome.0.visited == state.visited.union(dispatched(outcome.1).to_set())
}

/// The state of the decisions after a sequence of inputs, and all URLs
/// handed out on the way, in order.
pub open spec fn run(state: AgendaView, inputs: Seq<InputView>) -> (AgendaView, Seq<Seq<char>>)
    decreases inputs.len(),
{
    if inputs.len() == 0 {
        (state, Seq::empty())
    } else {
        let (before, handed) = run(state, inputs.drop_last());
        let (next, answer) = step(before, inputs.last());
        (next, handed + dispatched(answer))
    }
}

/// The state of a crawl after a sequence of events, and all URLs handed out
/// on the way, in order.
pub open spec fn crawl_run(state: CrawlView, events: Seq<EventView>) -> (
    CrawlView,
    Seq<Seq<char>>,
)
    decreases events.len(),
{
    if events.len() == 0 {
        (state, Seq::empty())
    } else {
        let (before, handed) = crawl_run(state, events.drop_last());
        let (next, answer) = advanced(before, events.last());
        (next, handed + dispatched(answer))
    }
}

/// The entry that stands at the front of the pending part of a queue is not
/// visited.
proof fn lemma_pending_front_is_new(queue: Seq<Option<Seq<char>>>, visited: Set<Seq<char>>)
    ensures
        pending(queue, visited).len() > 0 && pending(queue, visited)[0] is Some
            ==> !visited.contains(pending(queue, visited)[0]->0),
    decreases queue.len(),
{
    if queue.len() > 0 && queue[0] is Some && visited.contains(queue[0]->0) {
        lemma_pending_front_is_new(queue.drop_first(), visited);
    }
}

proof fn lemma_halted_fresh(state: AgendaView, error: CrawlError, lines: Seq<Seq<char>>)
    ensures
        hands_out_fresh(state, halted(state, error, lines)),
{
    let outcome = halted(state, error, lines);
    assert(outcome.0.visited =~= state.visited.union(dispatched(outcome.1).to_set()));
}

proof fn lemma_proceeded_fresh(state: AgendaView, lines: Seq<Seq<char>>)
    ensures
        hands_out_fresh(state, proceeded(state, lines)),
{
    lemma_pending_front_is_new(state.pages, state.visited);
    lemma_pending_front_is_new(state.sitemaps, state.visited);
    let outcome = proceeded(state, lines);
    let handed = dispatched(outcome.1);
    assert forall|url: Seq<char>| #[trigger] handed.contains(url) implies !state.visited.contains(
        url,
    ) by {
        let k = choose|k: int| 0 <= k < handed.len() && handed[k] == url;
    }
    assert forall|url: Seq<char>| outcome.0.visited.contains(url) <==> state.visited.union(
        handed.to_set(),
    ).contains(url) by {
        if handed.to_set().contains(url) {
            let k = choose|k: int| 0 <= k < handed.len() && handed[k] == url;
        }
        if outcome.0.visited.contains(url) && !state.visited.contains(url) {
            assert(handed[0] == url);
        }
    }
    assert(outcome.0.visited =~= state.visited.union(handed.to_set()));
}

/// Where admission lets none of `found` through, recording them changes
/// nothing, so what is handed out afterwards is new to `state` as well.
proof fn lemma_recorded_then_fresh(
    state: AgendaView,
    found: Seq<Seq<char>>,
    outcome: (AgendaView, StepView),
)
    requires
        admitted(state.visited, found).len() == 0,
        hands_out_fresh(recorded(state, found), outcome),
    ensures
        hands_out_fresh(state, outcome),
{
    lemma_admitted_once(state.visited, found);
    assert forall|url: Seq<char>| found.to_set().contains(url) implies state.visited.contains(
        url,
    ) by {
        if !state.visited.contains(url) {
            assert(found.contains(url));
            assert(admitted(state.visited, found).contains(url));
        }
    }
    assert(recorded(state, found).visited =~= state.visited);
}

/// A batch that passed admission in `state` is new to the crawl.
proof fn lemma_batch_fresh(
    state: AgendaView,
    found: Seq<Seq<char>>,
    stage: StageView,
    lines: Seq<Seq<char>>,
)
    ensures
        hands_out_fresh(
            state,
            (
                AgendaView { stage, ..recorded(state, found) },
                StepView { lines, action: ActionView::Probe(admitted(state.visited, found)) },
            ),
        ),
{
    lemma_admitted_once(state.visited, found);
    let batch = admitted(state.visited, found);
    assert forall|url: Seq<char>| state.visited.union(found.to_set()).contains(url)
        <==> state.visited.union(batch.to_set()).contains(url) by {
        if found.to_set().contains(url) {
            assert(found.contains(url));
        }
        if batch.to_set().contains(url) {
            assert(batch.contains(url));
            assert(found.contains(url));
        }
    }
    assert(state.visited.union(found.to_set()) =~= state.visited.union(batch.to_set()));
}

proof fn lemma_images_checked_fresh(
    state: AgendaView,
    images: Seq<Seq<char>>,
    lines: Seq<Seq<char>>,
)
    ensures
        hands_out_fresh(state, images_checked(state, images, lines)),
{
    if admitted(state.visited, images).len() > 0 {
        lemma_batch_fresh(state, images, StageView::Images, lines);
    } else {
        lemma_proceeded_fresh(recorded(state, images), lines);
        lemma_recorded_then_fresh(state, images, proceeded(recorded(state, images), lines));
    }
}

proof fn lemma_links_checked_fresh(
    state: AgendaView,
    links: Seq<Seq<char>>,
    images: Seq<Seq<char>>,
    lines: Seq<Seq<char>>,
)
    ensures
        hands_out_fresh(state, links_checked(state, links, images, lines)),
{
    if admitted(state.visited, links).len() > 0 {
        lemma_batch_fresh(state, links, StageView::Links { images }, lines);
    } else {
        lemma_images_checked_fresh(recorded(state, links), images, lines);
        lemma_recorded_then_fresh(
            state,
            links,
            images_checked(recorded(state, links), images, lines),
        );
    }
}

/// Admission exactly once, for one step: in every state and for every input,
/// the URLs that the step hands out are pairwise distinct, none of them was
/// visited before the step, and the step marks as visited exactly these.
pub proof fn lemma_step_hands_out_fresh(state: AgendaView, input: InputView)
    ensures
        hands_out_fresh(state, step(state, input)),
{
    match (state.stage, input) {
        (StageView::Root(_), InputView::Read(ReadingView::Sitemap(entries))) => {
            lemma_proceeded_fresh(AgendaView { sitemaps: entries, ..state }, seq![starting_line()]);
        },
        (StageView::Root(_), InputView::Read(ReadingView::Page { links, images })) => {
            lemma_links_checked_fresh(state, links, images, seq![starting_line()]);
        },
        (StageView::Sitemap, InputView::Read(ReadingView::Sitemap(entries))) => {
            lemma_proceeded_fresh(AgendaView { pages: entries, ..state }, Seq::empty());
        },
        (StageView::Page(_), InputView::Read(ReadingView::Page { links, images })) => {
            lemma_links_checked_fresh(state, links, images, Seq::empty());
        },
        (StageView::Links { images }, InputView::Checked) => {
            lemma_images_checked_fresh(state, images, Seq::empty());
        },
        (StageView::Images, InputView::Checked) => {
            lemma_proceeded_fresh(state, Seq::empty());
        },
        _ => {
            let outcome = step(state, input);
            assert(outcome.1.action is Abort);
            assert(outcome.0.visited =~= state.visited.union(dispatched(outcome.1).to_set()));
        },
    }
}

/// Joining what a run has handed out with what one more step hands out.
proof fn lemma_handed_extends(
    start: Set<Seq<char>>,
    before: Set<Seq<char>>,
    after: Set<Seq<char>>,
    handed: Seq<Seq<char>>,
    last: Seq<Seq<char>>,
)
    requires
        handed.no_duplicates(),
        last.no_duplicates(),
        forall|url: Seq<char>| #[trigger] handed.contains(url) ==> !start.contains(url),
        forall|url: Seq<char>| #[trigger] last.contains(url) ==> !before.contains(url),
        before == start.union(handed.to_set()),
        after == before.union(last.to_set()),
    ensures
        (handed + last).no_duplicates(),
        forall|url: Seq<char>| #[trigger] (handed + last).contains(url) ==> !start.contains(url),
        after == start.union((handed + last).to_set()),
{
    let all = handed + last;
    assert forall|url: Seq<char>| all.contains(url) <==> (handed.contains(url) || last.contains(
        url,
    )) by {
        if all.contains(url) {
            let k = choose|k: int| 0 <= k < all.len() && all[k] == url;
            if k < handed.len() {
                assert(handed[k] == url);
            } else {
                assert(last[k - handed.len()] == url);
            }
        }
        if handed.contains(url) {
            let k = choose|k: int| 0 <= k < handed.len() && handed[k] == url;
            assert(all[k] == url);
        }
        if last.contains(url) {
            let k = choose|k: int| 0 <= k < last.len() && last[k] == url;
            assert(all[k + handed.len()] == url);
        }
    }
    assert forall|url: Seq<char>| #[trigger] all.contains(url) implies !start.contains(url) by {
        if last.contains(url) {
            assert(!before.contains(url));
        }
    }
    assert(after =~= start.union(all.to_set()));
    assert forall|i: int, j: int| 0 <= i < all.len() && 0 <= j < all.len() && i
        != j implies all[i] != all[j] by {
        if i < handed.len() && j < handed.len() {
            assert(handed[i] != handed[j]);
        } else if i >= handed.len() && j >= handed.len() {
            assert(last[i - handed.len()] != last[j - handed.len()]);
        } else if i < handed.len() {
            assert(handed.contains(handed[i]));
            assert(last.contains(last[j - handed.len()]));
            assert(handed.to_set().contains(handed[i]));
        } else {
            assert(handed.contains(handed[j]));
            assert(last.contains(last[i - handed.len()]));
            assert(handed.to_set().contains(handed[j]));
        }
    }
}

/// Admission exactly once, for a whole run of the decisions: whatever is fed
/// into a crawl, the URLs that it hands out for a fetch or a probe are
/// pairwise distinct, none of them was visited when the run began, and the
/// URLs visited at its end are those visited at its start together with
/// those handed out.
pub proof fn lemma_run_hands_out_each_url_once(state: AgendaView, inputs: Seq<InputView>)
    ensures
        run(state, inputs).1.no_duplicates(),
        forall|url: Seq<char>| #[trigger]
            run(state, inputs).1.contains(url) ==> !state.visited.contains(url),
        run(state, inputs).0.visited == state.visited.union(run(state, inputs).1.to_set()),
    decreases inputs.len(),
{
    if inputs.len() == 0 {
        assert(state.visited =~= state.visited.union(Seq::<Seq<char>>::empty().to_set()));
    } else {
        let (before, handed) = run(state, inputs.drop_last());
        let (next, answer) = step(before, inputs.last());
        lemma_run_hands_out_each_url_once(state, inputs.drop_last());
        lemma_step_hands_out_fresh(before, inputs.last());
        lemma_handed_extends(
            state.visited,
            before.visited,
            next.visited,
            handed,
            dispatched(answer),
        );
    }
}

/// Admission exactly once, for a whole run of a crawl: whatever documents
/// and events are fed into a crawl, the URLs that it hands out for a fetch
/// or a probe are pairwise distinct, none of them was visited when the run
/// began, and the URLs visited at its end are those visited at its start
/// together with those handed out. So each URL is fetched or probed at most
/// once, however many documents refer to it and whether as a link, as an
/// image or as a sitemap location, and every URL that was admitted has been
/// handed out.
pub proof fn lemma_crawl_run_hands_out_each_url_once(state: CrawlView, events: Seq<EventView>)
    ensures
        crawl_run(state, events).1.no_duplicates(),
        forall|url: Seq<char>| #[trigger]
            crawl_run(state, events).1.contains(url) ==> !state.agenda.visited.contains(url),
        crawl_run(state, events).0.agenda.visited == state.agenda.visited.union(
            crawl_run(state, events).1.to_set(),
        ),
    decreases events.len(),
{
    if events.len() == 0 {
        assert(state.agenda.visited =~= state.agenda.visited.union(
            Seq::<Seq<char>>::empty().to_set(),
        ));
    } else {
        let (before, handed) = crawl_run(state, events.drop_last());
        let (next, answer) = advanced(before, events.last());
        let input = perceived(before, events.last()).1;
        lemma_crawl_run_hands_out_each_url_once(state, events.drop_last());
        lemma_step_hands_out_fresh(before.agenda, input);
        lemma_handed_extends(
            state.agenda.visited,
            before.agenda.visited,
            next.agenda.visited,
            handed,
            dispatched(answer),
        );
    }
}

/// Admission exactly once, for a crawl from its start: after the root
/// document, no URL is fetched or probed twice, and the URLs visited are
/// those handed out.
pub proof fn lemma_crawl_hands_out_each_url_once(
    url: Seq<char>,
    options: Options,
    events: Seq<EventView>,
)
    ensures
        crawl_run(started(url, options).0, events).1.no_duplicates(),
        crawl_run(started(url, options).0, events).0.agenda.visited == crawl_run(
            started(url, options).0,
            events,
        ).1.to_set(),
{
    let state = started(url, options).0;
    let handed = crawl_run(state, events).1;
    lemma_crawl_run_hands_out_each_url_once(state, events);
    assert(state.agenda.visited =~= Set::<Seq<char>>::empty());
    assert(state.agenda.visited.union(handed.to_set()) =~= handed.to_set());
}

/// Base-tag precedence, for the crawl: what the crawl reads from a document
/// that declares its base does not depend on the URL that the document came
/// from.
pub proof fn lemma_reading_with_declared_base_ignores_own_url(
    options: Options,
    url: Seq<char>,
    other: Seq<char>,
    document: Seq<char>,
)
    requires
        declared_base(document) is Some,
    ensures
        page_read(options, url, document) == page_read(options, other, document),
        root_scope(url, document) == root_scope(other, document),
{
    lemma_declared_base_takes_precedence(url, other, document);
}

/// Whether `input` brings the root document, read as a sitemap or a page.
pub open spec fn brings_root(state: AgendaView, input: InputView) -> bool {
    &&& state.stage is Root
    &&& input matches InputView::Read(reading)
    &&& !(reading is Unreadable)
}

/// The lifecycle lines: a step prints the starting line exactly when it
/// takes in the root document, and the closing line exactly when it
/// finishes the crawl; a crawl that finishes has ended, with the closing
/// line as its last line, and a crawl that aborts prints no closing line.
pub proof fn lemma_lifecycle_lines(state: AgendaView, input: InputView)
    ensures
        ({
            let (next, answer) = step(state, input);
            &&& answer.lines.contains(starting_line()) <==> brings_root(state, input)
            &&& answer.lines.contains(done_line()) <==> answer.action is Finish
            &&& answer.action is Finish ==> next.stage == StageView::Ended && answer.lines.last()
                == done_line()
            &&& answer.action is Abort ==> next.stage == StageView::Ended
        }),
{
    reveal_strlit("Starting...");
    reveal_strlit("Done!");
    let (next, answer) = step(state, input);
    let none = Seq::<Seq<char>>::empty();
    let start = seq![starting_line()];
    assert(starting_line().len() != done_line().len());
    assert(start[0] == starting_line());
    assert(start.push(done_line())[0] == starting_line());
    assert(start.push(done_line())[1] == done_line());
    assert(none.push(done_line())[0] == done_line());
    assert(answer.lines == none || answer.lines == start || answer.lines == none.push(done_line())
        || answer.lines == start.push(done_line()));
}

/// Once a crawl has ended, every further input is refused and nothing is
/// handed out.
pub proof fn lemma_ended_crawl_stays_ended(state: AgendaView, input: InputView)
    requires
        state.stage == StageView::Ended,
    ensures
        step(state, input).0.stage == StageView::Ended,
        step(state, input).1.action == ActionView::Abort(CrawlError::UnexpectedEvent),
        step(state, input).0.visited == state.visited,
{
}

/// The work that may still lie before a crawl, as a tuple that is compared
/// from the left: whether the root document is outstanding, the entries of
/// the root sitemap, whether a second-level sitemap is outstanding, the
/// entries of the current second-level sitemap, and what is left to do for
/// the current page.
pub open spec fn effort(state: AgendaView) -> (nat, nat, nat, nat, nat) {
    (
        if state.stage is Root {
            1
        } else {
            0
        },
        state.sitemaps.len(),
        if state.stage is Sitemap {
            1
        } else {
            0
        },
        state.pages.len(),
        match state.stage {
            StageView::Page(_) => 3,
            StageView::Links { .. } => 2,
            StageView::Images => 1,
            _ => 0,
        },
    )
}

/// Whether `a` comes before `b` when the tuples are compared from the left.
pub open spec fn less_effort(a: (nat, nat, nat, nat, nat), b: (nat, nat, nat, nat, nat)) -> bool {
    ||| a.0 < b.0
    ||| a.0 == b.0 && a.1 < b.1
    ||| a.0 == b.0 && a.1 == b.1 && a.2 < b.2
    ||| a.0 == b.0 && a.1 == b.1 && a.2 == b.2 && a.3 < b.3
    ||| a.0 == b.0 && a.1 == b.1 && a.2 == b.2 && a.3 == b.3 && a.4 < b.4
}

/// The pending part of a queue is no longer than the queue.
proof fn lemma_pending_is_shorter(queue: Seq<Option<Seq<char>>>, visited: Set<Seq<char>>)
    ensures
        pending(queue, visited).len() <= queue.len(),
    decreases queue.len(),
{
    if queue.len() > 0 && queue[0] is Some && visited.contains(queue[0]->0) {
        lemma_pending_is_shorter(queue.drop_first(), visited);
    }
}

/// Whether a transition ends the crawl or leaves less work than `bound`.
spec fn progresses(bound: (nat, nat, nat, nat, nat), outcome: (AgendaView, StepView)) -> bool {
    outcome.0.stage == StageView::Ended || less_effort(effort(outcome.0), bound)
}

proof fn lemma_proceeded_progresses(state: AgendaView, lines: Seq<Seq<char>>)
    ensures
        progresses((0, state.sitemaps.len(), 0, state.pages.len(), 1), proceeded(state, lines)),
{
    lemma_pending_is_shorter(state.pages, state.visited);
    lemma_pending_is_shorter(state.sitemaps, state.visited);
}

proof fn lemma_images_checked_progresses(
    state: AgendaView,
    images: Seq<Seq<char>>,
    lines: Seq<Seq<char>>,
)
    ensures
        progresses(
            (0, state.sitemaps.len(), 0, state.pages.len(), 2),
            images_checked(state, images, lines),
        ),
{
    lemma_proceeded_progresses(recorded(state, images), lines);
}

proof fn lemma_links_checked_progresses(
    state: AgendaView,
    links: Seq<Seq<char>>,
    images: Seq<Seq<char>>,
    lines: Seq<Seq<char>>,
)
    ensures
        progresses(
            (0, state.sitemaps.len(), 0, state.pages.len(), 3),
            links_checked(state, links, images, lines),
        ),
{
    lemma_images_checked_progresses(recorded(state, links), images, lines);
}

/// Every crawl ends: each step either ends the crawl or leaves it with less
/// work than before, in an order that admits no endless descent. Sitemaps
/// and pages that refer to each other cannot keep a crawl going.
pub proof fn lemma_step_makes_progress(state: AgendaView, input: InputView)
    ensures
        step(state, input).0.stage == StageView::Ended || less_effort(
            effort(step(state, input).0),
            effort(state),
        ),
{
    match (state.stage, input) {
        (StageView::Root(_), InputView::Read(ReadingView::Sitemap(entries))) => {
            lemma_proceeded_progresses(
                AgendaView { sitemaps: entries, ..state },
                seq![starting_line()],
            );
        },
        (StageView::Root(_), InputView::Read(ReadingView::Page { links, images })) => {
            lemma_links_checked_progresses(state, links, images, seq![starting_line()]);
        },
        (StageView::Sitemap, InputView::Read(ReadingView::Sitemap(entries))) => {
            lemma_proceeded_progresses(AgendaView { pages: entries, ..state }, Seq::empty());
        },
        (StageView::Page(_), InputView::Read(ReadingView::Page { links, images })) => {
            lemma_links_checked_progresses(state, links, images, Seq::empty());
        },
        (StageView::Links { images }, InputView::Checked) => {
            lemma_images_checked_progresses(state, images, Seq::empty());
        },
        (StageView::Images, InputView::Checked) => {
            lemma_proceeded_progresses(state, Seq::empty());
        },
        _ => {},
    }
}

/// Every crawl ends, as the caller sees it: each event that is reported
/// either ends the crawl or leaves it with less work than before.
pub proof fn lemma_advance_makes_progress(state: CrawlView, event: EventView)
    ensures
        advanced(state, event).0.agenda.stage == StageView::Ended || less_effort(
            effort(advanced(state, event).0.agenda),
            effort(state.agenda),
        ),
{
    lemma_step_makes_progress(state.agenda, perceived(state, event).1);
}

} // verus!
