//! The decisions of a crawl as a state machine on plain values: from the
//! state of a crawl and what was read from the last answer, the next state
//! and the action that the caller is to perform.
//!
//! The machine holds the ledger of visited URLs and the entries of the
//! sitemaps that are still to be worked off. It decides what is fetched and
//! probed, in which order, and when the crawl ends.

use std::collections::VecDeque;
use vstd::prelude::*;
use vstd::string::StringExecFns;
use crate::error::CrawlError;
use crate::sitemap::next_location;
use crate::sitemap::pending;
use crate::sitemap::Next;
use crate::text::lemma_texts_push;
use crate::text::optional_texts;
use crate::text::texts;
use crate::visited::admitted;
use crate::visited::VisitedSet;

verus! {

/// What was read from a fetched document.
#[derive(Debug, PartialEq, Eq)]
pub enum Reading {
    /// Nothing: the document cannot serve the crawl, for this reason.
    Unreadable(CrawlError),
    /// A sitemap: its entries in scope, in document order, each the URL that
    /// a location was read as, or `None` for a location that is no URL.
    Sitemap(VecDeque<Option<String>>),
    /// A page: the candidate URLs of its links and of its images, each in
    /// document order. A kind that is not checked has no candidates.
    Page { links: Vec<String>, images: Vec<String> },
}

/// A reading, with its texts as sequences of characters.
#[verifier::ext_equal]
pub enum ReadingView {
    Unreadable(CrawlError),
    Sitemap(Seq<Option<Seq<char>>>),
    Page { links: Seq<Seq<char>>, images: Seq<Seq<char>> },
}

impl View for Reading {
    type V = ReadingView;

    open spec fn view(&self) -> ReadingView {
        match self {
            Reading::Unreadable(error) => ReadingView::Unreadable(*error),
            Reading::Sitemap(entries) => ReadingView::Sitemap(optional_texts(entries@)),
            Reading::Page { links, images } => ReadingView::Page {
                links: texts(links@),
                images: texts(images@),
            },
        }
    }
}

/// What came of the action that the machine asked for.
#[derive(Debug, PartialEq, Eq)]
pub enum Input {
    /// The document that was asked for has arrived and was read.
    Read(Reading),
    /// The document that was asked for could not be fetched.
    FetchFailed,
    /// Every probe of the batch has completed and has been reported.
    Checked,
    /// A probe task of the batch could not be joined.
    TaskFailed,
}

/// An input, with its texts as sequences of characters.
#[verifier::ext_equal]
pub enum InputView {
    Read(ReadingView),
    FetchFailed,
    Checked,
    TaskFailed,
}

impl View for Input {
    type V = InputView;

    open spec fn view(&self) -> InputView {
        match self {
            Input::Read(reading) => InputView::Read(reading@),
            Input::FetchFailed => InputView::FetchFailed,
            Input::Checked => InputView::Checked,
            Input::TaskFailed => InputView::TaskFailed,
        }
    }
}

/// What the caller is to do next.
#[derive(Debug, PartialEq, Eq)]
pub enum Action {
    /// Fetch the document at this URL and say what came of it.
    Fetch(String),
    /// Probe each of these URLs once, concurrently, report each result as it
    /// completes, wait for all of them, and say what came of it.
    Probe(Vec<String>),
    /// The crawl is complete: exit successfully.
    Finish,
    /// The crawl has failed: exit with this error.
    Abort(CrawlError),
}

/// An action, with its URLs as sequences of characters.
#[verifier::ext_equal]
pub enum ActionView {
    Fetch(Seq<char>),
    Probe(Seq<Seq<char>>),
    Finish,
    Abort(CrawlError),
}

impl View for Action {
    type V = ActionView;

    open spec fn view(&self) -> ActionView {
        match self {
            Action::Fetch(url) => ActionView::Fetch(url@),
            Action::Probe(batch) => ActionView::Probe(texts(batch@)),
            Action::Finish => ActionView::Finish,
            Action::Abort(error) => ActionView::Abort(*error),
        }
    }
}

/// The machine's answer to an input: lines to print, then an action.
#[derive(Debug, PartialEq, Eq)]
pub struct Step {
    /// Lifecycle lines that are to be printed before the action is performed.
    pub lines: Vec<String>,
    /// The action to perform.
    pub action: Action,
}

/// A step, with its texts as sequences of characters.
#[verifier::ext_equal]
pub struct StepView {
    pub lines: Seq<Seq<char>>,
    pub action: ActionView,
}

impl View for Step {
    type V = StepView;

    open spec fn view(&self) -> StepView {
        StepView { lines: texts(self.lines@), action: self.action@ }
    }
}

/// What a crawl is waiting for.
#[derive(Debug, PartialEq, Eq)]
pub enum Stage {
    /// The root document, from this URL.
    Root(String),
    /// A second-level sitemap.
    Sitemap,
    /// A page, from this URL.
    Page(String),
    /// The batch of links of a page; the candidates of its images wait.
    Links { images: Vec<String> },
    /// The batch of images of a page.
    Images,
    /// Nothing: the crawl has finished or failed.
    Ended,
}

/// What a crawl is waiting for, as a mathematical value.
#[verifier::ext_equal]
pub enum StageView {
    Root(Seq<char>),
    Sitemap,
    Page(Seq<char>),
    Links { images: Seq<Seq<char>> },
    Images,
    Ended,
}

impl View for Stage {
    type V = StageView;

    open spec fn view(&self) -> StageView {
        match self {
            Stage::Root(url) => StageView::Root(url@),
            Stage::Sitemap => StageView::Sitemap,
            Stage::Page(url) => StageView::Page(url@),
            Stage::Links { images } => StageView::Links { images: texts(images@) },
            Stage::Images => StageView::Images,
            Stage::Ended => StageView::Ended,
        }
    }
}

/// The state of the decisions of a crawl.
pub struct Agenda {
    visited: VisitedSet,
    sitemaps: VecDeque<Option<String>>,
    pages: VecDeque<Option<String>>,
    stage: Stage,
}

/// The state of the decisions of a crawl, as a mathematical value.
#[verifier::ext_equal]
pub struct AgendaView {
    /// The URLs admitted so far.
    pub visited: Set<Seq<char>>,
    /// The entries of the root sitemap that are still to be worked off.
    pub sitemaps: Seq<Option<Seq<char>>>,
    /// The entries of the current second-level sitemap that are still to be
    /// worked off.
    pub pages: Seq<Option<Seq<char>>>,
    /// What the crawl is waiting for.
    pub stage: StageView,
}

impl View for Agenda {
    type V = AgendaView;

    closed spec fn view(&self) -> AgendaView {
        AgendaView {
            visited: self.visited@,
            sitemaps: optional_texts(self.sitemaps@),
            pages: optional_texts(self.pages@),
            stage: self.stage@,
        }
    }
}

/// The line that announces the crawl.
pub open spec fn starting_line() -> Seq<char> {
    "Starting..."@
}

/// The line that closes a completed crawl.
pub open spec fn done_line() -> Seq<char> {
    "Done!"@
}

/// The state in which a crawl rests once it has finished or failed.
pub open spec fn ended(state: AgendaView) -> AgendaView {
    AgendaView {
        sitemaps: Seq::empty(),
        pages: Seq::empty(),
        stage: StageView::Ended,
        ..state
    }
}

/// The crawl fails with `error`, after printing `lines`.
pub open spec fn halted(state: AgendaView, error: CrawlError, lines: Seq<Seq<char>>) -> (
    AgendaView,
    StepView,
) {
    (ended(state), StepView { lines, action: ActionView::Abort(error) })
}

/// With no batch outstanding, the crawl turns to the next entry: first of
/// the current second-level sitemap, then of the root sitemap. Entries whose
/// URL is visited already are passed over. An entry that is no absolute URL
/// is fatal. With no entry left the crawl is complete.
pub open spec fn proceeded(state: AgendaView, lines: Seq<Seq<char>>) -> (AgendaView, StepView) {
    let pages = pending(state.pages, state.visited);
    let sitemaps = pending(state.sitemaps, state.visited);
    if pages.len() > 0 {
        match pages[0] {
            Some(url) => (
                AgendaView {
                    visited: state.visited.insert(url),
                    pages: pages.drop_first(),
                    stage: StageView::Page(url),
                    ..state
                },
                StepView { lines, action: ActionView::Fetch(url) },
            ),
            None => halted(state, CrawlError::InvalidUrl, lines),
        }
    } else if sitemaps.len() > 0 {
        match sitemaps[0] {
            Some(url) => (
                AgendaView {
                    visited: state.visited.insert(url),
                    sitemaps: sitemaps.drop_first(),
                    pages: Seq::empty(),
                    stage: StageView::Sitemap,
                    ..state
                },
                StepView { lines, action: ActionView::Fetch(url) },
            ),
            None => halted(state, CrawlError::InvalidUrl, lines),
        }
    } else {
        (ended(state), StepView { lines: lines.push(done_line()), action: ActionView::Finish })
    }
}

/// The state after candidates have passed admission.
pub open spec fn recorded(state: AgendaView, found: Seq<Seq<char>>) -> AgendaView {
    AgendaView { visited: state.visited.union(found.to_set()), ..state }
}

/// The image candidates of a page pass admission. If any is admitted, the
/// batch is probed; else the crawl proceeds.
pub open spec fn images_checked(state: AgendaView, images: Seq<Seq<char>>, lines: Seq<Seq<char>>) -> (
    AgendaView,
    StepView,
) {
    let batch = admitted(state.visited, images);
    if batch.len() > 0 {
        (
            AgendaView { stage: StageView::Images, ..recorded(state, images) },
            StepView { lines, action: ActionView::Probe(batch) },
        )
    } else {
        proceeded(recorded(state, images), lines)
    }
}

/// The link candidates of a page pass admission. If any is admitted, the
/// batch is probed and the image candidates wait; else the check turns to
/// the images at once.
pub open spec fn links_checked(
    state: AgendaView,
    links: Seq<Seq<char>>,
    images: Seq<Seq<char>>,
    lines: Seq<Seq<char>>,
) -> (AgendaView, StepView) {
    let batch = admitted(state.visited, links);
    if batch.len() > 0 {
        (
            AgendaView { stage: StageView::Links { images }, ..recorded(state, links) },
            StepView { lines, action: ActionView::Probe(batch) },
        )
    } else {
        images_checked(recorded(state, links), images, lines)
    }
}

/// The next state and the step that answers `input` in `state`.
///
/// The root document is a sitemap of sitemaps or a page; its arrival
/// announces the crawl. A second-level sitemap yields pages. A page yields a
/// batch of links, then a batch of images. A document that cannot be read or
/// fetched, and a probe task that cannot be joined, are fatal; so is an
/// input that answers nothing that was asked for.
pub open spec fn step(state: AgendaView, input: InputView) -> (AgendaView, StepView) {
    match (state.stage, input) {
        (StageView::Root(_), InputView::Read(ReadingView::Sitemap(entries))) => proceeded(
            AgendaView { sitemaps: entries, ..state },
            seq![starting_line()],
        ),
        (StageView::Root(_), InputView::Read(ReadingView::Page { links, images })) => links_checked(
            state,
            links,
            images,
            seq![starting_line()],
        ),
        (StageView::Root(_), InputView::Read(ReadingView::Unreadable(error))) => halted(
            state,
            error,
            Seq::empty(),
        ),
        (StageView::Sitemap, InputView::Read(ReadingView::Sitemap(entries))) => proceeded(
            AgendaView { pages: entries, ..state },
            Seq::empty(),
        ),
        (StageView::Sitemap, InputView::Read(ReadingView::Unreadable(error))) => halted(
            state,
            error,
            Seq::empty(),
        ),
        (StageView::Page(_), InputView::Read(ReadingView::Page { links, images })) => links_checked(
            state,
            links,
            images,
            Seq::empty(),
        ),
        (StageView::Page(_), InputView::Read(ReadingView::Unreadable(error))) => halted(
            state,
            error,
            Seq::empty(),
        ),
        (StageView::Root(_), InputView::FetchFailed) => halted(
            state,
            CrawlError::FetchFailed,
            Seq::empty(),
        ),
        (StageView::Sitemap, InputView::FetchFailed) => halted(
            state,
            CrawlError::FetchFailed,
            Seq::empty(),
        ),
        (StageView::Page(_), InputView::FetchFailed) => halted(
            state,
            CrawlError::FetchFailed,
            Seq::empty(),
        ),
        (StageView::Links { images }, InputView::Checked) => images_checked(
            state,
            images,
            Seq::empty(),
        ),
        (StageView::Images, InputView::Checked) => proceeded(state, Seq::empty()),
        (StageView::Links { .. }, InputView::TaskFailed) => halted(
            state,
            CrawlError::TaskFailed,
            Seq::empty(),
        ),
        (StageView::Images, InputView::TaskFailed) => halted(
            state,
            CrawlError::TaskFailed,
            Seq::empty(),
        ),
        _ => halted(state, CrawlError::UnexpectedEvent, Seq::empty()),
    }
}

/// The state and the first step of a crawl from `root`: nothing is visited,
/// and the root document is to be fetched.
pub open spec fn opened(root: Seq<char>) -> (AgendaView, StepView) {
    (
        AgendaView {
            visited: Set::empty(),
            sitemaps: Seq::empty(),
            pages: Seq::empty(),
            stage: StageView::Root(root),
        },
        StepView { lines: Seq::empty(), action: ActionView::Fetch(root) },
    )
}

/// The state and the only step of a crawl that cannot begin.
pub open spec fn refused(error: CrawlError) -> (AgendaView, StepView) {
    (
        AgendaView {
            visited: Set::empty(),
            sitemaps: Seq::empty(),
            pages: Seq::empty(),
            stage: StageView::Ended,
        },
        StepView { lines: Seq::empty(), action: ActionView::Abort(error) },
    )
}

impl Agenda {
    /// Begins a crawl from the absolute URL `root`.
    pub fn open(root: String) -> (next: (Agenda, Step))
        ensures
            (next.0@, next.1@) == opened(root@),
    {
        let target = root.clone();
        let state = Agenda {
            visited: VisitedSet::new(),
            sitemaps: VecDeque::new(),
            pages: VecDeque::new(),
            stage: Stage::Root(root),
        };
        let lines: Vec<String> = Vec::new();
        assert(texts(lines@) =~= Seq::<Seq<char>>::empty());
        assert(optional_texts(state.sitemaps@) =~= Seq::<Option<Seq<char>>>::empty());
        assert(optional_texts(state.pages@) =~= Seq::<Option<Seq<char>>>::empty());
        (state, Step { lines, action: Action::Fetch(target) })
    }

    /// Refuses a crawl that cannot begin: the only step aborts with `error`.
    pub fn refuse(error: CrawlError) -> (next: (Agenda, Step))
        ensures
            (next.0@, next.1@) == refused(error),
    {
        let state = Agenda {
            visited: VisitedSet::new(),
            sitemaps: VecDeque::new(),
            pages: VecDeque::new(),
            stage: Stage::Ended,
        };
        let lines: Vec<String> = Vec::new();
        assert(texts(lines@) =~= Seq::<Seq<char>>::empty());
        assert(optional_texts(state.sitemaps@) =~= Seq::<Option<Seq<char>>>::empty());
        assert(optional_texts(state.pages@) =~= Seq::<Option<Seq<char>>>::empty());
        (state, Step { lines, action: Action::Abort(error) })
    }

    /// What the crawl is waiting for.
    pub fn stage(&self) -> (stage: &Stage)
        ensures
            stage@ == self@.stage,
    {
        &self.stage
    }

    /// The URLs admitted so far.
    pub fn visited(&self) -> (ledger: &VisitedSet)
        ensures
            ledger@ == self@.visited,
    {
        &self.visited
    }

    /// Whether the crawl has finished or failed, so that no input is expected
    /// any more.
    pub fn is_ended(&self) -> (ended: bool)
        ensures
            ended == (self@.stage == StageView::Ended),
    {
        match self.stage {
            Stage::Ended => true,
            _ => false,
        }
    }

    /// Answers `input`: moves the crawl to its next state and says what the
    /// caller is to print and to do.
    pub fn step(self, input: Input) -> (next: (Agenda, Step))
        ensures
            (next.0@, next.1@) == step(self@, input@),
    {
        let Agenda { visited, sitemaps, pages, stage } = self;
        let mut lines: Vec<String> = Vec::new();
        assert(texts(lines@) =~= Seq::<Seq<char>>::empty());
        match (stage, input) {
            (Stage::Root(_), Input::Read(Reading::Sitemap(entries))) => {
                let starting = String::from_str("Starting...");
                proof {
                    lemma_texts_push(lines@, starting);
                }
                lines.push(starting);
                assert(texts(lines@) =~= seq![starting_line()]);
                let state = Agenda { visited, sitemaps: entries, pages, stage: Stage::Ended };
                state.proceed(lines)
            },
            (Stage::Root(_), Input::Read(Reading::Page { links, images })) => {
                let starting = String::from_str("Starting...");
                proof {
                    lemma_texts_push(lines@, starting);
                }
                lines.push(starting);
                assert(texts(lines@) =~= seq![starting_line()]);
                let state = Agenda { visited, sitemaps, pages, stage: Stage::Ended };
                state.check_links(links, images, lines)
            },
            (Stage::Root(_), Input::Read(Reading::Unreadable(error))) => {
                let state = Agenda { visited, sitemaps, pages, stage: Stage::Ended };
                state.halt(error, lines)
            },
            (Stage::Sitemap, Input::Read(Reading::Sitemap(entries))) => {
                let state = Agenda { visited, sitemaps, pages: entries, stage: Stage::Ended };
                state.proceed(lines)
            },
            (Stage::Sitemap, Input::Read(Reading::Unreadable(error))) => {
                let state = Agenda { visited, sitemaps, pages, stage: Stage::Ended };
                state.halt(error, lines)
            },
            (Stage::Page(_), Input::Read(Reading::Page { links, images })) => {
                let state = Agenda { visited, sitemaps, pages, stage: Stage::Ended };
                state.check_links(links, images, lines)
            },
            (Stage::Page(_), Input::Read(Reading::Unreadable(error))) => {
                let state = Agenda { visited, sitemaps, pages, stage: Stage::Ended };
                state.halt(error, lines)
            },
            (Stage::Root(_), Input::FetchFailed) => {
                let state = Agenda { visited, sitemaps, pages, stage: Stage::Ended };
                state.halt(CrawlError::FetchFailed, lines)
            },
            (Stage::Sitemap, Input::FetchFailed) => {
                let state = Agenda { visited, sitemaps, pages, stage: Stage::Ended };
                state.halt(CrawlError::FetchFailed, lines)
            },
            (Stage::Page(_), Input::FetchFailed) => {
                let state = Agenda { visited, sitemaps, pages, stage: Stage::Ended };
                state.halt(CrawlError::FetchFailed, lines)
            },
            (Stage::Links { images }, Input::Checked) => {
                let state = Agenda { visited, sitemaps, pages, stage: Stage::Ended };
                state.check_images(images, lines)
            },
            (Stage::Images, Input::Checked) => {
                let state = Agenda { visited, sitemaps, pages, stage: Stage::Ended };
                state.proceed(lines)
            },
            (Stage::Links { .. }, Input::TaskFailed) => {
                let state = Agenda { visited, sitemaps, pages, stage: Stage::Ended };
                state.halt(CrawlError::TaskFailed, lines)
            },
            (Stage::Images, Input::TaskFailed) => {
                let state = Agenda { visited, sitemaps, pages, stage: Stage::Ended };
                state.halt(CrawlError::TaskFailed, lines)
            },
            (_, _) => {
                let state = Agenda { visited, sitemaps, pages, stage: Stage::Ended };
                state.halt(CrawlError::UnexpectedEvent, lines)
            },
        }
    }

    /// Ends the crawl with `error`.
    fn halt(self, error: CrawlError, lines: Vec<String>) -> (next: (Agenda, Step))
        ensures
            (next.0@, next.1@) == halted(self@, error, texts(lines@)),
    {
        let state = Agenda {
            visited: self.visited,
            sitemaps: VecDeque::new(),
            pages: VecDeque::new(),
            stage: Stage::Ended,
        };
        assert(optional_texts(state.sitemaps@) =~= Seq::<Option<Seq<char>>>::empty());
        assert(optional_texts(state.pages@) =~= Seq::<Option<Seq<char>>>::empty());
        (state, Step { lines, action: Action::Abort(error) })
    }

    /// Turns to the next entry of the sitemaps, or completes the crawl.
    fn proceed(self, lines: Vec<String>) -> (next: (Agenda, Step))
        ensures
            (next.0@, next.1@) == proceeded(self@, texts(lines@)),
    {
        let Agenda { visited, sitemaps, pages, stage } = self;
        let mut visited = visited;
        let mut sitemaps = sitemaps;
        let mut pages = pages;
        match next_location(&mut pages, &mut visited) {
            Next::Fetch(url) => {
                let target = url.clone();
                let state = Agenda { visited, sitemaps, pages, stage: Stage::Page(url) };
                (state, Step { lines, action: Action::Fetch(target) })
            },
            Next::Invalid => {
                let state = Agenda { visited, sitemaps, pages, stage: Stage::Ended };
                state.halt(CrawlError::InvalidUrl, lines)
            },
            Next::Exhausted => match next_location(&mut sitemaps, &mut visited) {
                Next::Fetch(url) => {
                    let state = Agenda { visited, sitemaps, pages, stage: Stage::Sitemap };
                    (state, Step { lines, action: Action::Fetch(url) })
                },
                Next::Invalid => {
                    let state = Agenda { visited, sitemaps, pages, stage: Stage::Ended };
                    state.halt(CrawlError::InvalidUrl, lines)
                },
                Next::Exhausted => {
                    let mut lines = lines;
                    let done = String::from_str("Done!");
                    proof {
                        lemma_texts_push(lines@, done);
                    }
                    lines.push(done);
                    let state = Agenda { visited, sitemaps, pages, stage: Stage::Ended };
                    (state, Step { lines, action: Action::Finish })
                },
            },
        }
    }

    /// Passes the image candidates of a page through admission, then probes
    /// or proceeds.
    fn check_images(self, images: Vec<String>, lines: Vec<String>) -> (next: (Agenda, Step))
        ensures
            (next.0@, next.1@) == images_checked(self@, texts(images@), texts(lines@)),
    {
        let Agenda { visited, sitemaps, pages, stage } = self;
        let mut visited = visited;
        let batch = visited.admit_all(&images);
        if batch.len() > 0 {
            let state = Agenda { visited, sitemaps, pages, stage: Stage::Images };
            (state, Step { lines, action: Action::Probe(batch) })
        } else {
            let state = Agenda { visited, sitemaps, pages, stage };
            state.proceed(lines)
        }
    }

    /// Passes the link candidates of a page through admission, then probes
    /// or turns to the images.
    fn check_links(self, links: Vec<String>, images: Vec<String>, lines: Vec<String>) -> (next: (
        Agenda,
        Step,
    ))
        ensures
            (next.0@, next.1@) == links_checked(
                self@,
                texts(links@),
                texts(images@),
                texts(lines@),
            ),
    {
        let Agenda { visited, sitemaps, pages, stage } = self;
        let mut visited = visited;
        let batch = visited.admit_all(&links);
        if batch.len() > 0 {
            let state = Agenda { visited, sitemaps, pages, stage: Stage::Links { images } };
            (state, Step { lines, action: Action::Probe(batch) })
        } else {
            let state = Agenda { visited, sitemaps, pages, stage };
            state.check_images(images, lines)
        }
    }
}

} // verus!
