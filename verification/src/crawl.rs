//! The crawl as the caller drives it: the caller reports what came of the
//! last action, the crawl reads what arrived and lets the agenda decide.
//!
//! The caller fetches documents and probes URLs. Reading a document means
//! determining its base URL and extracting, as the stage of the crawl asks,
//! the entries of a sitemap or the candidate URLs of a page.

use vstd::prelude::*;
use crate::address::parse;
use crate::address::url_parse;
use crate::agenda::opened;
use crate::agenda::refused;
use crate::agenda::step;
use crate::agenda::Agenda;
use crate::agenda::AgendaView;
use crate::agenda::Input;
use crate::agenda::InputView;
use crate::agenda::Reading;
use crate::agenda::ReadingView;
use crate::agenda::Stage;
use crate::agenda::StageView;
use crate::agenda::Step;
use crate::agenda::StepView;
use crate::error::CrawlError;
use crate::markup::Kind;
use crate::page::base_url_of;
use crate::page::candidates;
use crate::page::find_candidates;
use crate::page::get_base_url;
use crate::scope::scope_for;
use crate::scope::scope_of;
use crate::sitemap::entries;
use crate::sitemap::read_sitemap;
use crate::text::texts;
use crate::visited::VisitedSet;

verus! {

/// What a crawl was asked to do.
#[derive(Clone, Copy, Debug, PartialEq, Eq, Structural)]
pub struct Options {
    /// Check the hyperlinks of each page.
    pub find_broken_links: bool,
    /// Check the images of each page.
    pub find_broken_images: bool,
    /// Read the root document as a sitemap of sitemaps of pages.
    pub is_xml_sitemap: bool,
}

/// What the caller reports back after performing an action.
#[derive(Debug, PartialEq, Eq)]
pub enum Event {
    /// The document that was asked for, as text.
    Fetched(String),
    /// The document that was asked for could not be fetched.
    FetchFailed,
    /// Every probe of the batch has completed and has been reported.
    Checked,
    /// A probe task of the batch could not be joined.
    TaskFailed,
}

/// An event, with its text as a sequence of characters.
#[verifier::ext_equal]
pub enum EventView {
    Fetched(Seq<char>),
    FetchFailed,
    Checked,
    TaskFailed,
}

impl View for Event {
    type V = EventView;

    open spec fn view(&self) -> EventView {
        match self {
            Event::Fetched(document) => EventView::Fetched(document@),
            Event::FetchFailed => EventView::FetchFailed,
            Event::Checked => EventView::Checked,
            Event::TaskFailed => EventView::TaskFailed,
        }
    }
}

/// The state of a crawl.
pub struct Crawl {
    options: Options,
    scope: String,
    agenda: Agenda,
}

/// The state of a crawl, as a mathematical value.
#[verifier::ext_equal]
pub struct CrawlView {
    /// What the crawl was asked to do.
    pub options: Options,
    /// The host by which sitemap locations are scoped; empty until the root
    /// sitemap has been read.
    pub scope: Seq<char>,
    /// The state of the crawl's decisions.
    pub agenda: AgendaView,
}

impl View for Crawl {
    type V = CrawlView;

    closed spec fn view(&self) -> CrawlView {
        CrawlView { options: self.options, scope: self.scope@, agenda: self.agenda@ }
    }
}

/// The candidates of one kind in a document, if that kind is checked.
pub open spec fn wanted(wanted: bool, base: Seq<char>, document: Seq<char>, kind: Kind) -> Seq<
    Seq<char>,
> {
    if wanted {
        candidates(base, document, kind)
    } else {
        Seq::empty()
    }
}

/// What is read from the page `document` that was fetched from `url`: the
/// candidates of the kinds that are checked, resolved against the page's
/// base URL. A page whose base is no absolute URL is unreadable.
pub open spec fn page_read(options: Options, url: Seq<char>, document: Seq<char>) -> ReadingView {
    match base_url_of(url, document) {
        Some(base) => ReadingView::Page {
            links: wanted(options.find_broken_links, base, document, Kind::Link),
            images: wanted(options.find_broken_images, base, document, Kind::Image),
        },
        None => ReadingView::Unreadable(CrawlError::InvalidUrl),
    }
}

/// The host that scopes a sitemap crawl whose root document `document` was
/// fetched from `url`: the host of the root document's base URL.
pub open spec fn root_scope(url: Seq<char>, document: Seq<char>) -> Result<Seq<char>, CrawlError> {
    match base_url_of(url, document) {
        Some(base) => scope_for(base),
        None => Err(CrawlError::InvalidUrl),
    }
}

/// What the crawl makes of `event` in `state`: the scope from then on, and
/// the input to its agenda. A document is read as the stage asks: the root
/// as a sitemap or a page, according to the options.
pub open spec fn perceived(state: CrawlView, event: EventView) -> (Seq<char>, InputView) {
    match event {
        EventView::Fetched(document) => match state.agenda.stage {
            StageView::Root(url) => if state.options.is_xml_sitemap {
                match root_scope(url, document) {
                    Ok(host) => (
                        host,
                        InputView::Read(ReadingView::Sitemap(entries(host, document))),
                    ),
                    Err(error) => (state.scope, InputView::Read(ReadingView::Unreadable(error))),
                }
            } else {
                (state.scope, InputView::Read(page_read(state.options, url, document)))
            },
            StageView::Sitemap => (
                state.scope,
                InputView::Read(ReadingView::Sitemap(entries(state.scope, document))),
            ),
            StageView::Page(url) => (
                state.scope,
                InputView::Read(page_read(state.options, url, document)),
            ),
            _ => (
                state.scope,
                InputView::Read(ReadingView::Unreadable(CrawlError::UnexpectedEvent)),
            ),
        },
        EventView::FetchFailed => (state.scope, InputView::FetchFailed),
        EventView::Checked => (state.scope, InputView::Checked),
        EventView::TaskFailed => (state.scope, InputView::TaskFailed),
    }
}

/// The next state and the step that answers `event` in `state`.
pub open spec fn advanced(state: CrawlView, event: EventView) -> (CrawlView, StepView) {
    let (scope, input) = perceived(state, event);
    let (agenda, answer) = step(state.agenda, input);
    (CrawlView { options: state.options, scope, agenda }, answer)
}

/// The state and the first step of a crawl of `url`: the root document is to
/// be fetched from the URL that `url` is read as, with nothing visited yet.
/// A `url` that is no absolute URL is fatal.
pub open spec fn started(url: Seq<char>, options: Options) -> (CrawlView, StepView) {
    let (agenda, answer) = match url_parse(url) {
        Some(root) => opened(root),
        None => refused(CrawlError::InvalidUrl),
    };
    (CrawlView { options, scope: Seq::empty(), agenda }, answer)
}

/// Reads a page: determines its base URL and finds the candidates of the
/// kinds that are checked.
pub fn read_page(options: Options, url: &str, document: &str) -> (reading: Reading)
    ensures
        reading@ == page_read(options, url@, document@),
{
    match get_base_url(url, document) {
        Ok(base) => {
            let links = if options.find_broken_links {
                find_candidates(base.as_str(), document, Kind::Link)
            } else {
                Vec::new()
            };
            let images = if options.find_broken_images {
                find_candidates(base.as_str(), document, Kind::Image)
            } else {
                Vec::new()
            };
            assert(!options.find_broken_links ==> texts(links@) =~= Seq::<Seq<char>>::empty());
            assert(!options.find_broken_images ==> texts(images@) =~= Seq::<Seq<char>>::empty());
            Reading::Page { links, images }
        },
        Err(_) => Reading::Unreadable(CrawlError::InvalidUrl),
    }
}

/// Determines the host that scopes a sitemap crawl from its root document.
/// Fails with `InvalidUrl` where the root document's base is no absolute
/// URL, with `MissingHost` where it names no host.
pub fn read_scope(url: &str, document: &str) -> (scope: Result<String, CrawlError>)
    ensures
        match scope {
            Ok(host) => root_scope(url@, document@) == Ok::<Seq<char>, CrawlError>(host@),
            Err(error) => root_scope(url@, document@) == Err::<Seq<char>, CrawlError>(error),
        },
{
    match get_base_url(url, document) {
        Ok(base) => scope_of(base.as_str()),
        Err(_) => Err(CrawlError::InvalidUrl),
    }
}

impl Crawl {
    /// Starts a crawl of `url`: the first step asks for the root document,
    /// or aborts where `url` is no absolute URL.
    pub fn start(url: &str, options: Options) -> (next: (Crawl, Step))
        ensures
            (next.0@, next.1@) == started(url@, options),
    {
        let (agenda, answer) = match parse(url) {
            Ok(root) => Agenda::open(root),
            Err(_) => Agenda::refuse(CrawlError::InvalidUrl),
        };
        (Crawl { options, scope: String::new(), agenda }, answer)
    }

    /// Answers `event`: reads what arrived, moves the crawl to its next
    /// state and says what the caller is to print and to do.
    pub fn advance(self, event: Event) -> (next: (Crawl, Step))
        ensures
            (next.0@, next.1@) == advanced(self@, event@),
    {
        let Crawl { options, scope, agenda } = self;
        let (scope, input) = match event {
            Event::Fetched(document) => match agenda.stage() {
                Stage::Root(url) => {
                    if options.is_xml_sitemap {
                        match read_scope(url.as_str(), document.as_str()) {
                            Ok(host) => {
                                let found = read_sitemap(document.as_str(), host.as_str());
                                (host, Input::Read(Reading::Sitemap(found)))
                            },
                            Err(error) => (scope, Input::Read(Reading::Unreadable(error))),
                        }
                    } else {
                        let reading = read_page(options, url.as_str(), document.as_str());
                        (scope, Input::Read(reading))
                    }
                },
                Stage::Sitemap => {
                    let found = read_sitemap(document.as_str(), scope.as_str());
                    (scope, Input::Read(Reading::Sitemap(found)))
                },
                Stage::Page(url) => {
                    let reading = read_page(options, url.as_str(), document.as_str());
                    (scope, Input::Read(reading))
                },
                _ => (scope, Input::Read(Reading::Unreadable(CrawlError::UnexpectedEvent))),
            },
            Event::FetchFailed => (scope, Input::FetchFailed),
            Event::Checked => (scope, Input::Checked),
            Event::TaskFailed => (scope, Input::TaskFailed),
        };
        let (agenda, answer) = agenda.step(input);
        (Crawl { options, scope, agenda }, answer)
    }

    /// What the crawl was asked to do.
    pub fn options(&self) -> (options: Options)
        ensures
            options == self@.options,
    {
        self.options
    }

    /// The state of the crawl's decisions.
    pub fn agenda(&self) -> (agenda: &Agenda)
        ensures
            agenda@ == self@.agenda,
    {
        &self.agenda
    }

    /// The URLs admitted so far.
    pub fn visited(&self) -> (ledger: &VisitedSet)
        ensures
            ledger@ == self@.agenda.visited,
    {
        self.agenda.visited()
    }

    /// Whether the crawl has finished or failed, so that no event is
    /// expected any more.
    pub fn is_ended(&self) -> (ended: bool)
        ensures
            ended == (self@.agenda.stage == StageView::Ended),
    {
        self.agenda.is_ended()
    }
}

} // verus!
