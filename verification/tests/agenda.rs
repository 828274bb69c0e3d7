use std::collections::VecDeque;

use link_checker::agenda::{Action, Agenda, Input, Reading, Stage, Step};
use link_checker::error::CrawlError;

fn strings(items: &[&str]) -> Vec<String> {
    items.iter().map(|s| s.to_string()).collect()
}

fn entries(items: &[Option<&str>]) -> VecDeque<Option<String>> {
    items.iter().map(|item| item.map(|s| s.to_string())).collect()
}

fn sitemap(items: &[Option<&str>]) -> Input {
    Input::Read(Reading::Sitemap(entries(items)))
}

fn page(links: &[&str], images: &[&str]) -> Input {
    Input::Read(Reading::Page { links: strings(links), images: strings(images) })
}

fn fetch(url: &str) -> Action {
    Action::Fetch(url.to_string())
}

fn open(root: &str) -> Agenda {
    let (agenda, step) = Agenda::open(root.to_string());
    assert_eq!(step, Step { lines: vec![], action: fetch(root) });
    agenda
}

#[test]
fn open_asks_for_the_root() {
    let agenda = open("https://x.test/");
    assert_eq!(agenda.stage(), &Stage::Root("https://x.test/".to_string()));
    assert!(!agenda.is_ended());
    assert!(!agenda.visited().contains("https://x.test/"));
}

#[test]
fn refuse_aborts_at_once() {
    let (agenda, step) = Agenda::refuse(CrawlError::InvalidUrl);
    assert_eq!(step, Step { lines: vec![], action: Action::Abort(CrawlError::InvalidUrl) });
    assert!(agenda.is_ended());
}

#[test]
fn root_page_links_then_images_then_done() {
    let agenda = open("https://x.test/");
    let (agenda, step) = agenda.step(page(&["https://x.test/a", "https://x.test/b"], &["https://x.test/i.png"]));
    assert_eq!(
        step,
        Step {
            lines: strings(&["Starting..."]),
            action: Action::Probe(strings(&["https://x.test/a", "https://x.test/b"])),
        }
    );
    assert_eq!(agenda.stage(), &Stage::Links { images: strings(&["https://x.test/i.png"]) });
    let (agenda, step) = agenda.step(Input::Checked);
    assert_eq!(step, Step { lines: vec![], action: Action::Probe(strings(&["https://x.test/i.png"])) });
    assert_eq!(agenda.stage(), &Stage::Images);
    let (agenda, step) = agenda.step(Input::Checked);
    assert_eq!(step, Step { lines: strings(&["Done!"]), action: Action::Finish });
    assert_eq!(agenda.stage(), &Stage::Ended);
}

#[test]
fn candidates_are_admitted_once_across_kinds() {
    let agenda = open("https://x.test/");
    let (agenda, step) = agenda.step(page(
        &["https://x.test/a", "https://x.test/a", "https://x.test/i.png"],
        &["https://x.test/i.png", "https://x.test/j.png", "https://x.test/a"],
    ));
    assert_eq!(step.action, Action::Probe(strings(&["https://x.test/a", "https://x.test/i.png"])));
    let (_, step) = agenda.step(Input::Checked);
    assert_eq!(step.action, Action::Probe(strings(&["https://x.test/j.png"])));
}

#[test]
fn empty_batches_are_passed_over() {
    let agenda = open("https://x.test/");
    let (agenda, step) = agenda.step(page(&[], &["https://x.test/i.png"]));
    assert_eq!(step, Step { lines: strings(&["Starting..."]), action: Action::Probe(strings(&["https://x.test/i.png"])) });
    assert_eq!(agenda.stage(), &Stage::Images);

    let agenda = open("https://x.test/");
    let (agenda, step) = agenda.step(page(&[], &[]));
    assert_eq!(step, Step { lines: strings(&["Starting...", "Done!"]), action: Action::Finish });
    assert!(agenda.is_ended());
}

#[test]
fn images_already_visited_leave_nothing_to_probe() {
    let agenda = open("https://x.test/");
    let (agenda, step) = agenda.step(page(&["https://x.test/a"], &["https://x.test/a"]));
    assert_eq!(step.action, Action::Probe(strings(&["https://x.test/a"])));
    let (agenda, step) = agenda.step(Input::Checked);
    assert_eq!(step, Step { lines: strings(&["Done!"]), action: Action::Finish });
    assert!(agenda.is_ended());
}

#[test]
fn sitemap_walk_in_order() {
    let agenda = open("https://x.test/root.xml");
    let (agenda, step) = agenda.step(sitemap(&[Some("https://x.test/s1.xml"), Some("https://x.test/s2.xml")]));
    assert_eq!(step, Step { lines: strings(&["Starting..."]), action: fetch("https://x.test/s1.xml") });
    assert_eq!(agenda.stage(), &Stage::Sitemap);
    assert!(agenda.visited().contains("https://x.test/s1.xml"));
    assert!(!agenda.visited().contains("https://x.test/s2.xml"));

    let (agenda, step) = agenda.step(sitemap(&[Some("https://x.test/a.html"), Some("https://x.test/b.html")]));
    assert_eq!(step, Step { lines: vec![], action: fetch("https://x.test/a.html") });
    assert_eq!(agenda.stage(), &Stage::Page("https://x.test/a.html".to_string()));

    let (agenda, step) = agenda.step(page(&["https://x.test/b.html", "https://x.test/c"], &[]));
    assert_eq!(step.action, Action::Probe(strings(&["https://x.test/b.html", "https://x.test/c"])));

    let (agenda, step) = agenda.step(Input::Checked);
    assert_eq!(step, Step { lines: vec![], action: fetch("https://x.test/s2.xml") });
    assert_eq!(agenda.stage(), &Stage::Sitemap);

    let (agenda, step) = agenda.step(sitemap(&[Some("https://x.test/a.html"), Some("https://x.test/d.html")]));
    assert_eq!(step.action, fetch("https://x.test/d.html"));

    let (agenda, step) = agenda.step(page(&["https://x.test/c"], &[]));
    assert_eq!(step, Step { lines: strings(&["Done!"]), action: Action::Finish });
    assert!(agenda.is_ended());
}

#[test]
fn sitemap_entry_that_is_no_url_aborts_when_reached() {
    let agenda = open("https://x.test/root.xml");
    let (agenda, step) = agenda.step(sitemap(&[Some("https://x.test/s1.xml"), None, Some("https://x.test/s2.xml")]));
    assert_eq!(step.action, fetch("https://x.test/s1.xml"));
    let (agenda, step) = agenda.step(sitemap(&[]));
    assert_eq!(step, Step { lines: vec![], action: Action::Abort(CrawlError::InvalidUrl) });
    assert!(agenda.is_ended());
    assert!(!agenda.visited().contains("https://x.test/s2.xml"));
}

#[test]
fn page_entry_that_is_no_url_aborts_when_reached() {
    let agenda = open("https://x.test/root.xml");
    let (agenda, _) = agenda.step(sitemap(&[Some("https://x.test/s1.xml")]));
    let (agenda, step) = agenda.step(sitemap(&[None, Some("https://x.test/a.html")]));
    assert_eq!(step.action, Action::Abort(CrawlError::InvalidUrl));
    assert!(agenda.is_ended());
}

#[test]
fn first_entry_that_is_no_url_aborts_after_the_announcement() {
    let agenda = open("https://x.test/root.xml");
    let (_, step) = agenda.step(sitemap(&[None]));
    assert_eq!(step, Step { lines: strings(&["Starting..."]), action: Action::Abort(CrawlError::InvalidUrl) });
}

#[test]
fn empty_root_sitemap_is_done() {
    let agenda = open("https://x.test/root.xml");
    let (agenda, step) = agenda.step(sitemap(&[]));
    assert_eq!(step, Step { lines: strings(&["Starting...", "Done!"]), action: Action::Finish });
    assert!(agenda.is_ended());
}

#[test]
fn unreadable_document_aborts_with_its_error() {
    let agenda = open("https://x.test/");
    let (agenda, step) = agenda.step(Input::Read(Reading::Unreadable(CrawlError::MissingHost)));
    assert_eq!(step, Step { lines: vec![], action: Action::Abort(CrawlError::MissingHost) });
    assert!(agenda.is_ended());

    let agenda = open("https://x.test/root.xml");
    let (agenda, _) = agenda.step(sitemap(&[Some("https://x.test/s1.xml")]));
    let (agenda, _) = agenda.step(sitemap(&[Some("https://x.test/a.html")]));
    let (agenda, step) = agenda.step(Input::Read(Reading::Unreadable(CrawlError::InvalidUrl)));
    assert_eq!(step.action, Action::Abort(CrawlError::InvalidUrl));
    assert!(agenda.is_ended());
}

#[test]
fn fetch_failure_aborts_while_a_document_is_awaited() {
    let agenda = open("https://x.test/");
    let (agenda, step) = agenda.step(Input::FetchFailed);
    assert_eq!(step, Step { lines: vec![], action: Action::Abort(CrawlError::FetchFailed) });
    assert!(agenda.is_ended());

    let agenda = open("https://x.test/root.xml");
    let (agenda, _) = agenda.step(sitemap(&[Some("https://x.test/s1.xml")]));
    let (_, step) = agenda.step(Input::FetchFailed);
    assert_eq!(step.action, Action::Abort(CrawlError::FetchFailed));
}

#[test]
fn task_failure_aborts_while_a_batch_is_awaited() {
    let agenda = open("https://x.test/");
    let (agenda, _) = agenda.step(page(&["https://x.test/a"], &["https://x.test/i.png"]));
    let (agenda, step) = agenda.step(Input::TaskFailed);
    assert_eq!(step, Step { lines: vec![], action: Action::Abort(CrawlError::TaskFailed) });
    assert!(agenda.is_ended());

    let agenda = open("https://x.test/");
    let (agenda, _) = agenda.step(page(&[], &["https://x.test/i.png"]));
    let (_, step) = agenda.step(Input::TaskFailed);
    assert_eq!(step.action, Action::Abort(CrawlError::TaskFailed));
}

#[test]
fn input_that_answers_nothing_aborts() {
    let (_, step) = open("https://x.test/").step(Input::Checked);
    assert_eq!(step.action, Action::Abort(CrawlError::UnexpectedEvent));
    let (_, step) = open("https://x.test/").step(Input::TaskFailed);
    assert_eq!(step.action, Action::Abort(CrawlError::UnexpectedEvent));

    let agenda = open("https://x.test/");
    let (agenda, _) = agenda.step(page(&["https://x.test/a"], &[]));
    let (agenda, step) = agenda.step(page(&["https://x.test/b"], &[]));
    assert_eq!(step.action, Action::Abort(CrawlError::UnexpectedEvent));
    assert!(!agenda.visited().contains("https://x.test/b"));

    let agenda = open("https://x.test/");
    let (agenda, _) = agenda.step(page(&["https://x.test/a"], &[]));
    let (_, step) = agenda.step(Input::FetchFailed);
    assert_eq!(step.action, Action::Abort(CrawlError::UnexpectedEvent));
}

#[test]
fn sitemap_where_a_page_is_awaited_aborts() {
    let agenda = open("https://x.test/root.xml");
    let (agenda, _) = agenda.step(sitemap(&[Some("https://x.test/s1.xml")]));
    let (agenda, _) = agenda.step(sitemap(&[Some("https://x.test/a.html")]));
    let (_, step) = agenda.step(sitemap(&[Some("https://x.test/deeper.xml")]));
    assert_eq!(step.action, Action::Abort(CrawlError::UnexpectedEvent));
}

#[test]
fn page_where_a_sitemap_is_awaited_aborts() {
    let agenda = open("https://x.test/root.xml");
    let (agenda, _) = agenda.step(sitemap(&[Some("https://x.test/s1.xml")]));
    let (_, step) = agenda.step(page(&["https://x.test/a"], &[]));
    assert_eq!(step.action, Action::Abort(CrawlError::UnexpectedEvent));
}

#[test]
fn ended_agenda_refuses_every_input() {
    let (agenda, _) = open("https://x.test/").step(page(&[], &[]));
    let (agenda, step) = agenda.step(Input::Checked);
    assert_eq!(step, Step { lines: vec![], action: Action::Abort(CrawlError::UnexpectedEvent) });
    let (agenda, step) = agenda.step(sitemap(&[Some("https://x.test/s1.xml")]));
    assert_eq!(step.action, Action::Abort(CrawlError::UnexpectedEvent));
    assert!(agenda.is_ended());
    assert!(!agenda.visited().contains("https://x.test/s1.xml"));
}
