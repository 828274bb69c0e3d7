//! Classification of a reachability probe and the report line for it.

use vstd::prelude::*;
use vstd::string::StringExecFns;

verus! {

/// What a single probe of a URL came back with.
#[derive(Clone, Copy, Debug, PartialEq, Eq, Structural)]
pub enum Probe {
    /// The server answered with this HTTP status code.
    Status(u16),
    /// No answer was obtained: name resolution, connection or transfer failed.
    Unreachable,
}

/// The verdict on a probed URL.
#[derive(Clone, Copy, Debug, PartialEq, Eq, Structural)]
pub enum Outcome {
    /// Reported as `OK`.
    Reachable,
    /// Reported as `Broken`.
    Broken,
}

/// The only status code that counts as reachable.
pub const STATUS_OK: u16 = 200;

/// A probe is fine exactly when the server answered with status 200.
pub open spec fn outcome_of(probe: Probe) -> Outcome {
    match probe {
        Probe::Status(code) => if code == STATUS_OK {
            Outcome::Reachable
        } else {
            Outcome::Broken
        },
        Probe::Unreachable => Outcome::Broken,
    }
}

/// Classifies a probe: status 200 is `Reachable`, every other status and every
/// transport failure is `Broken`.
pub fn classify(probe: Probe) -> (outcome: Outcome)
    ensures
        outcome == outcome_of(probe),
{
    match probe {
        Probe::Status(code) => {
            if code == STATUS_OK {
                Outcome::Reachable
            } else {
                Outcome::Broken
            }
        },
        Probe::Unreachable => Outcome::Broken,
    }
}

/// Only a plain 200 counts: a probe is classified as reachable exactly when
/// the server answered with status 200, whatever URL was probed; every other
/// status and every failure to connect is classified as broken.
pub proof fn lemma_reachable_only_on_200(probe: Probe)
    ensures
        outcome_of(probe) == Outcome::Reachable <==> probe == Probe::Status(200),
        outcome_of(probe) == Outcome::Broken <==> probe != Probe::Status(200),
{
}

/// The text that follows the URL in a report line.
pub open spec fn verdict_text(outcome: Outcome) -> Seq<char> {
    match outcome {
        Outcome::Reachable => " is OK"@,
        Outcome::Broken => " is Broken"@,
    }
}

/// The report line for a checked URL: the URL, then ` is OK` or ` is Broken`.
pub open spec fn report_line_of(url: Seq<char>, outcome: Outcome) -> Seq<char> {
    url + verdict_text(outcome)
}

/// Renders the report line for a checked URL.
pub fn report_line(url: &str, outcome: Outcome) -> (line: String)
    ensures
        line@ == report_line_of(url@, outcome),
{
    let line = String::from_str(url);
    match outcome {
        Outcome::Reachable => line.concat(" is OK"),
        Outcome::Broken => line.concat(" is Broken"),
    }
}

/// Classifies a probe of `url` and renders its report line.
pub fn report(url: &str, probe: Probe) -> (line: String)
    ensures
        line@ == report_line_of(url@, outcome_of(probe)),
{
    report_line(url, classify(probe))
}

} // verus!
