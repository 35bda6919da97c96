//! `phylum analyze`: the decisions between parsing the dependency files,
//! submitting their packages and reading the job's policy outcome. The
//! caller performs each action and reports what came of it.

use vstd::prelude::*;

use crate::exit_code::ExitCode;

verus! {

/// How parsing a dependency file failed.
#[derive(Debug, Clone, Copy, PartialEq, Eq, Structural)]
pub enum ParseFailure {
    /// The file is a manifest, and lockfile generation is disabled.
    ManifestWithoutGeneration,
    /// The file's format could not be recognised.
    UnknownManifestFormat,
    /// Any other failure.
    Other,
}

/// The dedicated exit code of a parse failure, if it has one.
pub open spec fn parse_failure_code(f: ParseFailure) -> Option<ExitCode> {
    match f {
        ParseFailure::ManifestWithoutGeneration => Some(ExitCode::ManifestWithoutGeneration),
        ParseFailure::UnknownManifestFormat => Some(ExitCode::UnknownManifestFormat),
        ParseFailure::Other => None,
    }
}

/// The dedicated exit code of a parse failure: `None` where the failure is
/// reported as an error instead.
pub fn parse_failure_exit(f: ParseFailure) -> (r: Option<ExitCode>)
    ensures
        r == parse_failure_code(f),
{
    match f {
        ParseFailure::ManifestWithoutGeneration => Some(ExitCode::ManifestWithoutGeneration),
        ParseFailure::UnknownManifestFormat => Some(ExitCode::UnknownManifestFormat),
        ParseFailure::Other => None,
    }
}

/// The failure a sandboxed parsing process reports through its exit status.
pub open spec fn child_failure(code: Option<i32>) -> ParseFailure {
    if code == Some(20i32) {
        ParseFailure::ManifestWithoutGeneration
    } else if code == Some(21i32) {
        ParseFailure::UnknownManifestFormat
    } else {
        ParseFailure::Other
    }
}

/// Reads the failure of a sandboxed parsing process that did not succeed
/// from its exit status: the dedicated exit codes name their failures, any
/// other status is a plain failure.
pub fn child_parse_failure(code: Option<i32>) -> (r: ParseFailure)
    ensures
        r == child_failure(code),
        match (code, parse_failure_code(r)) {
            (Some(c), Some(e)) => crate::exit_code::exit_code_value(e) == c,
            _ => true,
        },
{
    let without = ExitCode::ManifestWithoutGeneration.code();
    let unknown = ExitCode::UnknownManifestFormat.code();
    match code {
        Some(c) => if c == without {
            ParseFailure::ManifestWithoutGeneration
        } else if c == unknown {
            ParseFailure::UnknownManifestFormat
        } else {
            ParseFailure::Other
        },
        None => ParseFailure::Other,
    }
}

/// Where an analysis stands.
#[derive(Debug, Clone, Copy, PartialEq, Eq, Structural)]
pub enum AnalyzePhase {
    /// Nothing has been done yet.
    Start,
    /// The dependency file at `next` is being parsed.
    Parsing,
    /// The file just parsed is being reported.
    Announcing,
    /// The packages to ignore are being read.
    ReadingIgnored,
    /// The packages are being submitted.
    Submitting,
    /// The new job's ID is being reported.
    AnnouncingJob,
    /// The job's status is being requested.
    AwaitingStatus,
    /// The analysis is over.
    Finished,
}

/// The state of an analysis.
#[derive(Debug, Clone, Copy, PartialEq, Eq, Structural)]
pub struct AnalyzeState {
    pub phase: AnalyzePhase,
    /// How many dependency files there are.
    pub depfiles: usize,
    /// How many of them have been parsed.
    pub next: usize,
    /// Whether any parsed file held a package.
    pub has_packages: bool,
    /// Whether output is for people (rather than JSON).
    pub pretty: bool,
}

/// What happened since the last action.
#[derive(Debug, Clone, Copy, PartialEq, Eq, Structural)]
pub enum AnalyzeEvent {
    /// The analysis begins.
    Begin,
    /// The dependency file was parsed and held this many packages.
    Parsed(usize),
    /// The dependency file could not be parsed.
    ParseFailed(ParseFailure),
    /// The action that only reports or reads finished.
    Done,
    /// The packages were submitted and a job was created.
    Submitted,
    /// The job's status came back.
    Status { is_failure: bool },
    /// The job's status could not be found.
    StatusNotFound,
    /// The action failed; its error is the command's error.
    Failed,
}

/// What to do next.
#[derive(Debug, Clone, Copy, PartialEq, Eq, Structural)]
pub enum AnalyzeAction {
    /// Parse the dependency file at this index.
    Parse(usize),
    /// Report that the file just parsed was parsed.
    AnnounceParsed,
    /// Read the packages to ignore (the `--base` file, if any).
    ReadIgnored,
    /// Submit the packages for analysis.
    Submit,
    /// Report the new job's ID.
    AnnounceJob,
    /// Request the job's status, and show it.
    RequestStatus,
    /// Report that the manifest could not be parsed, and end with this code.
    ManifestFailure(ExitCode),
    /// Warn that no packages were found, and end successfully.
    NoPackages,
    /// Warn that the job has no results, and end with `NotFound`.
    NoResults,
    /// End with this code.
    Exit(ExitCode),
    /// End with the error of the failed action.
    Fail,
}

/// A state the analysis can be in: never past its last dependency file, and
/// while parsing, at one of them.
pub open spec fn analyze_wf(s: AnalyzeState) -> bool {
    &&& s.next <= s.depfiles
    &&& s.phase == AnalyzePhase::Parsing ==> s.next < s.depfiles
}

/// Go on after a parsed file: parse the next one, or read the packages to
/// ignore once none is left.
pub open spec fn after_parse(s: AnalyzeState) -> (AnalyzeState, AnalyzeAction) {
    if s.next < s.depfiles {
        (AnalyzeState { phase: AnalyzePhase::Parsing, ..s }, AnalyzeAction::Parse(s.next))
    } else {
        (AnalyzeState { phase: AnalyzePhase::ReadingIgnored, ..s }, AnalyzeAction::ReadIgnored)
    }
}

/// The analysis ends with `action`.
pub open spec fn finish(s: AnalyzeState, action: AnalyzeAction) -> (AnalyzeState, AnalyzeAction) {
    (AnalyzeState { phase: AnalyzePhase::Finished, ..s }, action)
}

/// The next state and action of an analysis.
///
/// Each file is parsed in turn, and reported when the output is for people.
/// A manifest that cannot be parsed ends the analysis with its dedicated
/// exit code, any other failure with an error. When no file held a package,
/// the analysis ends successfully without a job. Otherwise the packages are
/// submitted, and the job's policy outcome decides the exit code. Any event
/// that does not fit the phase ends the analysis with an error.
pub open spec fn analyze_next(s: AnalyzeState, e: AnalyzeEvent) -> (AnalyzeState, AnalyzeAction) {
    match (s.phase, e) {
        (AnalyzePhase::Start, AnalyzeEvent::Begin) => after_parse(s),
        (AnalyzePhase::Parsing, AnalyzeEvent::Parsed(n)) => {
            let s2 = AnalyzeState { next: (s.next + 1) as usize, has_packages: s.has_packages || n > 0, ..s };
            if s.pretty {
                (AnalyzeState { phase: AnalyzePhase::Announcing, ..s2 }, AnalyzeAction::AnnounceParsed)
            } else {
                after_parse(s2)
            }
        },
        (AnalyzePhase::Parsing, AnalyzeEvent::ParseFailed(f)) => match parse_failure_code(f) {
            Some(code) => finish(s, AnalyzeAction::ManifestFailure(code)),
            None => finish(s, AnalyzeAction::Fail),
        },
        (AnalyzePhase::Announcing, AnalyzeEvent::Done) => after_parse(s),
        (AnalyzePhase::ReadingIgnored, AnalyzeEvent::Done) => if s.has_packages {
            (AnalyzeState { phase: AnalyzePhase::Submitting, ..s }, AnalyzeAction::Submit)
        } else {
            finish(s, AnalyzeAction::NoPackages)
        },
        (AnalyzePhase::Submitting, AnalyzeEvent::Submitted) => if s.pretty {
            (AnalyzeState { phase: AnalyzePhase::AnnouncingJob, ..s }, AnalyzeAction::AnnounceJob)
        } else {
            (AnalyzeState { phase: AnalyzePhase::AwaitingStatus, ..s }, AnalyzeAction::RequestStatus)
        },
        (AnalyzePhase::AnnouncingJob, AnalyzeEvent::Done) => (
            AnalyzeState { phase: AnalyzePhase::AwaitingStatus, ..s },
            AnalyzeAction::RequestStatus,
        ),
        (AnalyzePhase::AwaitingStatus, AnalyzeEvent::Status { is_failure }) => if is_failure {
            finish(s, AnalyzeAction::Exit(ExitCode::FailedPolicy))
        } else {
            finish(s, AnalyzeAction::Exit(ExitCode::Success))
        },
        (AnalyzePhase::AwaitingStatus, AnalyzeEvent::StatusNotFound) => finish(s, AnalyzeAction::NoResults),
        _ => finish(s, AnalyzeAction::Fail),
    }
}

/// Whether an action ends the analysis.
pub open spec fn is_final(a: AnalyzeAction) -> bool {
    match a {
        AnalyzeAction::ManifestFailure(_) | AnalyzeAction::NoPackages | AnalyzeAction::NoResults
        | AnalyzeAction::Exit(_) | AnalyzeAction::Fail => true,
        _ => false,
    }
}

impl AnalyzeState {
    /// An analysis of `depfiles` dependency files that has not begun.
    pub fn new(depfiles: usize, pretty: bool) -> (r: AnalyzeState)
        ensures
            r == (AnalyzeState { phase: AnalyzePhase::Start, depfiles, next: 0, has_packages: false, pretty }),
            analyze_wf(r),
    {
        AnalyzeState { phase: AnalyzePhase::Start, depfiles, next: 0, has_packages: false, pretty }
    }
}

/// Go on after a parsed file.
fn after_parse_step(s: AnalyzeState) -> (r: (AnalyzeState, AnalyzeAction))
    ensures
        r == after_parse(s),
{
    if s.next < s.depfiles {
        (AnalyzeState { phase: AnalyzePhase::Parsing, ..s }, AnalyzeAction::Parse(s.next))
    } else {
        (AnalyzeState { phase: AnalyzePhase::ReadingIgnored, ..s }, AnalyzeAction::ReadIgnored)
    }
}

/// One step of an analysis: the next state and what to do, given what just
/// happened. The analysis ends after any final action; the state stays
/// well formed.
pub fn analyze_step(state: AnalyzeState, event: AnalyzeEvent) -> (r: (AnalyzeState, AnalyzeAction))
    requires
        analyze_wf(state),
    ensures
        r == analyze_next(state, event),
        analyze_wf(r.0),
        is_final(r.1) <==> r.0.phase == AnalyzePhase::Finished,
{
    let s = state;
    match (s.phase, event) {
        (AnalyzePhase::Start, AnalyzeEvent::Begin) => after_parse_step(s),
        (AnalyzePhase::Parsing, AnalyzeEvent::Parsed(n)) => {
            let s2 = AnalyzeState { next: s.next + 1, has_packages: s.has_packages || n > 0, ..s };
            if s.pretty {
                (AnalyzeState { phase: AnalyzePhase::Announcing, ..s2 }, AnalyzeAction::AnnounceParsed)
            } else {
                after_parse_step(s2)
            }
        },
        (AnalyzePhase::Parsing, AnalyzeEvent::ParseFailed(f)) => match parse_failure_exit(f) {
            Some(code) => (AnalyzeState { phase: AnalyzePhase::Finished, ..s }, AnalyzeAction::ManifestFailure(code)),
            None => (AnalyzeState { phase: AnalyzePhase::Finished, ..s }, AnalyzeAction::Fail),
        },
        (AnalyzePhase::Announcing, AnalyzeEvent::Done) => after_parse_step(s),
        (AnalyzePhase::ReadingIgnored, AnalyzeEvent::Done) => if s.has_packages {
            (AnalyzeState { phase: AnalyzePhase::Submitting, ..s }, AnalyzeAction::Submit)
        } else {
            (AnalyzeState { phase: AnalyzePhase::Finished, ..s }, AnalyzeAction::NoPackages)
        },
        (AnalyzePhase::Submitting, AnalyzeEvent::Submitted) => if s.pretty {
            (AnalyzeState { phase: AnalyzePhase::AnnouncingJob, ..s }, AnalyzeAction::AnnounceJob)
        } else {
            (AnalyzeState { phase: AnalyzePhase::AwaitingStatus, ..s }, AnalyzeAction::RequestStatus)
        },
        (AnalyzePhase::AnnouncingJob, AnalyzeEvent::Done) => (
            AnalyzeState { phase: AnalyzePhase::AwaitingStatus, ..s },
            AnalyzeAction::RequestStatus,
        ),
        (AnalyzePhase::AwaitingStatus, AnalyzeEvent::Status { is_failure }) => if is_failure {
            (AnalyzeState { phase: AnalyzePhase::Finished, ..s }, AnalyzeAction::Exit(ExitCode::FailedPolicy))
        } else {
            (AnalyzeState { phase: AnalyzePhase::Finished, ..s }, AnalyzeAction::Exit(ExitCode::Success))
        },
        (AnalyzePhase::AwaitingStatus, AnalyzeEvent::StatusNotFound) => (
            AnalyzeState { phase: AnalyzePhase::Finished, ..s },
            AnalyzeAction::NoResults,
        ),
        _ => (AnalyzeState { phase: AnalyzePhase::Finished, ..s }, AnalyzeAction::Fail),
    }
}

/// An upper bound on the steps an analysis has left.
pub open spec fn analyze_rank(s: AnalyzeState) -> nat {
    let left = (s.depfiles - s.next) as nat;
    match s.phase {
        AnalyzePhase::Start => 2 * (s.depfiles as nat) + 5,
        AnalyzePhase::Parsing => 2 * left + 4,
        AnalyzePhase::Announcing => 2 * left + 5,
        AnalyzePhase::ReadingIgnored => 4,
        AnalyzePhase::Submitting => 3,
        AnalyzePhase::AnnouncingJob => 2,
        AnalyzePhase::AwaitingStatus => 1,
        AnalyzePhase::Finished => 0,
    }
}

/// Every analysis ends: each step from an unfinished state either finishes
/// it or brings it closer to its end, whatever the event.
pub proof fn law_analyze_ends(s: AnalyzeState, e: AnalyzeEvent)
    requires
        analyze_wf(s),
        s.phase != AnalyzePhase::Finished,
    ensures
        analyze_next(s, e).0.phase == AnalyzePhase::Finished || analyze_rank(analyze_next(s, e).0)
            < analyze_rank(s),
{
}

/// What ends an analysis: a job is only submitted when some dependency
/// file held a package; it ends successfully only for a job that passed its
/// policy or without packages; it fails the policy only when the job's
/// status says so.
pub proof fn law_analyze_outcomes(s: AnalyzeState, e: AnalyzeEvent)
    ensures
        analyze_next(s, e).1 == AnalyzeAction::Submit ==> s.has_packages,
        analyze_next(s, e).1 == AnalyzeAction::NoPackages ==> !s.has_packages,
        analyze_next(s, e).1 == AnalyzeAction::Exit(ExitCode::Success) ==> (s.phase
            == AnalyzePhase::AwaitingStatus && e == (AnalyzeEvent::Status { is_failure: false })),
        analyze_next(s, e).1 == AnalyzeAction::Exit(ExitCode::FailedPolicy) ==> (e == (
        AnalyzeEvent::Status { is_failure: true })),
{
}

} // verus!
