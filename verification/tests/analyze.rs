use phylum_cli::analyze::{
    analyze_step, child_parse_failure, parse_failure_exit, AnalyzeAction, AnalyzeEvent, AnalyzePhase,
    AnalyzeState, ParseFailure,
};
use phylum_cli::exit_code::ExitCode;

/// Runs an analysis on the given events and collects the actions.
fn run(depfiles: usize, pretty: bool, events: &[AnalyzeEvent]) -> (AnalyzeState, Vec<AnalyzeAction>) {
    let mut state = AnalyzeState::new(depfiles, pretty);
    let mut actions = Vec::new();
    for event in events {
        let (next, action) = analyze_step(state, *event);
        state = next;
        actions.push(action);
    }
    (state, actions)
}

#[test]
fn analysis_parses_submits_and_passes() {
    let (state, actions) = run(
        2,
        false,
        &[
            AnalyzeEvent::Begin,
            AnalyzeEvent::Parsed(3),
            AnalyzeEvent::Parsed(0),
            AnalyzeEvent::Done,
            AnalyzeEvent::Submitted,
            AnalyzeEvent::Status { is_failure: false },
        ],
    );
    assert_eq!(
        actions,
        vec![
            AnalyzeAction::Parse(0),
            AnalyzeAction::Parse(1),
            AnalyzeAction::ReadIgnored,
            AnalyzeAction::Submit,
            AnalyzeAction::RequestStatus,
            AnalyzeAction::Exit(ExitCode::Success),
        ]
    );
    assert_eq!(state.phase, AnalyzePhase::Finished);
    assert!(state.has_packages);
}

#[test]
fn pretty_analysis_announces_files_and_job() {
    let (_, actions) = run(
        1,
        true,
        &[
            AnalyzeEvent::Begin,
            AnalyzeEvent::Parsed(1),
            AnalyzeEvent::Done,
            AnalyzeEvent::Done,
            AnalyzeEvent::Submitted,
            AnalyzeEvent::Done,
            AnalyzeEvent::Status { is_failure: true },
        ],
    );
    assert_eq!(
        actions,
        vec![
            AnalyzeAction::Parse(0),
            AnalyzeAction::AnnounceParsed,
            AnalyzeAction::ReadIgnored,
            AnalyzeAction::Submit,
            AnalyzeAction::AnnounceJob,
            AnalyzeAction::RequestStatus,
            AnalyzeAction::Exit(ExitCode::FailedPolicy),
        ]
    );
}

#[test]
fn no_packages_end_without_a_job() {
    let (_, actions) = run(1, false, &[AnalyzeEvent::Begin, AnalyzeEvent::Parsed(0), AnalyzeEvent::Done]);
    assert_eq!(actions, vec![AnalyzeAction::Parse(0), AnalyzeAction::ReadIgnored, AnalyzeAction::NoPackages]);
    let (_, actions) = run(0, true, &[AnalyzeEvent::Begin, AnalyzeEvent::Done]);
    assert_eq!(actions, vec![AnalyzeAction::ReadIgnored, AnalyzeAction::NoPackages]);
}

#[test]
fn manifest_failures_have_their_exit_codes() {
    let (state, actions) = run(
        2,
        false,
        &[AnalyzeEvent::Begin, AnalyzeEvent::ParseFailed(ParseFailure::ManifestWithoutGeneration)],
    );
    assert_eq!(actions[1], AnalyzeAction::ManifestFailure(ExitCode::ManifestWithoutGeneration));
    assert_eq!(state.phase, AnalyzePhase::Finished);
    let (_, actions) = run(
        1,
        false,
        &[AnalyzeEvent::Begin, AnalyzeEvent::ParseFailed(ParseFailure::UnknownManifestFormat)],
    );
    assert_eq!(actions[1], AnalyzeAction::ManifestFailure(ExitCode::UnknownManifestFormat));
    let (_, actions) = run(1, false, &[AnalyzeEvent::Begin, AnalyzeEvent::ParseFailed(ParseFailure::Other)]);
    assert_eq!(actions[1], AnalyzeAction::Fail);
}

#[test]
fn missing_job_status_is_not_found() {
    let (_, actions) = run(
        1,
        false,
        &[
            AnalyzeEvent::Begin,
            AnalyzeEvent::Parsed(2),
            AnalyzeEvent::Done,
            AnalyzeEvent::Submitted,
            AnalyzeEvent::StatusNotFound,
        ],
    );
    assert_eq!(actions[4], AnalyzeAction::NoResults);
}

#[test]
fn failures_and_stray_events_end_with_an_error() {
    let (_, actions) = run(1, false, &[AnalyzeEvent::Begin, AnalyzeEvent::Parsed(2), AnalyzeEvent::Failed]);
    assert_eq!(actions[2], AnalyzeAction::Fail);
    let (state, actions) = run(1, false, &[AnalyzeEvent::Submitted]);
    assert_eq!(actions, vec![AnalyzeAction::Fail]);
    assert_eq!(state.phase, AnalyzePhase::Finished);
}

#[test]
fn parse_failures_from_exit_status() {
    assert_eq!(child_parse_failure(Some(20)), ParseFailure::ManifestWithoutGeneration);
    assert_eq!(child_parse_failure(Some(21)), ParseFailure::UnknownManifestFormat);
    assert_eq!(child_parse_failure(Some(1)), ParseFailure::Other);
    assert_eq!(child_parse_failure(None), ParseFailure::Other);
    assert_eq!(parse_failure_exit(ParseFailure::ManifestWithoutGeneration), Some(ExitCode::ManifestWithoutGeneration));
    assert_eq!(parse_failure_exit(ParseFailure::Other), None);
    assert_eq!(ExitCode::UnknownManifestFormat.code(), 21);
}
