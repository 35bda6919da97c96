//! `phylum project update`: the steps of an update (which project, which
//! questions, which requests), and what each field of the project becomes.
//! The caller performs each action and reports what came of it.

use vstd::prelude::*;

use crate::exit_code::ExitCode;
use crate::text::{opt_str, opt_view};

verus! {

/// How an update begins.
#[derive(Debug, Clone, Copy, PartialEq, Eq, Structural)]
pub enum UpdateStart {
    /// A project ID was given, but no change: warn and show the help.
    NothingToDo,
    /// No project ID was given: the update is interactive, starting with the
    /// choice of a project.
    ChooseProject,
    /// A project ID and at least one change were given.
    GivenProject,
}

/// How an update begins, given which arguments are there.
pub open spec fn update_start_for(id: bool, name: bool, repository_url: bool, default_label: bool) -> UpdateStart {
    if !id {
        UpdateStart::ChooseProject
    } else if !name && !repository_url && !default_label {
        UpdateStart::NothingToDo
    } else {
        UpdateStart::GivenProject
    }
}

/// How an update begins: without a project ID it is interactive; with one
/// it needs at least one change.
pub fn update_start(
    project_id: Option<&str>,
    name: Option<&str>,
    repository_url: Option<&str>,
    default_label: Option<&str>,
) -> (r: UpdateStart)
    ensures
        r == update_start_for(project_id is Some, name is Some, repository_url is Some, default_label is Some),
{
    if project_id.is_none() {
        UpdateStart::ChooseProject
    } else if name.is_none() && repository_url.is_none() && default_label.is_none() {
        UpdateStart::NothingToDo
    } else {
        UpdateStart::GivenProject
    }
}

/// Whether the user is asked about a field: for a new name, or whether the
/// repository URL or default label should change. Only in an interactive
/// update, and only for a field not given.
pub fn asks_to_change(interactive: bool, given: Option<&str>) -> (r: bool)
    ensures
        r == (interactive && given is None),
{
    interactive && given.is_none()
}

/// The new name: the one given; else, in an interactive update, the one
/// entered (the prompt offers the current name); else the current name.
pub fn new_name(given: Option<String>, interactive: bool, entered: Option<String>, current: String) -> (r: String)
    requires
        given is None && interactive ==> entered is Some,
    ensures
        r@ == match given {
            Some(n) => n@,
            None => if interactive {
                entered->0@
            } else {
                current@
            },
        },
{
    match given {
        Some(n) => n,
        None => if interactive {
            match entered {
                Some(e) => e,
                None => current,
            }
        } else {
            current
        },
    }
}

/// The new value of an optional field (repository URL, default label): the
/// one given; else, where the user chose to change it, the one entered;
/// else the current one.
pub fn new_optional_field(
    given: Option<String>,
    change: bool,
    entered: Option<String>,
    current: Option<String>,
) -> (r: Option<String>)
    ensures
        opt_view(r) == match given {
            Some(v) => Some(v@),
            None => if change {
                opt_view(entered)
            } else {
                opt_view(current)
            },
        },
{
    match given {
        Some(v) => Some(v),
        None => if change {
            entered
        } else {
            current
        },
    }
}

/// The answer to a prompt with an optional default: an empty input takes
/// the default.
pub fn prompt_answer(input: String, default: Option<String>) -> (r: Option<String>)
    ensures
        opt_view(r) == if input@.len() == 0 {
            opt_view(default)
        } else {
            Some(input@)
        },
{
    if input.unicode_len() == 0 {
        default
    } else {
        Some(input)
    }
}

/// Where an update stands.
#[derive(Debug, Clone, Copy, PartialEq, Eq, Structural)]
pub enum UpdatePhase {
    Start,
    /// The user is choosing the project.
    ChoosingProject,
    /// The project is being fetched.
    Fetching,
    /// The user is entering a new name.
    Naming,
    /// The user is asked whether the repository URL should change.
    AskingRepository,
    /// The user is entering a new repository URL.
    EnteringRepository,
    /// The user is asked whether the default label should change.
    AskingLabel,
    /// The user is entering a new default label.
    EnteringLabel,
    /// The update is being sent.
    Updating,
    /// The update is over.
    Finished,
}

/// The state of an update.
#[derive(Debug, Clone, Copy, PartialEq, Eq, Structural)]
pub struct UpdateState {
    pub phase: UpdatePhase,
    /// Whether the update is interactive (no project ID was given).
    pub interactive: bool,
    /// Which fields were given on the command line.
    pub name_given: bool,
    pub repository_given: bool,
    pub label_given: bool,
    /// Whether the user chose to change the repository URL.
    pub change_repository: bool,
    /// Whether the user chose to change the default label.
    pub change_label: bool,
}

/// What happened since the last action.
#[derive(Debug, Clone, Copy, PartialEq, Eq, Structural)]
pub enum UpdateEvent {
    /// The update begins.
    Begin,
    /// The user chose a project.
    ProjectChosen,
    /// The project was fetched.
    Fetched,
    /// The user entered a value.
    Entered,
    /// The user answered a yes/no question.
    Answered(bool),
    /// The update was accepted.
    Updated,
    /// The action failed; its error is the command's error.
    Failed,
}

/// What to do next.
#[derive(Debug, Clone, Copy, PartialEq, Eq, Structural)]
pub enum UpdateAction {
    /// Warn that no change was requested, show the command's help, and end
    /// with this code.
    NothingToDo(ExitCode),
    /// Ask the user for the project (and its group).
    ChooseProject,
    /// Fetch the project.
    FetchProject,
    /// Ask for the new name, offering the current one.
    PromptName,
    /// Ask whether the repository URL should change.
    AskChangeRepository,
    /// Ask for the new repository URL.
    PromptRepository,
    /// Ask whether the default label should change.
    AskChangeLabel,
    /// Ask for the new default label.
    PromptLabel,
    /// Send the update, each field as `new_name` and `new_optional_field`
    /// give it.
    Update,
    /// Report the update, and end with this code.
    Done(ExitCode),
    /// End with the error of the failed action.
    Fail,
}

/// An update of the project named on the command line (or of one to be
/// chosen, where none is), with the fields given there.
pub open spec fn update_initial(id: bool, name: bool, repository_url: bool, default_label: bool) -> UpdateState {
    UpdateState {
        phase: UpdatePhase::Start,
        interactive: !id,
        name_given: name,
        repository_given: repository_url,
        label_given: default_label,
        change_repository: false,
        change_label: false,
    }
}

/// Whether an action sends a request to the API.
pub open spec fn is_request(a: UpdateAction) -> bool {
    a == UpdateAction::FetchProject || a == UpdateAction::Update
}

/// Whether an action asks the user something.
pub open spec fn is_prompt(a: UpdateAction) -> bool {
    match a {
        UpdateAction::ChooseProject | UpdateAction::PromptName | UpdateAction::AskChangeRepository
        | UpdateAction::PromptRepository | UpdateAction::AskChangeLabel | UpdateAction::PromptLabel => true,
        _ => false,
    }
}

/// Whether an action ends the update.
pub open spec fn update_is_final(a: UpdateAction) -> bool {
    match a {
        UpdateAction::NothingToDo(_) | UpdateAction::Done(_) | UpdateAction::Fail => true,
        _ => false,
    }
}

/// The label question, where it is asked, else the update.
pub open spec fn after_repository(s: UpdateState) -> (UpdateState, UpdateAction) {
    if s.interactive && !s.label_given {
        (UpdateState { phase: UpdatePhase::AskingLabel, ..s }, UpdateAction::AskChangeLabel)
    } else {
        (UpdateState { phase: UpdatePhase::Updating, ..s }, UpdateAction::Update)
    }
}

/// The repository question, where it is asked, else what follows it.
pub open spec fn after_name(s: UpdateState) -> (UpdateState, UpdateAction) {
    if s.interactive && !s.repository_given {
        (UpdateState { phase: UpdatePhase::AskingRepository, ..s }, UpdateAction::AskChangeRepository)
    } else {
        after_repository(s)
    }
}

/// The name prompt, where it is shown, else what follows it.
pub open spec fn after_fetch(s: UpdateState) -> (UpdateState, UpdateAction) {
    if s.interactive && !s.name_given {
        (UpdateState { phase: UpdatePhase::Naming, ..s }, UpdateAction::PromptName)
    } else {
        after_name(s)
    }
}

/// The update ends with `action`.
pub open spec fn update_finish(s: UpdateState, action: UpdateAction) -> (UpdateState, UpdateAction) {
    (UpdateState { phase: UpdatePhase::Finished, ..s }, action)
}

/// The next state and action of an update.
///
/// A project ID without any change ends at once, successfully, with a
/// warning and the help. Otherwise the project is chosen (without an ID),
/// fetched, and, in an interactive update, the user is asked for each field
/// not given: a new name, then whether to change the repository URL and the
/// default label, and their new values. The update is then sent and
/// reported. Any failure, or an event that does not fit, ends it with an
/// error.
pub open spec fn update_next(s: UpdateState, e: UpdateEvent) -> (UpdateState, UpdateAction) {
    match (s.phase, e) {
        (UpdatePhase::Start, UpdateEvent::Begin) => match update_start_for(
            !s.interactive,
            s.name_given,
            s.repository_given,
            s.label_given,
        ) {
            UpdateStart::NothingToDo => update_finish(s, UpdateAction::NothingToDo(ExitCode::Success)),
            UpdateStart::ChooseProject => (
                UpdateState { phase: UpdatePhase::ChoosingProject, ..s },
                UpdateAction::ChooseProject,
            ),
            UpdateStart::GivenProject => (
                UpdateState { phase: UpdatePhase::Fetching, ..s },
                UpdateAction::FetchProject,
            ),
        },
        (UpdatePhase::ChoosingProject, UpdateEvent::ProjectChosen) => (
            UpdateState { phase: UpdatePhase::Fetching, ..s },
            UpdateAction::FetchProject,
        ),
        (UpdatePhase::Fetching, UpdateEvent::Fetched) => after_fetch(s),
        (UpdatePhase::Naming, UpdateEvent::Entered) => after_name(s),
        (UpdatePhase::AskingRepository, UpdateEvent::Answered(yes)) => if yes {
            (
                UpdateState { phase: UpdatePhase::EnteringRepository, change_repository: true, ..s },
                UpdateAction::PromptRepository,
            )
        } else {
            after_repository(s)
        },
        (UpdatePhase::EnteringRepository, UpdateEvent::Entered) => after_repository(s),
        (UpdatePhase::AskingLabel, UpdateEvent::Answered(yes)) => if yes {
            (
                UpdateState { phase: UpdatePhase::EnteringLabel, change_label: true, ..s },
                UpdateAction::PromptLabel,
            )
        } else {
            (UpdateState { phase: UpdatePhase::Updating, ..s }, UpdateAction::Update)
        },
        (UpdatePhase::EnteringLabel, UpdateEvent::Entered) => (
            UpdateState { phase: UpdatePhase::Updating, ..s },
            UpdateAction::Update,
        ),
        (UpdatePhase::Updating, UpdateEvent::Updated) => update_finish(s, UpdateAction::Done(ExitCode::Success)),
        _ => update_finish(s, UpdateAction::Fail),
    }
}

impl UpdateState {
    /// An update that has not begun, given which arguments are there.
    pub fn new(
        project_id: Option<&str>,
        name: Option<&str>,
        repository_url: Option<&str>,
        default_label: Option<&str>,
    ) -> (r: UpdateState)
        ensures
            r == update_initial(project_id is Some, name is Some, repository_url is Some, default_label is Some),
    {
        UpdateState {
            phase: UpdatePhase::Start,
            interactive: project_id.is_none(),
            name_given: name.is_some(),
            repository_given: repository_url.is_some(),
            label_given: default_label.is_some(),
            change_repository: false,
            change_label: false,
        }
    }
}

fn after_repository_step(s: UpdateState) -> (r: (UpdateState, UpdateAction))
    ensures
        r == after_repository(s),
{
    if s.interactive && !s.label_given {
        (UpdateState { phase: UpdatePhase::AskingLabel, ..s }, UpdateAction::AskChangeLabel)
    } else {
        (UpdateState { phase: UpdatePhase::Updating, ..s }, UpdateAction::Update)
    }
}

fn after_name_step(s: UpdateState) -> (r: (UpdateState, UpdateAction))
    ensures
        r == after_name(s),
{
    if s.interactive && !s.repository_given {
        (UpdateState { phase: UpdatePhase::AskingRepository, ..s }, UpdateAction::AskChangeRepository)
    } else {
        after_repository_step(s)
    }
}

/// One step of an update: the next state and what to do, given what just
/// happened. The update ends after any final action.
pub fn update_step(state: UpdateState, event: UpdateEvent) -> (r: (UpdateState, UpdateAction))
    ensures
        r == update_next(state, event),
        update_is_final(r.1) <==> r.0.phase == UpdatePhase::Finished,
{
    let s = state;
    let finished = UpdateState { phase: UpdatePhase::Finished, ..s };
    match (s.phase, event) {
        (UpdatePhase::Start, UpdateEvent::Begin) => if s.interactive {
            (UpdateState { phase: UpdatePhase::ChoosingProject, ..s }, UpdateAction::ChooseProject)
        } else if !s.name_given && !s.repository_given && !s.label_given {
            (finished, UpdateAction::NothingToDo(ExitCode::Success))
        } else {
            (UpdateState { phase: UpdatePhase::Fetching, ..s }, UpdateAction::FetchProject)
        },
        (UpdatePhase::ChoosingProject, UpdateEvent::ProjectChosen) => (
            UpdateState { phase: UpdatePhase::Fetching, ..s },
            UpdateAction::FetchProject,
        ),
        (UpdatePhase::Fetching, UpdateEvent::Fetched) => if s.interactive && !s.name_given {
            (UpdateState { phase: UpdatePhase::Naming, ..s }, UpdateAction::PromptName)
        } else {
            after_name_step(s)
        },
        (UpdatePhase::Naming, UpdateEvent::Entered) => after_name_step(s),
        (UpdatePhase::AskingRepository, UpdateEvent::Answered(yes)) => if yes {
            (
                UpdateState { phase: UpdatePhase::EnteringRepository, change_repository: true, ..s },
                UpdateAction::PromptRepository,
            )
        } else {
            after_repository_step(s)
        },
        (UpdatePhase::EnteringRepository, UpdateEvent::Entered) => after_repository_step(s),
        (UpdatePhase::AskingLabel, UpdateEvent::Answered(yes)) => if yes {
            (
                UpdateState { phase: UpdatePhase::EnteringLabel, change_label: true, ..s },
                UpdateAction::PromptLabel,
            )
        } else {
            (UpdateState { phase: UpdatePhase::Updating, ..s }, UpdateAction::Update)
        },
        (UpdatePhase::EnteringLabel, UpdateEvent::Entered) => (
            UpdateState { phase: UpdatePhase::Updating, ..s },
            UpdateAction::Update,
        ),
        (UpdatePhase::Updating, UpdateEvent::Updated) => (finished, UpdateAction::Done(ExitCode::Success)),
        _ => (finished, UpdateAction::Fail),
    }
}

/// A project ID without any change ends the update at once, successfully:
/// no request is sent and nothing is asked.
pub proof fn law_nothing_to_do(name: bool, repository_url: bool, default_label: bool)
    requires
        !name && !repository_url && !default_label,
    ensures
        update_next(update_initial(true, name, repository_url, default_label), UpdateEvent::Begin).1
            == UpdateAction::NothingToDo(ExitCode::Success),
        update_next(update_initial(true, name, repository_url, default_label), UpdateEvent::Begin).0.phase
            == UpdatePhase::Finished,
        !is_request(update_next(update_initial(true, name, repository_url, default_label), UpdateEvent::Begin).1),
        !is_prompt(update_next(update_initial(true, name, repository_url, default_label), UpdateEvent::Begin).1),
{
}

/// Where an update with a project ID can stand: it is not interactive, and
/// it is never in a phase that asks the user.
pub open spec fn direct_update(s: UpdateState) -> bool {
    &&& !s.interactive
    &&& (s.phase == UpdatePhase::Start || s.phase == UpdatePhase::Fetching || s.phase == UpdatePhase::Updating
        || s.phase == UpdatePhase::Finished)
}

/// An update with a project ID never asks the user anything, whatever
/// happens: it starts as a direct update, and every step keeps it one
/// without a prompt.
pub proof fn law_given_project_never_prompts(s: UpdateState, e: UpdateEvent)
    requires
        direct_update(s),
    ensures
        direct_update(update_initial(true, s.name_given, s.repository_given, s.label_given)),
        !is_prompt(update_next(s, e).1),
        direct_update(update_next(s, e).0),
{
}

/// Every update ends: each step from an unfinished state either finishes it
/// or brings it closer to its end.
pub proof fn law_update_ends(s: UpdateState, e: UpdateEvent)
    requires
        s.phase != UpdatePhase::Finished,
    ensures
        update_next(s, e).0.phase == UpdatePhase::Finished || update_rank(update_next(s, e).0) < update_rank(s),
{
}

/// An upper bound on the steps an update has left.
pub open spec fn update_rank(s: UpdateState) -> nat {
    match s.phase {
        UpdatePhase::Start => 9,
        UpdatePhase::ChoosingProject => 8,
        UpdatePhase::Fetching => 7,
        UpdatePhase::Naming => 6,
        UpdatePhase::AskingRepository => 5,
        UpdatePhase::EnteringRepository => 4,
        UpdatePhase::AskingLabel => 3,
        UpdatePhase::EnteringLabel => 2,
        UpdatePhase::Updating => 1,
        UpdatePhase::Finished => 0,
    }
}

/// The group an update names: an organization's group as `org/group`; a
/// group alone as it is; none without a group.
pub open spec fn update_group(org: Option<Seq<char>>, group: Option<Seq<char>>) -> Option<Seq<char>> {
    match (org, group) {
        (Some(o), Some(g)) => Some(o + "/"@ + g),
        (None, Some(g)) => Some(g),
        _ => None,
    }
}

/// The group name sent with an update.
pub fn update_group_name(org: Option<&str>, group: Option<&str>) -> (r: Option<String>)
    ensures
        opt_view(r) == update_group(opt_str(org), opt_str(group)),
{
    match (org, group) {
        (Some(o), Some(g)) => {
            let mut v: Vec<char> = Vec::new();
            crate::text::push_str(&mut v, o);
            crate::text::push_lit(&mut v, "/");
            crate::text::push_str(&mut v, g);
            Some(crate::text::string_of(&v))
        },
        (None, Some(g)) => Some(String::from_str(g)),
        _ => None,
    }
}

} // verus!
