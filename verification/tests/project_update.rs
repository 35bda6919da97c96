use phylum_cli::exit_code::ExitCode;
use phylum_cli::project_update::{
    asks_to_change, new_name, new_optional_field, prompt_answer, update_group_name, update_start,
    update_step, UpdateAction, UpdateEvent, UpdatePhase, UpdateStart, UpdateState,
};

fn run(state: UpdateState, events: &[UpdateEvent]) -> (UpdateState, Vec<UpdateAction>) {
    let mut state = state;
    let mut actions = Vec::new();
    for event in events {
        let (next, action) = update_step(state, *event);
        state = next;
        actions.push(action);
    }
    (state, actions)
}

#[test]
fn nothing_to_update_ends_at_once() {
    let (state, actions) = run(UpdateState::new(Some("id"), None, None, None), &[UpdateEvent::Begin]);
    assert_eq!(actions, vec![UpdateAction::NothingToDo(ExitCode::Success)]);
    assert_eq!(state.phase, UpdatePhase::Finished);
}

#[test]
fn direct_updates_fetch_then_update() {
    let (_, actions) = run(
        UpdateState::new(Some("id"), Some("n"), None, None),
        &[UpdateEvent::Begin, UpdateEvent::Fetched, UpdateEvent::Updated],
    );
    assert_eq!(actions, vec![UpdateAction::FetchProject, UpdateAction::Update, UpdateAction::Done(ExitCode::Success)]);
}

#[test]
fn interactive_updates_ask_for_each_field() {
    let (state, actions) = run(
        UpdateState::new(None, None, None, Some("main")),
        &[
            UpdateEvent::Begin,
            UpdateEvent::ProjectChosen,
            UpdateEvent::Fetched,
            UpdateEvent::Entered,
            UpdateEvent::Answered(true),
            UpdateEvent::Entered,
            UpdateEvent::Updated,
        ],
    );
    assert_eq!(
        actions,
        vec![
            UpdateAction::ChooseProject,
            UpdateAction::FetchProject,
            UpdateAction::PromptName,
            UpdateAction::AskChangeRepository,
            UpdateAction::PromptRepository,
            UpdateAction::Update,
            UpdateAction::Done(ExitCode::Success),
        ]
    );
    assert!(state.change_repository && !state.change_label);
    let (state, actions) = run(
        UpdateState::new(None, Some("n"), Some("r"), None),
        &[UpdateEvent::Begin, UpdateEvent::ProjectChosen, UpdateEvent::Fetched, UpdateEvent::Answered(false)],
    );
    assert_eq!(actions[2], UpdateAction::AskChangeLabel);
    assert_eq!(actions[3], UpdateAction::Update);
    assert!(!state.change_label);
}

#[test]
fn failed_updates_end_with_an_error() {
    let (state, actions) = run(UpdateState::new(Some("id"), Some("n"), None, None), &[UpdateEvent::Begin, UpdateEvent::Failed]);
    assert_eq!(actions[1], UpdateAction::Fail);
    assert_eq!(state.phase, UpdatePhase::Finished);
}

#[test]
fn update_group_names() {
    assert_eq!(update_group_name(Some("org"), Some("grp")), Some("org/grp".to_string()));
    assert_eq!(update_group_name(None, Some("grp")), Some("grp".to_string()));
    assert_eq!(update_group_name(Some("org"), None), None);
    assert_eq!(update_group_name(None, None), None);
}

#[test]
fn updates_need_a_project_or_prompt_for_one() {
    assert_eq!(update_start(None, None, None, None), UpdateStart::ChooseProject);
    assert_eq!(update_start(None, Some("n"), None, None), UpdateStart::ChooseProject);
    assert_eq!(update_start(Some("id"), None, None, None), UpdateStart::NothingToDo);
    assert_eq!(update_start(Some("id"), None, Some("https://x"), None), UpdateStart::GivenProject);
    assert_eq!(update_start(Some("id"), None, None, Some("main")), UpdateStart::GivenProject);
}

#[test]
fn only_interactive_updates_ask() {
    assert!(asks_to_change(true, None));
    assert!(!asks_to_change(true, Some("x")));
    assert!(!asks_to_change(false, None));
}

#[test]
fn new_project_fields() {
    assert_eq!(new_name(Some("given".into()), true, None, "old".into()), "given");
    assert_eq!(new_name(None, true, Some("typed".into()), "old".into()), "typed");
    assert_eq!(new_name(None, false, None, "old".into()), "old");

    assert_eq!(new_optional_field(Some("g".into()), true, Some("e".into()), Some("c".into())), Some("g".into()));
    assert_eq!(new_optional_field(None, true, None, Some("c".into())), None);
    assert_eq!(new_optional_field(None, true, Some("e".into()), Some("c".into())), Some("e".into()));
    assert_eq!(new_optional_field(None, false, Some("e".into()), Some("c".into())), Some("c".into()));
}

#[test]
fn empty_answers_take_the_default() {
    assert_eq!(prompt_answer(String::new(), Some("d".into())), Some("d".into()));
    assert_eq!(prompt_answer(String::new(), None), None);
    assert_eq!(prompt_answer("x".into(), Some("d".into())), Some("x".into()));
}
