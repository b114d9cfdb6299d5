use dips::commands::bus::{next, startup_events, BusInput, TerminalEvent, TICK_MILLIS};
use dips::commands::keymap::{
    handle_global_events, handle_help_events, handle_key_events, handle_page_events,
    handle_prompt_events, KeyCode, KeyEvent, KeyEventKind, KeyModifiers,
};
use dips::commands::page::{PageType};
use dips::commands::prompt::{Command, PromptStyle};
use dips::commands::session::{Action, AppState, DataPayload, Event, PromptEvent, SearchMode};
use dips::models::dip::{DipRowFull, DipTags};
use dips::models::dir_context::DirContext;

const NONE: KeyModifiers = KeyModifiers {
    shift: false,
    control: false,
    alt: false,
    super_key: false,
    hyper: false,
    meta: false,
};

const CONTROL: KeyModifiers = KeyModifiers {
    shift: false,
    control: true,
    alt: false,
    super_key: false,
    hyper: false,
    meta: false,
};

fn key(code: KeyCode) -> KeyEvent {
    KeyEvent { code, modifiers: NONE, kind: KeyEventKind::Press }
}

fn row(id: u128) -> DipRowFull {
    DipRowFull {
        id,
        value: "v".to_string(),
        note: None,
        dir_context_id: None,
        created_at: 0,
        updated_at: 0,
        git_remote: None,
        git_dir_name: None,
        dir_path: None,
        tags: DipTags::of(Vec::new()),
    }
}

fn on_dips(ids: &[u128]) -> AppState {
    let mut state = AppState::new();
    state.apply(Event::Nav(PageType::Dips { scope_id: None }));
    state.apply(Event::LoadData(DataPayload::Dips {
        scope_id: None,
        items: ids.iter().map(|id| row(*id)).collect(),
    }));
    state
}

fn on_scopes(ids: &[u128]) -> AppState {
    let mut state = AppState::new();
    state.apply(Event::Nav(PageType::Scopes));
    state.apply(Event::LoadData(DataPayload::Scopes(
        ids.iter().map(|id| DirContext::stamped(*id, 0, "/a", None, None)).collect(),
    )));
    state
}

fn complaint(msg: &'static str) -> Option<Event> {
    Some(Event::Prompt(PromptEvent::Message { msg, style: PromptStyle::Danger }))
}

#[test]
fn control_c_quits_wherever_the_keys_go() {
    let chord = KeyEvent { code: KeyCode::Char('c'), modifiers: CONTROL, kind: KeyEventKind::Press };
    assert_eq!(handle_global_events(&chord), Some(Event::QuitSignal));
    let mut state = on_dips(&[1]);
    assert_eq!(handle_key_events(chord, &state), Some(Event::QuitSignal));
    state.apply(Event::Prompt(PromptEvent::Focus));
    assert_eq!(handle_key_events(chord, &state), Some(Event::QuitSignal));
    state.apply(Event::Nav(PageType::Help));
    assert_eq!(handle_key_events(chord, &state), Some(Event::QuitSignal));
    assert_eq!(handle_key_events(chord, &AppState::new()), Some(Event::QuitSignal));
}

#[test]
fn only_control_and_c_alone_is_the_chord() {
    let with_shift = KeyEvent {
        code: KeyCode::Char('c'),
        modifiers: KeyModifiers { shift: true, ..CONTROL },
        kind: KeyEventKind::Press,
    };
    assert_eq!(handle_global_events(&with_shift), None);
    let with_alt = KeyEvent {
        code: KeyCode::Char('c'),
        modifiers: KeyModifiers { alt: true, ..CONTROL },
        kind: KeyEventKind::Press,
    };
    assert_eq!(handle_global_events(&with_alt), None);
    assert_eq!(handle_global_events(&key(KeyCode::Char('c'))), None);
    let control_d = KeyEvent { code: KeyCode::Char('d'), modifiers: CONTROL, kind: KeyEventKind::Press };
    assert_eq!(handle_global_events(&control_d), None);
    let control_upper = KeyEvent { code: KeyCode::Char('C'), modifiers: CONTROL, kind: KeyEventKind::Press };
    assert_eq!(handle_global_events(&control_upper), None);

    let mut state = on_dips(&[1]);
    state.apply(Event::Prompt(PromptEvent::Focus));
    assert_eq!(handle_key_events(with_shift, &state), Some(Event::Prompt(PromptEvent::Input('c'))));
}

#[test]
fn help_page_takes_escape_only() {
    let mut state = on_dips(&[1]);
    state.apply(Event::Nav(PageType::Help));
    assert_eq!(handle_key_events(key(KeyCode::Esc), &state), Some(Event::NavBack));
    assert_eq!(handle_help_events(&key(KeyCode::Esc), &state), Some(Event::NavBack));
    for code in [
        KeyCode::Char('j'),
        KeyCode::Char('?'),
        KeyCode::Char(':'),
        KeyCode::Char('/'),
        KeyCode::Char('d'),
        KeyCode::Enter,
        KeyCode::Up,
        KeyCode::Down,
        KeyCode::Backspace,
        KeyCode::Tab,
        KeyCode::Other,
    ] {
        assert_eq!(handle_key_events(key(code), &state), None);
    }
}

#[test]
fn page_keys() {
    let state = on_dips(&[1, 2]);
    assert_eq!(handle_key_events(key(KeyCode::Char('j')), &state), Some(Event::Action(Action::MoveDown)));
    assert_eq!(handle_key_events(key(KeyCode::Down), &state), Some(Event::Action(Action::MoveDown)));
    assert_eq!(handle_key_events(key(KeyCode::Char('k')), &state), Some(Event::Action(Action::MoveUp)));
    assert_eq!(handle_key_events(key(KeyCode::Up), &state), Some(Event::Action(Action::MoveUp)));
    assert_eq!(handle_key_events(key(KeyCode::Tab), &state), Some(Event::Action(Action::SwitchFocus)));
    assert_eq!(handle_key_events(key(KeyCode::Char('?')), &state), Some(Event::Nav(PageType::Help)));
    assert_eq!(handle_key_events(key(KeyCode::Char(':')), &state), Some(Event::Prompt(PromptEvent::Focus)));
    assert_eq!(
        handle_key_events(key(KeyCode::Char('/')), &state),
        Some(Event::Prompt(PromptEvent::Search(SearchMode::Init)))
    );
    assert_eq!(handle_key_events(key(KeyCode::Esc), &state), None);
    assert_eq!(handle_key_events(key(KeyCode::Backspace), &state), None);
    assert_eq!(handle_key_events(key(KeyCode::Char('x')), &state), None);
    assert_eq!(handle_key_events(key(KeyCode::Char('J')), &state), None);
    assert_eq!(handle_key_events(key(KeyCode::Other), &state), None);
    assert_eq!(handle_page_events(&key(KeyCode::Char('?')), &AppState::new()), Some(Event::Nav(PageType::Help)));
}

#[test]
fn d_asks_whether_to_delete_the_note_under_the_cursor() {
    let mut state = on_dips(&[11, 22, 33]);
    assert_eq!(
        handle_key_events(key(KeyCode::Char('d')), &state),
        Some(Event::Prompt(PromptEvent::Confirm(Command::DeleteDip(11))))
    );
    state.apply(Event::Action(Action::MoveDown));
    state.apply(Event::Action(Action::MoveDown));
    assert_eq!(
        handle_key_events(key(KeyCode::Char('d')), &state),
        Some(Event::Prompt(PromptEvent::Confirm(Command::DeleteDip(33))))
    );
    state.apply(Event::Action(Action::SwitchFocus));
    assert_eq!(handle_key_events(key(KeyCode::Char('d')), &state), None);
    state.apply(Event::Action(Action::SwitchFocus));
    assert_eq!(
        handle_key_events(key(KeyCode::Char('d')), &state),
        Some(Event::Prompt(PromptEvent::Confirm(Command::DeleteDip(33))))
    );
}

#[test]
fn d_does_nothing_without_a_note() {
    assert_eq!(handle_key_events(key(KeyCode::Char('d')), &on_dips(&[])), None);
    assert_eq!(handle_key_events(key(KeyCode::Char('d')), &AppState::new()), None);
    let mut scopes = on_scopes(&[1, 2]);
    assert_eq!(handle_key_events(key(KeyCode::Char('d')), &scopes), None);
    scopes.apply(Event::Action(Action::MoveDown));
    assert_eq!(handle_key_events(key(KeyCode::Char('d')), &scopes), None);
}

#[test]
fn enter_on_pages() {
    let mut dips = on_dips(&[1]);
    assert_eq!(handle_key_events(key(KeyCode::Enter), &dips), complaint("Enter is not implemented."));
    dips.apply(Event::Action(Action::MoveUp));
    assert_eq!(handle_key_events(key(KeyCode::Enter), &dips), complaint("Enter is not implemented."));
    dips.apply(Event::Action(Action::SwitchFocus));
    assert_eq!(handle_key_events(key(KeyCode::Enter), &dips), Some(Event::Nav(PageType::Scopes)));

    let mut scopes = on_scopes(&[7, 8]);
    assert_eq!(
        handle_key_events(key(KeyCode::Enter), &scopes),
        Some(Event::Nav(PageType::Dips { scope_id: None }))
    );
    scopes.apply(Event::Action(Action::MoveDown));
    scopes.apply(Event::Action(Action::MoveDown));
    assert_eq!(
        handle_key_events(key(KeyCode::Enter), &scopes),
        Some(Event::Nav(PageType::Dips { scope_id: Some(8) }))
    );
    let mut empty = on_scopes(&[]);
    empty.apply(Event::Action(Action::MoveDown));
    assert_eq!(
        handle_key_events(key(KeyCode::Enter), &empty),
        complaint("Could not determine the scope ID")
    );
    assert_eq!(handle_key_events(key(KeyCode::Enter), &AppState::new()), None);
}

#[test]
fn prompt_keys() {
    let mut state = on_dips(&[1]);
    state.apply(Event::Prompt(PromptEvent::Focus));
    assert_eq!(handle_key_events(key(KeyCode::Esc), &state), Some(Event::Prompt(PromptEvent::Defocus)));
    assert_eq!(
        handle_key_events(key(KeyCode::Backspace), &state),
        Some(Event::Prompt(PromptEvent::InputBackspace))
    );
    assert_eq!(handle_key_events(key(KeyCode::Enter), &state), Some(Event::Prompt(PromptEvent::Commit)));
    for c in ['j', 'k', '?', ':', '/', 'd', ' ', 'é'] {
        assert_eq!(
            handle_key_events(key(KeyCode::Char(c)), &state),
            Some(Event::Prompt(PromptEvent::Input(c)))
        );
    }
    assert_eq!(handle_key_events(key(KeyCode::Up), &state), None);
    assert_eq!(handle_key_events(key(KeyCode::Down), &state), None);
    assert_eq!(handle_key_events(key(KeyCode::Tab), &state), None);
    assert_eq!(handle_key_events(key(KeyCode::Other), &state), None);
    assert_eq!(handle_prompt_events(&key(KeyCode::Esc), &state), Some(Event::Prompt(PromptEvent::Defocus)));
}

#[test]
fn only_pressed_keys_count() {
    let state = on_dips(&[1]);
    let press = key(KeyCode::Char('j'));
    let release = KeyEvent { kind: KeyEventKind::Release, ..press };
    let repeat = KeyEvent { kind: KeyEventKind::Repeat, ..press };
    assert_eq!(
        next(BusInput::Terminal(Some(TerminalEvent::Key(press))), &state),
        Some(Event::Action(Action::MoveDown))
    );
    assert_eq!(next(BusInput::Terminal(Some(TerminalEvent::Key(release))), &state), None);
    assert_eq!(next(BusInput::Terminal(Some(TerminalEvent::Key(repeat))), &state), None);
    let chord = KeyEvent { code: KeyCode::Char('c'), modifiers: CONTROL, kind: KeyEventKind::Release };
    assert_eq!(next(BusInput::Terminal(Some(TerminalEvent::Key(chord))), &state), None);
    assert_eq!(next(BusInput::Terminal(Some(TerminalEvent::Other)), &state), None);
    assert_eq!(next(BusInput::Terminal(None), &state), None);
}

#[test]
fn queue_and_clock_on_the_bus() {
    let state = AppState::new();
    assert_eq!(next(BusInput::Idle, &state), Some(Event::UiTick));
    assert_eq!(next(BusInput::Queued(Some(Event::NavBack)), &state), Some(Event::NavBack));
    assert_eq!(next(BusInput::Queued(None), &state), None);
    assert_eq!(TICK_MILLIS, 200);
}

#[test]
fn startup_enters_the_page_of_the_closest_scope() {
    assert_eq!(startup_events(None), vec![Event::Nav(PageType::Dips { scope_id: None })]);
    let scope = DirContext::stamped(5, 0, "/a", None, None);
    assert_eq!(
        startup_events(Some(scope.clone())),
        vec![
            Event::Nav(PageType::Dips { scope_id: Some(5) }),
            Event::LoadData(DataPayload::Scopes(vec![scope])),
        ]
    );
}
