use dips::commands::bus::{completion, next, serve, startup_events, BusInput, Reply, TerminalEvent};
use dips::commands::keymap::{KeyCode, KeyEvent, KeyEventKind, KeyModifiers};
use dips::commands::screen::{
    render_dips_page, render_help_page, render_page_with_prompt, render_prompt,
    render_scopes_page, DipLine, PageFrame, ScopeLine, Screen,
};
use dips::commands::page::{DipsFocus, PageState, PageType, ScopesFocus};
use dips::commands::prompt::{Command, PromptState, PromptStyle, SearchState};
use dips::commands::session::{AppState, DataPayload, Effect, Event, PromptEvent, Request};
use dips::database::Database;
use dips::models::dip::{create, insert, Dip, DipsFilter};
use dips::models::dir_context::{db_insert, get_closest, DirContext, RuntimeDirContext, ScopesFilter};
use dips::models::tag::create_dip_tag;
use std::collections::VecDeque;

/// Runs the session on the store in memory until nothing is left to do.
fn settle(state: &mut AppState, db: &mut Database, first: Vec<Event>) -> Vec<Request> {
    let mut queue: VecDeque<Event> = first.into();
    let mut served = Vec::new();
    while let Some(event) = queue.pop_front() {
        let event = next(BusInput::Queued(Some(event)), state).unwrap();
        for effect in state.apply(event) {
            match effect {
                Effect::Emit(event) => queue.push_back(event),
                Effect::Dispatch(request) => {
                    let reply = serve(db, &request);
                    queue.push_back(completion(&request, reply));
                    served.push(request);
                }
            }
        }
    }
    served
}

fn press(state: &mut AppState, db: &mut Database, code: KeyCode) -> Vec<Request> {
    let key = KeyEvent {
        code,
        modifiers: KeyModifiers {
            shift: false,
            control: false,
            alt: false,
            super_key: false,
            hyper: false,
            meta: false,
        },
        kind: KeyEventKind::Press,
    };
    match next(BusInput::Terminal(Some(TerminalEvent::Key(key))), state) {
        Some(event) => settle(state, db, vec![event]),
        None => Vec::new(),
    }
}

fn type_text(state: &mut AppState, db: &mut Database, text: &str) -> Vec<Request> {
    text.chars().flat_map(|c| press(state, db, KeyCode::Char(c))).collect()
}

fn rows_of(screen: &Screen) -> Vec<(String, String)> {
    match &screen.page {
        PageFrame::Dips { rows, .. } => {
            rows.iter().map(|row| (row.value.clone(), row.tags.clone())).collect()
        }
        other => panic!("not a page of notes: {other:?}"),
    }
}

fn values_of(screen: &Screen) -> Vec<String> {
    rows_of(screen).into_iter().map(|row| row.0).collect()
}

#[test]
fn empty_store_shows_an_empty_page() {
    let mut db = Database::new();
    let mut state = AppState::new();
    let served = settle(&mut state, &mut db, vec![Event::Nav(PageType::Dips { scope_id: None })]);
    assert_eq!(served, vec![Request::FetchDips(DipsFilter::new())]);
    assert_eq!(
        state.ui.page,
        PageState::Dips { scope_id: None, index: 0, items: vec![], focus: DipsFocus::List }
    );
    let screen = render_page_with_prompt(&state);
    assert_eq!(
        screen,
        Screen {
            page: PageFrame::Dips {
                scope: "Global".to_string(),
                remote: None,
                scope_selected: false,
                rows: vec![],
                selected: None,
            },
            prompt: "Type : to start a command".to_string(),
        }
    );
    press(&mut state, &mut db, KeyCode::Char('j'));
    press(&mut state, &mut db, KeyCode::Down);
    press(&mut state, &mut db, KeyCode::Char('k'));
    press(&mut state, &mut db, KeyCode::Up);
    assert_eq!(
        state.ui.page,
        PageState::Dips { scope_id: None, index: 0, items: vec![], focus: DipsFocus::List }
    );
    assert_eq!(render_page_with_prompt(&state), screen);
    assert_eq!(press(&mut state, &mut db, KeyCode::Char('d')), vec![]);
    assert_eq!(state.ui.prompt, PromptState::Default);
    assert_eq!(db, Database::new());
}

#[test]
fn session_starts_in_the_closest_scope() {
    let mut db = Database::new();
    db_insert(&mut db, DirContext::stamped(1, 0, "/a", None, Some("https://example.org/a.git".to_string()))).unwrap();
    db_insert(&mut db, DirContext::stamped(2, 0, "/a/b", None, None)).unwrap();
    insert(&mut db, Dip::stamped(10, 0, Some(1), "in a", None)).unwrap();
    insert(&mut db, Dip::stamped(11, 0, Some(2), "in b", None)).unwrap();
    insert(&mut db, Dip::stamped(12, 0, None, "global", None)).unwrap();
    create_dip_tag(&mut db, &11, "work").unwrap();
    create_dip_tag(&mut db, &11, "home").unwrap();
    let ctx = RuntimeDirContext::locate("/a/b/c".to_string(), true, None).unwrap();
    let mut state = AppState::new();
    let closest = get_closest(&db, &ctx);
    let served = settle(&mut state, &mut db, startup_events(closest));
    assert_eq!(served, vec![Request::FetchDips(DipsFilter::new().with_scope_id(Some(2)))]);
    let screen = render_page_with_prompt(&state);
    assert_eq!(
        screen.page,
        PageFrame::Dips {
            scope: "/a/b".to_string(),
            remote: Some(String::new()),
            scope_selected: false,
            rows: vec![DipLine { value: "in b".to_string(), tags: "work home".to_string() }],
            selected: Some(0),
        }
    );
}

#[test]
fn add_from_the_prompt_shows_on_the_page() {
    let mut db = Database::new();
    let mut state = AppState::new();
    settle(&mut state, &mut db, startup_events(None));
    press(&mut state, &mut db, KeyCode::Char(':'));
    assert_eq!(render_prompt(&state.ui.prompt), "Command: ");
    type_text(&mut state, &mut db, "add first note");
    assert_eq!(render_prompt(&state.ui.prompt), "Command: add first note");
    let served = press(&mut state, &mut db, KeyCode::Enter);
    assert_eq!(
        served,
        vec![
            Request::CreateDip { scope_id: None, value: "first note".to_string() },
            Request::FetchDips(DipsFilter::new()),
        ]
    );
    assert_eq!(db.dips.len(), 1);
    assert_eq!(db.dips[0].value, "first note");
    assert_eq!(values_of(&render_page_with_prompt(&state)), vec!["first note"]);
    assert_eq!(state.ui.prompt, PromptState::Default);

    press(&mut state, &mut db, KeyCode::Char(':'));
    type_text(&mut state, &mut db, "add first note");
    let served = press(&mut state, &mut db, KeyCode::Enter);
    assert_eq!(served, vec![Request::CreateDip { scope_id: None, value: "first note".to_string() }]);
    assert_eq!(db.dips.len(), 1);
    assert_eq!(
        state.ui.prompt,
        PromptState::Message { value: "Failed to add the dip", style: PromptStyle::Danger }
    );
    assert_eq!(render_prompt(&state.ui.prompt), "Error: Failed to add the dip");
}

#[test]
fn delete_from_the_page_asks_first() {
    let mut db = Database::new();
    create(&mut db, None, "one", None).unwrap();
    let two = create(&mut db, None, "two", None).unwrap();
    let mut state = AppState::new();
    settle(&mut state, &mut db, startup_events(None));
    press(&mut state, &mut db, KeyCode::Char('j'));
    press(&mut state, &mut db, KeyCode::Char('d'));
    assert_eq!(
        state.ui.prompt,
        PromptState::Confirm { input: String::new(), command: Command::DeleteDip(two.id) }
    );
    assert_eq!(render_prompt(&state.ui.prompt), "DELETE: Are you sure? (y) ");
    type_text(&mut state, &mut db, "n");
    assert_eq!(press(&mut state, &mut db, KeyCode::Enter), vec![]);
    assert_eq!(db.dips.len(), 2);
    assert_eq!(render_prompt(&state.ui.prompt), "Error: Only y is allowed");

    press(&mut state, &mut db, KeyCode::Esc);
    press(&mut state, &mut db, KeyCode::Char('d'));
    type_text(&mut state, &mut db, "y");
    let served = press(&mut state, &mut db, KeyCode::Enter);
    assert_eq!(
        served,
        vec![Request::DeleteDip { id: two.id, scope_id: None }, Request::FetchDips(DipsFilter::new())]
    );
    assert_eq!(values_of(&render_page_with_prompt(&state)), vec!["one"]);
    assert_eq!(db.dips.len(), 1);
}

#[test]
fn a_second_delete_of_the_same_note_is_harmless() {
    let mut db = Database::new();
    let one = create(&mut db, None, "one", None).unwrap();
    create(&mut db, None, "two", None).unwrap();
    let mut state = AppState::new();
    settle(&mut state, &mut db, startup_events(None));
    settle(&mut state, &mut db, vec![Event::Command(Command::DeleteDip(one.id))]);
    let after_first = db.clone();
    let served = settle(&mut state, &mut db, vec![Event::Command(Command::DeleteDip(one.id))]);
    assert_eq!(
        served,
        vec![Request::DeleteDip { id: one.id, scope_id: None }, Request::FetchDips(DipsFilter::new())]
    );
    assert_eq!(db, after_first);
    assert_eq!(values_of(&render_page_with_prompt(&state)), vec!["two"]);
    assert_eq!(state.ui.prompt, PromptState::Default);
}

#[test]
fn search_narrows_the_page_as_it_is_typed() {
    let mut db = Database::new();
    for value in ["Abacus", "cab", "ABC", "other"] {
        create(&mut db, None, value, None).unwrap();
    }
    let mut state = AppState::new();
    settle(&mut state, &mut db, startup_events(None));
    assert_eq!(values_of(&render_page_with_prompt(&state)), vec!["Abacus", "cab", "ABC", "other"]);
    press(&mut state, &mut db, KeyCode::Char('/'));
    let served = type_text(&mut state, &mut db, "ab");
    assert_eq!(
        served,
        vec![
            Request::FetchDips(DipsFilter::new().with_search("a")),
            Request::FetchDips(DipsFilter::new().with_search("ab")),
        ]
    );
    assert_eq!(values_of(&render_page_with_prompt(&state)), vec!["Abacus", "cab", "ABC"]);
    let served = type_text(&mut state, &mut db, "c");
    assert_eq!(served, vec![Request::FetchDips(DipsFilter::new().with_search("abc"))]);
    assert_eq!(values_of(&render_page_with_prompt(&state)), vec!["ABC"]);
    assert_eq!(render_prompt(&state.ui.prompt), "Search: abc");
    press(&mut state, &mut db, KeyCode::Backspace);
    assert_eq!(values_of(&render_page_with_prompt(&state)), vec!["Abacus", "cab", "ABC"]);
    assert_eq!(press(&mut state, &mut db, KeyCode::Enter), vec![]);
    assert_eq!(
        state.ui.prompt,
        PromptState::Search { input: "ab".to_string(), state: SearchState::Commit }
    );
    press(&mut state, &mut db, KeyCode::Esc);
    assert_eq!(state.ui.prompt, PromptState::Default);
    assert_eq!(values_of(&render_page_with_prompt(&state)), vec!["Abacus", "cab", "ABC"]);
}

#[test]
fn from_the_notes_to_the_scopes_and_into_one() {
    let mut db = Database::new();
    db_insert(&mut db, DirContext::stamped(1, 0, "/a", None, Some("https://example.org/a.git".to_string()))).unwrap();
    db_insert(&mut db, DirContext::stamped(2, 0, "/b", None, None)).unwrap();
    insert(&mut db, Dip::stamped(10, 0, Some(2), "in b", None)).unwrap();
    let mut state = AppState::new();
    settle(&mut state, &mut db, startup_events(None));
    press(&mut state, &mut db, KeyCode::Char('k'));
    assert_eq!(press(&mut state, &mut db, KeyCode::Enter), vec![]);
    press(&mut state, &mut db, KeyCode::Esc);
    press(&mut state, &mut db, KeyCode::Tab);
    let served = press(&mut state, &mut db, KeyCode::Enter);
    assert_eq!(served, vec![Request::FetchScopes(ScopesFilter::new())]);
    assert_eq!(
        render_page_with_prompt(&state).page,
        PageFrame::Scopes {
            global_selected: true,
            rows: vec![
                ScopeLine { dir_path: "/a".to_string(), git_remote: "https://example.org/a.git".to_string() },
                ScopeLine { dir_path: "/b".to_string(), git_remote: String::new() },
            ],
            selected: None,
        }
    );
    press(&mut state, &mut db, KeyCode::Char('j'));
    press(&mut state, &mut db, KeyCode::Char('j'));
    assert_eq!(
        render_page_with_prompt(&state).page,
        PageFrame::Scopes {
            global_selected: false,
            rows: vec![
                ScopeLine { dir_path: "/a".to_string(), git_remote: "https://example.org/a.git".to_string() },
                ScopeLine { dir_path: "/b".to_string(), git_remote: String::new() },
            ],
            selected: Some(1),
        }
    );
    let served = press(&mut state, &mut db, KeyCode::Enter);
    assert_eq!(served, vec![Request::FetchDips(DipsFilter::new().with_scope_id(Some(2)))]);
    assert_eq!(values_of(&render_page_with_prompt(&state)), vec!["in b"]);
    match render_page_with_prompt(&state).page {
        PageFrame::Dips { scope, remote, .. } => {
            assert_eq!(scope, "/b");
            assert_eq!(remote, Some(String::new()));
        }
        other => panic!("not a page of notes: {other:?}"),
    }
}

#[test]
fn help_and_back() {
    let mut db = Database::new();
    create(&mut db, None, "one", None).unwrap();
    let mut state = AppState::new();
    settle(&mut state, &mut db, startup_events(None));
    assert_eq!(press(&mut state, &mut db, KeyCode::Char('?')), vec![]);
    let screen = render_page_with_prompt(&state);
    assert_eq!(screen.page, render_help_page());
    assert_eq!(screen.prompt, "Go back: Esc");
    let served = press(&mut state, &mut db, KeyCode::Esc);
    assert_eq!(served, vec![Request::FetchDips(DipsFilter::new())]);
    assert_eq!(values_of(&render_page_with_prompt(&state)), vec!["one"]);
    assert_eq!(state.ui.back_page, None);
}

#[test]
fn splash_page_is_blank() {
    let screen = render_page_with_prompt(&AppState::new());
    assert_eq!(screen.page, PageFrame::Blank);
    assert_eq!(screen.prompt, "Type : to start a command");
}

#[test]
fn completion_is_one_event_for_each_ending() {
    let fetch = Request::FetchDips(DipsFilter::new().with_scope_id(Some(3)).with_search("x"));
    assert_eq!(
        completion(&fetch, Reply::Dips(vec![])),
        Event::LoadData(DataPayload::Dips { scope_id: Some(3), items: vec![] })
    );
    let failed = |msg: &'static str| Event::Prompt(PromptEvent::Message { msg, style: PromptStyle::Danger });
    assert_eq!(completion(&fetch, Reply::Failed), failed("Failed to load the list"));
    assert_eq!(completion(&fetch, Reply::Done), failed("Failed to load the list"));
    assert_eq!(completion(&fetch, Reply::Scopes(vec![])), failed("Failed to load the list"));
    let scopes = Request::FetchScopes(ScopesFilter::new());
    assert_eq!(completion(&scopes, Reply::Scopes(vec![])), Event::LoadData(DataPayload::Scopes(vec![])));
    assert_eq!(completion(&scopes, Reply::Failed), failed("Failed to load the list"));
    let add = Request::CreateDip { scope_id: Some(4), value: "x".to_string() };
    assert_eq!(completion(&add, Reply::Done), Event::RefetchData(PageType::Dips { scope_id: Some(4) }));
    assert_eq!(completion(&add, Reply::Failed), failed("Failed to add the dip"));
    assert_eq!(completion(&add, Reply::Dips(vec![])), failed("Failed to add the dip"));
    let delete = Request::DeleteDip { id: 1, scope_id: None };
    assert_eq!(completion(&delete, Reply::Done), Event::RefetchData(PageType::Dips { scope_id: None }));
    assert_eq!(completion(&delete, Reply::Failed), failed("Failed to delete the dip"));
}

#[test]
fn serve_answers_each_request() {
    let mut db = Database::new();
    db_insert(&mut db, DirContext::stamped(1, 0, "/a", None, None)).unwrap();
    assert_eq!(serve(&mut db, &Request::CreateDip { scope_id: Some(1), value: "x".to_string() }), Reply::Done);
    assert_eq!(serve(&mut db, &Request::CreateDip { scope_id: Some(1), value: "x".to_string() }), Reply::Failed);
    assert_eq!(serve(&mut db, &Request::CreateDip { scope_id: Some(2), value: "y".to_string() }), Reply::Failed);
    assert_eq!(db.dips.len(), 1);
    match serve(&mut db, &Request::FetchDips(DipsFilter::new().with_scope_id(Some(1)))) {
        Reply::Dips(rows) => {
            assert_eq!(rows.len(), 1);
            assert_eq!(rows[0].value, "x");
            assert_eq!(rows[0].dir_path, Some("/a".to_string()));
        }
        other => panic!("no notes: {other:?}"),
    }
    assert_eq!(
        serve(&mut db, &Request::FetchScopes(ScopesFilter::new().with_search("zz"))),
        Reply::Scopes(vec![])
    );
    assert_eq!(
        serve(&mut db, &Request::FetchScopes(ScopesFilter::new())),
        Reply::Scopes(vec![DirContext::stamped(1, 0, "/a", None, None)])
    );
    let id = db.dips[0].id;
    assert_eq!(serve(&mut db, &Request::DeleteDip { id, scope_id: Some(1) }), Reply::Done);
    assert_eq!(serve(&mut db, &Request::DeleteDip { id, scope_id: Some(1) }), Reply::Done);
    assert!(db.dips.is_empty());
}

#[test]
fn prompt_lines() {
    assert_eq!(render_prompt(&PromptState::Default), "Type : to start a command");
    assert_eq!(render_prompt(&PromptState::Nav), "Go back: Esc");
    assert_eq!(render_prompt(&PromptState::Input { input: "add x".to_string() }), "Command: add x");
    assert_eq!(
        render_prompt(&PromptState::Search { input: "q".to_string(), state: SearchState::Commit }),
        "Search: q"
    );
    assert_eq!(
        render_prompt(&PromptState::Confirm { input: "y".to_string(), command: Command::DeleteDip(1) }),
        "DELETE: Are you sure? (y) y"
    );
    assert_eq!(
        render_prompt(&PromptState::Confirm { input: String::new(), command: Command::Add("x".to_string()) }),
        "ADD: Are you sure? (y) "
    );
    assert_eq!(
        render_prompt(&PromptState::Message { value: "Dip deleted", style: PromptStyle::Info }),
        "Info: Dip deleted"
    );
    assert_eq!(
        render_prompt(&PromptState::Message { value: "no", style: PromptStyle::Danger }),
        "Error: no"
    );
}

#[test]
fn pages_mark_the_line_under_the_cursor() {
    let scope = DirContext::stamped(1, 0, "/a", None, Some("r".to_string()));
    let line = || DipLine { value: "v".to_string(), tags: String::new() };
    match render_dips_page(Some(&scope), vec![line(), line()], 1, &DipsFocus::List) {
        PageFrame::Dips { scope, remote, scope_selected, rows, selected } => {
            assert_eq!(scope, "/a");
            assert_eq!(remote, Some("r".to_string()));
            assert!(!scope_selected);
            assert_eq!(rows.len(), 2);
            assert_eq!(selected, Some(1));
        }
        other => panic!("not a page of notes: {other:?}"),
    }
    match render_dips_page(None, vec![line()], 0, &DipsFocus::Scope) {
        PageFrame::Dips { scope, remote, scope_selected, selected, .. } => {
            assert_eq!(scope, "Global");
            assert_eq!(remote, None);
            assert!(scope_selected);
            assert_eq!(selected, None);
        }
        other => panic!("not a page of notes: {other:?}"),
    }
    assert_eq!(
        render_dips_page(None, vec![], 0, &DipsFocus::List),
        PageFrame::Dips {
            scope: "Global".to_string(),
            remote: None,
            scope_selected: false,
            rows: vec![],
            selected: None,
        }
    );
    assert_eq!(
        render_scopes_page(vec![], 0, &ScopesFocus::List),
        PageFrame::Scopes { global_selected: false, rows: vec![], selected: None }
    );
}
