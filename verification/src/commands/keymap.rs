//! From keys to events: the chord that quits from anywhere, the keys of
//! the pages and the keys of the prompt.

use vstd::prelude::*;
use crate::commands::page::{DipsFocus, PageState, PageType, PageView, ScopesFocus};
use crate::commands::prompt::{
    Command, CommandView, PromptStyle, text_enter_unsupported, text_no_scope,
};
use crate::commands::session::{
    Action, AppState, Event, EventFocusMode, EventView, PromptEvent, PromptEventView, SearchMode,
    UiView,
};

verus! {

/// The keys the session tells apart.
#[derive(Debug, Clone, Copy, PartialEq, Eq, Structural)]
pub enum KeyCode {
    Backspace,
    Enter,
    Up,
    Down,
    Esc,
    Tab,
    Char(char),
    /// Any other key.
    Other,
}

/// The modifier keys held down with a key.
#[derive(Debug, Clone, Copy, PartialEq, Eq, Structural)]
pub struct KeyModifiers {
    pub shift: bool,
    pub control: bool,
    pub alt: bool,
    pub super_key: bool,
    pub hyper: bool,
    pub meta: bool,
}

/// What was done to a key.
#[derive(Debug, Clone, Copy, PartialEq, Eq, Structural)]
pub enum KeyEventKind {
    Press,
    Repeat,
    Release,
}

/// One key event of the terminal.
#[derive(Debug, Clone, Copy, PartialEq, Eq, Structural)]
pub struct KeyEvent {
    pub code: KeyCode,
    pub modifiers: KeyModifiers,
    pub kind: KeyEventKind,
}

/// Control is held down, and no other modifier.
pub open spec fn control_alone(modifiers: KeyModifiers) -> bool {
    modifiers == (KeyModifiers {
        shift: false,
        control: true,
        alt: false,
        super_key: false,
        hyper: false,
        meta: false,
    })
}

/// What a key means wherever the keys go: Control and `c` quit.
pub open spec fn global_event(key: KeyEvent) -> Option<EventView> {
    if key.code == KeyCode::Char('c') && control_alone(key.modifiers) {
        Some(EventView::QuitSignal)
    } else {
        None
    }
}

/// What a key means on the help page: Escape goes back.
pub open spec fn help_event(key: KeyEvent) -> Option<EventView> {
    if key.code == KeyCode::Esc {
        Some(EventView::NavBack)
    } else {
        None
    }
}

/// A message for the prompt that complains.
pub open spec fn complaint(text: Seq<char>) -> EventView {
    EventView::Prompt(PromptEventView::Message { msg: text, style: PromptStyle::Danger })
}

/// What `d` means on a page: on a note under the cursor, the question
/// whether to delete it.
pub open spec fn delete_event(page: PageView) -> Option<EventView> {
    match page {
        PageView::Dips { focus: DipsFocus::List, index, items, .. } => if index < items.len() {
            Some(
                EventView::Prompt(
                    PromptEventView::Confirm(CommandView::DeleteDip(items[index as int])),
                ),
            )
        } else {
            None
        },
        _ => None,
    }
}

/// What Enter means on a page: from the line that names the scope to the
/// page of scopes, from a scope to the page of its notes.
pub open spec fn enter_event(page: PageView) -> Option<EventView> {
    match page {
        PageView::Dips { focus, .. } => match focus {
            DipsFocus::List => Some(complaint(text_enter_unsupported())),
            DipsFocus::Scope => Some(EventView::Nav(PageType::Scopes)),
        },
        PageView::Scopes { index, items, focus } => match focus {
            ScopesFocus::Global => Some(EventView::Nav(PageType::Dips { scope_id: None })),
            ScopesFocus::List => if index < items.len() {
                Some(EventView::Nav(PageType::Dips { scope_id: Some(items[index as int]) }))
            } else {
                Some(complaint(text_no_scope()))
            },
        },
        _ => None,
    }
}

/// What a key means on a page other than the help page.
pub open spec fn page_event(key: KeyEvent, page: PageView) -> Option<EventView> {
    match key.code {
        KeyCode::Char(c) => if c == '?' {
            Some(EventView::Nav(PageType::Help))
        } else if c == 'j' {
            Some(EventView::Action(Action::MoveDown))
        } else if c == 'k' {
            Some(EventView::Action(Action::MoveUp))
        } else if c == ':' {
            Some(EventView::Prompt(PromptEventView::Focus))
        } else if c == '/' {
            Some(EventView::Prompt(PromptEventView::Search(SearchMode::Init)))
        } else if c == 'd' {
            delete_event(page)
        } else {
            None
        },
        KeyCode::Down => Some(EventView::Action(Action::MoveDown)),
        KeyCode::Up => Some(EventView::Action(Action::MoveUp)),
        KeyCode::Tab => Some(EventView::Action(Action::SwitchFocus)),
        KeyCode::Enter => enter_event(page),
        _ => None,
    }
}

/// What a key means while the prompt has the keys.
pub open spec fn prompt_event(key: KeyEvent) -> Option<EventView> {
    match key.code {
        KeyCode::Esc => Some(EventView::Prompt(PromptEventView::Defocus)),
        KeyCode::Backspace => Some(EventView::Prompt(PromptEventView::InputBackspace)),
        KeyCode::Char(c) => Some(EventView::Prompt(PromptEventView::Input(c))),
        KeyCode::Enter => Some(EventView::Prompt(PromptEventView::Commit)),
        _ => None,
    }
}

/// What a pressed key means: the chord that quits comes first, then the
/// keys go to whoever has them.
pub open spec fn key_event(key: KeyEvent, ui: UiView) -> Option<EventView> {
    if global_event(key) is Some {
        global_event(key)
    } else {
        match ui.event_focus {
            EventFocusMode::Page => match ui.page {
                PageView::Help => help_event(key),
                _ => page_event(key, ui.page),
            },
            EventFocusMode::Prompt => prompt_event(key),
        }
    }
}

/// The meaning of a key that holds wherever the keys go.
pub fn handle_global_events(event: &KeyEvent) -> (r: Option<Event>)
    ensures
        r.deep_view() == global_event(*event),
{
    let only_control = event.modifiers.control && !event.modifiers.shift && !event.modifiers.alt
        && !event.modifiers.super_key && !event.modifiers.hyper && !event.modifiers.meta;
    match event.code {
        KeyCode::Char(c) => if c == 'c' && only_control {
            Some(Event::QuitSignal)
        } else {
            None
        },
        _ => None,
    }
}

/// The meaning of a key on the help page.
pub fn handle_help_events(event: &KeyEvent, _ctx: &AppState) -> (r: Option<Event>)
    ensures
        r.deep_view() == help_event(*event),
{
    match event.code {
        KeyCode::Esc => Some(Event::NavBack),
        _ => None,
    }
}

fn handle_delete_key(page: &PageState) -> (r: Option<Event>)
    ensures
        r.deep_view() == delete_event(page@),
{
    match page {
        PageState::Dips { focus, index, items, .. } => match focus {
            DipsFocus::Scope => None,
            DipsFocus::List => if *index < items.len() {
                Some(Event::Prompt(PromptEvent::Confirm(Command::DeleteDip(items[*index]))))
            } else {
                None
            },
        },
        _ => None,
    }
}

fn handle_enter_key(page: &PageState) -> (r: Option<Event>)
    ensures
        r.deep_view() == enter_event(page@),
{
    match page {
        PageState::Dips { focus, .. } => match focus {
            DipsFocus::List => Some(
                Event::Prompt(
                    PromptEvent::Message {
                        msg: "Enter is not implemented.",
                        style: PromptStyle::Danger,
                    },
                ),
            ),
            DipsFocus::Scope => Some(Event::Nav(PageType::Scopes)),
        },
        PageState::Scopes { items, index, focus } => match focus {
            ScopesFocus::Global => Some(Event::Nav(PageType::Dips { scope_id: None })),
            ScopesFocus::List => if *index < items.len() {
                Some(Event::Nav(PageType::Dips { scope_id: Some(items[*index]) }))
            } else {
                Some(
                    Event::Prompt(
                        PromptEvent::Message {
                            msg: "Could not determine the scope ID",
                            style: PromptStyle::Danger,
                        },
                    ),
                )
            },
        },
        _ => None,
    }
}

/// The meaning of a key on a page other than the help page.
pub fn handle_page_events(event: &KeyEvent, ctx: &AppState) -> (r: Option<Event>)
    ensures
        r.deep_view() == page_event(*event, ctx@.ui.page),
{
    match event.code {
        KeyCode::Char(c) => {
            if c == '?' {
                Some(Event::Nav(PageType::Help))
            } else if c == 'j' {
                Some(Event::Action(Action::MoveDown))
            } else if c == 'k' {
                Some(Event::Action(Action::MoveUp))
            } else if c == ':' {
                Some(Event::Prompt(PromptEvent::Focus))
            } else if c == '/' {
                Some(Event::Prompt(PromptEvent::Search(SearchMode::Init)))
            } else if c == 'd' {
                handle_delete_key(&ctx.ui.page)
            } else {
                None
            }
        },
        KeyCode::Down => Some(Event::Action(Action::MoveDown)),
        KeyCode::Up => Some(Event::Action(Action::MoveUp)),
        KeyCode::Tab => Some(Event::Action(Action::SwitchFocus)),
        KeyCode::Enter => handle_enter_key(&ctx.ui.page),
        _ => None,
    }
}

/// The meaning of a key while the prompt has the keys.
pub fn handle_prompt_events(event: &KeyEvent, _ctx: &AppState) -> (r: Option<Event>)
    ensures
        r.deep_view() == prompt_event(*event),
{
    match event.code {
        KeyCode::Esc => Some(Event::Prompt(PromptEvent::Defocus)),
        KeyCode::Backspace => Some(Event::Prompt(PromptEvent::InputBackspace)),
        KeyCode::Char(c) => Some(Event::Prompt(PromptEvent::Input(c))),
        KeyCode::Enter => Some(Event::Prompt(PromptEvent::Commit)),
        _ => None,
    }
}

/// The meaning of a pressed key in the given state.
pub fn handle_key_events(event: KeyEvent, state: &AppState) -> (r: Option<Event>)
    ensures
        r.deep_view() == key_event(event, state@.ui),
{
    if let Some(ev) = handle_global_events(&event) {
        return Some(ev);
    }
    match state.ui.event_focus {
        EventFocusMode::Page => match state.ui.page {
            PageState::Help => handle_help_events(&event, state),
            _ => handle_page_events(&event, state),
        },
        EventFocusMode::Prompt => handle_prompt_events(&event, state),
    }
}

/// The chord that quits is heard wherever the keys go and whatever is
/// shown.
pub proof fn lemma_quit_chord_always_quits(key: KeyEvent, ui: UiView)
    requires
        key.code == KeyCode::Char('c'),
        control_alone(key.modifiers),
    ensures
        key_event(key, ui) == Some(EventView::QuitSignal),
{
}

} // verus!
