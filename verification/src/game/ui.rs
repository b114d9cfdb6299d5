//! What the keys do to the line of the game.

use vstd::prelude::*;
use crate::commands::bus::TerminalEvent;
use crate::commands::keymap::{KeyCode, KeyEvent, KeyEventKind};
use crate::game::app::{deleted, entered, App, AppModel};

verus! {

/// The game after a key: Escape ends it, a character is typed, Backspace
/// rubs out, every other key does nothing.
pub open spec fn after_key(s: AppModel, code: KeyCode) -> AppModel {
    match code {
        KeyCode::Esc => AppModel { exit: true, ..s },
        KeyCode::Char(c) => entered(s, c),
        KeyCode::Backspace => deleted(s),
        _ => s,
    }
}

/// The game after a report of the terminal: only a pressed key counts.
pub open spec fn after_event(s: AppModel, event: TerminalEvent) -> AppModel {
    match event {
        TerminalEvent::Key(key) => if key.kind == KeyEventKind::Press {
            after_key(s, key.code)
        } else {
            s
        },
        TerminalEvent::Other => s,
    }
}

/// Handles a report of the terminal.
pub fn handle_events(event: TerminalEvent, app: &mut App)
    ensures
        final(app)@ == after_event(old(app)@, event),
{
    match event {
        TerminalEvent::Key(key_event) => match key_event.kind {
            KeyEventKind::Press => handle_key_event(key_event, app),
            _ => {},
        },
        _ => {},
    }
}

/// Handles a key.
pub fn handle_key_event(event: KeyEvent, app: &mut App)
    ensures
        final(app)@ == after_key(old(app)@, event.code),
{
    match event.code {
        KeyCode::Esc => app.exit(),
        KeyCode::Char(c) => app.enter_char(c),
        KeyCode::Backspace => app.delete_char(),
        _ => {},
    }
}

} // verus!
