//! The line of text and its cursor.

use vstd::prelude::*;
use crate::text::{chars_of, text_of};

verus! {

/// What the game shows.
#[derive(Debug, Clone, Copy, PartialEq, Eq, Structural)]
pub enum Panel {
    Input,
}

/// The state of the game.
#[derive(Debug, PartialEq, Eq)]
pub struct App {
    input: String,
    input_cursor_index: usize,
    panel: Panel,
    exit: bool,
}

/// The state of the game as contracts speak of it.
pub ghost struct AppModel {
    pub input: Seq<char>,
    pub cursor: usize,
    pub exit: bool,
}

impl View for App {
    type V = AppModel;

    closed spec fn view(&self) -> AppModel {
        AppModel { input: self.input@, cursor: self.input_cursor_index, exit: self.exit }
    }
}

/// A position in a text of `len` characters, or the end of the text where
/// the position lies beyond it.
pub open spec fn within(position: int, len: nat) -> int {
    if position < len {
        position
    } else {
        len as int
    }
}

/// One more than a number, as far as the machine can count.
pub open spec fn next_index(n: usize) -> usize {
    if n < usize::MAX {
        (n + 1) as usize
    } else {
        n
    }
}

/// The line after `c` was typed at the cursor: the character stands where
/// the cursor was, and the cursor behind it.
pub open spec fn entered(s: AppModel, c: char) -> AppModel {
    let at = within(s.cursor as int, s.input.len());
    AppModel {
        input: s.input.take(at) + seq![c] + s.input.skip(at),
        cursor: within(next_index(s.cursor) as int, s.input.len() + 1) as usize,
        exit: s.exit,
    }
}

/// The line after the character before the cursor was rubbed out; with
/// the cursor at the start nothing changes.
pub open spec fn deleted(s: AppModel) -> AppModel {
    if s.cursor == 0 {
        s
    } else {
        let input = s.input.take(within(s.cursor - 1, s.input.len())) + s.input.skip(
            within(s.cursor as int, s.input.len()),
        );
        AppModel { input, cursor: within(s.cursor - 1, input.len()) as usize, exit: s.exit }
    }
}

impl AppModel {
    /// The cursor stands in the line or at its end.
    pub open spec fn wf(self) -> bool {
        self.cursor <= self.input.len()
    }
}

impl Default for App {
    fn default() -> (app: Self)
        ensures
            app@ == (AppModel { input: Seq::empty(), cursor: 0, exit: false }),
    {
        App { input: String::new(), input_cursor_index: 0, panel: Panel::Input, exit: false }
    }
}

impl App {
    /// The text of the line.
    pub fn input(&self) -> (text: String)
        ensures
            text@ == self@.input,
    {
        self.input.clone()
    }

    /// Whether the game is over.
    pub fn is_over(&self) -> (r: bool)
        ensures
            r == self@.exit,
    {
        self.exit
    }

    /// Where the cursor is drawn, given where the line is drawn: one cell
    /// in from the corner, and as many as the cursor stands in the line.
    pub fn input_cursor_position(&self, x: u16, y: u16) -> (r: (u16, u16))
        requires
            x + (self@.cursor as u16) + 1 <= u16::MAX,
            y < u16::MAX,
        ensures
            r.0 == x + (self@.cursor as u16) + 1,
            r.1 == y + 1,
    {
        let column: u16 = #[verifier::truncate]
        (self.input_cursor_index as u16);
        (x + column + 1, y + 1)
    }

    /// Where the cursor is drawn, or nothing where that cell is beyond what
    /// a screen can have.
    pub fn try_input_cursor_position(&self, x: u16, y: u16) -> (r: Option<(u16, u16)>)
        ensures
            match r {
                Some(cell) => cell.0 == x + (self@.cursor as u16) + 1 && cell.1 == y + 1,
                None => x + (self@.cursor as u16) + 1 > u16::MAX || y == u16::MAX,
            },
    {
        let column: u16 = #[verifier::truncate]
        (self.input_cursor_index as u16);
        if y == u16::MAX || column > u16::MAX - 1 || x > u16::MAX - 1 - column {
            None
        } else {
            Some(self.input_cursor_position(x, y))
        }
    }

    fn move_cursor_left(&mut self)
        ensures
            final(self)@ == (AppModel {
                cursor: within(
                    if old(self)@.cursor > 0 {
                        old(self)@.cursor - 1
                    } else {
                        0
                    },
                    old(self)@.input.len(),
                ) as usize,
                ..old(self)@
            }),
    {
        let cursor_moved_left = if self.input_cursor_index > 0 {
            self.input_cursor_index - 1
        } else {
            0
        };
        self.input_cursor_index = self.clamp_cursor(cursor_moved_left);
    }

    fn move_cursor_right(&mut self)
        ensures
            final(self)@ == (AppModel {
                cursor: within(next_index(old(self)@.cursor) as int, old(self)@.input.len()) as usize,
                ..old(self)@
            }),
    {
        let cursor_moved_right = if self.input_cursor_index < usize::MAX {
            self.input_cursor_index + 1
        } else {
            self.input_cursor_index
        };
        self.input_cursor_index = self.clamp_cursor(cursor_moved_right);
    }

    fn clamp_cursor(&self, new_cursor_pos: usize) -> (r: usize)
        ensures
            r == within(new_cursor_pos as int, self@.input.len()),
    {
        let len = self.input.as_str().unicode_len();
        if new_cursor_pos < len {
            new_cursor_pos
        } else {
            len
        }
    }

    /// Types `c` at the cursor.
    pub fn enter_char(&mut self, c: char)
        ensures
            final(self)@ == entered(old(self)@, c),
            old(self)@.wf() ==> final(self)@.wf(),
    {
        let chars = chars_of(self.input.as_str());
        let at = if self.input_cursor_index < chars.len() {
            self.input_cursor_index
        } else {
            chars.len()
        };
        let mut input = text_of(&chars, 0, at);
        input.push(c);
        let rest = text_of(&chars, at, chars.len());
        input.append(rest.as_str());
        assert(input@ =~= old(self)@.input.take(at as int) + seq![c] + old(self)@.input.skip(
            at as int,
        ));
        self.input = input;
        self.move_cursor_right();
    }

    /// Rubs out the character before the cursor.
    pub fn delete_char(&mut self)
        ensures
            final(self)@ == deleted(old(self)@),
            old(self)@.wf() ==> final(self)@.wf(),
    {
        let is_not_cursor_leftmost = self.input_cursor_index != 0;
        if is_not_cursor_leftmost {
            let chars = chars_of(self.input.as_str());
            let current_index = self.input_cursor_index;
            let from_left_to_current_index = current_index - 1;
            let before = if from_left_to_current_index < chars.len() {
                from_left_to_current_index
            } else {
                chars.len()
            };
            let after = if current_index < chars.len() {
                current_index
            } else {
                chars.len()
            };
            let mut input = text_of(&chars, 0, before);
            let rest = text_of(&chars, after, chars.len());
            input.append(rest.as_str());
            assert(input@ =~= old(self)@.input.take(before as int) + old(self)@.input.skip(
                after as int,
            ));
            self.input = input;
            self.move_cursor_left();
        }
    }

    /// Ends the game.
    pub fn exit(&mut self)
        ensures
            final(self)@ == (AppModel { exit: true, ..old(self)@ }),
    {
        self.exit = true;
    }
}

/// Typing a character and rubbing it out again leaves the line as it was.
pub proof fn lemma_delete_undoes_enter(s: AppModel, c: char)
    requires
        s.wf(),
        s.cursor < usize::MAX,
    ensures
        deleted(entered(s, c)) == s,
{
    let e = entered(s, c);
    assert(e.input.take(s.cursor as int) =~= s.input.take(s.cursor as int));
    assert(e.input.skip(s.cursor + 1) =~= s.input.skip(s.cursor as int));
    assert(s.input.take(s.cursor as int) + s.input.skip(s.cursor as int) =~= s.input);
}

} // verus!
