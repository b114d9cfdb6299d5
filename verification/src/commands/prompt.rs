//! The prompt: the one line below the page, what is typed into it, and
//! what it becomes when it is submitted.

use vstd::prelude::*;
use crate::identity::Uid;
use crate::text::{chars_of, first_index_of, is_first_at, same_text, text_of};

verus! {

/// How much a message wants to be noticed.
#[derive(Debug, Clone, Copy, PartialEq, Eq, Structural)]
pub enum PromptStyle {
    Info,
    Danger,
}

/// Whether a search still follows the typing, or was confirmed.
#[derive(Debug, Clone, Copy, PartialEq, Eq, Structural)]
pub enum SearchState {
    Active,
    Commit,
}

/// What the user can order.
#[derive(Debug, PartialEq, Eq)]
pub enum Command {
    Add(String),
    DeleteDip(Uid),
}

/// An order as contracts speak of it.
pub ghost enum CommandView {
    Add(Seq<char>),
    DeleteDip(Uid),
}

impl View for Command {
    type V = CommandView;

    open spec fn view(&self) -> CommandView {
        match self {
            Command::Add(value) => CommandView::Add(value@),
            Command::DeleteDip(id) => CommandView::DeleteDip(*id),
        }
    }
}

impl DeepView for Command {
    type V = CommandView;

    open spec fn deep_view(&self) -> CommandView {
        self@
    }
}

impl Clone for Command {
    fn clone(&self) -> (copy: Self)
        ensures
            copy@ == self@,
    {
        match self {
            Command::Add(value) => Command::Add(value.clone()),
            Command::DeleteDip(id) => Command::DeleteDip(*id),
        }
    }
}

/// The one line below the page.
#[derive(Debug, PartialEq, Eq)]
pub enum PromptState {
    Default,
    Nav,
    Input { input: String },
    Search { input: String, state: SearchState },
    Message { value: &'static str, style: PromptStyle },
    Confirm { input: String, command: Command },
}

/// The prompt as contracts speak of it.
pub ghost enum PromptView {
    Default,
    Nav,
    Input { input: Seq<char> },
    Search { input: Seq<char>, state: SearchState },
    Message { value: Seq<char>, style: PromptStyle },
    Confirm { input: Seq<char>, command: CommandView },
}

impl View for PromptState {
    type V = PromptView;

    open spec fn view(&self) -> PromptView {
        match self {
            PromptState::Default => PromptView::Default,
            PromptState::Nav => PromptView::Nav,
            PromptState::Input { input } => PromptView::Input { input: input@ },
            PromptState::Search { input, state } => PromptView::Search {
                input: input@,
                state: *state,
            },
            PromptState::Message { value, style } => PromptView::Message {
                value: value@,
                style: *style,
            },
            PromptState::Confirm { input, command } => PromptView::Confirm {
                input: input@,
                command: command@,
            },
        }
    }
}

/// What the prompt says when a key is typed where nothing can be typed.
pub open spec fn text_cannot_type() -> Seq<char> {
    "Can not type in this mode"@
}

/// What the prompt says when a command line has no blank in it.
pub open spec fn text_invalid_pattern() -> Seq<char> {
    "Invalid command pattern"@
}

/// What the prompt says when the word before the blank is no command.
pub open spec fn text_unknown_command() -> Seq<char> {
    "Unknown command"@
}

/// What the prompt says when a question was answered with anything but `y`.
pub open spec fn text_only_y() -> Seq<char> {
    "Only y is allowed"@
}

/// What the prompt says when a line is submitted that holds none.
pub open spec fn text_invalid_submit() -> Seq<char> {
    "Invalid submit state"@
}

/// What the prompt says when something is to be added on a page that is
/// not a page of notes.
pub open spec fn text_add_unsupported() -> Seq<char> {
    "\"add\" command not supported for this view"@
}

/// What the prompt says when a note could not be added.
pub open spec fn text_add_failed() -> Seq<char> {
    "Failed to add the dip"@
}

/// What the prompt says when a note could not be deleted.
pub open spec fn text_delete_failed() -> Seq<char> {
    "Failed to delete the dip"@
}

/// What the prompt says when a list could not be fetched.
pub open spec fn text_fetch_failed() -> Seq<char> {
    "Failed to load the list"@
}

/// What the prompt says when Enter is pressed on a note.
pub open spec fn text_enter_unsupported() -> Seq<char> {
    "Enter is not implemented."@
}

/// What the prompt says when Enter is pressed on a line of the list of
/// scopes that holds no scope.
pub open spec fn text_no_scope() -> Seq<char> {
    "Could not determine the scope ID"@
}

/// The prompt after `c` was typed into it. Only a command line, a search
/// and a question take characters; the others are left as they are.
pub open spec fn typed(prompt: PromptView, c: char) -> PromptView {
    match prompt {
        PromptView::Input { input } => PromptView::Input { input: input.push(c) },
        PromptView::Search { input, state } => PromptView::Search { input: input.push(c), state },
        PromptView::Confirm { input, command } => PromptView::Confirm {
            input: input.push(c),
            command,
        },
        _ => prompt,
    }
}

/// Whether the prompt holds a line that can be typed into.
pub open spec fn takes_input(prompt: PromptView) -> bool {
    prompt is Input || prompt is Search || prompt is Confirm
}

/// A text without its last character; the empty text stays empty.
pub open spec fn without_last(text: Seq<char>) -> Seq<char> {
    if text.len() > 0 {
        text.drop_last()
    } else {
        text
    }
}

/// The prompt after the last character of its line was rubbed out.
pub open spec fn erased(prompt: PromptView) -> PromptView {
    match prompt {
        PromptView::Input { input } => PromptView::Input { input: without_last(input) },
        PromptView::Search { input, state } => PromptView::Search {
            input: without_last(input),
            state,
        },
        PromptView::Confirm { input, command } => PromptView::Confirm {
            input: without_last(input),
            command,
        },
        _ => prompt,
    }
}

/// What a command line orders: the word before the first blank names the
/// command, the rest is what it is given. A line without a blank is
/// malformed, a word other than `add` is no command; both come back as the
/// text of the complaint.
pub open spec fn command_of(line: Seq<char>) -> Result<CommandView, Seq<char>> {
    if exists|i: int| is_first_at(line, ' ', i) {
        let i = choose|i: int| is_first_at(line, ' ', i);
        if line.take(i) == "add"@ {
            Ok(CommandView::Add(line.skip(i + 1)))
        } else {
            Err(text_unknown_command())
        }
    } else {
        Err(text_invalid_pattern())
    }
}

/// The prompt after its line was submitted, and the command that is to be
/// carried out, if the line gave one.
pub open spec fn committed(prompt: PromptView) -> (PromptView, Option<CommandView>) {
    match prompt {
        PromptView::Search { input, state } => (
            PromptView::Search { input, state: SearchState::Commit },
            None,
        ),
        PromptView::Input { input } => match command_of(input) {
            Ok(command) => (PromptView::Default, Some(command)),
            Err(complaint) => (
                PromptView::Message { value: complaint, style: PromptStyle::Danger },
                None,
            ),
        },
        PromptView::Confirm { input, command } => if input == "y"@ {
            (PromptView::Default, Some(command))
        } else {
            (PromptView::Message { value: text_only_y(), style: PromptStyle::Danger }, None)
        },
        _ => (PromptView::Message { value: text_invalid_submit(), style: PromptStyle::Danger }, None),
    }
}

/// Reads a command line.
pub fn parse_command(line: &str) -> (r: Result<Command, &'static str>)
    ensures
        match r {
            Ok(command) => command_of(line@) == Ok::<CommandView, Seq<char>>(command@),
            Err(complaint) => command_of(line@) == Err::<CommandView, Seq<char>>(complaint@),
        },
{
    let chars = chars_of(line);
    match first_index_of(&chars, ' ') {
        Some(i) => {
            assert(is_first_at(line@, ' ', i as int));
            assert(forall|j: int| is_first_at(line@, ' ', j) ==> j == i);
            let verb = text_of(&chars, 0, i);
            assert(verb@ == line@.take(i as int));
            if same_text(verb.as_str(), "add") {
                let rest = text_of(&chars, i + 1, chars.len());
                assert(rest@ == line@.skip(i + 1));
                Ok(Command::Add(rest))
            } else {
                Err("Unknown command")
            }
        },
        None => {
            assert(forall|j: int| !is_first_at(line@, ' ', j));
            Err("Invalid command pattern")
        },
    }
}

impl PromptState {
    /// Opens an empty command line.
    pub fn activate_input_state(&mut self)
        ensures
            final(self)@ == (PromptView::Input { input: Seq::empty() }),
    {
        *self = Self::Input { input: String::new() }
    }

    /// Goes back to the resting prompt.
    pub fn activate_default_state(&mut self)
        ensures
            final(self)@ == PromptView::Default,
    {
        *self = Self::Default
    }

    /// Opens an empty search that follows the typing.
    pub fn activate_search_state(&mut self)
        ensures
            final(self)@ == (PromptView::Search { input: Seq::empty(), state: SearchState::Active }),
    {
        *self = Self::Search { input: String::new(), state: SearchState::Active }
    }

    /// Shows the footer of the help page.
    pub fn activate_nav_state(&mut self)
        ensures
            final(self)@ == PromptView::Nav,
    {
        *self = Self::Nav;
    }

    /// Asks whether `command` is to be carried out.
    pub fn activate_confirm_state(&mut self, command: Command)
        ensures
            final(self)@ == (PromptView::Confirm { input: Seq::empty(), command: command@ }),
    {
        *self = Self::Confirm { input: String::new(), command }
    }

    /// Types `c` into the line of the prompt, and says whether there was a
    /// line to type into.
    pub fn set_input(&mut self, c: char) -> (taken: bool)
        ensures
            taken == takes_input(old(self)@),
            final(self)@ == typed(old(self)@, c),
    {
        match self {
            Self::Search { input, .. } => {
                input.push(c);
                true
            },
            Self::Input { input } => {
                input.push(c);
                true
            },
            Self::Confirm { input, .. } => {
                input.push(c);
                true
            },
            _ => false,
        }
    }

    /// Rubs out the last character of the line of the prompt, if there is
    /// a line and a character.
    pub fn set_input_backspace(&mut self)
        ensures
            final(self)@ == erased(old(self)@),
    {
        match self {
            Self::Search { input, .. } => {
                input.pop();
            },
            Self::Input { input } => {
                input.pop();
            },
            Self::Confirm { input, .. } => {
                input.pop();
            },
            _ => {},
        }
    }

    /// Shows a complaint.
    pub fn set_error(&mut self, value: &'static str)
        ensures
            final(self)@ == (PromptView::Message { value: value@, style: PromptStyle::Danger }),
    {
        self.handle_message(value, PromptStyle::Danger);
    }

    /// Submits the line of the prompt. A search is confirmed. A command
    /// line is read, a question is taken as answered with yes only by the
    /// line `y`; where either gives a command, the command is handed back
    /// and the prompt rests, otherwise the prompt says what is wrong.
    pub fn handle_commit(&mut self) -> (order: Option<Command>)
        ensures
            final(self)@ == committed(old(self)@).0,
            order.deep_view() == committed(old(self)@).1,
    {
        let mut prompt = Self::Default;
        std::mem::swap(self, &mut prompt);
        match prompt {
            Self::Search { input, state } => {
                *self = Self::Search { input, state: SearchState::Commit };
                None
            },
            Self::Input { input } => match parse_command(input.as_str()) {
                Ok(command) => Some(command),
                Err(complaint) => {
                    self.set_error(complaint);
                    None
                },
            },
            Self::Confirm { input, command } => {
                if same_text(input.as_str(), "y") {
                    Some(command)
                } else {
                    self.set_error("Only y is allowed");
                    None
                }
            },
            _ => {
                self.set_error("Invalid submit state");
                None
            },
        }
    }

    /// Shows a message.
    pub fn handle_message(&mut self, value: &'static str, style: PromptStyle)
        ensures
            final(self)@ == (PromptView::Message { value: value@, style }),
    {
        *self = Self::Message { value, style }
    }

    /// The text searched for; empty where the prompt holds no search.
    pub fn get_search_input(&self) -> (text: &str)
        ensures
            text@ == match self@ {
                PromptView::Search { input, .. } => input,
                _ => Seq::empty(),
            },
    {
        if let Self::Search { input, .. } = self {
            input.as_str()
        } else {
            proof {
                reveal_strlit("");
            }
            assert(""@ =~= Seq::<char>::empty());
            ""
        }
    }
}

} // verus!
