//! From the state of the session to what is drawn: the lines of the page
//! and the line of the prompt, as plain text.

use std::collections::HashMap;
use vstd::prelude::*;
use vstd::string::*;
use crate::commands::bus::{answered, completion_of, ReplyView};
use crate::commands::page::{DipsFocus, PageState, PageType, PageView, ScopesFocus};
use crate::commands::prompt::{Command, CommandView, PromptState, PromptStyle, PromptView};
use crate::commands::session::{
    AppState, AppView, DataPayloadView, EffectView, EventView, fetch_request, initial_state, step,
};
use crate::database::DatabaseView;
use crate::identity::Uid;
use crate::models::dip::{joined_names, DipRowFull, DipRowView};
use crate::models::dir_context::{DirContext, DirContextView};

verus! {

/// One note on the page of notes.
#[derive(Debug, PartialEq, Eq)]
pub struct DipLine {
    pub value: String,
    pub tags: String,
}

/// One note on the page, as contracts speak of it.
pub ghost struct DipLineView {
    pub value: Seq<char>,
    pub tags: Seq<char>,
}

impl View for DipLine {
    type V = DipLineView;

    open spec fn view(&self) -> DipLineView {
        DipLineView { value: self.value@, tags: self.tags@ }
    }
}

impl DeepView for DipLine {
    type V = DipLineView;

    open spec fn deep_view(&self) -> DipLineView {
        self@
    }
}

/// One scope on the page of scopes.
#[derive(Debug, PartialEq, Eq)]
pub struct ScopeLine {
    pub dir_path: String,
    pub git_remote: String,
}

/// One scope on the page, as contracts speak of it.
pub ghost struct ScopeLineView {
    pub dir_path: Seq<char>,
    pub git_remote: Seq<char>,
}

impl View for ScopeLine {
    type V = ScopeLineView;

    open spec fn view(&self) -> ScopeLineView {
        ScopeLineView { dir_path: self.dir_path@, git_remote: self.git_remote@ }
    }
}

impl DeepView for ScopeLine {
    type V = ScopeLineView;

    open spec fn deep_view(&self) -> ScopeLineView {
        self@
    }
}

/// What is drawn of a page.
#[derive(Debug, PartialEq, Eq)]
#[allow(inconsistent_fields)]
pub enum PageFrame {
    /// Nothing.
    Blank,
    Help { text: &'static str },
    /// The line that names the scope, with the git remote of the scope
    /// where the scope is a stored one, and the notes. `selected` is the
    /// note that the cursor stands on.
    Dips {
        scope: String,
        remote: Option<String>,
        scope_selected: bool,
        rows: Vec<DipLine>,
        selected: Option<usize>,
    },
    /// The line of the global scope and the stored scopes. `selected` is
    /// the scope that the cursor stands on.
    Scopes { global_selected: bool, rows: Vec<ScopeLine>, selected: Option<usize> },
}

/// What is drawn of a page, as contracts speak of it.
#[allow(inconsistent_fields)]
pub ghost enum PageFrameView {
    Blank,
    Help { text: Seq<char> },
    Dips {
        scope: Seq<char>,
        remote: Option<Seq<char>>,
        scope_selected: bool,
        rows: Seq<DipLineView>,
        selected: Option<usize>,
    },
    Scopes { global_selected: bool, rows: Seq<ScopeLineView>, selected: Option<usize> },
}

impl View for PageFrame {
    type V = PageFrameView;

    open spec fn view(&self) -> PageFrameView {
        match self {
            PageFrame::Blank => PageFrameView::Blank,
            PageFrame::Help { text } => PageFrameView::Help { text: text@ },
            PageFrame::Dips { scope, remote, scope_selected, rows, selected } => PageFrameView::Dips {
                scope: scope@,
                remote: remote.deep_view(),
                scope_selected: *scope_selected,
                rows: rows.deep_view(),
                selected: *selected,
            },
            PageFrame::Scopes { global_selected, rows, selected } => PageFrameView::Scopes {
                global_selected: *global_selected,
                rows: rows.deep_view(),
                selected: *selected,
            },
        }
    }
}

/// What is drawn: the page, and the line of the prompt.
#[derive(Debug, PartialEq, Eq)]
pub struct Screen {
    pub page: PageFrame,
    pub prompt: String,
}

/// What is drawn, as contracts speak of it.
pub ghost struct ScreenView {
    pub page: PageFrameView,
    pub prompt: Seq<char>,
}

impl View for Screen {
    type V = ScreenView;

    open spec fn view(&self) -> ScreenView {
        ScreenView { page: self.page@, prompt: self.prompt@ }
    }
}

/// The text of the help page.
pub open spec fn help_text() -> Seq<char> {
    "j/k move the cursor, Tab changes between the list and the line above it, : opens a command, / searches, d deletes, Esc goes back, Ctrl-c quits."@
}

/// The line of a note, where the note was fetched.
pub open spec fn dip_line(fetched: Map<Uid, DipRowView>) -> spec_fn(Uid) -> Option<DipLineView> {
    |id: Uid|
        if fetched.contains_key(id) {
            Some(DipLineView { value: fetched[id].value, tags: joined_names(fetched[id].tags) })
        } else {
            None
        }
}

/// A text, or the empty text in place of none.
pub open spec fn text_or_empty(text: Option<Seq<char>>) -> Seq<char> {
    match text {
        Some(text) => text,
        None => Seq::empty(),
    }
}

/// The line of a scope, where the scope was fetched.
pub open spec fn scope_line(fetched: Map<Uid, DirContextView>) -> spec_fn(Uid) -> Option<
    ScopeLineView,
> {
    |id: Uid|
        if fetched.contains_key(id) {
            Some(
                ScopeLineView {
                    dir_path: fetched[id].dir_path,
                    git_remote: text_or_empty(fetched[id].git_remote),
                },
            )
        } else {
            None
        }
}

/// The line that the cursor marks: the one it stands on, where the cursor
/// is in the list and the list has lines; else none.
pub open spec fn selection(index: usize, lines: nat, in_list: bool) -> Option<usize> {
    if lines > 0 && in_list {
        Some(index)
    } else {
        None
    }
}

/// What is drawn of the page of a state.
pub open spec fn page_frame(s: AppView) -> PageFrameView {
    match s.ui.page {
        PageView::Splash => PageFrameView::Blank,
        PageView::Help => PageFrameView::Help { text: help_text() },
        PageView::Dips { scope_id, index, items, focus } => {
            let rows = items.filter_map(dip_line(s.data.dips));
            let known = scope_id is Some && s.data.scopes.contains_key(scope_id->Some_0);
            PageFrameView::Dips {
                scope: if known {
                    s.data.scopes[scope_id->Some_0].dir_path
                } else {
                    "Global"@
                },
                remote: if known {
                    Some(text_or_empty(s.data.scopes[scope_id->Some_0].git_remote))
                } else {
                    None
                },
                scope_selected: focus == DipsFocus::Scope,
                rows,
                selected: selection(index, rows.len(), focus == DipsFocus::List),
            }
        },
        PageView::Scopes { index, items, focus } => {
            let rows = items.filter_map(scope_line(s.data.scopes));
            PageFrameView::Scopes {
                global_selected: focus == ScopesFocus::Global,
                rows,
                selected: selection(index, rows.len(), focus == ScopesFocus::List),
            }
        },
    }
}

/// The line of the prompt.
pub open spec fn prompt_line(prompt: PromptView) -> Seq<char> {
    match prompt {
        PromptView::Default => "Type : to start a command"@,
        PromptView::Nav => "Go back: Esc"@,
        PromptView::Input { input } => "Command: "@ + input,
        PromptView::Search { input, .. } => "Search: "@ + input,
        PromptView::Confirm { input, command } => match command {
            CommandView::DeleteDip(_) => "DELETE: Are you sure? (y) "@ + input,
            CommandView::Add(_) => "ADD: Are you sure? (y) "@ + input,
        },
        PromptView::Message { value, style } => match style {
            PromptStyle::Danger => "Error: "@ + value,
            PromptStyle::Info => "Info: "@ + value,
        },
    }
}

/// What is drawn of a state.
pub open spec fn screen_of(s: AppView) -> ScreenView {
    ScreenView { page: page_frame(s), prompt: prompt_line(s.ui.prompt) }
}

/// The lines of the listed notes that were fetched.
fn dip_lines(items: &Vec<Uid>, fetched: &HashMap<Uid, DipRowFull>) -> (rows: Vec<DipLine>)
    ensures
        rows.deep_view() == items@.filter_map(
            dip_line(fetched@.map_values(|row: DipRowFull| row@)),
        ),
{
    broadcast use vstd::std_specs::hash::group_hash_axioms;

    let ghost pick = dip_line(fetched@.map_values(|row: DipRowFull| row@));
    let mut rows: Vec<DipLine> = Vec::new();
    let mut i: usize = 0;
    assert(rows.deep_view() =~= items@.take(0).filter_map(pick));
    while i < items.len()
        invariant
            i <= items.len(),
            pick == dip_line(fetched@.map_values(|row: DipRowFull| row@)),
            rows.deep_view() == items@.take(i as int).filter_map(pick),
        decreases items.len() - i,
    {
        proof {
            items@.lemma_filter_map_take_succ(pick, i as int);
        }
        match fetched.get(&items[i]) {
            Some(row) => {
                let ghost before = rows.deep_view();
                let line = DipLine { value: row.value.clone(), tags: row.tags.to_string() };
                assert(Some(line@) == pick(items@[i as int]));
                rows.push(line);
                assert(rows.deep_view() =~= before.push(line@));
            },
            None => {},
        }
        i += 1;
    }
    assert(items@.take(items.len() as int) =~= items@);
    rows
}

/// The lines of the listed scopes that were fetched.
fn scope_lines(items: &Vec<Uid>, fetched: &HashMap<Uid, DirContext>) -> (rows: Vec<ScopeLine>)
    ensures
        rows.deep_view() == items@.filter_map(
            scope_line(fetched@.map_values(|scope: DirContext| scope@)),
        ),
{
    broadcast use vstd::std_specs::hash::group_hash_axioms;

    let ghost pick = scope_line(fetched@.map_values(|scope: DirContext| scope@));
    let mut rows: Vec<ScopeLine> = Vec::new();
    let mut i: usize = 0;
    assert(rows.deep_view() =~= items@.take(0).filter_map(pick));
    while i < items.len()
        invariant
            i <= items.len(),
            pick == scope_line(fetched@.map_values(|scope: DirContext| scope@)),
            rows.deep_view() == items@.take(i as int).filter_map(pick),
        decreases items.len() - i,
    {
        proof {
            items@.lemma_filter_map_take_succ(pick, i as int);
        }
        match fetched.get(&items[i]) {
            Some(scope) => {
                let ghost before = rows.deep_view();
                let git_remote = match &scope.git_remote {
                    Some(url) => url.clone(),
                    None => String::new(),
                };
                let line = ScopeLine { dir_path: scope.dir_path.clone(), git_remote };
                assert(Some(line@) == pick(items@[i as int]));
                rows.push(line);
                assert(rows.deep_view() =~= before.push(line@));
            },
            None => {},
        }
        i += 1;
    }
    assert(items@.take(items.len() as int) =~= items@);
    rows
}

/// The line that the cursor marks.
fn select(index: usize, lines: usize, in_list: bool) -> (r: Option<usize>)
    ensures
        r == selection(index, lines as nat, in_list),
{
    if lines > 0 && in_list {
        Some(index)
    } else {
        None
    }
}

/// What is drawn of a page of notes: the line that names the scope, which
/// is `Global` where no scope is given, and the given lines.
pub fn render_dips_page(
    scope: Option<&DirContext>,
    rows: Vec<DipLine>,
    index: usize,
    focus: &DipsFocus,
) -> (frame: PageFrame)
    ensures
        frame@ == (PageFrameView::Dips {
            scope: match scope {
                Some(scope) => scope@.dir_path,
                None => "Global"@,
            },
            remote: match scope {
                Some(scope) => Some(text_or_empty(scope@.git_remote)),
                None => None,
            },
            scope_selected: *focus == DipsFocus::Scope,
            rows: rows.deep_view(),
            selected: selection(index, rows.len() as nat, *focus == DipsFocus::List),
        }),
{
    let (label, remote) = match scope {
        Some(scope) => (
            scope.dir_path.clone(),
            Some(
                match &scope.git_remote {
                    Some(url) => url.clone(),
                    None => String::new(),
                },
            ),
        ),
        None => ("Global".to_string(), None),
    };
    let selected = select(index, rows.len(), matches!(focus, DipsFocus::List));
    PageFrame::Dips {
        scope: label,
        remote,
        scope_selected: matches!(focus, DipsFocus::Scope),
        rows,
        selected,
    }
}

/// What is drawn of the page of scopes.
pub fn render_scopes_page(rows: Vec<ScopeLine>, index: usize, focus: &ScopesFocus) -> (frame:
    PageFrame)
    ensures
        frame@ == (PageFrameView::Scopes {
            global_selected: *focus == ScopesFocus::Global,
            rows: rows.deep_view(),
            selected: selection(index, rows.len() as nat, *focus == ScopesFocus::List),
        }),
{
    let selected = select(index, rows.len(), matches!(focus, ScopesFocus::List));
    PageFrame::Scopes { global_selected: matches!(focus, ScopesFocus::Global), rows, selected }
}

/// What is drawn of the help page.
pub fn render_help_page() -> (frame: PageFrame)
    ensures
        frame@ == (PageFrameView::Help { text: help_text() }),
{
    PageFrame::Help {
        text: "j/k move the cursor, Tab changes between the list and the line above it, : opens a command, / searches, d deletes, Esc goes back, Ctrl-c quits.",
    }
}

/// The line of the prompt.
pub fn render_prompt(prompt: &PromptState) -> (line: String)
    ensures
        line@ == prompt_line(prompt@),
{
    match prompt {
        PromptState::Default => "Type : to start a command".to_string(),
        PromptState::Nav => "Go back: Esc".to_string(),
        PromptState::Input { input } => {
            let mut line = "Command: ".to_string();
            line.append(input.as_str());
            line
        },
        PromptState::Search { input, .. } => {
            let mut line = "Search: ".to_string();
            line.append(input.as_str());
            line
        },
        PromptState::Confirm { input, command } => {
            let mut line = match command {
                Command::DeleteDip(_) => "DELETE: Are you sure? (y) ".to_string(),
                Command::Add(_) => "ADD: Are you sure? (y) ".to_string(),
            };
            line.append(input.as_str());
            line
        },
        PromptState::Message { value, style } => {
            let mut line = match style {
                PromptStyle::Danger => "Error: ".to_string(),
                PromptStyle::Info => "Info: ".to_string(),
            };
            line.append(value);
            line
        },
    }
}

/// What is drawn of a state.
pub fn render_page_with_prompt(state: &AppState) -> (screen: Screen)
    ensures
        screen@ == screen_of(state@),
{
    broadcast use vstd::std_specs::hash::group_hash_axioms;

    let page = match &state.ui.page {
        PageState::Dips { items, index, focus, scope_id } => {
            let rows = dip_lines(items, &state.data.dips);
            let scope = match scope_id {
                Some(id) => state.data.scopes.get(id),
                None => None,
            };
            render_dips_page(scope, rows, *index, focus)
        },
        PageState::Help => render_help_page(),
        PageState::Splash => PageFrame::Blank,
        PageState::Scopes { index, items, focus } => {
            let rows = scope_lines(items, &state.data.scopes);
            render_scopes_page(rows, *index, focus)
        },
    };
    Screen { page, prompt: render_prompt(&state.ui.prompt) }
}

/// From an empty store to an empty page. A session that starts by going to
/// the page of the notes of a scope asks for those notes; a store without
/// notes answers with none; once the answer is taken in, the page lists
/// nothing, no line is marked, and the cursor stays where it is whichever
/// way it is asked to move.
pub proof fn lemma_empty_store_shows_nothing(
    db: DatabaseView,
    scope_id: Option<Uid>,
    reply: ReplyView,
    after: DatabaseView,
)
    requires
        db.dips.len() == 0,
        answered(db, fetch_request(step(initial_state(), EventView::Nav(PageType::Dips { scope_id })).0.ui.page)->Some_0, reply, after),
    ensures
        ({
            let entered = step(initial_state(), EventView::Nav(PageType::Dips { scope_id }));
            let request = fetch_request(entered.0.ui.page)->Some_0;
            let shown = step(entered.0, completion_of(request, reply)).0;
            let up = step(shown, EventView::Action(crate::commands::session::Action::MoveUp)).0;
            let down = step(shown, EventView::Action(crate::commands::session::Action::MoveDown)).0;
            &&& entered.1 == seq![EffectView::Dispatch(request)]
            &&& reply == ReplyView::Dips(Seq::empty())
            &&& page_frame(shown) matches PageFrameView::Dips { rows, selected, .. } && rows.len()
                == 0 && selected is None
            &&& shown.ui.page matches PageView::Dips { index, items, .. } && index == 0
                && items.len() == 0
            &&& up.ui.page == shown.ui.page
            &&& down.ui.page == shown.ui.page
        }),
{
    reveal(Seq::filter);
    let entered = step(initial_state(), EventView::Nav(PageType::Dips { scope_id }));
    let request = fetch_request(entered.0.ui.page)->Some_0;
    assert(crate::models::dip::all_rows(db) =~= Seq::empty());
    assert(reply == ReplyView::Dips(Seq::empty()));
    let shown = step(entered.0, completion_of(request, reply)).0;
    assert(completion_of(request, reply) == EventView::LoadData(
        DataPayloadView::Dips { scope_id, items: Seq::empty() },
    ));
}

} // verus!
