//! The pages: which there are, what they list, and how the cursor moves
//! on them.

use vstd::prelude::*;
use crate::identity::Uid;

verus! {

/// The kinds of page, and for a page of notes the scope it shows.
#[derive(Debug, Clone, Copy, PartialEq, Eq, Structural)]
pub enum PageType {
    Dips { scope_id: Option<Uid> },
    Scopes,
    Help,
    Splash,
}

/// What the cursor of a page of notes stands on: the list, or the line
/// that names the scope.
#[derive(Debug, Clone, Copy, PartialEq, Eq, Structural)]
pub enum DipsFocus {
    List,
    Scope,
}

/// What the cursor of the page of scopes stands on: the line of the global
/// scope, or the list.
#[derive(Debug, Clone, Copy, PartialEq, Eq, Structural)]
pub enum ScopesFocus {
    Global,
    List,
}

/// The page that is shown.
#[derive(Debug, PartialEq, Eq)]
#[allow(inconsistent_fields)]
pub enum PageState {
    Splash,
    Dips { scope_id: Option<Uid>, index: usize, items: Vec<Uid>, focus: DipsFocus },
    Scopes { index: usize, items: Vec<Uid>, focus: ScopesFocus },
    Help,
}

/// The page as contracts speak of it.
#[allow(inconsistent_fields)]
pub ghost enum PageView {
    Splash,
    Dips { scope_id: Option<Uid>, index: usize, items: Seq<Uid>, focus: DipsFocus },
    Scopes { index: usize, items: Seq<Uid>, focus: ScopesFocus },
    Help,
}

impl View for PageState {
    type V = PageView;

    open spec fn view(&self) -> PageView {
        match self {
            PageState::Splash => PageView::Splash,
            PageState::Dips { scope_id, index, items, focus } => PageView::Dips {
                scope_id: *scope_id,
                index: *index,
                items: items@,
                focus: *focus,
            },
            PageState::Scopes { index, items, focus } => PageView::Scopes {
                index: *index,
                items: items@,
                focus: *focus,
            },
            PageState::Help => PageView::Help,
        }
    }
}

/// A cursor is in range when it stands on an item of the list, or on zero
/// where the list is empty.
pub open spec fn cursor_in_range(index: usize, len: nat) -> bool {
    index == 0 || index < len
}

/// The kind of a page.
pub open spec fn page_type_of(page: PageView) -> PageType {
    match page {
        PageView::Dips { scope_id, .. } => PageType::Dips { scope_id },
        PageView::Scopes { .. } => PageType::Scopes,
        PageView::Help => PageType::Help,
        PageView::Splash => PageType::Splash,
    }
}

/// The page of a kind as it is when it is entered: empty, the cursor on
/// top.
pub open spec fn initial_page(page: PageType) -> PageView {
    match page {
        PageType::Dips { scope_id } => PageView::Dips {
            scope_id,
            index: 0,
            items: Seq::empty(),
            focus: DipsFocus::List,
        },
        PageType::Scopes => PageView::Scopes {
            index: 0,
            items: Seq::empty(),
            focus: ScopesFocus::Global,
        },
        PageType::Help => PageView::Help,
        PageType::Splash => PageView::Splash,
    }
}

/// The page after the cursor was asked to move up: where it stands on a
/// line of the list below the first, it stands one line higher; everywhere
/// else the page is as it was.
pub open spec fn moved_up(page: PageView) -> PageView {
    match page {
        PageView::Dips { scope_id, index, items, focus } => if focus == DipsFocus::List
            && items.len() > 0 && index > 0 {
            PageView::Dips { scope_id, index: (index - 1) as usize, items, focus }
        } else {
            page
        },
        PageView::Scopes { index, items, focus } => if focus == ScopesFocus::List && items.len() > 0
            && index > 0 {
            PageView::Scopes { index: (index - 1) as usize, items, focus }
        } else {
            page
        },
        _ => page,
    }
}

/// The page after the cursor was asked to change between the list and the
/// line above it. The place in the list is kept.
pub open spec fn switched(page: PageView) -> PageView {
    match page {
        PageView::Dips { scope_id, index, items, focus } => PageView::Dips {
            scope_id,
            index,
            items,
            focus: match focus {
                DipsFocus::List => DipsFocus::Scope,
                DipsFocus::Scope => DipsFocus::List,
            },
        },
        PageView::Scopes { index, items, focus } => PageView::Scopes {
            index,
            items,
            focus: match focus {
                ScopesFocus::List => ScopesFocus::Global,
                ScopesFocus::Global => ScopesFocus::List,
            },
        },
        _ => page,
    }
}

/// The cursor one line further down a list of `len` items: it stays on the
/// last item, and stays where it is on an empty list.
pub open spec fn stepped_down(index: usize, len: nat) -> usize {
    if len == 0 {
        index
    } else if index + 1 < len {
        (index + 1) as usize
    } else {
        (len - 1) as usize
    }
}

/// The page after the cursor was asked to move down.
pub open spec fn moved_down(page: PageView) -> PageView {
    match page {
        PageView::Dips { scope_id, index, items, focus } => match focus {
            DipsFocus::List => PageView::Dips {
                scope_id,
                index: stepped_down(index, items.len()),
                items,
                focus,
            },
            DipsFocus::Scope => PageView::Dips { scope_id, index: 0, items, focus: DipsFocus::List },
        },
        PageView::Scopes { index, items, focus } => match focus {
            ScopesFocus::List => PageView::Scopes {
                index: stepped_down(index, items.len()),
                items,
                focus,
            },
            ScopesFocus::Global => PageView::Scopes { index: 0, items, focus: ScopesFocus::List },
        },
        _ => page,
    }
}

impl PageType {
    /// The kind of a page.
    pub fn from_page(page: &PageState) -> (kind: Self)
        ensures
            kind == page_type_of(page@),
    {
        match page {
            PageState::Dips { scope_id, .. } => Self::Dips { scope_id: *scope_id },
            PageState::Scopes { .. } => Self::Scopes,
            PageState::Help => Self::Help,
            PageState::Splash => Self::Splash,
        }
    }
}

fn step_down(index: usize, len: usize) -> (r: usize)
    ensures
        r == stepped_down(index, len as nat),
{
    if len == 0 {
        index
    } else if index < len - 1 {
        index + 1
    } else {
        len - 1
    }
}

impl PageState {
    /// Whether the page leaves the last line of the screen to the prompt.
    pub fn layout_with_prompt(&self) -> (r: bool)
        ensures
            r,
    {
        true
    }

    /// The kind of this page.
    pub fn page_type(&self) -> (kind: PageType)
        ensures
            kind == page_type_of(self@),
    {
        PageType::from_page(self)
    }

    /// Moves the cursor one line up in the list. On the first line, in an
    /// empty list and on the line above the list nothing changes.
    pub fn action_move_up(&mut self)
        ensures
            final(self)@ == moved_up(old(self)@),
    {
        match self {
            Self::Dips { index, items, focus, .. } => {
                if matches!(focus, DipsFocus::List) && !items.is_empty() && *index > 0 {
                    *index = *index - 1;
                }
            },
            Self::Scopes { index, items, focus } => {
                if matches!(focus, ScopesFocus::List) && !items.is_empty() && *index > 0 {
                    *index = *index - 1;
                }
            },
            _ => {},
        }
    }

    /// Moves the cursor from the list to the line above it, or from that
    /// line back to where it stood in the list.
    pub fn action_switch_focus(&mut self)
        ensures
            final(self)@ == switched(old(self)@),
    {
        match self {
            Self::Dips { focus, .. } => {
                *focus = match focus {
                    DipsFocus::List => DipsFocus::Scope,
                    DipsFocus::Scope => DipsFocus::List,
                };
            },
            Self::Scopes { focus, .. } => {
                *focus = match focus {
                    ScopesFocus::List => ScopesFocus::Global,
                    ScopesFocus::Global => ScopesFocus::List,
                };
            },
            _ => {},
        }
    }

    /// Moves the cursor one line down. From the line above a list it goes
    /// to the first line of the list; on the last line it stays.
    pub fn action_move_down(&mut self)
        ensures
            final(self)@ == moved_down(old(self)@),
    {
        match self {
            Self::Dips { index, items, focus, .. } => match focus {
                DipsFocus::List => {
                    *index = step_down(*index, items.len());
                },
                DipsFocus::Scope => {
                    *focus = DipsFocus::List;
                    *index = 0;
                },
            },
            Self::Scopes { index, items, focus } => match focus {
                ScopesFocus::List => {
                    *index = step_down(*index, items.len());
                },
                ScopesFocus::Global => {
                    *focus = ScopesFocus::List;
                    *index = 0;
                },
            },
            _ => {},
        }
    }
}

impl Default for PageState {
    fn default() -> (page: Self)
        ensures
            page@ == PageView::Splash,
    {
        Self::Splash
    }
}

} // verus!
