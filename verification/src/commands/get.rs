//! Listing notes on the command line.

use vstd::prelude::*;
use vstd::string::*;
use crate::database::{Database, DatabaseView};
use crate::models::dip::{
    all_rows, filtered_rows, get_all, get_filtered, DipRowFull, DipRowView, DipsFilter,
    DipsFilterView,
};
use crate::models::dir_context::{
    get_closest, is_closest, is_global, ContextScope, RuntimeDirContext, RuntimeDirContextView,
};

verus! {

/// The lines that list notes: the value of each, or one line that says
/// that there is none.
pub open spec fn item_lines(items: Seq<DipRowView>) -> Seq<Seq<char>> {
    if items.len() == 0 {
        seq!["No items found."@]
    } else {
        items.map_values(|row: DipRowView| row.value)
    }
}

/// The lines that list the given notes.
pub fn render_items(items: &Vec<DipRowFull>) -> (lines: Vec<String>)
    ensures
        lines.deep_view() == item_lines(items.deep_view()),
{
    let mut lines: Vec<String> = Vec::new();
    if items.len() == 0 {
        lines.push("No items found.".to_string());
        assert(lines.deep_view() =~= item_lines(items.deep_view()));
    } else {
        let mut i: usize = 0;
        while i < items.len()
            invariant
                i <= items.len(),
                lines.len() == i,
                forall|k: int| 0 <= k < i ==> (#[trigger] lines[k])@ == items[k]@.value,
            decreases items.len() - i,
        {
            lines.push(items[i].value.clone());
            i += 1;
        }
        assert(lines.deep_view() =~= item_lines(items.deep_view()));
    }
    lines
}

/// The line that names the scope whose notes are listed.
pub open spec fn scope_line(label: Seq<char>) -> Seq<char> {
    "Scope: "@ + label
}

/// What the listing of the notes of a place consists of: the line that
/// names the scope that is closest to the place, and the lines of the notes
/// of that scope; where `scope` is none, the scope is `Global`.
pub open spec fn listing_of(
    db: DatabaseView,
    scope: Option<int>,
) -> Seq<Seq<char>> {
    match scope {
        Some(i) => seq![scope_line(db.dir_contexts[i].dir_path)] + item_lines(
            filtered_rows(db, DipsFilterView { scope_id: Some(db.dir_contexts[i].id), search: None }),
        ),
        None => seq![scope_line("Global"@)] + item_lines(
            filtered_rows(db, DipsFilterView { scope_id: None, search: None }),
        ),
    }
}

/// The lines that the listing prints: of all notes where `all` is set,
/// else of the notes of the scope that is closest to the place, under the
/// line that names that scope.
pub fn exec(db: &Database, ctx: &RuntimeDirContext, all: bool) -> (lines: Vec<String>)
    ensures
        all ==> lines.deep_view() == item_lines(all_rows(db@)),
        !all ==> {
            ||| exists|i: int|
                is_closest(db@.dir_contexts, ctx@.path, ctx@.git_remote, i) && lines.deep_view()
                    == #[trigger] listing_of(db@, Some(i))
            ||| is_global(db@.dir_contexts, ctx@.path, ctx@.git_remote) && lines.deep_view()
                == listing_of(db@, None)
        },
{
    if all {
        let items = get_all(db);
        render_items(&items)
    } else {
        let found = get_closest(db, ctx);
        let ghost found_view = found.deep_view();
        let ghost index: Option<int> = match found_view {
            Some(scope) => Some(
                choose|i: int|
                    is_closest(db@.dir_contexts, ctx@.path, ctx@.git_remote, i)
                        && #[trigger] db@.dir_contexts[i] == scope,
            ),
            None => None,
        };
        let scope = ContextScope::from(found);
        let filter = DipsFilter::new().with_scope_id(scope.id());
        let items = get_filtered(db, filter);
        let mut head = "Scope: ".to_string();
        head.append(scope.label().as_str());
        let mut lines: Vec<String> = Vec::new();
        lines.push(head);
        let mut rest = render_items(&items);
        let ghost rest_view = rest.deep_view();
        let ghost head_view = lines.deep_view();
        lines.append(&mut rest);
        assert(lines.deep_view() =~= head_view + rest_view);
        assert(head_view =~= seq![head@]);
        assert(lines.deep_view() == listing_of(db@, index));
        lines
    }
}

} // verus!
