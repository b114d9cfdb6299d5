//! What has to be written so that the store on disk follows the store in
//! memory: the rows that are new and the rows that are gone, in the order in
//! which they can be written.

use vstd::prelude::*;
use crate::database::{lemma_filter_map_empty, Database, DatabaseView, DipTag};
use crate::identity::Uid;
use crate::models::dip::{Dip, DipView};
use crate::models::dir_context::{DirContext, DirContextView};
use crate::models::tag::{Tag, TagView};

verus! {

/// One row to write or to take away.
#[derive(Debug, PartialEq, Eq)]
pub enum Change {
    InsertScope(DirContext),
    InsertTag(Tag),
    DeleteLink(DipTag),
    DeleteDip(Uid),
    InsertDip(Dip),
    InsertLink(DipTag),
}

/// One row to write or to take away, as contracts speak of it.
pub ghost enum ChangeView {
    InsertScope(DirContextView),
    InsertTag(TagView),
    DeleteLink(DipTag),
    DeleteDip(Uid),
    InsertDip(DipView),
    InsertLink(DipTag),
}

impl View for Change {
    type V = ChangeView;

    open spec fn view(&self) -> ChangeView {
        match self {
            Change::InsertScope(scope) => ChangeView::InsertScope(scope@),
            Change::InsertTag(tag) => ChangeView::InsertTag(tag@),
            Change::DeleteLink(link) => ChangeView::DeleteLink(*link),
            Change::DeleteDip(id) => ChangeView::DeleteDip(*id),
            Change::InsertDip(dip) => ChangeView::InsertDip(dip@),
            Change::InsertLink(link) => ChangeView::InsertLink(*link),
        }
    }
}

impl DeepView for Change {
    type V = ChangeView;

    open spec fn deep_view(&self) -> ChangeView {
        self@
    }
}

/// A scope is to be written where no scope with its identity was stored.
pub open spec fn scope_to_insert(before: DatabaseView) -> spec_fn(DirContextView) -> Option<
    ChangeView,
> {
    |scope: DirContextView|
        if before.has_scope(scope.id) {
            None
        } else {
            Some(ChangeView::InsertScope(scope))
        }
}

/// A tag is to be written where no tag with its identity was stored.
pub open spec fn tag_to_insert(before: DatabaseView) -> spec_fn(TagView) -> Option<ChangeView> {
    |tag: TagView|
        if before.has_tag(tag.id) {
            None
        } else {
            Some(ChangeView::InsertTag(tag))
        }
}

/// What is said of a tagged note is to be taken away where it is not said
/// any more.
pub open spec fn link_to_delete(after: DatabaseView) -> spec_fn(DipTag) -> Option<ChangeView> {
    |link: DipTag|
        if after.tagged(link.dip_id, link.tag_id) {
            None
        } else {
            Some(ChangeView::DeleteLink(link))
        }
}

/// A note is to be taken away where no note with its identity is stored
/// any more.
pub open spec fn dip_to_delete(after: DatabaseView) -> spec_fn(DipView) -> Option<ChangeView> {
    |dip: DipView|
        if after.has_dip(dip.id) {
            None
        } else {
            Some(ChangeView::DeleteDip(dip.id))
        }
}

/// A note is to be written where no note with its identity was stored.
pub open spec fn dip_to_insert(before: DatabaseView) -> spec_fn(DipView) -> Option<ChangeView> {
    |dip: DipView|
        if before.has_dip(dip.id) {
            None
        } else {
            Some(ChangeView::InsertDip(dip))
        }
}

/// What is said of a tagged note is to be written where it was not said
/// before.
pub open spec fn link_to_insert(before: DatabaseView) -> spec_fn(DipTag) -> Option<ChangeView> {
    |link: DipTag|
        if before.tagged(link.dip_id, link.tag_id) {
            None
        } else {
            Some(ChangeView::InsertLink(link))
        }
}

/// What has to be written so that a store that was `before` becomes
/// `after`. New scopes and new tags come first, since notes and what is said
/// of tagged notes point to them; what is gone is taken away before what is
/// new is written. Groups are left alone: nothing ever changes them.
pub open spec fn changes_between(before: DatabaseView, after: DatabaseView) -> Seq<ChangeView> {
    after.dir_contexts.filter_map(scope_to_insert(before)) + after.tags.filter_map(
        tag_to_insert(before),
    ) + before.dips_tags.filter_map(link_to_delete(after)) + before.dips.filter_map(
        dip_to_delete(after),
    ) + after.dips.filter_map(dip_to_insert(before)) + after.dips_tags.filter_map(
        link_to_insert(before),
    )
}

fn new_scopes(before: &Database, after: &Database) -> (out: Vec<Change>)
    ensures
        out.deep_view() == after@.dir_contexts.filter_map(scope_to_insert(before@)),
{
    let ghost all = after@.dir_contexts;
    let ghost pick = scope_to_insert(before@);
    let mut out: Vec<Change> = Vec::new();
    let mut i: usize = 0;
    assert(out.deep_view() =~= all.take(0).filter_map(pick));
    while i < after.dir_contexts.len()
        invariant
            i <= after.dir_contexts.len(),
            all == after@.dir_contexts,
            pick == scope_to_insert(before@),
            out.deep_view() == all.take(i as int).filter_map(pick),
        decreases after.dir_contexts.len() - i,
    {
        proof {
            all.lemma_filter_map_take_succ(pick, i as int);
        }
        let scope = &after.dir_contexts[i];
        if before.scope_index(scope.id).is_none() {
            let ghost so_far = out.deep_view();
            let change = Change::InsertScope(scope.clone());
            assert(Some(change@) == pick(all[i as int]));
            out.push(change);
            assert(out.deep_view() =~= so_far.push(change@));
        }
        i += 1;
    }
    assert(all.take(after.dir_contexts.len() as int) =~= all);
    out
}

fn new_tags(before: &Database, after: &Database) -> (out: Vec<Change>)
    ensures
        out.deep_view() == after@.tags.filter_map(tag_to_insert(before@)),
{
    let ghost all = after@.tags;
    let ghost pick = tag_to_insert(before@);
    let mut out: Vec<Change> = Vec::new();
    let mut i: usize = 0;
    assert(out.deep_view() =~= all.take(0).filter_map(pick));
    while i < after.tags.len()
        invariant
            i <= after.tags.len(),
            all == after@.tags,
            pick == tag_to_insert(before@),
            out.deep_view() == all.take(i as int).filter_map(pick),
        decreases after.tags.len() - i,
    {
        proof {
            all.lemma_filter_map_take_succ(pick, i as int);
        }
        let tag = &after.tags[i];
        if before.tag_index(tag.id).is_none() {
            let ghost so_far = out.deep_view();
            let change = Change::InsertTag(
                Tag { id: tag.id, name: tag.name.clone(), created_at: tag.created_at },
            );
            assert(Some(change@) == pick(all[i as int]));
            out.push(change);
            assert(out.deep_view() =~= so_far.push(change@));
        }
        i += 1;
    }
    assert(all.take(after.tags.len() as int) =~= all);
    out
}

fn gone_links(before: &Database, after: &Database) -> (out: Vec<Change>)
    ensures
        out.deep_view() == before@.dips_tags.filter_map(link_to_delete(after@)),
{
    let ghost all = before@.dips_tags;
    let ghost pick = link_to_delete(after@);
    let mut out: Vec<Change> = Vec::new();
    let mut i: usize = 0;
    assert(out.deep_view() =~= all.take(0).filter_map(pick));
    while i < before.dips_tags.len()
        invariant
            i <= before.dips_tags.len(),
            all == before@.dips_tags,
            pick == link_to_delete(after@),
            out.deep_view() == all.take(i as int).filter_map(pick),
        decreases before.dips_tags.len() - i,
    {
        proof {
            all.lemma_filter_map_take_succ(pick, i as int);
        }
        let link = before.dips_tags[i];
        if !after.is_tagged(link.dip_id, link.tag_id) {
            let ghost so_far = out.deep_view();
            let change = Change::DeleteLink(link);
            assert(Some(change@) == pick(all[i as int]));
            out.push(change);
            assert(out.deep_view() =~= so_far.push(change@));
        }
        i += 1;
    }
    assert(all.take(before.dips_tags.len() as int) =~= all);
    out
}

fn gone_dips(before: &Database, after: &Database) -> (out: Vec<Change>)
    ensures
        out.deep_view() == before@.dips.filter_map(dip_to_delete(after@)),
{
    let ghost all = before@.dips;
    let ghost pick = dip_to_delete(after@);
    let mut out: Vec<Change> = Vec::new();
    let mut i: usize = 0;
    assert(out.deep_view() =~= all.take(0).filter_map(pick));
    while i < before.dips.len()
        invariant
            i <= before.dips.len(),
            all == before@.dips,
            pick == dip_to_delete(after@),
            out.deep_view() == all.take(i as int).filter_map(pick),
        decreases before.dips.len() - i,
    {
        proof {
            all.lemma_filter_map_take_succ(pick, i as int);
        }
        let id = before.dips[i].id;
        if after.dip_index(id).is_none() {
            let ghost so_far = out.deep_view();
            let change = Change::DeleteDip(id);
            assert(Some(change@) == pick(all[i as int]));
            out.push(change);
            assert(out.deep_view() =~= so_far.push(change@));
        }
        i += 1;
    }
    assert(all.take(before.dips.len() as int) =~= all);
    out
}

fn new_dips(before: &Database, after: &Database) -> (out: Vec<Change>)
    ensures
        out.deep_view() == after@.dips.filter_map(dip_to_insert(before@)),
{
    let ghost all = after@.dips;
    let ghost pick = dip_to_insert(before@);
    let mut out: Vec<Change> = Vec::new();
    let mut i: usize = 0;
    assert(out.deep_view() =~= all.take(0).filter_map(pick));
    while i < after.dips.len()
        invariant
            i <= after.dips.len(),
            all == after@.dips,
            pick == dip_to_insert(before@),
            out.deep_view() == all.take(i as int).filter_map(pick),
        decreases after.dips.len() - i,
    {
        proof {
            all.lemma_filter_map_take_succ(pick, i as int);
        }
        let dip = &after.dips[i];
        if before.dip_index(dip.id).is_none() {
            let ghost so_far = out.deep_view();
            let change = Change::InsertDip(dip.clone());
            assert(Some(change@) == pick(all[i as int]));
            out.push(change);
            assert(out.deep_view() =~= so_far.push(change@));
        }
        i += 1;
    }
    assert(all.take(after.dips.len() as int) =~= all);
    out
}

fn new_links(before: &Database, after: &Database) -> (out: Vec<Change>)
    ensures
        out.deep_view() == after@.dips_tags.filter_map(link_to_insert(before@)),
{
    let ghost all = after@.dips_tags;
    let ghost pick = link_to_insert(before@);
    let mut out: Vec<Change> = Vec::new();
    let mut i: usize = 0;
    assert(out.deep_view() =~= all.take(0).filter_map(pick));
    while i < after.dips_tags.len()
        invariant
            i <= after.dips_tags.len(),
            all == after@.dips_tags,
            pick == link_to_insert(before@),
            out.deep_view() == all.take(i as int).filter_map(pick),
        decreases after.dips_tags.len() - i,
    {
        proof {
            all.lemma_filter_map_take_succ(pick, i as int);
        }
        let link = after.dips_tags[i];
        if !before.is_tagged(link.dip_id, link.tag_id) {
            let ghost so_far = out.deep_view();
            let change = Change::InsertLink(link);
            assert(Some(change@) == pick(all[i as int]));
            out.push(change);
            assert(out.deep_view() =~= so_far.push(change@));
        }
        i += 1;
    }
    assert(all.take(after.dips_tags.len() as int) =~= all);
    out
}

/// Puts one list of changes behind another.
fn followed_by(first: Vec<Change>, second: Vec<Change>) -> (out: Vec<Change>)
    ensures
        out.deep_view() == first.deep_view() + second.deep_view(),
{
    let mut out = first;
    let mut rest = second;
    let ghost a = out.deep_view();
    let ghost b = rest.deep_view();
    out.append(&mut rest);
    assert(out.deep_view() =~= a + b);
    out
}

/// What has to be written so that a store that was `before` becomes
/// `after`.
pub fn changes(before: &Database, after: &Database) -> (out: Vec<Change>)
    ensures
        out.deep_view() == changes_between(before@, after@),
{
    let out = new_scopes(before, after);
    let out = followed_by(out, new_tags(before, after));
    let out = followed_by(out, gone_links(before, after));
    let out = followed_by(out, gone_dips(before, after));
    let out = followed_by(out, new_dips(before, after));
    followed_by(out, new_links(before, after))
}

/// Where the store is as it was, nothing has to be written.
pub proof fn lemma_no_change(db: DatabaseView)
    ensures
        changes_between(db, db) == Seq::<ChangeView>::empty(),
{
    lemma_filter_map_empty(db.dir_contexts, scope_to_insert(db));
    lemma_filter_map_empty(db.tags, tag_to_insert(db));
    lemma_filter_map_empty(db.dips_tags, link_to_delete(db));
    lemma_filter_map_empty(db.dips, dip_to_delete(db));
    lemma_filter_map_empty(db.dips, dip_to_insert(db));
    lemma_filter_map_empty(db.dips_tags, link_to_insert(db));
    assert(changes_between(db, db) =~= Seq::<ChangeView>::empty());
}

/// A row that was added by the library, behind the rows that were there,
/// is the one row that has to be written.
pub proof fn lemma_added_dip_is_written(db: DatabaseView, dip: DipView)
    requires
        !db.has_dip(dip.id),
    ensures
        changes_between(db, DatabaseView { dips: db.dips.push(dip), ..db }) == seq![
            ChangeView::InsertDip(dip),
        ],
{
    let after = DatabaseView { dips: db.dips.push(dip), ..db };
    lemma_filter_map_empty(db.dir_contexts, scope_to_insert(db));
    lemma_filter_map_empty(db.tags, tag_to_insert(db));
    lemma_filter_map_empty(db.dips_tags, link_to_delete(after));
    lemma_filter_map_empty(db.dips_tags, link_to_insert(db));
    lemma_filter_map_empty(db.dips, dip_to_delete(after));
    assert forall|i: int| 0 <= i < db.dips.len() implies dip_to_delete(after)(
        #[trigger] db.dips[i],
    ) is None by {
        assert(after.dips[i].id == db.dips[i].id);
    }
    lemma_filter_map_empty(db.dips, dip_to_insert(db));
    after.dips.lemma_filter_map_take_succ(dip_to_insert(db), db.dips.len() as int);
    assert(after.dips.take(db.dips.len() as int) =~= db.dips);
    assert(after.dips.take(after.dips.len() as int) =~= after.dips);
    assert(changes_between(db, after) =~= seq![ChangeView::InsertDip(dip)]);
}

} // verus!
