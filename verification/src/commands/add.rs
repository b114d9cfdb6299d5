//! Adding a note from the command line: to the scope of the place the
//! tool was started in, or to the global scope.

use vstd::prelude::*;
use crate::database::{lemma_first_where, Database, DatabaseView, StoreError};
use crate::identity::Uid;
use crate::models::dip::{create, dip_refused, draft, noted, scope_of, with_dip, Dip, DipView};
use crate::models::dir_context::{
    db_find_or_create, found_scope, matches_place, scope_matches, with_scope, DirContextView,
    RuntimeDirContext, RuntimeDirContextView,
};
use crate::models::tag::{create_dip_tag, dip_tagged, TagView};
use crate::text::{copy_optional_text, same_text};

verus! {

/// How an addition ended.
#[derive(Debug, PartialEq, Eq)]
pub enum AddOutcome {
    /// The value is noted in this context already; nothing was stored.
    AlreadyAdded,
    /// The note was stored.
    Added(Dip),
}

/// A stored note stands in the way of adding `value` at a place: it has
/// that value and is filed under the scope of the place, or it is global
/// and the addition is to be global.
pub open spec fn holds_value(
    db: DatabaseView,
    dip: DipView,
    place: RuntimeDirContextView,
    value: Seq<char>,
    global: bool,
) -> bool {
    &&& dip.value == value
    &&& match dip.dir_context_id {
        Some(_) => match scope_of(db, dip) {
            Some(scope) => scope_matches(scope, place.path, place.git_dir_name, place.git_remote),
            None => false,
        },
        None => global,
    }
}

/// Some stored note stands in the way of adding `value` at a place.
pub open spec fn value_noted(
    db: DatabaseView,
    place: RuntimeDirContextView,
    value: Seq<char>,
    global: bool,
) -> bool {
    exists|i: int|
        0 <= i < db.dips.len() && holds_value(db, #[trigger] db.dips[i], place, value, global)
}

/// Whether `value` is noted already where it is to be added.
pub fn value_exists(db: &Database, ctx: &RuntimeDirContext, value: &str, global: bool) -> (r: bool)
    ensures
        r == value_noted(db@, ctx@, value@, global),
{
    let path = ctx.path();
    let mut i: usize = 0;
    while i < db.dips.len()
        invariant
            i <= db.dips.len(),
            path@ == ctx@.path,
            forall|j: int|
                0 <= j < i ==> !holds_value(db@, #[trigger] db@.dips[j], ctx@, value@, global),
        decreases db.dips.len() - i,
    {
        let dip = &db.dips[i];
        if same_text(dip.value.as_str(), value) {
            let stands = match dip.dir_context_id {
                Some(id) => match db.scope_index(id) {
                    Some(s) => matches_place(
                        &db.dir_contexts[s],
                        path.as_str(),
                        ctx.git_dir(),
                        ctx.git_remote(),
                    ),
                    None => false,
                },
                None => global,
            };
            if stands {
                assert(holds_value(db@, db@.dips[i as int], ctx@, value@, global));
                return true;
            }
        }
        i += 1;
    }
    false
}

/// The store holds a row under an identity that chance can draw for a new
/// row of its table. Only in such a store can a new row be refused for its
/// identity.
pub open spec fn identity_may_be_taken(db: DatabaseView) -> bool {
    db.random_dip_stored() || db.random_scope_stored() || db.random_tag_stored()
}

/// Adds a note to the global scope.
fn add_global(db: &mut Database, value: &str) -> (r: Result<Dip, StoreError>)
    ensures
        match r {
            Ok(dip) => {
                &&& dip@.value == value@
                &&& dip@.dir_context_id is None
                &&& dip@.note is None
                &&& dip@.context_group_id is None
                &&& final(db)@ == with_dip(old(db)@, dip@)
            },
            Err(_) => final(db)@ == old(db)@,
        },
        r == Err::<Dip, StoreError>(StoreError::AlreadyExists) <==> noted(
            old(db)@,
            draft(None, value@, None),
        ),
        r is Err ==> r->Err_0 == StoreError::AlreadyExists || r->Err_0 == StoreError::IdTaken,
        r == Err::<Dip, StoreError>(StoreError::IdTaken) ==> old(db)@.random_dip_stored(),
        old(db)@.wf() ==> final(db)@.wf(),
{
    create(db, None, value, None)
}

/// What adding a note at a place leaves behind: the scope of the place is
/// stored, newly where no stored scope matched; the note is stored behind
/// the others, filed under that scope; and it carries the tag, if one was
/// given.
pub open spec fn added_at(
    before: DatabaseView,
    after: DatabaseView,
    place: RuntimeDirContextView,
    tag: Option<Seq<char>>,
    dip: DipView,
) -> bool {
    &&& match found_scope(before, place.path, place.git_dir_name, place.git_remote) {
        Some(found) => dip.dir_context_id == Some(found.id) && after.dir_contexts
            == before.dir_contexts,
        None => {
            &&& after.dir_contexts.len() == before.dir_contexts.len() + 1
            &&& after.dir_contexts == before.dir_contexts.push(after.dir_contexts.last())
            &&& !before.has_scope(after.dir_contexts.last().id)
            &&& dip.dir_context_id == Some(after.dir_contexts.last().id)
            &&& after.dir_contexts.last().dir_path == place.path
            &&& after.dir_contexts.last().git_dir_name == place.git_dir_name
            &&& after.dir_contexts.last().git_remote == place.git_remote
        },
    }
    &&& after.dips == before.dips.push(dip)
    &&& after.context_groups == before.context_groups
    &&& match tag {
        None => after.tags == before.tags && after.dips_tags == before.dips_tags,
        Some(name) => exists|candidate: TagView|
            candidate.name == name && #[trigger] dip_tagged(
                DatabaseView { dips: after.dips, dir_contexts: after.dir_contexts, ..before },
                dip.id,
                candidate,
            ) == Ok::<DatabaseView, StoreError>(after),
    }
}

/// Adds a note to the scope of a place. Where something is refused on the
/// way, the store may be left with a part of the addition.
fn add_contextual(db: &mut Database, ctx: &RuntimeDirContext, value: &str, tag: Option<&str>) -> (r:
    Result<Dip, StoreError>)
    ensures
        match r {
            Ok(dip) => {
                &&& dip@.value == value@
                &&& dip@.note is None
                &&& dip@.context_group_id is None
                &&& added_at(old(db)@, final(db)@, ctx@, tag.deep_view(), dip@)
            },
            Err(_) => true,
        },
        old(db)@.wf() && !value_noted(old(db)@, ctx@, value@, false) && r is Err ==> r->Err_0
            == StoreError::IdTaken,
        r == Err::<Dip, StoreError>(StoreError::IdTaken) ==> identity_may_be_taken(old(db)@),
        old(db)@.wf() ==> final(db)@.wf(),
{
    let path = ctx.path();
    let dir_name = match ctx.git_dir() {
        Some(name) => Some(name.to_string()),
        None => None,
    };
    let remote = match ctx.git_remote() {
        Some(url) => Some(url.to_string()),
        None => None,
    };
    let scope = match db_find_or_create(db, path.as_str(), dir_name, remote) {
        Ok(scope) => scope,
        Err(error) => {
            return Err(error);
        },
    };
    let ghost scoped = db@;
    assert(scoped.dips == old(db)@.dips && scoped.tags == old(db)@.tags);
    proof {
        if old(db)@.wf() && !value_noted(old(db)@, ctx@, value@, false) {
            lemma_scope_is_free(old(db)@, scoped, ctx@, value@, scope@);
        }
    }
    let dip = match create(db, Some(scope.id), value, None) {
        Ok(dip) => dip,
        Err(error) => {
            proof {
                if scoped.random_dip_stored() {
                    let id = choose|id: Uid|
                        crate::identity::is_random_uuid(id) && #[trigger] scoped.has_dip(id);
                    assert(old(db)@.has_dip(id));
                }
            }
            return Err(error);
        },
    };
    let ghost noted_db = db@;
    assert(noted_db.tags == old(db)@.tags);
    match tag {
        Some(name) => match create_dip_tag(db, &dip.id, name) {
            Ok(()) => {
                assert(noted_db == (DatabaseView {
                    dips: db@.dips,
                    dir_contexts: db@.dir_contexts,
                    ..old(db)@
                }));
                Ok(dip)
            },
            Err(error) => {
                assert(noted_db.has_dip(dip.id)) by {
                    assert(noted_db.dips[noted_db.dips.len() - 1].id == dip.id);
                }
                proof {
                    if noted_db.random_tag_stored() {
                        let id = choose|id: Uid|
                            crate::identity::is_random_uuid(id) && #[trigger] noted_db.has_tag(id);
                        assert(old(db)@.has_tag(id));
                    }
                }
                Err(error)
            },
        },
        None => Ok(dip),
    }
}

/// In a sound store in which nothing stands in the way of adding a value at
/// a place, the value is not noted in the scope that was found or made for
/// the place, and that scope is stored.
proof fn lemma_scope_is_free(
    before: DatabaseView,
    scoped: DatabaseView,
    place: RuntimeDirContextView,
    value: Seq<char>,
    scope: DirContextView,
)
    requires
        before.wf(),
        !value_noted(before, place, value, false),
        match found_scope(before, place.path, place.git_dir_name, place.git_remote) {
            Some(found) => scope == found && scoped == before,
            None => scoped == with_scope(before, scope) && !before.has_scope(scope.id),
        },
    ensures
        scoped.has_scope(scope.id),
        !noted(scoped, draft(Some(scope.id), value, None)),
{
    let matching = |s: DirContextView|
        scope_matches(s, place.path, place.git_dir_name, place.git_remote);
    lemma_first_where(before.dir_contexts, matching);
    let d = draft(Some(scope.id), value, None);
    if found_scope(before, place.path, place.git_dir_name, place.git_remote) is Some {
        let k = choose|k: int|
            0 <= k < before.dir_contexts.len() && #[trigger] before.dir_contexts[k] == scope
                && matching(scope);
        assert(before.dir_contexts[k].id == scope.id);
        if noted(scoped, d) {
            let i = choose|i: int|
                0 <= i < before.dips.len() && crate::database::same_note(
                    #[trigger] before.dips[i],
                    d,
                );
            let by_id = |s: DirContextView| s.id == scope.id;
            crate::database::lemma_first_where_only(before.dir_contexts, by_id, k);
            assert(holds_value(before, before.dips[i], place, value, false));
        }
    } else {
        assert(scoped.dir_contexts[before.dir_contexts.len() as int].id == scope.id);
        if noted(scoped, d) {
            let i = choose|i: int|
                0 <= i < before.dips.len() && crate::database::same_note(
                    #[trigger] before.dips[i],
                    d,
                );
            assert(before.dips[i].dir_context_id == Some(scope.id));
        }
    }
}

/// What was added at a place stands in the way of adding it there again.
pub proof fn lemma_added_is_noted(
    before: DatabaseView,
    after: DatabaseView,
    place: RuntimeDirContextView,
    tag: Option<Seq<char>>,
    dip: DipView,
)
    requires
        before.wf(),
        added_at(before, after, place, tag, dip),
    ensures
        value_noted(after, place, dip.value, false),
        value_noted(after, place, dip.value, true),
{
    let matching = |s: DirContextView|
        scope_matches(s, place.path, place.git_dir_name, place.git_remote);
    let sid = dip.dir_context_id->Some_0;
    let by_id = |s: DirContextView| s.id == sid;
    lemma_first_where(before.dir_contexts, matching);
    if found_scope(before, place.path, place.git_dir_name, place.git_remote) is Some {
        let found = found_scope(before, place.path, place.git_dir_name, place.git_remote)->Some_0;
        let k = choose|k: int|
            0 <= k < before.dir_contexts.len() && #[trigger] before.dir_contexts[k] == found
                && matching(found);
        crate::database::lemma_first_where_only(before.dir_contexts, by_id, k);
        assert(after.scope(sid) == Some(found));
    } else {
        lemma_first_where(before.dir_contexts, by_id);
        crate::database::lemma_first_where_push(
            before.dir_contexts,
            by_id,
            after.dir_contexts.last(),
        );
        assert(after.scope(sid) == Some(after.dir_contexts.last()));
    }
    let last = after.dips.len() - 1;
    assert(after.dips[last] == dip);
    assert(holds_value(after, after.dips[last], place, dip.value, false));
    assert(holds_value(after, after.dips[last], place, dip.value, true));
}

/// Adds the note `value`: to the global scope where `global` is set, else
/// to the scope of the place, which is stored first where no stored scope
/// matches the place. A note that is added to a place is given the tag, if
/// one is named. Where the value is noted in this context already, nothing
/// is stored. The addition is all or nothing: where the store refuses a
/// part of it, the store is left as it was. A sound store refuses only a
/// new row whose identity, which chance gives, is taken; that needs a stored
/// row with such an identity, so that in every other case the addition goes
/// through. What was added stands in the way of adding it again.
pub fn add(
    db: &mut Database,
    ctx: &RuntimeDirContext,
    value: &str,
    tag: Option<&str>,
    global: bool,
) -> (r: Result<AddOutcome, StoreError>)
    ensures
        value_noted(old(db)@, ctx@, value@, global) ==> (r matches Ok(AddOutcome::AlreadyAdded))
            && final(db)@ == old(db)@,
        !value_noted(old(db)@, ctx@, value@, global) ==> match r {
            Ok(AddOutcome::Added(dip)) => {
                &&& dip@.value == value@
                &&& dip@.note is None
                &&& dip@.context_group_id is None
                &&& if global {
                    dip@.dir_context_id is None && final(db)@ == with_dip(old(db)@, dip@)
                } else {
                    added_at(old(db)@, final(db)@, ctx@, tag.deep_view(), dip@)
                }
            },
            Ok(AddOutcome::AlreadyAdded) => false,
            Err(_) => final(db)@ == old(db)@,
        },
        old(db)@.wf() && r is Ok ==> value_noted(final(db)@, ctx@, value@, global),
        (global || old(db)@.wf()) && r is Err ==> r->Err_0 == StoreError::IdTaken,
        r == Err::<AddOutcome, StoreError>(StoreError::IdTaken) ==> identity_may_be_taken(old(db)@),
        old(db)@.wf() ==> final(db)@.wf(),
{
    if value_exists(db, ctx, value, global) {
        return Ok(AddOutcome::AlreadyAdded);
    }
    if global {
        proof {
            let d = draft(None, value@, None);
            if noted(db@, d) {
                let i = choose|i: int|
                    0 <= i < db@.dips.len() && crate::database::same_note(#[trigger] db@.dips[i], d);
                assert(holds_value(db@, db@.dips[i], ctx@, value@, global));
            }
        }
        match add_global(db, value) {
            Ok(dip) => {
                assert(holds_value(db@, db@.dips[db@.dips.len() - 1], ctx@, value@, global));
                Ok(AddOutcome::Added(dip))
            },
            Err(error) => Err(error),
        }
    } else {
        let backup = db.clone();
        match add_contextual(db, ctx, value, tag) {
            Ok(dip) => {
                proof {
                    if old(db)@.wf() {
                        lemma_added_is_noted(old(db)@, db@, ctx@, tag.deep_view(), dip@);
                    }
                }
                Ok(AddOutcome::Added(dip))
            },
            Err(error) => {
                *db = backup;
                Err(error)
            },
        }
    }
}

} // verus!
