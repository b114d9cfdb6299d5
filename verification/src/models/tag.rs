//! Tags: free labels on notes.

use vstd::prelude::*;
use crate::database::{
    lemma_filter_map_empty, lemma_filter_map_same, lemma_first_where, lemma_first_where_only,
    lemma_first_where_push, Database, DatabaseView, DipTag, StoreError,
};
use crate::identity::{
    hyphenated, is_midnight, is_random_uuid, new_uuid, today, Timestamp, Uid,
};
use crate::models::dip::{tag_meta, tags_of};

verus! {

/// The identity of a tag.
pub type Id = Uid;

/// A stored tag.
#[derive(Debug, PartialEq, Eq)]
pub struct Tag {
    pub id: Id,
    pub name: String,
    pub created_at: Timestamp,
}

/// A stored tag as contracts speak of it.
pub ghost struct TagView {
    pub id: Id,
    pub name: Seq<char>,
    pub created_at: Timestamp,
}

impl View for Tag {
    type V = TagView;

    open spec fn view(&self) -> TagView {
        TagView { id: self.id, name: self.name@, created_at: self.created_at }
    }
}

impl DeepView for Tag {
    type V = TagView;

    open spec fn deep_view(&self) -> TagView {
        self@
    }
}

impl Tag {
    /// The tag with the given identity and creation time.
    pub fn stamped(id: Id, now: Timestamp, name: &str) -> (tag: Self)
        ensures
            tag@ == (TagView { id, name: name@, created_at: now }),
    {
        Tag { id, name: name.to_string(), created_at: now }
    }

    /// A new tag, with a fresh random identity and today's date as the time
    /// of its creation.
    pub fn new(name: &str) -> (tag: Self)
        ensures
            is_random_uuid(tag.id),
            is_midnight(tag.created_at),
            tag@.name == name@,
    {
        let id = new_uuid();
        let now = today();
        Tag::stamped(id, now, name)
    }
}

/// A tag as it is shown beside a note: the text of its identity, and its
/// name.
#[derive(Debug, PartialEq, Eq)]
pub struct TagMeta {
    pub id: String,
    pub name: String,
}

/// A shown tag as contracts speak of it.
pub ghost struct TagMetaView {
    pub id: Seq<char>,
    pub name: Seq<char>,
}

impl View for TagMeta {
    type V = TagMetaView;

    open spec fn view(&self) -> TagMetaView {
        TagMetaView { id: self.id@, name: self.name@ }
    }
}

impl DeepView for TagMeta {
    type V = TagMetaView;

    open spec fn deep_view(&self) -> TagMetaView {
        self@
    }
}

impl Clone for TagMeta {
    fn clone(&self) -> (copy: Self)
        ensures
            copy@ == self@,
    {
        TagMeta { id: self.id.clone(), name: self.name.clone() }
    }
}

/// The store with one more tag.
pub open spec fn with_tag(db: DatabaseView, tag: TagView) -> DatabaseView {
    DatabaseView { tags: db.tags.push(tag), ..db }
}

/// The store in which the note carries the tag.
pub open spec fn linked(db: DatabaseView, dip_id: Uid, tag_id: Id) -> DatabaseView {
    if db.tagged(dip_id, tag_id) {
        db
    } else {
        DatabaseView { dips_tags: db.dips_tags.push(DipTag { dip_id, tag_id }), ..db }
    }
}

/// The store in which a tag with the name of `candidate` is sure to be,
/// and the identity of that tag: the stored tag of that name, or else the
/// candidate, which is stored unless its identity is taken.
pub open spec fn tag_ensured(db: DatabaseView, candidate: TagView) -> Result<
    (DatabaseView, Id),
    StoreError,
> {
    match db.tag_named(candidate.name) {
        Some(tag) => Ok((db, tag.id)),
        None => if db.has_tag(candidate.id) {
            Err(StoreError::IdTaken)
        } else {
            Ok((with_tag(db, candidate), candidate.id))
        },
    }
}

/// The store in which the note `dip_id` carries the tag with the name of
/// `candidate`. A note that is not stored cannot be tagged.
pub open spec fn dip_tagged(db: DatabaseView, dip_id: Uid, candidate: TagView) -> Result<
    DatabaseView,
    StoreError,
> {
    if !db.has_dip(dip_id) {
        Err(StoreError::NoSuchDip)
    } else {
        match tag_ensured(db, candidate) {
            Ok((with, tag_id)) => Ok(linked(with, dip_id, tag_id)),
            Err(error) => Err(error),
        }
    }
}

/// A sound store stays sound when a tag is made sure of.
pub proof fn lemma_tag_ensured_wf(db: DatabaseView, candidate: TagView)
    requires
        db.wf(),
        tag_ensured(db, candidate) is Ok,
    ensures
        tag_ensured(db, candidate)->Ok_0.0.wf(),
        tag_ensured(db, candidate)->Ok_0.0.has_tag(tag_ensured(db, candidate)->Ok_0.1),
        forall|id: Uid| db.has_dip(id) ==> tag_ensured(db, candidate)->Ok_0.0.has_dip(id),
{
    let by_name = |tag: TagView| tag.name == candidate.name;
    lemma_first_where(db.tags, by_name);
    let after = tag_ensured(db, candidate)->Ok_0.0;
    if db.tag_named(candidate.name) is None {
        assert(after.tags[db.tags.len() as int].id == candidate.id);
        assert forall|i: int, j: int| 0 <= i < j < after.tags.len() implies (
        #[trigger] after.tags[i]).id != (#[trigger] after.tags[j]).id && after.tags[i].name
            != after.tags[j].name by {
            assert(db.tags[i] == after.tags[i]);
            if j < db.tags.len() {
                assert(db.tags[j] == after.tags[j]);
            } else {
                assert(!by_name(db.tags[i]));
            }
        }
        assert forall|i: int| 0 <= i < after.dips_tags.len() implies after.has_dip(
            (#[trigger] after.dips_tags[i]).dip_id,
        ) && after.has_tag(after.dips_tags[i].tag_id) by {
            let link = db.dips_tags[i];
            assert(db.has_dip(link.dip_id) && db.has_tag(link.tag_id));
            let t = choose|t: int| 0 <= t < db.tags.len() && (#[trigger] db.tags[t]).id == link.tag_id;
            assert(after.tags[t].id == link.tag_id);
        }
    }
}

/// A sound store stays sound when a stored note is given a stored tag.
pub proof fn lemma_linked_wf(db: DatabaseView, dip_id: Uid, tag_id: Id)
    requires
        db.wf(),
        db.has_dip(dip_id),
        db.has_tag(tag_id),
    ensures
        linked(db, dip_id, tag_id).wf(),
{
    let after = linked(db, dip_id, tag_id);
    if !db.tagged(dip_id, tag_id) {
        assert forall|i: int| 0 <= i < after.dips_tags.len() implies after.has_dip(
            (#[trigger] after.dips_tags[i]).dip_id,
        ) && after.has_tag(after.dips_tags[i].tag_id) by {
            let link = after.dips_tags[i];
            if i < db.dips_tags.len() {
                assert(link == db.dips_tags[i]);
                assert(db.has_dip(link.dip_id) && db.has_tag(link.tag_id));
            }
            let d = choose|d: int| 0 <= d < db.dips.len() && (#[trigger] db.dips[d]).id == link.dip_id;
            assert(after.dips[d].id == link.dip_id);
            let t = choose|t: int| 0 <= t < db.tags.len() && (#[trigger] db.tags[t]).id == link.tag_id;
            assert(after.tags[t].id == link.tag_id);
        }
        assert forall|i: int, j: int|
            0 <= i < after.dips_tags.len() && 0 <= j < after.dips_tags.len() && i
                != j implies after.dips_tags[i] != after.dips_tags[j] by {
            if i < db.dips_tags.len() {
                assert(db.dips_tags[i] == after.dips_tags[i]);
            }
            if j < db.dips_tags.len() {
                assert(db.dips_tags[j] == after.dips_tags[j]);
            }
        }
    }
}

/// Makes sure that a tag with the name of `candidate` is stored, and
/// returns the identity of the tag of that name.
pub fn ensure_tag(db: &mut Database, candidate: Tag) -> (r: Result<Id, StoreError>)
    ensures
        match tag_ensured(old(db)@, candidate@) {
            Ok((after, id)) => r == Ok::<Id, StoreError>(id) && final(db)@ == after,
            Err(error) => r == Err::<Id, StoreError>(error) && final(db)@ == old(db)@,
        },
        old(db)@.wf() ==> final(db)@.wf(),
{
    proof {
        if db@.wf() && tag_ensured(db@, candidate@) is Ok {
            lemma_tag_ensured_wf(db@, candidate@);
        }
    }
    match db.tag_index_by_name(candidate.name.as_str()) {
        Some(i) => Ok(db.tags[i].id),
        None => {
            if db.tag_index(candidate.id).is_some() {
                return Err(StoreError::IdTaken);
            }
            let id = candidate.id;
            let ghost before = db@.tags;
            db.tags.push(candidate);
            assert(db@.tags =~= before.push(candidate@));
            Ok(id)
        },
    }
}

/// The identity of the tag with the given name. Where no such tag is
/// stored, one is made, with a fresh random identity and today's date, and
/// stored; the store refuses it where the identity that chance gave is
/// taken.
pub fn get_or_create(db: &mut Database, value: &str) -> (r: Result<Id, StoreError>)
    ensures
        match old(db)@.tag_named(value@) {
            Some(tag) => r == Ok::<Id, StoreError>(tag.id) && final(db)@ == old(db)@,
            None => match r {
                Ok(id) => {
                    &&& !old(db)@.has_tag(id)
                    &&& final(db)@.tags.len() == old(db)@.tags.len() + 1
                    &&& final(db)@.tags.last().id == id
                    &&& final(db)@.tags.last().name == value@
                    &&& final(db)@ == with_tag(old(db)@, final(db)@.tags.last())
                },
                Err(error) => {
                    &&& error == StoreError::IdTaken
                    &&& final(db)@ == old(db)@
                    &&& old(db)@.random_tag_stored()
                },
            },
        },
        old(db)@.wf() ==> final(db)@.wf(),
{
    let candidate = Tag::new(value);
    proof {
        if db@.has_tag(candidate.id) {
            assert(is_random_uuid(candidate.id) && db@.has_tag(candidate.id));
        }
    }
    ensure_tag(db, candidate)
}

/// Gives the note `dip_id` the tag with the name of `candidate`, which is
/// stored first where no tag of that name is.
pub fn tag_dip(db: &mut Database, dip_id: Uid, candidate: Tag) -> (r: Result<(), StoreError>)
    ensures
        match dip_tagged(old(db)@, dip_id, candidate@) {
            Ok(after) => r is Ok && final(db)@ == after,
            Err(error) => r == Err::<(), StoreError>(error) && final(db)@ == old(db)@,
        },
        old(db)@.wf() ==> final(db)@.wf(),
{
    if db.dip_index(dip_id).is_none() {
        return Err(StoreError::NoSuchDip);
    }
    proof {
        if db@.wf() && tag_ensured(db@, candidate@) is Ok {
            lemma_tag_ensured_wf(db@, candidate@);
            let t = tag_ensured(db@, candidate@)->Ok_0;
            lemma_linked_wf(t.0, dip_id, t.1);
        }
    }
    match ensure_tag(db, candidate) {
        Ok(tag_id) => {
            if !db.is_tagged(dip_id, tag_id) {
                db.dips_tags.push(DipTag { dip_id, tag_id });
            }
            Ok(())
        },
        Err(error) => Err(error),
    }
}

/// Gives the note `dip_id` the tag named `value`. A tag that is not stored
/// yet is made, with a fresh random identity and today's date. A note that
/// is not stored cannot be tagged; the store also refuses where the
/// identity that chance gave to a new tag is taken.
pub fn create_dip_tag(db: &mut Database, dip_id: &Uid, value: &str) -> (r: Result<(), StoreError>)
    ensures
        exists|candidate: TagView|
            candidate.name == value@ && is_random_uuid(candidate.id) && match #[trigger] dip_tagged(
                old(db)@,
                *dip_id,
                candidate,
            ) {
                Ok(after) => r is Ok && final(db)@ == after,
                Err(error) => r == Err::<(), StoreError>(error) && final(db)@ == old(db)@,
            },
        r == Err::<(), StoreError>(StoreError::NoSuchDip) <==> !old(db)@.has_dip(*dip_id),
        r is Err ==> r->Err_0 == StoreError::NoSuchDip || r->Err_0 == StoreError::IdTaken,
        r == Err::<(), StoreError>(StoreError::IdTaken) ==> old(db)@.random_tag_stored(),
        old(db)@.wf() ==> final(db)@.wf(),
{
    let candidate = Tag::new(value);
    let ghost view = candidate@;
    proof {
        if db@.has_tag(candidate.id) {
            assert(is_random_uuid(candidate.id) && db@.has_tag(candidate.id));
        }
    }
    let r = tag_dip(db, *dip_id, candidate);
    assert(view.name == value@);
    assert(dip_tagged(old(db)@, *dip_id, view) is Ok || dip_tagged(old(db)@, *dip_id, view) is Err);
    r
}

/// What tagging shows. In a sound store, after the note `dip_id` was given
/// the tag with the name of `candidate`, the tags of the note are what they
/// were, with that tag behind them if the note did not carry it before; a
/// note without tags has exactly that tag. The tags of every other note
/// are what they were.
pub proof fn lemma_tagging_shows(db: DatabaseView, dip_id: Uid, candidate: TagView, other: Uid)
    requires
        db.wf(),
        dip_tagged(db, dip_id, candidate) is Ok,
        other != dip_id,
    ensures
        ({
            let after = dip_tagged(db, dip_id, candidate)->Ok_0;
            let tag_id = tag_ensured(db, candidate)->Ok_0.1;
            let shown = TagMetaView { id: hyphenated(tag_id), name: candidate.name };
            &&& tags_of(after, dip_id) == if db.tagged(dip_id, tag_id) {
                tags_of(db, dip_id)
            } else {
                tags_of(db, dip_id).push(shown)
            }
            &&& tags_of(db, dip_id).len() == 0 ==> tags_of(after, dip_id) == seq![shown]
            &&& tags_of(after, other) == tags_of(db, other)
        }),
{
    let with = tag_ensured(db, candidate)->Ok_0.0;
    let tag_id = tag_ensured(db, candidate)->Ok_0.1;
    let after = dip_tagged(db, dip_id, candidate)->Ok_0;
    let shown = TagMetaView { id: hyphenated(tag_id), name: candidate.name };
    let by_name = |tag: TagView| tag.name == candidate.name;
    lemma_tag_ensured_wf(db, candidate);
    lemma_first_where(db.tags, by_name);
    // The tag that was made sure of is found under its identity.
    let by_id = |tag: TagView| tag.id == tag_id;
    assert(after.tags == with.tags);
    assert(after.tag(tag_id) matches Some(tag) && tag.name == candidate.name && tag.id == tag_id)
        by {
        if db.tag_named(candidate.name) is None {
            lemma_first_where(db.tags, by_id);
            lemma_first_where_push(db.tags, by_id, candidate);
        } else {
            let found = db.tag_named(candidate.name)->Some_0;
            let k = choose|k: int|
                0 <= k < db.tags.len() && #[trigger] db.tags[k] == found && by_name(found);
            lemma_first_where_only(db.tags, by_id, k);
        }
    }
    // Every tag that was stored is found as before.
    assert forall|id: Uid| db.has_tag(id) implies #[trigger] after.tag(id) == db.tag(id) by {
        let p = |tag: TagView| tag.id == id;
        lemma_first_where(db.tags, p);
        if db.tag_named(candidate.name) is None {
            lemma_first_where_push(db.tags, p, candidate);
        }
    }
    let links = db.dips_tags;
    assert forall|dip: Uid|
        links.filter_map(|link: DipTag| tag_meta(after, dip, link)) == #[trigger] tags_of(
            db,
            dip,
        ) by {
        let f = |link: DipTag| tag_meta(after, dip, link);
        let g = |link: DipTag| tag_meta(db, dip, link);
        assert forall|i: int| 0 <= i < links.len() implies f(#[trigger] links[i]) == g(links[i]) by {
            assert(db.has_tag(links[i].tag_id));
        }
        lemma_filter_map_same(links, f, g);
    }
    let link = DipTag { dip_id, tag_id };
    if db.tagged(dip_id, tag_id) {
        assert(after.dips_tags == links);
        assert(tags_of(db, dip_id).len() > 0) by {
            let g = |link: DipTag| tag_meta(db, dip_id, link);
            lemma_filter_map_empty(links, g);
            let i = choose|i: int| 0 <= i < links.len() && links[i] == link;
            assert(db.has_tag(links[i].tag_id));
            assert(g(links[i]) is Some);
        }
    } else {
        let grown = after.dips_tags;
        assert(grown == links.push(link));
        assert(grown.take(links.len() as int) =~= links);
        assert(grown.take(grown.len() as int) =~= grown);
        let f = |link: DipTag| tag_meta(after, dip_id, link);
        grown.lemma_filter_map_take_succ(f, links.len() as int);
        assert(f(grown[links.len() as int]) == Some(shown));
        assert(tags_of(db, dip_id) + seq![shown] =~= tags_of(db, dip_id).push(shown));
        let h = |link: DipTag| tag_meta(after, other, link);
        grown.lemma_filter_map_take_succ(h, links.len() as int);
        assert(h(grown[links.len() as int]) is None);
        assert(tags_of(db, other) + Seq::<TagMetaView>::empty() =~= tags_of(db, other));
        if tags_of(db, dip_id).len() == 0 {
            assert(tags_of(db, dip_id).push(shown) =~= seq![shown]);
        }
    }
}

} // verus!
