//! Notes, the rows they are listed as, and the filter a list is fetched
//! with.

use vstd::prelude::*;
use crate::database::{
    lemma_filter_all, lemma_filter_both, lemma_filter_keeps_pairwise, lemma_filter_same,
    lemma_filter_step, lemma_filter_twice, same_note, Database, DatabaseView, DipTag, StoreError,
};
use crate::identity::{
    hyphenated, is_midnight, is_random_uuid, new_uuid, today, uuid_to_string, Timestamp, Uid,
};
use crate::models::dir_context::DirContextView;
use crate::models::tag::{TagMeta, TagMetaView};
use crate::text::{
    contains, contains_ignore_case, copy_optional_text, has_part_ignore_case,
    lemma_contains_empty, lemma_contains_transitive, lemma_lower_keeps_contains, lower, split,
    split_at_char,
};

verus! {

/// What a list of notes is narrowed by: the scope the notes are filed
/// under, and a text their value has to hold.
#[derive(Debug, PartialEq, Eq)]
pub struct DipsFilter {
    scope_id: Option<Uid>,
    search: Option<String>,
}

/// A filter of notes as contracts speak of it.
pub ghost struct DipsFilterView {
    pub scope_id: Option<Uid>,
    pub search: Option<Seq<char>>,
}

impl View for DipsFilter {
    type V = DipsFilterView;

    closed spec fn view(&self) -> DipsFilterView {
        DipsFilterView { scope_id: self.scope_id, search: self.search.deep_view() }
    }
}

/// A note passes a filter when it is filed under the filter's scope, the
/// global scope being the one without identity, and when the searched text,
/// if there is one, is a part of the note's value, ASCII case ignored.
pub open spec fn dip_passes(
    filter: DipsFilterView,
    dir_context_id: Option<Uid>,
    value: Seq<char>,
) -> bool {
    &&& dir_context_id == filter.scope_id
    &&& match filter.search {
        None => true,
        Some(text) => contains_ignore_case(value, text),
    }
}

impl DipsFilter {
    /// The filter for the notes of the global scope, without a search.
    pub fn new() -> (filter: Self)
        ensures
            filter@ == (DipsFilterView { scope_id: None, search: None }),
    {
        Self { scope_id: None, search: None }
    }

    /// The same filter for the notes of another scope.
    pub fn with_scope_id(self, id: Option<Uid>) -> (filter: Self)
        ensures
            filter@ == (DipsFilterView { scope_id: id, search: self@.search }),
    {
        Self { scope_id: id, search: self.search }
    }

    /// The same filter, narrowed to the notes that hold `value`.
    pub fn with_search(self, value: &str) -> (filter: Self)
        ensures
            filter@ == (DipsFilterView { scope_id: self@.scope_id, search: Some(value@) }),
    {
        Self { scope_id: self.scope_id, search: Some(value.to_owned()) }
    }

    /// The scope whose notes pass.
    pub fn scope_id(&self) -> (id: Option<Uid>)
        ensures
            id == self@.scope_id,
    {
        self.scope_id
    }

    /// The text that the notes have to hold, if any.
    pub fn search(&self) -> (text: Option<&str>)
        ensures
            text.deep_view() == self@.search,
    {
        match &self.search {
            Some(text) => Some(text.as_str()),
            None => None,
        }
    }

    /// Whether a note with the given scope and value passes this filter.
    pub fn admits(&self, dir_context_id: Option<Uid>, value: &str) -> (r: bool)
        ensures
            r == dip_passes(self@, dir_context_id, value@),
    {
        if dir_context_id != self.scope_id {
            return false;
        }
        match &self.search {
            None => true,
            Some(text) => has_part_ignore_case(value, text.as_str()),
        }
    }
}

impl Clone for DipsFilter {
    fn clone(&self) -> (copy: Self)
        ensures
            copy@ == self@,
    {
        DipsFilter { scope_id: self.scope_id, search: copy_optional_text(&self.search) }
    }
}

/// A stored note.
#[derive(Debug, PartialEq, Eq)]
pub struct Dip {
    pub id: Uid,
    pub value: String,
    pub note: Option<String>,
    pub dir_context_id: Option<Uid>,
    pub context_group_id: Option<Uid>,
    pub created_at: Timestamp,
    pub updated_at: Timestamp,
}

/// A stored note as contracts speak of it.
pub ghost struct DipView {
    pub id: Uid,
    pub value: Seq<char>,
    pub note: Option<Seq<char>>,
    pub dir_context_id: Option<Uid>,
    pub context_group_id: Option<Uid>,
    pub created_at: Timestamp,
    pub updated_at: Timestamp,
}

impl View for Dip {
    type V = DipView;

    open spec fn view(&self) -> DipView {
        DipView {
            id: self.id,
            value: self.value@,
            note: self.note.deep_view(),
            dir_context_id: self.dir_context_id,
            context_group_id: self.context_group_id,
            created_at: self.created_at,
            updated_at: self.updated_at,
        }
    }
}

impl DeepView for Dip {
    type V = DipView;

    open spec fn deep_view(&self) -> DipView {
        self@
    }
}

impl Clone for Dip {
    fn clone(&self) -> (copy: Self)
        ensures
            copy@ == self@,
    {
        Dip {
            id: self.id,
            value: self.value.clone(),
            note: copy_optional_text(&self.note),
            dir_context_id: self.dir_context_id,
            context_group_id: self.context_group_id,
            created_at: self.created_at,
            updated_at: self.updated_at,
        }
    }
}

impl Dip {
    /// The note with the given identity and creation time, in no group.
    pub fn stamped(
        id: Uid,
        now: Timestamp,
        context_id: Option<Uid>,
        value: &str,
        note: Option<&str>,
    ) -> (dip: Self)
        ensures
            dip@ == (DipView {
                id,
                value: value@,
                note: note.deep_view(),
                dir_context_id: context_id,
                context_group_id: None,
                created_at: now,
                updated_at: now,
            }),
    {
        let note = match note {
            Some(text) => Some(text.to_string()),
            None => None,
        };
        Dip {
            id,
            value: value.to_string(),
            note,
            dir_context_id: context_id,
            context_group_id: None,
            created_at: now,
            updated_at: now,
        }
    }

    /// A new note, with a fresh random identity and today's date as the
    /// time of its creation.
    pub fn new(context_id: Option<Uid>, value: &str, note: Option<&str>) -> (dip: Self)
        ensures
            is_random_uuid(dip.id),
            is_midnight(dip.created_at),
            dip@ == (DipView {
                id: dip.id,
                value: value@,
                note: note.deep_view(),
                dir_context_id: context_id,
                context_group_id: None,
                created_at: dip.created_at,
                updated_at: dip.created_at,
            }),
    {
        let id = new_uuid();
        let now = today();
        Dip::stamped(id, now, context_id, value, note)
    }
}

/// The tags of one note, in the order they are shown.
#[derive(Debug, PartialEq, Eq)]
pub struct DipTags(Vec<TagMeta>);

impl View for DipTags {
    type V = Seq<TagMetaView>;

    closed spec fn view(&self) -> Seq<TagMetaView> {
        self.0.deep_view()
    }
}

/// The names of tags in one line, a blank between each two.
pub open spec fn joined_names(tags: Seq<TagMetaView>) -> Seq<char>
    decreases tags.len(),
{
    if tags.len() == 0 {
        Seq::empty()
    } else if tags.len() == 1 {
        tags[0].name
    } else {
        joined_names(tags.drop_last()) + seq![' '] + tags.last().name
    }
}

/// What one piece of a tag list stands for: a tag, where the piece is an
/// identity and a name with exactly one colon between them, and nothing
/// otherwise.
pub open spec fn tag_of_piece(piece: Seq<char>) -> Option<TagMetaView> {
    let parts = split(piece, ':');
    if parts.len() == 2 {
        Some(TagMetaView { id: parts[0], name: parts[1] })
    } else {
        None
    }
}

/// The tags that a list of the form `id:name,id:name` holds. Pieces that
/// are not of the form `id:name` are passed over.
pub open spec fn parsed_tags(text: Seq<char>) -> Seq<TagMetaView> {
    split(text, ',').filter_map(|piece: Seq<char>| tag_of_piece(piece))
}

impl DipTags {
    /// The given tags as the tags of a note.
    pub fn of(tags: Vec<TagMeta>) -> (r: Self)
        ensures
            r@ == tags.deep_view(),
    {
        DipTags(tags)
    }

    /// The tags, one by one.
    pub fn tags(&self) -> (tags: &Vec<TagMeta>)
        ensures
            tags.deep_view() == self@,
    {
        &self.0
    }

    /// The names of the tags in one line, a blank between each two.
    pub fn to_string(&self) -> (line: String)
        ensures
            line@ == joined_names(self@),
    {
        let mut line = String::new();
        let mut i: usize = 0;
        while i < self.0.len()
            invariant
                i <= self.0.len(),
                line@ == joined_names(self@.take(i as int)),
            decreases self.0.len() - i,
        {
            let ghost before = self@.take(i as int);
            let ghost now = self@.take(i + 1);
            assert(now.drop_last() =~= before);
            assert(now.last() == self.0[i as int]@);
            if i > 0 {
                line.push(' ');
                assert(line@ =~= joined_names(before) + seq![' ']);
            }
            line.append(self.0[i].name.as_str());
            i += 1;
        }
        assert(self@.take(self.0.len() as int) =~= self@);
        line
    }

    /// Reads the tags out of a list of the form `id:name,id:name`.
    pub fn parse(text: &str) -> (r: Self)
        ensures
            r@ == parsed_tags(text@),
    {
        let pieces = split_at_char(text, ',');
        let ghost all = pieces.deep_view();
        let ghost pick = |piece: Seq<char>| tag_of_piece(piece);
        let mut tags: Vec<TagMeta> = Vec::new();
        let mut i: usize = 0;
        assert(all.take(0).filter_map(pick) =~= Seq::<TagMetaView>::empty()) by {
            reveal(Seq::filter_map);
        }
        assert(tags.deep_view() =~= Seq::<TagMetaView>::empty());
        while i < pieces.len()
            invariant
                i <= pieces.len(),
                all == pieces.deep_view(),
                all.len() == pieces.len(),
                pick == (|piece: Seq<char>| tag_of_piece(piece)),
                tags.deep_view() == all.take(i as int).filter_map(pick),
            decreases pieces.len() - i,
        {
            proof {
                all.lemma_filter_map_take_succ(pick, i as int);
            }
            assert(all[i as int] == pieces[i as int]@);
            let mut parts = split_at_char(pieces[i].as_str(), ':');
            if parts.len() == 2 {
                let ghost before = tags.deep_view();
                let name = parts.pop().unwrap();
                let id = parts.pop().unwrap();
                let tag = TagMeta { id, name };
                assert(Some(tag@) == tag_of_piece(all[i as int]));
                tags.push(tag);
                assert(tags.deep_view() =~= before.push(tag@));
            }
            i += 1;
        }
        assert(all.take(pieces.len() as int) =~= all);
        DipTags(tags)
    }
}

/// A note as a page lists it: the note itself, what is known of its scope,
/// and its tags.
#[derive(Debug, PartialEq, Eq)]
pub struct DipRowFull {
    pub id: Uid,
    pub value: String,
    pub note: Option<String>,
    pub dir_context_id: Option<Uid>,
    pub created_at: Timestamp,
    pub updated_at: Timestamp,
    pub git_remote: Option<String>,
    pub git_dir_name: Option<String>,
    pub dir_path: Option<String>,
    pub tags: DipTags,
}

/// A listed note as contracts speak of it.
pub ghost struct DipRowView {
    pub id: Uid,
    pub value: Seq<char>,
    pub note: Option<Seq<char>>,
    pub dir_context_id: Option<Uid>,
    pub created_at: Timestamp,
    pub updated_at: Timestamp,
    pub git_remote: Option<Seq<char>>,
    pub git_dir_name: Option<Seq<char>>,
    pub dir_path: Option<Seq<char>>,
    pub tags: Seq<TagMetaView>,
}

impl View for DipRowFull {
    type V = DipRowView;

    open spec fn view(&self) -> DipRowView {
        DipRowView {
            id: self.id,
            value: self.value@,
            note: self.note.deep_view(),
            dir_context_id: self.dir_context_id,
            created_at: self.created_at,
            updated_at: self.updated_at,
            git_remote: self.git_remote.deep_view(),
            git_dir_name: self.git_dir_name.deep_view(),
            dir_path: self.dir_path.deep_view(),
            tags: self.tags@,
        }
    }
}

impl DeepView for DipRowFull {
    type V = DipRowView;

    open spec fn deep_view(&self) -> DipRowView {
        self@
    }
}

/// What a row of the table of tagged notes adds to the tags of the note
/// `dip_id`: the tag it names, where it speaks of that note and the tag is
/// stored.
pub open spec fn tag_meta(db: DatabaseView, dip_id: Uid, link: DipTag) -> Option<TagMetaView> {
    if link.dip_id == dip_id {
        match db.tag(link.tag_id) {
            Some(tag) => Some(TagMetaView { id: hyphenated(tag.id), name: tag.name }),
            None => None,
        }
    } else {
        None
    }
}

/// The tags of a note, in the order in which it was tagged.
pub open spec fn tags_of(db: DatabaseView, dip_id: Uid) -> Seq<TagMetaView> {
    db.dips_tags.filter_map(|link: DipTag| tag_meta(db, dip_id, link))
}

/// The scope a note is filed under, if it is filed under one that is
/// stored.
pub open spec fn scope_of(db: DatabaseView, dip: DipView) -> Option<DirContextView> {
    match dip.dir_context_id {
        Some(id) => db.scope(id),
        None => None,
    }
}

/// A note as a page lists it.
pub open spec fn dip_row(db: DatabaseView, dip: DipView) -> DipRowView {
    DipRowView {
        id: dip.id,
        value: dip.value,
        note: dip.note,
        dir_context_id: dip.dir_context_id,
        created_at: dip.created_at,
        updated_at: dip.updated_at,
        git_remote: match scope_of(db, dip) {
            Some(scope) => scope.git_remote,
            None => None,
        },
        git_dir_name: match scope_of(db, dip) {
            Some(scope) => scope.git_dir_name,
            None => None,
        },
        dir_path: match scope_of(db, dip) {
            Some(scope) => Some(scope.dir_path),
            None => None,
        },
        tags: tags_of(db, dip.id),
    }
}

/// All notes as a page lists them, in stored order.
pub open spec fn all_rows(db: DatabaseView) -> Seq<DipRowView> {
    db.dips.map_values(|dip: DipView| dip_row(db, dip))
}

/// Whether a listed note passes a filter.
pub open spec fn row_passes(filter: DipsFilterView) -> spec_fn(DipRowView) -> bool {
    |row: DipRowView| dip_passes(filter, row.dir_context_id, row.value)
}

/// The notes that pass a filter as a page lists them, in stored order.
pub open spec fn filtered_rows(db: DatabaseView, filter: DipsFilterView) -> Seq<DipRowView> {
    all_rows(db).filter(row_passes(filter))
}

/// The tags of a note.
pub fn tags_for(db: &Database, dip_id: Uid) -> (tags: DipTags)
    ensures
        tags@ == tags_of(db@, dip_id),
{
    let ghost links = db@.dips_tags;
    let ghost pick = |link: DipTag| tag_meta(db@, dip_id, link);
    let mut tags: Vec<TagMeta> = Vec::new();
    let mut i: usize = 0;
    assert(links.take(0).filter_map(pick) =~= Seq::<TagMetaView>::empty()) by {
        reveal(Seq::filter_map);
    }
    assert(tags.deep_view() =~= Seq::<TagMetaView>::empty());
    while i < db.dips_tags.len()
        invariant
            i <= db.dips_tags.len(),
            links == db@.dips_tags,
            pick == (|link: DipTag| tag_meta(db@, dip_id, link)),
            tags.deep_view() == links.take(i as int).filter_map(pick),
        decreases db.dips_tags.len() - i,
    {
        proof {
            links.lemma_filter_map_take_succ(pick, i as int);
        }
        let link = db.dips_tags[i];
        if link.dip_id == dip_id {
            match db.tag_index(link.tag_id) {
                Some(t) => {
                    let ghost before = tags.deep_view();
                    let tag = TagMeta {
                        id: uuid_to_string(db.tags[t].id),
                        name: db.tags[t].name.clone(),
                    };
                    assert(Some(tag@) == pick(links[i as int]));
                    tags.push(tag);
                    assert(tags.deep_view() =~= before.push(tag@));
                },
                None => {},
            }
        }
        i += 1;
    }
    assert(links.take(db.dips_tags.len() as int) =~= links);
    DipTags(tags)
}

/// A stored note as a page lists it.
pub fn row_of(db: &Database, dip: &Dip) -> (row: DipRowFull)
    ensures
        row@ == dip_row(db@, dip@),
{
    let scope = match dip.dir_context_id {
        Some(id) => db.scope_index(id),
        None => None,
    };
    let (git_remote, git_dir_name, dir_path) = match scope {
        Some(i) => (
            copy_optional_text(&db.dir_contexts[i].git_remote),
            copy_optional_text(&db.dir_contexts[i].git_dir_name),
            Some(db.dir_contexts[i].dir_path.clone()),
        ),
        None => (None, None, None),
    };
    DipRowFull {
        id: dip.id,
        value: dip.value.clone(),
        note: copy_optional_text(&dip.note),
        dir_context_id: dip.dir_context_id,
        created_at: dip.created_at,
        updated_at: dip.updated_at,
        git_remote,
        git_dir_name,
        dir_path,
        tags: tags_for(db, dip.id),
    }
}

/// All stored notes as a page lists them.
pub fn get_all(db: &Database) -> (rows: Vec<DipRowFull>)
    ensures
        rows.deep_view() == all_rows(db@),
{
    let mut rows: Vec<DipRowFull> = Vec::new();
    let mut i: usize = 0;
    while i < db.dips.len()
        invariant
            i <= db.dips.len(),
            rows.len() == i,
            forall|k: int| 0 <= k < i ==> (#[trigger] rows[k])@ == dip_row(db@, db@.dips[k]),
        decreases db.dips.len() - i,
    {
        let row = row_of(db, &db.dips[i]);
        rows.push(row);
        i += 1;
    }
    assert(rows.deep_view() =~= all_rows(db@));
    rows
}

/// The stored notes that pass the filter, as a page lists them.
pub fn get_filtered(db: &Database, filter: DipsFilter) -> (rows: Vec<DipRowFull>)
    ensures
        rows.deep_view() == filtered_rows(db@, filter@),
{
    let ghost all = all_rows(db@);
    let ghost p = row_passes(filter@);
    let mut rows: Vec<DipRowFull> = Vec::new();
    let mut i: usize = 0;
    proof {
        if all.len() > 0 {
            lemma_filter_step(all, p, 0);
        } else {
            reveal(Seq::filter);
            assert(all.take(0) =~= all);
        }
    }
    assert(rows.deep_view() =~= all.take(0).filter(p));
    while i < db.dips.len()
        invariant
            i <= db.dips.len(),
            all == all_rows(db@),
            all.len() == db.dips.len(),
            p == row_passes(filter@),
            rows.deep_view() == all.take(i as int).filter(p),
        decreases db.dips.len() - i,
    {
        proof {
            lemma_filter_step(all, p, i as int);
        }
        let dip = &db.dips[i];
        assert(all[i as int] == dip_row(db@, dip@));
        if filter.admits(dip.dir_context_id, dip.value.as_str()) {
            let ghost before = rows.deep_view();
            let row = row_of(db, dip);
            rows.push(row);
            assert(rows.deep_view() =~= before.push(all[i as int]));
        }
        i += 1;
    }
    assert(all.take(db.dips.len() as int) =~= all);
    rows
}

/// A note with this value is stored in this scope and group.
pub open spec fn noted(db: DatabaseView, dip: DipView) -> bool {
    exists|i: int| 0 <= i < db.dips.len() && same_note(#[trigger] db.dips[i], dip)
}

/// The scope that a note is to be filed under is not stored.
pub open spec fn scope_missing(db: DatabaseView, dir_context_id: Option<Uid>) -> bool {
    dir_context_id matches Some(id) && !db.has_scope(id)
}

/// Why a note cannot be stored, if it cannot: its scope is not stored,
/// or the same is noted already, or its identity is taken.
pub open spec fn dip_refused(db: DatabaseView, dip: DipView) -> Option<StoreError> {
    if scope_missing(db, dip.dir_context_id) {
        Some(StoreError::NoSuchScope)
    } else if noted(db, dip) {
        Some(StoreError::AlreadyExists)
    } else if db.has_dip(dip.id) {
        Some(StoreError::IdTaken)
    } else {
        None
    }
}

/// The store with one more note.
pub open spec fn with_dip(db: DatabaseView, dip: DipView) -> DatabaseView {
    DatabaseView { dips: db.dips.push(dip), ..db }
}

/// A sound store with a note that it does not refuse is sound.
pub proof fn lemma_with_dip_wf(db: DatabaseView, dip: DipView)
    requires
        db.wf(),
        dip_refused(db, dip) is None,
    ensures
        with_dip(db, dip).wf(),
{
    let after = with_dip(db, dip);
    assert forall|i: int, j: int| 0 <= i < j < after.dips.len() implies (
    #[trigger] after.dips[i]).id != (#[trigger] after.dips[j]).id && !same_note(
        after.dips[i],
        after.dips[j],
    ) by {
        assert(db.dips[i] == after.dips[i]);
        if j < db.dips.len() {
            assert(db.dips[j] == after.dips[j]);
        }
    }
    assert forall|i: int| 0 <= i < after.dips.len() implies match (
    #[trigger] after.dips[i]).dir_context_id {
        Some(id) => after.has_scope(id),
        None => true,
    } by {
        if i < db.dips.len() {
            assert(db.dips[i] == after.dips[i]);
        }
    }
    assert forall|i: int| 0 <= i < after.dips_tags.len() implies after.has_dip(
        (#[trigger] after.dips_tags[i]).dip_id,
    ) && after.has_tag(after.dips_tags[i].tag_id) by {
        let link = db.dips_tags[i];
        assert(db.has_dip(link.dip_id) && db.has_tag(link.tag_id));
        let d = choose|d: int| 0 <= d < db.dips.len() && (#[trigger] db.dips[d]).id == link.dip_id;
        assert(after.dips[d].id == link.dip_id);
        let t = choose|t: int| 0 <= t < db.tags.len() && (#[trigger] db.tags[t]).id == link.tag_id;
        assert(after.tags[t].id == link.tag_id);
    }
}

/// Whether the same value is noted in the same scope and group already.
fn is_noted(db: &Database, dip: &Dip) -> (r: bool)
    ensures
        r == noted(db@, dip@),
{
    let mut i: usize = 0;
    while i < db.dips.len()
        invariant
            i <= db.dips.len(),
            forall|j: int| 0 <= j < i ==> !same_note(#[trigger] db@.dips[j], dip@),
        decreases db.dips.len() - i,
    {
        let stored = &db.dips[i];
        if stored.value == dip.value && stored.dir_context_id == dip.dir_context_id
            && stored.context_group_id == dip.context_group_id {
            assert(same_note(db@.dips[i as int], dip@));
            return true;
        }
        i += 1;
    }
    false
}

/// Stores a note, unless the store refuses it.
pub fn insert(db: &mut Database, dip: Dip) -> (r: Result<(), StoreError>)
    ensures
        match dip_refused(old(db)@, dip@) {
            Some(error) => r == Err::<(), StoreError>(error) && final(db)@ == old(db)@,
            None => r is Ok && final(db)@ == with_dip(old(db)@, dip@),
        },
        old(db)@.wf() ==> final(db)@.wf(),
{
    let missing = match dip.dir_context_id {
        Some(id) => db.scope_index(id).is_none(),
        None => false,
    };
    if missing {
        return Err(StoreError::NoSuchScope);
    }
    if is_noted(db, &dip) {
        return Err(StoreError::AlreadyExists);
    }
    if db.dip_index(dip.id).is_some() {
        return Err(StoreError::IdTaken);
    }
    proof {
        if db@.wf() {
            lemma_with_dip_wf(db@, dip@);
        }
    }
    let ghost before = db@.dips;
    db.dips.push(dip);
    assert(db@.dips =~= before.push(dip@));
    Ok(())
}

/// The note that `create` is to make, but for its identity and the time.
pub open spec fn draft(dir_context_id: Option<Uid>, value: Seq<char>, note: Option<Seq<char>>) -> DipView {
    DipView {
        id: 0,
        value,
        note,
        dir_context_id,
        context_group_id: None,
        created_at: 0,
        updated_at: 0,
    }
}

/// Makes a note with a fresh random identity and today's date, and stores
/// it. The store refuses a note whose scope it does not hold, and a value
/// that is noted in the scope already; it also refuses the note where the
/// identity that chance gave is taken, which needs a stored note with such
/// an identity. In every other case the note is stored.
pub fn create(db: &mut Database, dir_context_id: Option<Uid>, value: &str, note: Option<&str>) -> (r:
    Result<Dip, StoreError>)
    ensures
        match r {
            Ok(dip) => {
                &&& dip@.value == value@
                &&& dip@.note == note.deep_view()
                &&& dip@.dir_context_id == dir_context_id
                &&& dip@.context_group_id is None
                &&& dip_refused(old(db)@, dip@) is None
                &&& final(db)@ == with_dip(old(db)@, dip@)
            },
            Err(_) => final(db)@ == old(db)@,
        },
        r == Err::<Dip, StoreError>(StoreError::NoSuchScope) <==> scope_missing(
            old(db)@,
            dir_context_id,
        ),
        r == Err::<Dip, StoreError>(StoreError::AlreadyExists) <==> !scope_missing(
            old(db)@,
            dir_context_id,
        ) && noted(old(db)@, draft(dir_context_id, value@, note.deep_view())),
        r is Err ==> r->Err_0 == StoreError::NoSuchScope || r->Err_0 == StoreError::AlreadyExists
            || r->Err_0 == StoreError::IdTaken,
        r == Err::<Dip, StoreError>(StoreError::IdTaken) ==> old(db)@.random_dip_stored(),
        old(db)@.wf() ==> final(db)@.wf(),
{
    let dip = Dip::new(dir_context_id, value, note);
    proof {
        if db@.has_dip(dip.id) {
            assert(is_random_uuid(dip.id) && db@.has_dip(dip.id));
        }
        let d = draft(dir_context_id, value@, note.deep_view());
        if noted(db@, dip@) {
            let i = choose|i: int| 0 <= i < db@.dips.len() && same_note(#[trigger] db@.dips[i], dip@);
            assert(same_note(db@.dips[i], d));
        }
        if noted(db@, d) {
            let i = choose|i: int| 0 <= i < db@.dips.len() && same_note(#[trigger] db@.dips[i], d);
            assert(same_note(db@.dips[i], dip@));
        }
    }
    let copy = dip.clone();
    match insert(db, dip) {
        Ok(()) => Ok(copy),
        Err(error) => Err(error),
    }
}

/// The store without the note `id` and without what was said of its tags.
pub open spec fn without_dip(db: DatabaseView, id: Uid) -> DatabaseView {
    DatabaseView {
        dips: db.dips.filter(|dip: DipView| dip.id != id),
        dips_tags: db.dips_tags.filter(|link: DipTag| link.dip_id != id),
        ..db
    }
}

/// The notes but the one with the identity `id`.
fn drop_dip(dips: Vec<Dip>, id: Uid) -> (kept: Vec<Dip>)
    ensures
        kept.deep_view() == dips.deep_view().filter(|dip: DipView| dip.id != id),
{
    let ghost all = dips.deep_view();
    let ghost p = |dip: DipView| dip.id != id;
    let mut kept: Vec<Dip> = Vec::new();
    proof {
        reveal(Seq::filter);
    }
    assert(kept.deep_view() =~= all.take(0).filter(p));
    for dip in it: dips
        invariant
            all == dips.deep_view(),
            it.seq() == dips@,
            p == (|dip: DipView| dip.id != id),
            kept.deep_view() == all.take(it.index() as int).filter(p),
    {
        proof {
            lemma_filter_step(all, p, it.index() as int);
        }
        if dip.id != id {
            let ghost before = kept.deep_view();
            let ghost view = dip@;
            kept.push(dip);
            assert(kept.deep_view() =~= before.push(view));
        }
    }
    assert(all.take(dips@.len() as int) =~= all);
    kept
}

/// What is said of tagged notes, but for the note `id`.
fn drop_links(links: Vec<DipTag>, id: Uid) -> (kept: Vec<DipTag>)
    ensures
        kept@ == links@.filter(|link: DipTag| link.dip_id != id),
{
    let ghost all = links@;
    let ghost p = |link: DipTag| link.dip_id != id;
    let mut kept: Vec<DipTag> = Vec::new();
    proof {
        reveal(Seq::filter);
    }
    assert(kept@ =~= all.take(0).filter(p));
    for link in it: links
        invariant
            all == links@,
            it.seq() == links@,
            p == (|link: DipTag| link.dip_id != id),
            kept@ == all.take(it.index() as int).filter(p),
    {
        proof {
            lemma_filter_step(all, p, it.index() as int);
        }
        if link.dip_id != id {
            kept.push(link);
        }
    }
    assert(all.take(links@.len() as int) =~= all);
    kept
}

/// Deletes the note `id`, and with it what was said of its tags. Where
/// no such note is stored, nothing changes.
pub fn delete(db: &mut Database, id: &Uid)
    ensures
        final(db)@ == without_dip(old(db)@, *id),
        old(db)@.wf() ==> final(db)@.wf(),
{
    proof {
        if db@.wf() {
            lemma_without_dip_wf(db@, *id);
        }
    }
    let mut dips: Vec<Dip> = Vec::new();
    std::mem::swap(&mut db.dips, &mut dips);
    db.dips = drop_dip(dips, *id);
    let mut links: Vec<DipTag> = Vec::new();
    std::mem::swap(&mut db.dips_tags, &mut links);
    db.dips_tags = drop_links(links, *id);
}

/// A sound store without one of its notes is sound.
pub proof fn lemma_without_dip_wf(db: DatabaseView, id: Uid)
    requires
        db.wf(),
    ensures
        without_dip(db, id).wf(),
{
    let after = without_dip(db, id);
    let keep_dip = |dip: DipView| dip.id != id;
    let keep_link = |link: DipTag| link.dip_id != id;
    lemma_filter_keeps_pairwise(db.dips, keep_dip, |a: DipView, b: DipView| a.id != b.id);
    lemma_filter_keeps_pairwise(db.dips, keep_dip, |a: DipView, b: DipView| !same_note(a, b));
    lemma_filter_keeps_pairwise(db.dips_tags, keep_link, |a: DipTag, b: DipTag| a != b);
    assert forall|i: int| 0 <= i < after.dips.len() implies match (
    #[trigger] after.dips[i]).dir_context_id {
        Some(scope) => after.has_scope(scope),
        None => true,
    } by {
        assert(after.dips.contains(after.dips[i]));
        db.dips.lemma_filter_contains_rev(keep_dip, after.dips[i]);
        let k = choose|k: int| 0 <= k < db.dips.len() && db.dips[k] == after.dips[i];
        assert(db.dips[k].dir_context_id == after.dips[i].dir_context_id);
    }
    assert forall|i: int| 0 <= i < after.dips_tags.len() implies after.has_dip(
        (#[trigger] after.dips_tags[i]).dip_id,
    ) && after.has_tag(after.dips_tags[i].tag_id) by {
        let link = after.dips_tags[i];
        assert(after.dips_tags.contains(link));
        db.dips_tags.lemma_filter_contains_rev(keep_link, link);
        db.dips_tags.lemma_filter_pred(keep_link, i);
        let k = choose|k: int| 0 <= k < db.dips_tags.len() && db.dips_tags[k] == link;
        assert(db.has_dip(db.dips_tags[k].dip_id) && db.has_tag(db.dips_tags[k].tag_id));
        let d = choose|d: int| 0 <= d < db.dips.len() && (#[trigger] db.dips[d]).id == link.dip_id;
        db.dips.lemma_filter_contains(keep_dip, d);
        let e = choose|e: int| 0 <= e < after.dips.len() && after.dips[e] == db.dips[d];
        assert(after.dips[e].id == link.dip_id);
        let t = choose|t: int| 0 <= t < db.tags.len() && (#[trigger] db.tags[t]).id == link.tag_id;
        assert(after.tags[t].id == link.tag_id);
    }
}

/// Deleting a note a second time changes nothing, and once a note is
/// deleted it is not stored.
pub proof fn lemma_delete_is_idempotent(db: DatabaseView, id: Uid)
    ensures
        without_dip(without_dip(db, id), id) == without_dip(db, id),
        !without_dip(db, id).has_dip(id),
{
    let keep_dip = |dip: DipView| dip.id != id;
    let keep_link = |link: DipTag| link.dip_id != id;
    lemma_filter_twice(db.dips, keep_dip);
    lemma_filter_twice(db.dips_tags, keep_link);
    let after = without_dip(db, id);
    assert forall|i: int| 0 <= i < after.dips.len() implies (#[trigger] after.dips[i]).id != id by {
        db.dips.lemma_filter_pred(keep_dip, i);
    }
}

/// Deleting a note that is not stored changes nothing.
pub proof fn lemma_delete_absent(db: DatabaseView, id: Uid)
    requires
        db.wf(),
        !db.has_dip(id),
    ensures
        without_dip(db, id) == db,
{
    let keep_dip = |dip: DipView| dip.id != id;
    let keep_link = |link: DipTag| link.dip_id != id;
    lemma_filter_all(db.dips, keep_dip);
    assert forall|i: int| 0 <= i < db.dips_tags.len() implies keep_link(
        #[trigger] db.dips_tags[i],
    ) by {
        assert(db.has_dip(db.dips_tags[i].dip_id));
    }
    lemma_filter_all(db.dips_tags, keep_link);
}

/// A search for a text finds what a search without text finds, narrowed
/// to the notes whose value holds the text.
pub proof fn lemma_search_narrows(db: DatabaseView, scope_id: Option<Uid>, text: Seq<char>)
    ensures
        filtered_rows(db, DipsFilterView { scope_id, search: Some(text) }) == filtered_rows(
            db,
            DipsFilterView { scope_id, search: None },
        ).filter(|row: DipRowView| contains_ignore_case(row.value, text)),
{
    let wide = row_passes(DipsFilterView { scope_id, search: None });
    let holds = |row: DipRowView| contains_ignore_case(row.value, text);
    let narrow = row_passes(DipsFilterView { scope_id, search: Some(text) });
    lemma_filter_both(all_rows(db), wide, holds);
    let both = |row: DipRowView| wide(row) && holds(row);
    lemma_filter_same(all_rows(db), both, narrow);
}

/// A search for the empty text finds what a search without text finds.
pub proof fn lemma_empty_search_finds_all(db: DatabaseView, scope_id: Option<Uid>)
    ensures
        filtered_rows(db, DipsFilterView { scope_id, search: Some(Seq::empty()) }) == filtered_rows(
            db,
            DipsFilterView { scope_id, search: None },
        ),
{
    let with = row_passes(DipsFilterView { scope_id, search: Some(Seq::empty()) });
    let without = row_passes(DipsFilterView { scope_id, search: None });
    assert forall|i: int| 0 <= i < all_rows(db).len() implies with(#[trigger] all_rows(db)[i])
        == without(all_rows(db)[i]) by {
        lemma_contains_empty(all_rows(db)[i].value);
    }
    lemma_filter_same(all_rows(db), with, without);
}

/// A longer search finds no more than a shorter one: where the text of
/// one search is a part of the text of another, every note that the other
/// finds the one finds too.
pub proof fn lemma_longer_search_finds_less(
    db: DatabaseView,
    scope_id: Option<Uid>,
    short: Seq<char>,
    long: Seq<char>,
    row: DipRowView,
)
    requires
        contains(long, short),
        filtered_rows(db, DipsFilterView { scope_id, search: Some(long) }).contains(row),
    ensures
        filtered_rows(db, DipsFilterView { scope_id, search: Some(short) }).contains(row),
{
    let by_long = row_passes(DipsFilterView { scope_id, search: Some(long) });
    let by_short = row_passes(DipsFilterView { scope_id, search: Some(short) });
    let found = filtered_rows(db, DipsFilterView { scope_id, search: Some(long) });
    let i = choose|i: int| 0 <= i < found.len() && found[i] == row;
    all_rows(db).lemma_filter_pred(by_long, i);
    all_rows(db).lemma_filter_contains_rev(by_long, row);
    let k = choose|k: int| 0 <= k < all_rows(db).len() && all_rows(db)[k] == row;
    lemma_lower_keeps_contains(long, short);
    lemma_contains_transitive(lower(row.value), lower(long), lower(short));
    all_rows(db).lemma_filter_contains(by_short, k);
}

} // verus!
