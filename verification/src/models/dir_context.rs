//! Scopes: the directories and repositories that notes belong to, and the
//! choice of the scope that answers for a place.

use vstd::prelude::*;
use crate::database::{
    first_where, lemma_filter_step, lemma_first_where, lemma_first_where_skip, same_place, Database,
    DatabaseView, StoreError,
};
use crate::git::GitRepository;
use crate::identity::{is_midnight, is_random_uuid, new_uuid, today, Timestamp, Uid};
use crate::text::{
    char_count, contains_ignore_case, copy_optional_text, has_part_ignore_case, has_prefix,
    same_optional_text, same_text, starts_with,
};

verus! {

/// A stored scope.
#[derive(Debug, PartialEq, Eq)]
pub struct DirContext {
    pub id: Uid,
    pub git_remote: Option<String>,
    pub git_dir_name: Option<String>,
    pub dir_path: String,
    pub created_at: Timestamp,
    pub updated_at: Timestamp,
}

/// A stored scope as contracts speak of it.
pub ghost struct DirContextView {
    pub id: Uid,
    pub git_remote: Option<Seq<char>>,
    pub git_dir_name: Option<Seq<char>>,
    pub dir_path: Seq<char>,
    pub created_at: Timestamp,
    pub updated_at: Timestamp,
}

impl View for DirContext {
    type V = DirContextView;

    open spec fn view(&self) -> DirContextView {
        DirContextView {
            id: self.id,
            git_remote: self.git_remote.deep_view(),
            git_dir_name: self.git_dir_name.deep_view(),
            dir_path: self.dir_path@,
            created_at: self.created_at,
            updated_at: self.updated_at,
        }
    }
}

impl DeepView for DirContext {
    type V = DirContextView;

    open spec fn deep_view(&self) -> DirContextView {
        self@
    }
}

impl Clone for DirContext {
    fn clone(&self) -> (copy: Self)
        ensures
            copy@ == self@,
    {
        DirContext {
            id: self.id,
            git_remote: copy_optional_text(&self.git_remote),
            git_dir_name: copy_optional_text(&self.git_dir_name),
            dir_path: self.dir_path.clone(),
            created_at: self.created_at,
            updated_at: self.updated_at,
        }
    }
}

impl DirContext {
    /// The scope with the given identity and creation time.
    pub fn stamped(
        id: Uid,
        now: Timestamp,
        dir_path: &str,
        git_dir_name: Option<String>,
        git_remote: Option<String>,
    ) -> (scope: Self)
        ensures
            scope@ == (DirContextView {
                id,
                git_remote: git_remote.deep_view(),
                git_dir_name: git_dir_name.deep_view(),
                dir_path: dir_path@,
                created_at: now,
                updated_at: now,
            }),
    {
        DirContext {
            id,
            dir_path: dir_path.to_string(),
            git_remote,
            git_dir_name,
            created_at: now,
            updated_at: now,
        }
    }

    /// A new scope for a directory, with a fresh random identity and
    /// today's date as the time of its creation.
    pub fn new(dir_path: &str, git_dir_name: Option<String>, git_remote: Option<String>) -> (scope:
        Self)
        ensures
            is_random_uuid(scope.id),
            is_midnight(scope.created_at),
            scope@ == (DirContextView {
                id: scope.id,
                git_remote: git_remote.deep_view(),
                git_dir_name: git_dir_name.deep_view(),
                dir_path: dir_path@,
                created_at: scope.created_at,
                updated_at: scope.created_at,
            }),
    {
        let id = new_uuid();
        let now = today();
        DirContext::stamped(id, now, dir_path, git_dir_name, git_remote)
    }
}

/// What a list of scopes is narrowed by.
#[derive(Debug, PartialEq, Eq)]
pub struct ScopesFilter {
    search: Option<String>,
}

impl View for ScopesFilter {
    type V = Option<Seq<char>>;

    closed spec fn view(&self) -> Option<Seq<char>> {
        self.search.deep_view()
    }
}

/// A scope passes a search when the searched text is a part of its directory
/// path or of its git remote, ASCII case ignored; with no search every scope
/// passes.
pub open spec fn scope_passes(search: Option<Seq<char>>, scope: DirContextView) -> bool {
    match search {
        None => true,
        Some(text) => {
            ||| contains_ignore_case(scope.dir_path, text)
            ||| (scope.git_remote matches Some(remote) && contains_ignore_case(remote, text))
        },
    }
}

impl ScopesFilter {
    /// The filter that lets every scope pass.
    pub fn new() -> (filter: Self)
        ensures
            filter@ is None,
    {
        Self { search: None }
    }

    /// The same filter, narrowed to the scopes that hold `value`.
    pub fn with_search(self, value: &str) -> (filter: Self)
        ensures
            filter@ == Some(value@),
    {
        Self { search: Some(value.to_owned()) }
    }

    /// The text that the scopes have to hold, if any.
    pub fn search(&self) -> (text: Option<&str>)
        ensures
            text.deep_view() == self@,
    {
        match &self.search {
            Some(text) => Some(text.as_str()),
            None => None,
        }
    }

    /// Whether a scope passes this filter.
    pub fn admits(&self, scope: &DirContext) -> (r: bool)
        ensures
            r == scope_passes(self@, scope@),
    {
        match &self.search {
            None => true,
            Some(text) => {
                if has_part_ignore_case(scope.dir_path.as_str(), text.as_str()) {
                    true
                } else {
                    match &scope.git_remote {
                        Some(remote) => has_part_ignore_case(remote.as_str(), text.as_str()),
                        None => false,
                    }
                }
            },
        }
    }
}

/// The scope a page of notes is shown for: a stored one, or none at all.
#[derive(Debug, PartialEq, Eq)]
pub enum ContextScope {
    Dir(DirContext),
    Global,
}

/// A scope of a page as contracts speak of it.
pub ghost enum ContextScopeView {
    Dir(DirContextView),
    Global,
}

impl View for ContextScope {
    type V = ContextScopeView;

    open spec fn view(&self) -> ContextScopeView {
        match self {
            ContextScope::Dir(dir) => ContextScopeView::Dir(dir@),
            ContextScope::Global => ContextScopeView::Global,
        }
    }
}

impl Clone for ContextScope {
    fn clone(&self) -> (copy: Self)
        ensures
            copy@ == self@,
    {
        match self {
            ContextScope::Dir(dir) => ContextScope::Dir(dir.clone()),
            ContextScope::Global => ContextScope::Global,
        }
    }
}

impl From<DirContext> for ContextScope {
    fn from(value: DirContext) -> (scope: Self) {
        ContextScope::Dir(value)
    }
}

impl vstd::std_specs::convert::FromSpecImpl<DirContext> for ContextScope {
    open spec fn obeys_from_spec() -> bool {
        true
    }

    open spec fn from_spec(value: DirContext) -> Self {
        ContextScope::Dir(value)
    }
}

impl From<Option<DirContext>> for ContextScope {
    fn from(value: Option<DirContext>) -> (scope: Self) {
        match value {
            Some(dir) => ContextScope::Dir(dir),
            None => ContextScope::Global,
        }
    }
}

impl vstd::std_specs::convert::FromSpecImpl<Option<DirContext>> for ContextScope {
    open spec fn obeys_from_spec() -> bool {
        true
    }

    open spec fn from_spec(value: Option<DirContext>) -> Self {
        match value {
            Some(dir) => ContextScope::Dir(dir),
            None => ContextScope::Global,
        }
    }
}

impl ContextScope {
    /// What the scope is called on screen: its directory path, or `Global`.
    pub fn label(&self) -> (text: String)
        ensures
            text@ == match self@ {
                ContextScopeView::Dir(dir) => dir.dir_path,
                ContextScopeView::Global => "Global"@,
            },
    {
        match self {
            Self::Dir(dir) => dir.dir_path.clone(),
            Self::Global => "Global".to_string(),
        }
    }

    /// The identity notes of this scope are filed under.
    pub fn id(&self) -> (id: Option<Uid>)
        ensures
            id == match self@ {
                ContextScopeView::Dir(dir) => Some(dir.id),
                ContextScopeView::Global => None,
            },
    {
        match self {
            Self::Dir(dir) => Some(dir.id),
            Self::Global => None,
        }
    }
}

/// Why a place cannot be worked in.
#[derive(Debug, Clone, Copy, PartialEq, Eq, Structural)]
pub enum ContextError {
    /// The path does not exist.
    NotFound,
}

impl ContextError {
    /// The error in words.
    pub fn message(&self) -> (text: &'static str)
        ensures
            text@ == "Incorrect context path"@,
    {
        "Incorrect context path"
    }
}

/// The place the tool was started in.
#[derive(Debug, PartialEq, Eq)]
pub struct RuntimeDirContext {
    git_remote: Option<String>,
    git_dir_name: Option<String>,
    git_dir_path: Option<String>,
    path: String,
}

/// The place the tool was started in, as contracts speak of it.
pub ghost struct RuntimeDirContextView {
    pub git_remote: Option<Seq<char>>,
    pub git_dir_name: Option<Seq<char>>,
    pub git_dir_path: Option<Seq<char>>,
    pub path: Seq<char>,
}

impl View for RuntimeDirContext {
    type V = RuntimeDirContextView;

    closed spec fn view(&self) -> RuntimeDirContextView {
        RuntimeDirContextView {
            git_remote: self.git_remote.deep_view(),
            git_dir_name: self.git_dir_name.deep_view(),
            git_dir_path: self.git_dir_path.deep_view(),
            path: self.path@,
        }
    }
}

/// What is known of a place once its path and the repository around it, if
/// any, have been looked up.
pub open spec fn located(path: Seq<char>, repo: Option<GitRepository>) -> RuntimeDirContextView {
    match repo {
        Some(repo) => RuntimeDirContextView {
            git_remote: repo.remote.deep_view(),
            git_dir_name: Some(repo.dir_name@),
            git_dir_path: Some(repo.path@),
            path,
        },
        None => RuntimeDirContextView {
            git_remote: None,
            git_dir_name: None,
            git_dir_path: None,
            path,
        },
    }
}

impl RuntimeDirContext {
    /// The place at `path`. `exists` says whether the path was found on
    /// disk, `repo` what repository was discovered around it. A path that
    /// does not exist is refused.
    pub fn locate(path: String, exists: bool, repo: Option<GitRepository>) -> (r: Result<
        Self,
        ContextError,
    >)
        ensures
            exists ==> r is Ok && r->Ok_0@ == located(path@, repo),
            !exists ==> r == Err::<Self, ContextError>(ContextError::NotFound),
    {
        if !exists {
            return Err(ContextError::NotFound);
        }
        match repo {
            Some(repo) => Ok(
                Self {
                    git_remote: repo.remote,
                    git_dir_name: Some(repo.dir_name),
                    git_dir_path: Some(repo.path),
                    path,
                },
            ),
            None => Ok(Self { git_remote: None, git_dir_name: None, git_dir_path: None, path }),
        }
    }

    /// The path of the place.
    pub fn path(&self) -> (text: String)
        ensures
            text@ == self@.path,
    {
        self.path.clone()
    }

    /// The name of the repository's directory, if the place lies in one.
    pub fn git_dir(&self) -> (name: Option<&str>)
        ensures
            name.deep_view() == self@.git_dir_name,
    {
        match &self.git_dir_name {
            Some(name) => Some(name.as_str()),
            None => None,
        }
    }

    /// The URL of the repository's remote, if there is one.
    pub fn git_remote(&self) -> (url: Option<&str>)
        ensures
            url.deep_view() == self@.git_remote,
    {
        match &self.git_remote {
            Some(url) => Some(url.as_str()),
            None => None,
        }
    }
}

/// A stored scope answers for a place when its git remote is the place's,
/// or when its directory path is how the place's path begins.
pub open spec fn answers(scope: DirContextView, path: Seq<char>, remote: Option<Seq<char>>) -> bool {
    ||| (remote is Some && scope.git_remote == remote)
    ||| starts_with(path, scope.dir_path)
}

/// The scope at index `i` is the closest to a place: it answers for the
/// place, no scope that answers has a longer directory path, and of those
/// with a path as long it is the first.
pub open spec fn is_closest(
    scopes: Seq<DirContextView>,
    path: Seq<char>,
    remote: Option<Seq<char>>,
    i: int,
) -> bool {
    &&& 0 <= i < scopes.len()
    &&& answers(scopes[i], path, remote)
    &&& forall|j: int|
        0 <= j < scopes.len() && answers(#[trigger] scopes[j], path, remote)
            ==> scopes[j].dir_path.len() <= scopes[i].dir_path.len()
    &&& forall|j: int|
        0 <= j < i && answers(#[trigger] scopes[j], path, remote) ==> scopes[j].dir_path.len()
            < scopes[i].dir_path.len()
}

/// No stored scope answers for a place: the place is in the global scope.
pub open spec fn is_global(
    scopes: Seq<DirContextView>,
    path: Seq<char>,
    remote: Option<Seq<char>>,
) -> bool {
    forall|j: int| 0 <= j < scopes.len() ==> !answers(#[trigger] scopes[j], path, remote)
}

/// At most one scope is the closest to a place.
pub proof fn lemma_closest_is_unique(
    scopes: Seq<DirContextView>,
    path: Seq<char>,
    remote: Option<Seq<char>>,
    i: int,
    j: int,
)
    requires
        is_closest(scopes, path, remote, i),
        is_closest(scopes, path, remote, j),
    ensures
        i == j,
{
    if i < j {
        assert(answers(scopes[i], path, remote));
    } else if j < i {
        assert(answers(scopes[j], path, remote));
    }
}

/// Whether a stored scope answers for the place with the given path and
/// git remote.
pub fn scope_answers(scope: &DirContext, path: &str, remote: Option<&str>) -> (r: bool)
    ensures
        r == answers(scope@, path@, remote.deep_view()),
{
    let by_remote = match (remote, &scope.git_remote) {
        (Some(wanted), Some(stored)) => same_text(wanted, stored.as_str()),
        _ => false,
    };
    by_remote || has_prefix(path, scope.dir_path.as_str())
}

/// The index of the scope closest to the place with the given path and git
/// remote, or `None` where no stored scope answers for it.
pub fn closest_index(scopes: &Vec<DirContext>, path: &str, remote: Option<&str>) -> (r: Option<
    usize,
>)
    ensures
        match r {
            Some(i) => is_closest(scopes.deep_view(), path@, remote.deep_view(), i as int),
            None => is_global(scopes.deep_view(), path@, remote.deep_view()),
        },
{
    let ghost views = scopes.deep_view();
    let mut best: Option<usize> = None;
    let mut best_len: usize = 0;
    let mut i: usize = 0;
    while i < scopes.len()
        invariant
            i <= scopes.len(),
            views == scopes.deep_view(),
            views.len() == scopes.len(),
            match best {
                Some(b) => {
                    &&& b < i
                    &&& best_len == views[b as int].dir_path.len()
                    &&& is_closest(views.take(i as int), path@, remote.deep_view(), b as int)
                },
                None => is_global(views.take(i as int), path@, remote.deep_view()),
            },
        decreases scopes.len() - i,
    {
        let ghost before = views.take(i as int);
        let ghost after = views.take(i + 1);
        assert(forall|j: int| 0 <= j < i ==> before[j] == after[j]);
        assert(after[i as int] == scopes[i as int]@);
        if scope_answers(&scopes[i], path, remote) {
            let len = char_count(scopes[i].dir_path.as_str());
            match best {
                Some(_) => {
                    if len > best_len {
                        best = Some(i);
                        best_len = len;
                    }
                },
                None => {
                    best = Some(i);
                    best_len = len;
                },
            }
        }
        i += 1;
    }
    assert(views.take(scopes.len() as int) =~= views);
    best
}

/// A stored scope is the scope of a place when it has the place's path,
/// the name of the place's repository directory and the place's git remote,
/// all three.
pub open spec fn scope_matches(
    scope: DirContextView,
    path: Seq<char>,
    git_dir_name: Option<Seq<char>>,
    git_remote: Option<Seq<char>>,
) -> bool {
    &&& scope.dir_path == path
    &&& scope.git_dir_name == git_dir_name
    &&& scope.git_remote == git_remote
}

/// The stored scope of a place: the first that matches it.
pub open spec fn found_scope(
    db: DatabaseView,
    path: Seq<char>,
    git_dir_name: Option<Seq<char>>,
    git_remote: Option<Seq<char>>,
) -> Option<DirContextView> {
    first_where(
        db.dir_contexts,
        |scope: DirContextView| scope_matches(scope, path, git_dir_name, git_remote),
    )
}

/// A scope for the same place is stored.
pub open spec fn place_stored(db: DatabaseView, scope: DirContextView) -> bool {
    exists|i: int| 0 <= i < db.dir_contexts.len() && same_place(#[trigger] db.dir_contexts[i], scope)
}

/// A scope with this path, this name of the repository directory and this
/// git remote is stored.
pub open spec fn holds_place(
    db: DatabaseView,
    path: Seq<char>,
    git_dir_name: Option<Seq<char>>,
    git_remote: Option<Seq<char>>,
) -> bool {
    exists|i: int|
        0 <= i < db.dir_contexts.len() && (#[trigger] db.dir_contexts[i]).dir_path == path
            && db.dir_contexts[i].git_dir_name == git_dir_name && db.dir_contexts[i].git_remote
            == git_remote
}

/// Why a scope cannot be stored, if it cannot: its place is stored
/// already, or its identity is taken.
pub open spec fn scope_refused(db: DatabaseView, scope: DirContextView) -> Option<StoreError> {
    if place_stored(db, scope) {
        Some(StoreError::AlreadyExists)
    } else if db.has_scope(scope.id) {
        Some(StoreError::IdTaken)
    } else {
        None
    }
}

/// The store with one more scope.
pub open spec fn with_scope(db: DatabaseView, scope: DirContextView) -> DatabaseView {
    DatabaseView { dir_contexts: db.dir_contexts.push(scope), ..db }
}

/// A sound store with a scope that it does not refuse is sound.
pub proof fn lemma_with_scope_wf(db: DatabaseView, scope: DirContextView)
    requires
        db.wf(),
        scope_refused(db, scope) is None,
    ensures
        with_scope(db, scope).wf(),
{
    let after = with_scope(db, scope);
    assert forall|i: int| 0 <= i < after.dips.len() implies match (
    #[trigger] after.dips[i]).dir_context_id {
        Some(id) => after.has_scope(id),
        None => true,
    } by {
        match db.dips[i].dir_context_id {
            Some(id) => {
                let k = choose|k: int| 0 <= k < db.dir_contexts.len() && (
                #[trigger] db.dir_contexts[k]).id == id;
                assert(after.dir_contexts[k].id == id);
            },
            None => {},
        }
    }
    assert forall|i: int| 0 <= i < after.dips_tags.len() implies after.has_dip(
        (#[trigger] after.dips_tags[i]).dip_id,
    ) && after.has_tag(after.dips_tags[i].tag_id) by {
        let link = db.dips_tags[i];
        assert(db.has_dip(link.dip_id) && db.has_tag(link.tag_id));
        let d = choose|d: int| 0 <= d < db.dips.len() && (#[trigger] db.dips[d]).id == link.dip_id;
        assert(after.dips[d].id == link.dip_id);
        let t = choose|t: int| 0 <= t < db.tags.len() && (#[trigger] db.tags[t]).id == link.tag_id;
        assert(after.tags[t].id == link.tag_id);
    }
    assert forall|i: int, j: int| 0 <= i < j < after.dir_contexts.len() implies (
    #[trigger] after.dir_contexts[i]).id != (#[trigger] after.dir_contexts[j]).id && !same_place(
        after.dir_contexts[i],
        after.dir_contexts[j],
    ) by {
        if j == db.dir_contexts.len() {
            assert(db.dir_contexts[i] == after.dir_contexts[i]);
        } else {
            assert(db.dir_contexts[i] == after.dir_contexts[i]);
            assert(db.dir_contexts[j] == after.dir_contexts[j]);
        }
    }
}

/// The scopes that pass a filter, in stored order.
pub open spec fn filtered_scopes(db: DatabaseView, search: Option<Seq<char>>) -> Seq<
    DirContextView,
> {
    db.dir_contexts.filter(|scope: DirContextView| scope_passes(search, scope))
}

/// The stored scopes that pass the filter, in stored order.
pub fn get_filtered(db: &Database, filter: ScopesFilter) -> (scopes: Vec<DirContext>)
    ensures
        scopes.deep_view() == filtered_scopes(db@, filter@),
{
    let ghost all = db@.dir_contexts;
    let ghost p = |scope: DirContextView| scope_passes(filter@, scope);
    let mut scopes: Vec<DirContext> = Vec::new();
    let mut i: usize = 0;
    proof {
        if all.len() > 0 {
            lemma_filter_step(all, p, 0);
        } else {
            reveal(Seq::filter);
            assert(all.take(0) =~= all);
        }
    }
    assert(scopes.deep_view() =~= all.take(0).filter(p));
    while i < db.dir_contexts.len()
        invariant
            i <= db.dir_contexts.len(),
            all == db@.dir_contexts,
            p == (|scope: DirContextView| scope_passes(filter@, scope)),
            scopes.deep_view() == all.take(i as int).filter(p),
        decreases db.dir_contexts.len() - i,
    {
        proof {
            lemma_filter_step(all, p, i as int);
        }
        if filter.admits(&db.dir_contexts[i]) {
            let ghost before = scopes.deep_view();
            let copy = db.dir_contexts[i].clone();
            scopes.push(copy);
            assert(scopes.deep_view() =~= before.push(all[i as int]));
        }
        i += 1;
    }
    assert(all.take(db.dir_contexts.len() as int) =~= all);
    scopes
}

/// An optional text and an optional stored text are both absent, or
/// both present with the same characters.
fn same_optional(wanted: Option<&str>, stored: &Option<String>) -> (r: bool)
    ensures
        r == (wanted.deep_view() == stored.deep_view()),
{
    match (wanted, stored) {
        (Some(wanted), Some(stored)) => same_text(stored.as_str(), wanted),
        (None, None) => true,
        _ => false,
    }
}

/// Whether a stored scope is the scope of the place with the given path,
/// name of the repository directory and git remote.
pub fn matches_place(
    scope: &DirContext,
    path: &str,
    git_dir_name: Option<&str>,
    git_remote: Option<&str>,
) -> (r: bool)
    ensures
        r == scope_matches(scope@, path@, git_dir_name.deep_view(), git_remote.deep_view()),
{
    same_text(scope.dir_path.as_str(), path) && same_optional(git_dir_name, &scope.git_dir_name)
        && same_optional(git_remote, &scope.git_remote)
}

/// The stored scope of the place with the given path, name of the
/// repository directory and git remote.
pub fn db_find_one(
    db: &Database,
    current_path: &str,
    git_dir_name: Option<&str>,
    git_remote: Option<&str>,
) -> (r: Option<DirContext>)
    ensures
        r.deep_view() == found_scope(
            db@,
            current_path@,
            git_dir_name.deep_view(),
            git_remote.deep_view(),
        ),
{
    let ghost all = db@.dir_contexts;
    let ghost p = |scope: DirContextView|
        scope_matches(scope, current_path@, git_dir_name.deep_view(), git_remote.deep_view());
    let mut i: usize = 0;
    while i < db.dir_contexts.len()
        invariant
            i <= db.dir_contexts.len(),
            all == db@.dir_contexts,
            p == (|scope: DirContextView|
                scope_matches(
                    scope,
                    current_path@,
                    git_dir_name.deep_view(),
                    git_remote.deep_view(),
                )),
            forall|j: int| 0 <= j < i ==> !p(#[trigger] all[j]),
        decreases db.dir_contexts.len() - i,
    {
        if matches_place(&db.dir_contexts[i], current_path, git_dir_name, git_remote) {
            proof {
                lemma_first_where_skip(all, p, i as int);
                assert(all.skip(i as int).first() == all[i as int]);
            }
            return Some(db.dir_contexts[i].clone());
        }
        i += 1;
    }
    proof {
        lemma_first_where(all, p);
    }
    None
}

/// Whether a scope for the same place is stored.
fn is_place_stored(db: &Database, scope: &DirContext) -> (r: bool)
    ensures
        r == place_stored(db@, scope@),
{
    let mut i: usize = 0;
    while i < db.dir_contexts.len()
        invariant
            i <= db.dir_contexts.len(),
            forall|j: int| 0 <= j < i ==> !same_place(#[trigger] db@.dir_contexts[j], scope@),
        decreases db.dir_contexts.len() - i,
    {
        let stored = &db.dir_contexts[i];
        if stored.dir_path == scope.dir_path && same_optional_text(
            &stored.git_remote,
            &scope.git_remote,
        ) && same_optional_text(&stored.git_dir_name, &scope.git_dir_name) {
            assert(same_place(db@.dir_contexts[i as int], scope@));
            return true;
        }
        i += 1;
    }
    false
}

/// Stores a scope, unless the store refuses it.
pub fn db_insert(db: &mut Database, scope: DirContext) -> (r: Result<(), StoreError>)
    ensures
        match scope_refused(old(db)@, scope@) {
            Some(error) => r == Err::<(), StoreError>(error) && final(db)@ == old(db)@,
            None => r is Ok && final(db)@ == with_scope(old(db)@, scope@),
        },
        old(db)@.wf() ==> final(db)@.wf(),
{
    if is_place_stored(db, &scope) {
        return Err(StoreError::AlreadyExists);
    }
    if db.scope_index(scope.id).is_some() {
        return Err(StoreError::IdTaken);
    }
    proof {
        if db@.wf() {
            lemma_with_scope_wf(db@, scope@);
        }
    }
    let ghost before = db@.dir_contexts;
    db.dir_contexts.push(scope);
    assert(db@.dir_contexts =~= before.push(scope@));
    Ok(())
}

/// Makes a scope for a place, with a fresh random identity and today's
/// date, and stores it. The store refuses a place that it holds already;
/// it also refuses the scope where the identity that chance gave is taken,
/// which needs a stored scope with such an identity. In every other case
/// the scope is stored.
pub fn db_create(
    db: &mut Database,
    dir_path: &str,
    git_dir_name: Option<String>,
    git_remote: Option<String>,
) -> (r: Result<DirContext, StoreError>)
    ensures
        match r {
            Ok(scope) => {
                &&& scope@.dir_path == dir_path@
                &&& scope@.git_dir_name == git_dir_name.deep_view()
                &&& scope@.git_remote == git_remote.deep_view()
                &&& scope_refused(old(db)@, scope@) is None
                &&& final(db)@ == with_scope(old(db)@, scope@)
            },
            Err(error) => {
                &&& final(db)@ == old(db)@
                &&& error == StoreError::AlreadyExists || error == StoreError::IdTaken
            },
        },
        r == Err::<DirContext, StoreError>(StoreError::AlreadyExists) <==> holds_place(
            old(db)@,
            dir_path@,
            git_dir_name.deep_view(),
            git_remote.deep_view(),
        ),
        r == Err::<DirContext, StoreError>(StoreError::IdTaken) ==> old(db)@.random_scope_stored(),
        old(db)@.wf() ==> final(db)@.wf(),
{
    let scope = DirContext::new(dir_path, git_dir_name, git_remote);
    proof {
        if db@.has_scope(scope.id) {
            assert(is_random_uuid(scope.id) && db@.has_scope(scope.id));
        }
        if place_stored(db@, scope@) {
            let i = choose|i: int|
                0 <= i < db@.dir_contexts.len() && same_place(#[trigger] db@.dir_contexts[i], scope@);
            assert(db@.dir_contexts[i].dir_path == dir_path@);
        }
        if holds_place(db@, dir_path@, git_dir_name.deep_view(), git_remote.deep_view()) {
            let i = choose|i: int|
                0 <= i < db@.dir_contexts.len() && (#[trigger] db@.dir_contexts[i]).dir_path
                    == dir_path@ && db@.dir_contexts[i].git_dir_name == git_dir_name.deep_view()
                    && db@.dir_contexts[i].git_remote == git_remote.deep_view();
            assert(same_place(db@.dir_contexts[i], scope@));
        }
    }
    let copy = scope.clone();
    match db_insert(db, scope) {
        Ok(()) => Ok(copy),
        Err(error) => Err(error),
    }
}

/// The stored scope of a place; where none is stored, a new scope for the
/// place, which is stored.
pub fn db_find_or_create(
    db: &mut Database,
    current_path: &str,
    git_dir_name: Option<String>,
    git_remote: Option<String>,
) -> (r: Result<DirContext, StoreError>)
    ensures
        match found_scope(
            old(db)@,
            current_path@,
            git_dir_name.deep_view(),
            git_remote.deep_view(),
        ) {
            Some(found) => r is Ok && r->Ok_0@ == found && final(db)@ == old(db)@,
            None => match r {
                Ok(scope) => {
                    &&& scope@.dir_path == current_path@
                    &&& scope@.git_dir_name == git_dir_name.deep_view()
                    &&& scope@.git_remote == git_remote.deep_view()
                    &&& !old(db)@.has_scope(scope.id)
                    &&& final(db)@ == with_scope(old(db)@, scope@)
                },
                Err(error) => {
                    &&& error == StoreError::IdTaken
                    &&& final(db)@ == old(db)@
                    &&& old(db)@.random_scope_stored()
                },
            },
        },
        old(db)@.wf() ==> final(db)@.wf(),
{
    let dir_name = match &git_dir_name {
        Some(name) => Some(name.as_str()),
        None => None,
    };
    let remote = match &git_remote {
        Some(url) => Some(url.as_str()),
        None => None,
    };
    match db_find_one(db, current_path, dir_name, remote) {
        Some(found) => Ok(found),
        None => {
            proof {
                lemma_first_where(
                    db@.dir_contexts,
                    |scope: DirContextView|
                        scope_matches(
                            scope,
                            current_path@,
                            git_dir_name.deep_view(),
                            git_remote.deep_view(),
                        ),
                );
            }
            proof {
                if holds_place(
                    db@,
                    current_path@,
                    git_dir_name.deep_view(),
                    git_remote.deep_view(),
                ) {
                    let i = choose|i: int|
                        0 <= i < db@.dir_contexts.len() && (
                        #[trigger] db@.dir_contexts[i]).dir_path == current_path@
                            && db@.dir_contexts[i].git_dir_name == git_dir_name.deep_view()
                            && db@.dir_contexts[i].git_remote == git_remote.deep_view();
                    assert(scope_matches(
                        db@.dir_contexts[i],
                        current_path@,
                        git_dir_name.deep_view(),
                        git_remote.deep_view(),
                    ));
                }
            }
            db_create(db, current_path, git_dir_name, git_remote)
        },
    }
}

/// The scope of the place at `current_path`, where `repo` is the
/// repository that was found around it: the stored scope that matches, or a
/// new one.
pub fn get_or_create_current(
    db: &mut Database,
    current_path: &str,
    repo: Option<GitRepository>,
) -> (r: Result<DirContext, StoreError>)
    ensures
        match found_scope(
            old(db)@,
            current_path@,
            located(current_path@, repo).git_dir_name,
            located(current_path@, repo).git_remote,
        ) {
            Some(found) => r is Ok && r->Ok_0@ == found && final(db)@ == old(db)@,
            None => match r {
                Ok(scope) => {
                    &&& scope@.dir_path == current_path@
                    &&& scope@.git_dir_name == located(current_path@, repo).git_dir_name
                    &&& scope@.git_remote == located(current_path@, repo).git_remote
                    &&& !old(db)@.has_scope(scope.id)
                    &&& final(db)@ == with_scope(old(db)@, scope@)
                },
                Err(error) => {
                    &&& error == StoreError::IdTaken
                    &&& final(db)@ == old(db)@
                    &&& old(db)@.random_scope_stored()
                },
            },
        },
        old(db)@.wf() ==> final(db)@.wf(),
{
    match repo {
        Some(repo) => db_find_or_create(db, current_path, Some(repo.dir_name), repo.remote),
        None => db_find_or_create(db, current_path, None, None),
    }
}

/// The stored scope that is closest to a place, or `None` where the place
/// is in the global scope.
pub fn get_closest(db: &Database, ctx: &RuntimeDirContext) -> (r: Option<DirContext>)
    ensures
        match r {
            Some(scope) => exists|i: int|
                is_closest(db@.dir_contexts, ctx@.path, ctx@.git_remote, i)
                    && #[trigger] db@.dir_contexts[i] == scope@,
            None => is_global(db@.dir_contexts, ctx@.path, ctx@.git_remote),
        },
{
    match closest_index(&db.dir_contexts, ctx.path.as_str(), ctx.git_remote()) {
        Some(i) => {
            let scope = db.dir_contexts[i].clone();
            assert(db@.dir_contexts[i as int] == scope@);
            Some(scope)
        },
        None => None,
    }
}

/// Where no stored path begins the path of a place, a scope with the git
/// remote of the place is chosen all the same: the place is not in the
/// global scope, the closest scope has that remote, and a scope that is the
/// only one with that remote is the closest.
pub proof fn lemma_remote_alone_selects(
    scopes: Seq<DirContextView>,
    path: Seq<char>,
    remote: Seq<char>,
    k: int,
)
    requires
        0 <= k < scopes.len(),
        scopes[k].git_remote == Some(remote),
        forall|j: int| 0 <= j < scopes.len() ==> !starts_with(path, (#[trigger] scopes[j]).dir_path),
    ensures
        !is_global(scopes, path, Some(remote)),
        forall|i: int|
            is_closest(scopes, path, Some(remote), i) ==> (#[trigger] scopes[i]).git_remote == Some(
                remote,
            ),
        (forall|j: int| 0 <= j < scopes.len() && j != k ==> (#[trigger] scopes[j]).git_remote
            != Some(remote)) ==> is_closest(scopes, path, Some(remote), k),
{
    assert(answers(scopes[k], path, Some(remote)));
}

/// Of two stored scopes whose paths both begin the path of a place, and of
/// which none has the git remote of the place, the one with the shorter
/// path is never the closest.
pub proof fn lemma_longer_prefix_wins(
    scopes: Seq<DirContextView>,
    path: Seq<char>,
    remote: Option<Seq<char>>,
    short: int,
    long: int,
)
    requires
        0 <= short < scopes.len(),
        0 <= long < scopes.len(),
        starts_with(path, scopes[long].dir_path),
        scopes[short].dir_path.len() < scopes[long].dir_path.len(),
    ensures
        !is_closest(scopes, path, remote, short),
{
    assert(answers(scopes[long], path, remote));
}

} // verus!
