//! The store as the library sees it: the tables with all their rows, held
//! in memory, and what makes them sound.

use vstd::prelude::*;
use crate::identity::{is_random_uuid, Uid};
use crate::models::context_group::{ContextGroup, ContextGroupView};
use crate::models::dip::{Dip, DipView};
use crate::models::dir_context::{DirContext, DirContextView};
use crate::models::tag::{Tag, TagView};
use crate::text::same_text;

verus! {

/// One row of the table that says which note carries which tag.
#[derive(Debug, Clone, Copy, PartialEq, Eq, Structural)]
pub struct DipTag {
    pub dip_id: Uid,
    pub tag_id: Uid,
}

/// The tables of the store.
#[derive(Debug, PartialEq, Eq)]
pub struct Database {
    pub dips: Vec<Dip>,
    pub dir_contexts: Vec<DirContext>,
    pub tags: Vec<Tag>,
    pub dips_tags: Vec<DipTag>,
    pub context_groups: Vec<ContextGroup>,
}

/// The tables of the store as contracts speak of them.
pub ghost struct DatabaseView {
    pub dips: Seq<DipView>,
    pub dir_contexts: Seq<DirContextView>,
    pub tags: Seq<TagView>,
    pub dips_tags: Seq<DipTag>,
    pub context_groups: Seq<ContextGroupView>,
}

impl View for Database {
    type V = DatabaseView;

    open spec fn view(&self) -> DatabaseView {
        DatabaseView {
            dips: self.dips.deep_view(),
            dir_contexts: self.dir_contexts.deep_view(),
            tags: self.tags.deep_view(),
            dips_tags: self.dips_tags@,
            context_groups: self.context_groups.deep_view(),
        }
    }
}

/// Why the store refuses a change.
#[derive(Debug, Clone, Copy, PartialEq, Eq, Structural)]
pub enum StoreError {
    /// A row with this identity is there already.
    IdTaken,
    /// A row that says the same is there already.
    AlreadyExists,
    /// The scope that a note is to be filed under is not stored.
    NoSuchScope,
    /// The note that is to be tagged is not stored.
    NoSuchDip,
}

/// The first item of a list that has a property, if any has it.
pub open spec fn first_where<A>(s: Seq<A>, p: spec_fn(A) -> bool) -> Option<A>
    decreases s.len(),
{
    if s.len() == 0 {
        None
    } else if p(s.first()) {
        Some(s.first())
    } else {
        first_where(s.drop_first(), p)
    }
}

/// What the first item with a property is: it has the property, and no
/// item before it has; where there is none, no item has the property.
pub proof fn lemma_first_where<A>(s: Seq<A>, p: spec_fn(A) -> bool)
    ensures
        match first_where(s, p) {
            Some(x) => exists|i: int|
                0 <= i < s.len() && #[trigger] s[i] == x && p(x) && forall|j: int|
                    0 <= j < i ==> !p(#[trigger] s[j]),
            None => forall|j: int| 0 <= j < s.len() ==> !p(#[trigger] s[j]),
        },
    decreases s.len(),
{
    if s.len() == 0 {
    } else if p(s.first()) {
        assert(s[0] == s.first());
    } else {
        let rest = s.drop_first();
        lemma_first_where(rest, p);
        match first_where(rest, p) {
            Some(x) => {
                let i = choose|i: int|
                    0 <= i < rest.len() && #[trigger] rest[i] == x && p(x) && forall|j: int|
                        0 <= j < i ==> !p(#[trigger] rest[j]);
                assert(s[i + 1] == x);
                assert forall|j: int| 0 <= j < i + 1 implies !p(#[trigger] s[j]) by {
                    if j > 0 {
                        assert(rest[j - 1] == s[j]);
                    }
                }
            },
            None => {
                assert forall|j: int| 0 <= j < s.len() implies !p(#[trigger] s[j]) by {
                    if j > 0 {
                        assert(rest[j - 1] == s[j]);
                    }
                }
            },
        }
    }
}

/// Skipping items without a property does not change which item is the
/// first with it.
pub proof fn lemma_first_where_skip<A>(s: Seq<A>, p: spec_fn(A) -> bool, n: int)
    requires
        0 <= n <= s.len(),
        forall|j: int| 0 <= j < n ==> !p(#[trigger] s[j]),
    ensures
        first_where(s, p) == first_where(s.skip(n), p),
    decreases n,
{
    if n == 0 {
        assert(s.skip(0) =~= s);
    } else {
        assert(!p(s[0]));
        let rest = s.drop_first();
        assert forall|j: int| 0 <= j < n - 1 implies !p(#[trigger] rest[j]) by {
            assert(rest[j] == s[j + 1]);
        }
        lemma_first_where_skip(rest, p, n - 1);
        assert(rest.skip(n - 1) =~= s.skip(n));
    }
}

/// What is put at the end of a list does not change which item is the
/// first with a property, unless no item had it.
pub proof fn lemma_first_where_push<A>(s: Seq<A>, p: spec_fn(A) -> bool, x: A)
    ensures
        first_where(s.push(x), p) == match first_where(s, p) {
            Some(found) => Some(found),
            None => if p(x) {
                Some(x)
            } else {
                None
            },
        },
    decreases s.len(),
{
    if s.len() == 0 {
        assert(s.push(x).drop_first() =~= s);
    } else {
        assert(s.push(x).first() == s.first());
        assert(s.push(x).drop_first() =~= s.drop_first().push(x));
        lemma_first_where_push(s.drop_first(), p, x);
    }
}

/// Where at most one item has a property, the first item with it is the
/// item with it.
pub proof fn lemma_first_where_only<A>(s: Seq<A>, p: spec_fn(A) -> bool, k: int)
    requires
        0 <= k < s.len(),
        p(s[k]),
        forall|i: int, j: int| 0 <= i < j < s.len() ==> !(p(#[trigger] s[i]) && p(#[trigger] s[j])),
    ensures
        first_where(s, p) == Some(s[k]),
{
    lemma_first_where(s, p);
}

/// Going through a list and taking what a function gives for its items:
/// two functions that give the same for every item give the same list.
pub proof fn lemma_filter_map_same<A, B>(
    s: Seq<A>,
    f: spec_fn(A) -> Option<B>,
    g: spec_fn(A) -> Option<B>,
)
    requires
        forall|i: int| 0 <= i < s.len() ==> f(#[trigger] s[i]) == g(s[i]),
    ensures
        s.filter_map(f) == s.filter_map(g),
    decreases s.len(),
{
    if s.len() > 0 {
        let head = s.drop_last();
        assert forall|i: int| 0 <= i < head.len() implies f(#[trigger] head[i]) == g(head[i]) by {
            assert(head[i] == s[i]);
        }
        lemma_filter_map_same(head, f, g);
        assert(f(s[s.len() - 1]) == g(s[s.len() - 1]));
    }
}

/// Where a function gives nothing for every item of a list, nothing is
/// taken; where it gives something for an item, something is taken.
pub proof fn lemma_filter_map_empty<A, B>(s: Seq<A>, f: spec_fn(A) -> Option<B>)
    ensures
        s.filter_map(f).len() == 0 <==> forall|i: int| 0 <= i < s.len() ==> f(#[trigger] s[i]) is None,
    decreases s.len(),
{
    if s.len() > 0 {
        let head = s.drop_last();
        lemma_filter_map_empty(head, f);
        if s.filter_map(f).len() == 0 {
            assert forall|i: int| 0 <= i < s.len() implies f(#[trigger] s[i]) is None by {
                if i < head.len() {
                    assert(head[i] == s[i]);
                }
            }
        } else {
            if f(s.last()) is None {
                let i = choose|i: int| 0 <= i < head.len() && !(f(#[trigger] head[i]) is None);
                assert(head[i] == s[i]);
            } else {
                assert(s[s.len() - 1] == s.last());
            }
        }
    }
}

/// Going through a list and keeping what has a property: one step.
pub proof fn lemma_filter_step<A>(s: Seq<A>, p: spec_fn(A) -> bool, i: int)
    requires
        0 <= i < s.len(),
    ensures
        s.take(0).filter(p) == Seq::<A>::empty(),
        s.take(i + 1).filter(p) == if p(s[i]) {
            s.take(i).filter(p).push(s[i])
        } else {
            s.take(i).filter(p)
        },
{
    reveal(Seq::filter);
    assert(s.take(i + 1).drop_last() =~= s.take(i));
}

/// What holds of every two items of a list, the earlier and the later,
/// holds of every two items that are kept of it.
pub proof fn lemma_filter_keeps_pairwise<A>(
    s: Seq<A>,
    p: spec_fn(A) -> bool,
    r: spec_fn(A, A) -> bool,
)
    requires
        forall|i: int, j: int| 0 <= i < j < s.len() ==> r(#[trigger] s[i], #[trigger] s[j]),
    ensures
        forall|i: int, j: int|
            0 <= i < j < s.filter(p).len() ==> r(
                #[trigger] s.filter(p)[i],
                #[trigger] s.filter(p)[j],
            ),
    decreases s.len(),
{
    reveal(Seq::filter);
    if s.len() > 0 {
        let head = s.drop_last();
        assert forall|i: int, j: int| 0 <= i < j < head.len() implies r(
            #[trigger] head[i],
            #[trigger] head[j],
        ) by {
            assert(head[i] == s[i] && head[j] == s[j]);
        }
        lemma_filter_keeps_pairwise(head, p, r);
        let kept = head.filter(p);
        if p(s.last()) {
            assert forall|i: int, j: int| 0 <= i < j < s.filter(p).len() implies r(
                #[trigger] s.filter(p)[i],
                #[trigger] s.filter(p)[j],
            ) by {
                if j == kept.len() {
                    assert(kept.contains(kept[i]));
                    head.lemma_filter_contains_rev(p, kept[i]);
                    let k = choose|k: int| 0 <= k < head.len() && head[k] == kept[i];
                    assert(s[k] == kept[i]);
                    assert(s[s.len() - 1] == s.last());
                } else {
                    assert(s.filter(p)[i] == kept[i] && s.filter(p)[j] == kept[j]);
                }
            }
        }
    }
}

/// Keeping twice what has a property keeps what keeping once keeps.
pub proof fn lemma_filter_twice<A>(s: Seq<A>, p: spec_fn(A) -> bool)
    ensures
        s.filter(p).filter(p) == s.filter(p),
    decreases s.len(),
{
    reveal(Seq::filter);
    if s.len() > 0 {
        let head = s.drop_last();
        lemma_filter_twice(head, p);
        if p(s.last()) {
            let kept = head.filter(p);
            assert(kept.push(s.last()).drop_last() =~= kept);
        }
    }
}

/// Keeping what has one property of what has another keeps what has both.
pub proof fn lemma_filter_both<A>(s: Seq<A>, p: spec_fn(A) -> bool, q: spec_fn(A) -> bool)
    ensures
        s.filter(p).filter(q) == s.filter(|x: A| p(x) && q(x)),
    decreases s.len(),
{
    reveal(Seq::filter);
    if s.len() > 0 {
        let head = s.drop_last();
        lemma_filter_both(head, p, q);
        if p(s.last()) {
            let kept = head.filter(p);
            assert(kept.push(s.last()).drop_last() =~= kept);
        }
    }
}

/// Keeping what has a property keeps everything where everything has it.
pub proof fn lemma_filter_all<A>(s: Seq<A>, p: spec_fn(A) -> bool)
    requires
        forall|i: int| 0 <= i < s.len() ==> p(#[trigger] s[i]),
    ensures
        s.filter(p) == s,
    decreases s.len(),
{
    reveal(Seq::filter);
    if s.len() > 0 {
        let head = s.drop_last();
        assert forall|i: int| 0 <= i < head.len() implies p(#[trigger] head[i]) by {
            assert(head[i] == s[i]);
        }
        lemma_filter_all(head, p);
        assert(p(s[s.len() - 1]));
        assert(head.push(s.last()) =~= s);
    }
}

/// Two properties that the same items have keep the same items.
pub proof fn lemma_filter_same<A>(s: Seq<A>, p: spec_fn(A) -> bool, q: spec_fn(A) -> bool)
    requires
        forall|i: int| 0 <= i < s.len() ==> p(#[trigger] s[i]) == q(s[i]),
    ensures
        s.filter(p) == s.filter(q),
    decreases s.len(),
{
    reveal(Seq::filter);
    if s.len() > 0 {
        let head = s.drop_last();
        assert forall|i: int| 0 <= i < head.len() implies p(#[trigger] head[i]) == q(head[i]) by {
            assert(head[i] == s[i]);
        }
        lemma_filter_same(head, p, q);
        assert(p(s[s.len() - 1]) == q(s[s.len() - 1]));
    }
}

impl DatabaseView {
    /// A note with this identity is stored.
    pub open spec fn has_dip(self, id: Uid) -> bool {
        exists|i: int| 0 <= i < self.dips.len() && (#[trigger] self.dips[i]).id == id
    }

    /// A scope with this identity is stored.
    pub open spec fn has_scope(self, id: Uid) -> bool {
        exists|i: int| 0 <= i < self.dir_contexts.len() && (#[trigger] self.dir_contexts[i]).id == id
    }

    /// A tag with this identity is stored.
    pub open spec fn has_tag(self, id: Uid) -> bool {
        exists|i: int| 0 <= i < self.tags.len() && (#[trigger] self.tags[i]).id == id
    }

    /// Some note is stored under an identity that chance can draw for a
    /// new row.
    pub open spec fn random_dip_stored(self) -> bool {
        exists|id: Uid| is_random_uuid(id) && #[trigger] self.has_dip(id)
    }

    /// Some scope is stored under an identity that chance can draw for a
    /// new row.
    pub open spec fn random_scope_stored(self) -> bool {
        exists|id: Uid| is_random_uuid(id) && #[trigger] self.has_scope(id)
    }

    /// Some tag is stored under an identity that chance can draw for a new
    /// row.
    pub open spec fn random_tag_stored(self) -> bool {
        exists|id: Uid| is_random_uuid(id) && #[trigger] self.has_tag(id)
    }

    /// The scope with this identity, if it is stored.
    pub open spec fn scope(self, id: Uid) -> Option<DirContextView> {
        first_where(self.dir_contexts, |scope: DirContextView| scope.id == id)
    }

    /// The tag with this identity, if it is stored.
    pub open spec fn tag(self, id: Uid) -> Option<TagView> {
        first_where(self.tags, |tag: TagView| tag.id == id)
    }

    /// The tag with this name, if it is stored.
    pub open spec fn tag_named(self, name: Seq<char>) -> Option<TagView> {
        first_where(self.tags, |tag: TagView| tag.name == name)
    }

    /// The note carries the tag.
    pub open spec fn tagged(self, dip_id: Uid, tag_id: Uid) -> bool {
        self.dips_tags.contains(DipTag { dip_id, tag_id })
    }

    /// No two rows of a table have the same identity, no two tags the same
    /// name.
    pub open spec fn identities_differ(self) -> bool {
        &&& forall|i: int, j: int|
            0 <= i < j < self.dips.len() ==> (#[trigger] self.dips[i]).id != (
            #[trigger] self.dips[j]).id
        &&& forall|i: int, j: int|
            0 <= i < j < self.dir_contexts.len() ==> (#[trigger] self.dir_contexts[i]).id != (
            #[trigger] self.dir_contexts[j]).id
        &&& forall|i: int, j: int|
            0 <= i < j < self.tags.len() ==> (#[trigger] self.tags[i]).id != (
            #[trigger] self.tags[j]).id
        &&& forall|i: int, j: int|
            0 <= i < j < self.tags.len() ==> (#[trigger] self.tags[i]).name != (
            #[trigger] self.tags[j]).name
    }

    /// Every note is filed under a stored scope or under none, and the
    /// table of tagged notes speaks of stored notes and stored tags only,
    /// of each pair once.
    pub open spec fn references_hold(self) -> bool {
        &&& forall|i: int|
            0 <= i < self.dips.len() ==> match (#[trigger] self.dips[i]).dir_context_id {
                Some(id) => self.has_scope(id),
                None => true,
            }
        &&& forall|i: int|
            0 <= i < self.dips_tags.len() ==> self.has_dip((#[trigger] self.dips_tags[i]).dip_id)
                && self.has_tag(self.dips_tags[i].tag_id)
        &&& self.dips_tags.no_duplicates()
    }

    /// No value is noted twice in the same scope and group, and no place
    /// is stored as a scope twice.
    pub open spec fn rows_differ(self) -> bool {
        &&& forall|i: int, j: int|
            0 <= i < j < self.dips.len() ==> !same_note(
                #[trigger] self.dips[i],
                #[trigger] self.dips[j],
            )
        &&& forall|i: int, j: int|
            0 <= i < j < self.dir_contexts.len() ==> !same_place(
                #[trigger] self.dir_contexts[i],
                #[trigger] self.dir_contexts[j],
            )
    }

    /// The store is sound.
    pub open spec fn wf(self) -> bool {
        &&& self.identities_differ()
        &&& self.references_hold()
        &&& self.rows_differ()
    }
}

/// Two notes say the same: the same value in the same scope and group.
pub open spec fn same_note(a: DipView, b: DipView) -> bool {
    &&& a.value == b.value
    &&& a.dir_context_id == b.dir_context_id
    &&& a.context_group_id == b.context_group_id
}

/// Two scopes stand for the same place: the same directory path, the same
/// git remote and the same repository directory.
pub open spec fn same_place(a: DirContextView, b: DirContextView) -> bool {
    &&& a.dir_path == b.dir_path
    &&& a.git_remote == b.git_remote
    &&& a.git_dir_name == b.git_dir_name
}

impl Database {
    /// The store without any row.
    pub fn new() -> (db: Self)
        ensures
            db@ == (DatabaseView {
                dips: Seq::empty(),
                dir_contexts: Seq::empty(),
                tags: Seq::empty(),
                dips_tags: Seq::empty(),
                context_groups: Seq::empty(),
            }),
            db@.wf(),
    {
        let db = Database {
            dips: Vec::new(),
            dir_contexts: Vec::new(),
            tags: Vec::new(),
            dips_tags: Vec::new(),
            context_groups: Vec::new(),
        };
        assert(db@.dips =~= Seq::empty());
        assert(db@.dir_contexts =~= Seq::empty());
        assert(db@.tags =~= Seq::empty());
        assert(db@.context_groups =~= Seq::empty());
        db
    }

    /// Where the note with this identity stands in its table.
    pub fn dip_index(&self, id: Uid) -> (r: Option<usize>)
        ensures
            match r {
                Some(i) => i < self@.dips.len() && self@.dips[i as int].id == id && forall|j: int|
                    0 <= j < i ==> (#[trigger] self@.dips[j]).id != id,
                None => !self@.has_dip(id),
            },
    {
        let mut i: usize = 0;
        while i < self.dips.len()
            invariant
                i <= self.dips.len(),
                forall|j: int| 0 <= j < i ==> (#[trigger] self@.dips[j]).id != id,
            decreases self.dips.len() - i,
        {
            if self.dips[i].id == id {
                return Some(i);
            }
            i += 1;
        }
        None
    }

    /// Where the scope with this identity stands in its table.
    pub fn scope_index(&self, id: Uid) -> (r: Option<usize>)
        ensures
            match r {
                Some(i) => i < self@.dir_contexts.len() && self@.dir_contexts[i as int].id == id
                    && self@.scope(id) == Some(self@.dir_contexts[i as int]),
                None => !self@.has_scope(id) && self@.scope(id) is None,
            },
    {
        let ghost p = |scope: DirContextView| scope.id == id;
        let mut i: usize = 0;
        while i < self.dir_contexts.len()
            invariant
                i <= self.dir_contexts.len(),
                p == (|scope: DirContextView| scope.id == id),
                forall|j: int| 0 <= j < i ==> !p(#[trigger] self@.dir_contexts[j]),
            decreases self.dir_contexts.len() - i,
        {
            if self.dir_contexts[i].id == id {
                proof {
                    lemma_first_where_skip(self@.dir_contexts, p, i as int);
                    assert(self@.dir_contexts.skip(i as int).first() == self@.dir_contexts[i as int]);
                }
                return Some(i);
            }
            i += 1;
        }
        proof {
            lemma_first_where(self@.dir_contexts, p);
        }
        None
    }

    /// Where the tag with this identity stands in its table.
    pub fn tag_index(&self, id: Uid) -> (r: Option<usize>)
        ensures
            match r {
                Some(i) => i < self@.tags.len() && self@.tags[i as int].id == id && self@.tag(id)
                    == Some(self@.tags[i as int]),
                None => !self@.has_tag(id) && self@.tag(id) is None,
            },
    {
        let ghost p = |tag: TagView| tag.id == id;
        let mut i: usize = 0;
        while i < self.tags.len()
            invariant
                i <= self.tags.len(),
                p == (|tag: TagView| tag.id == id),
                forall|j: int| 0 <= j < i ==> !p(#[trigger] self@.tags[j]),
            decreases self.tags.len() - i,
        {
            if self.tags[i].id == id {
                proof {
                    lemma_first_where_skip(self@.tags, p, i as int);
                    assert(self@.tags.skip(i as int).first() == self@.tags[i as int]);
                }
                return Some(i);
            }
            i += 1;
        }
        proof {
            lemma_first_where(self@.tags, p);
        }
        None
    }

    /// Where the tag with this name stands in its table.
    pub fn tag_index_by_name(&self, name: &str) -> (r: Option<usize>)
        ensures
            match r {
                Some(i) => i < self@.tags.len() && self@.tags[i as int].name == name@
                    && self@.tag_named(name@) == Some(self@.tags[i as int]),
                None => self@.tag_named(name@) is None && forall|j: int|
                    0 <= j < self@.tags.len() ==> (#[trigger] self@.tags[j]).name != name@,
            },
    {
        let ghost p = |tag: TagView| tag.name == name@;
        let mut i: usize = 0;
        while i < self.tags.len()
            invariant
                i <= self.tags.len(),
                p == (|tag: TagView| tag.name == name@),
                forall|j: int| 0 <= j < i ==> !p(#[trigger] self@.tags[j]),
            decreases self.tags.len() - i,
        {
            if same_text(self.tags[i].name.as_str(), name) {
                proof {
                    lemma_first_where_skip(self@.tags, p, i as int);
                    assert(self@.tags.skip(i as int).first() == self@.tags[i as int]);
                }
                return Some(i);
            }
            i += 1;
        }
        proof {
            lemma_first_where(self@.tags, p);
        }
        None
    }

    /// Whether the note carries the tag.
    pub fn is_tagged(&self, dip_id: Uid, tag_id: Uid) -> (r: bool)
        ensures
            r == self@.tagged(dip_id, tag_id),
    {
        let mut i: usize = 0;
        while i < self.dips_tags.len()
            invariant
                i <= self.dips_tags.len(),
                forall|j: int| 0 <= j < i ==> self@.dips_tags[j] != (DipTag { dip_id, tag_id }),
            decreases self.dips_tags.len() - i,
        {
            if self.dips_tags[i].dip_id == dip_id && self.dips_tags[i].tag_id == tag_id {
                assert(self@.dips_tags[i as int] == (DipTag { dip_id, tag_id }));
                return true;
            }
            i += 1;
        }
        false
    }
}

impl Clone for Database {
    fn clone(&self) -> (copy: Self)
        ensures
            copy@ == self@,
    {
        let mut dips: Vec<Dip> = Vec::new();
        let mut i: usize = 0;
        while i < self.dips.len()
            invariant
                i <= self.dips.len(),
                dips.len() == i,
                forall|k: int| 0 <= k < i ==> (#[trigger] dips[k])@ == self.dips[k]@,
            decreases self.dips.len() - i,
        {
            dips.push(self.dips[i].clone());
            i += 1;
        }
        let mut dir_contexts: Vec<DirContext> = Vec::new();
        let mut i: usize = 0;
        while i < self.dir_contexts.len()
            invariant
                i <= self.dir_contexts.len(),
                dir_contexts.len() == i,
                forall|k: int| 0 <= k < i ==> (#[trigger] dir_contexts[k])@ == self.dir_contexts[k]@,
            decreases self.dir_contexts.len() - i,
        {
            dir_contexts.push(self.dir_contexts[i].clone());
            i += 1;
        }
        let mut tags: Vec<Tag> = Vec::new();
        let mut i: usize = 0;
        while i < self.tags.len()
            invariant
                i <= self.tags.len(),
                tags.len() == i,
                forall|k: int| 0 <= k < i ==> (#[trigger] tags[k])@ == self.tags[k]@,
            decreases self.tags.len() - i,
        {
            let tag = &self.tags[i];
            tags.push(Tag { id: tag.id, name: tag.name.clone(), created_at: tag.created_at });
            i += 1;
        }
        let mut dips_tags: Vec<DipTag> = Vec::new();
        let mut i: usize = 0;
        while i < self.dips_tags.len()
            invariant
                i <= self.dips_tags.len(),
                dips_tags.len() == i,
                forall|k: int| 0 <= k < i ==> #[trigger] dips_tags[k] == self.dips_tags[k],
            decreases self.dips_tags.len() - i,
        {
            dips_tags.push(self.dips_tags[i]);
            i += 1;
        }
        let mut context_groups: Vec<ContextGroup> = Vec::new();
        let mut i: usize = 0;
        while i < self.context_groups.len()
            invariant
                i <= self.context_groups.len(),
                context_groups.len() == i,
                forall|k: int|
                    0 <= k < i ==> (#[trigger] context_groups[k])@ == self.context_groups[k]@,
            decreases self.context_groups.len() - i,
        {
            let group = &self.context_groups[i];
            context_groups.push(
                ContextGroup {
                    id: group.id,
                    name: group.name.clone(),
                    dir_context_id: group.dir_context_id,
                    created_at: group.created_at,
                },
            );
            i += 1;
        }
        let copy = Database { dips, dir_contexts, tags, dips_tags, context_groups };
        assert(copy@.dips =~= self@.dips);
        assert(copy@.dir_contexts =~= self@.dir_contexts);
        assert(copy@.tags =~= self@.tags);
        assert(copy@.dips_tags =~= self@.dips_tags);
        assert(copy@.context_groups =~= self@.context_groups);
        copy
    }
}

} // verus!
