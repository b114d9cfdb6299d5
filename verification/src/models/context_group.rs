//! Groups: a second way, beside tags, to keep notes of one scope together.

use vstd::prelude::*;
use crate::identity::{is_midnight, is_random_uuid, new_uuid, today, Timestamp, Uid};

verus! {

/// A stored group.
#[derive(Debug, PartialEq, Eq)]
pub struct ContextGroup {
    pub id: Uid,
    pub name: String,
    pub dir_context_id: Option<Uid>,
    pub created_at: Timestamp,
}

/// A stored group as contracts speak of it.
pub ghost struct ContextGroupView {
    pub id: Uid,
    pub name: Seq<char>,
    pub dir_context_id: Option<Uid>,
    pub created_at: Timestamp,
}

impl View for ContextGroup {
    type V = ContextGroupView;

    open spec fn view(&self) -> ContextGroupView {
        ContextGroupView {
            id: self.id,
            name: self.name@,
            dir_context_id: self.dir_context_id,
            created_at: self.created_at,
        }
    }
}

impl DeepView for ContextGroup {
    type V = ContextGroupView;

    open spec fn deep_view(&self) -> ContextGroupView {
        self@
    }
}

impl ContextGroup {
    /// A new group in the given scope, with a fresh random identity and
    /// today's date as the time of its creation.
    pub fn new(name: &str, dir_context_id: Option<Uid>) -> (group: Self)
        ensures
            is_random_uuid(group.id),
            is_midnight(group.created_at),
            group@.name == name@,
            group@.dir_context_id == dir_context_id,
    {
        let id = new_uuid();
        let now = today();
        Self { id, name: name.to_string(), dir_context_id, created_at: now }
    }
}

} // verus!
