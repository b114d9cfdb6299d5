//! The rows of the store and the questions asked of them.

pub mod context_group;
pub mod dip;
pub mod dir_context;
pub mod tag;
