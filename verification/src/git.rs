//! What is known of the git repository around a directory.

use vstd::prelude::*;

verus! {

/// The repository a directory lies in: where its work tree starts, how that
/// directory is called, and the URL of the remote `origin` if there is one.
#[derive(Debug, Clone, PartialEq, Eq)]
pub struct GitRepository {
    pub path: String,
    pub dir_name: String,
    pub remote: Option<String>,
}

} // verus!
