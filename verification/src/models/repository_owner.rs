use vstd::prelude::*;

verus! {

/// The account that owns a repository.
#[derive(Debug, Clone, PartialEq, Eq)]
pub struct RepositoryOwner {
    pub login: String,
    /// The kind of account, such as a user or an organization.
    pub owner_type: String,
}

} // verus!
