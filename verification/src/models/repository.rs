use vstd::prelude::*;
use crate::models::repository_owner::RepositoryOwner;

verus! {

/// One entry of a repository listing.
#[derive(Debug, Clone, PartialEq, Eq)]
pub struct Listing {
    /// The bare name, without the owner.
    pub name: String,
    /// The owner's login, a slash and the name.
    pub full_name: String,
}

/// A snapshot of one repository's identity, status flags and settings.
///
/// A setting that the service did not report is `None`.
#[derive(Debug, Clone, PartialEq, Eq)]
pub struct Info {
    pub name: String,
    pub full_name: String,
    pub owner: RepositoryOwner,
    pub default_branch: String,
    pub archived: bool,
    pub disabled: bool,
    pub visibility: Option<String>,
    pub allow_rebase_merge: Option<bool>,
    pub allow_merge_commit: Option<bool>,
    pub allow_squash_merge: Option<bool>,
    pub delete_branch_on_merge: Option<bool>,
    pub has_issues: Option<bool>,
    pub has_projects: Option<bool>,
    pub has_downloads: Option<bool>,
    pub has_wiki: Option<bool>,
    pub allow_auto_merge: Option<bool>,
}

/// The topics of one repository, held as a list that stands for a set.
#[derive(Debug, Clone, PartialEq, Eq)]
pub struct Topics {
    pub names: Vec<String>,
}

/// A repository as fetched: its snapshot and its topics.
#[derive(Debug, Clone, PartialEq, Eq)]
pub struct Repository {
    pub info: Info,
    pub topics: Topics,
}

} // verus!
