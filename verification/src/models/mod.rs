//! Values observed on, or sent to, the remote service.

pub mod branch_protection;
pub mod branch_protection_update;
pub mod de;
pub mod repository;
pub mod repository_owner;

pub use branch_protection::{
    BranchProtection, GitHubApp, IncomingUsersTeamsOrApps, ProtectedBranchPullRequestReview,
    ProtectedBranchRequiredStatusCheck, ProtectedBranchRequiredStatusCheckChecksItem, SimpleUser,
    Team, TeamPermissions, TeamSimple,
};
pub use branch_protection_update::{
    BranchProtectionUpdate, BranchProtectionUpdateRequiredPullRequestReviews,
    BranchProtectionUpdateRequiredStatusCheck, BranchProtectionUpdateRequiredStatusChecks,
    BranchProtectionUpdateRestrictions, ListOfUserTeamsOrApps,
};
pub use repository::{Info, Listing, Repository, Topics};
pub use repository_owner::RepositoryOwner;
