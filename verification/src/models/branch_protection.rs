use vstd::prelude::*;

verus! {

/// The protection of one branch, as the service reports it. A switch that
/// the service did not report is `None`.
#[derive(Debug, Clone, PartialEq, Eq, Default)]
pub struct BranchProtection {
    pub allow_deletions: Option<bool>,
    pub allow_force_pushes: Option<bool>,
    pub allow_fork_syncing: Option<bool>,
    pub block_creations: Option<bool>,
    pub enabled: Option<bool>,
    pub enforce_admins: Option<bool>,
    pub lock_branch: Option<bool>,
    pub name: Option<String>,
    pub required_conversation_resolution: Option<bool>,
    pub required_linear_history: Option<bool>,
    pub required_pull_request_reviews: Option<ProtectedBranchPullRequestReview>,
    pub required_signatures: Option<bool>,
    pub required_status_checks: Option<ProtectedBranchRequiredStatusCheck>,
    pub restrictions: Option<IncomingUsersTeamsOrApps>,
}

/// An app installed on an account. Its two timestamps are held as the text in
/// which the service sent them.
#[derive(Debug, Clone, PartialEq, Eq)]
pub struct GitHubApp {
    pub created_at: String,
    pub description: Option<String>,
    pub events: Vec<String>,
    pub id: i64,
    pub installations_count: Option<i64>,
    pub name: String,
    pub node_id: String,
    pub owner: Option<SimpleUser>,
    pub pem: Option<String>,
    pub slug: Option<String>,
    pub updated_at: String,
    pub webhook_secret: Option<String>,
}

/// The review requirements of a protected branch.
#[derive(Debug, Clone, PartialEq, Eq)]
pub struct ProtectedBranchPullRequestReview {
    pub bypass_pull_request_allowances: Option<IncomingUsersTeamsOrApps>,
    pub dismiss_stale_reviews: bool,
    pub dismissal_restrictions: Option<IncomingUsersTeamsOrApps>,
    pub require_code_owner_reviews: bool,
    pub require_last_push_approval: bool,
    pub required_approving_review_count: Option<i64>,
}

/// Users, teams and apps named by a protection rule.
#[derive(Debug, Clone, PartialEq, Eq)]
pub struct IncomingUsersTeamsOrApps {
    pub apps: Vec<GitHubApp>,
    pub teams: Vec<Team>,
    pub users: Vec<SimpleUser>,
}

/// The status checks that a protected branch requires.
#[derive(Debug, Clone, PartialEq, Eq)]
pub struct ProtectedBranchRequiredStatusCheck {
    pub checks: Vec<ProtectedBranchRequiredStatusCheckChecksItem>,
    pub contexts: Vec<String>,
    pub contexts_url: Option<String>,
    pub enforcement_level: Option<String>,
    pub strict: Option<bool>,
    pub url: Option<String>,
}

/// One required status check: its context and the app that must report it.
#[derive(Debug, Clone, PartialEq, Eq)]
pub struct ProtectedBranchRequiredStatusCheckChecksItem {
    pub app_id: Option<i64>,
    pub context: String,
}

/// A user account.
#[derive(Debug, Clone, PartialEq, Eq)]
pub struct SimpleUser {
    pub avatar_url: String,
    pub email: Option<String>,
    pub events_url: String,
    pub followers_url: String,
    pub following_url: String,
    pub gists_url: String,
    pub gravatar_id: Option<String>,
    pub html_url: String,
    pub id: i64,
    pub login: String,
    pub name: Option<String>,
    pub node_id: String,
    pub organizations_url: String,
    pub received_events_url: String,
    pub repos_url: String,
    pub site_admin: bool,
    pub starred_at: Option<String>,
    pub starred_url: String,
    pub subscriptions_url: String,
    pub type_: String,
    pub url: String,
}

/// A team of an organization.
#[derive(Debug, Clone, PartialEq, Eq)]
pub struct Team {
    pub description: Option<String>,
    pub html_url: String,
    pub id: i64,
    pub members_url: String,
    pub name: String,
    pub node_id: String,
    pub notification_setting: Option<String>,
    pub parent: Option<TeamSimple>,
    pub permission: String,
    pub permissions: Option<TeamPermissions>,
    pub privacy: Option<String>,
    pub repositories_url: String,
    pub slug: String,
    pub url: String,
}

/// What a team may do on a repository.
#[derive(Debug, Clone, PartialEq, Eq)]
pub struct TeamPermissions {
    pub admin: bool,
    pub maintain: bool,
    pub pull: bool,
    pub push: bool,
    pub triage: bool,
}

/// A team, in the short form used for a parent team.
#[derive(Debug, Clone, PartialEq, Eq)]
pub struct TeamSimple {
    pub description: Option<String>,
    pub html_url: String,
    pub id: i64,
    pub ldap_dn: Option<String>,
    pub members_url: String,
    pub name: String,
    pub node_id: String,
    pub notification_setting: Option<String>,
    pub permission: String,
    pub privacy: Option<String>,
    pub repositories_url: String,
    pub slug: String,
    pub url: String,
}

} // verus!
