//! The protection that is sent to the service for one branch, and how it is
//! derived from the protection that the service reported.

use vstd::prelude::*;
use crate::models::branch_protection::{
    BranchProtection,
    GitHubApp,
    IncomingUsersTeamsOrApps,
    ProtectedBranchPullRequestReview,
    ProtectedBranchRequiredStatusCheck,
    ProtectedBranchRequiredStatusCheckChecksItem,
    SimpleUser,
    Team,
};

verus! {

/// One required status check.
#[derive(Debug, Clone, PartialEq, Eq)]
pub struct BranchProtectionUpdateRequiredStatusCheck {
    pub context: String,
    pub app_id: Option<i64>,
}

/// The required status checks of an update.
#[derive(Debug, Clone, PartialEq, Eq)]
pub struct BranchProtectionUpdateRequiredStatusChecks {
    pub strict: bool,
    pub checks: Vec<BranchProtectionUpdateRequiredStatusCheck>,
}

/// Users by login, teams and apps by slug.
#[derive(Debug, Clone, PartialEq, Eq)]
pub struct ListOfUserTeamsOrApps {
    pub users: Vec<String>,
    pub teams: Vec<String>,
    pub apps: Vec<String>,
}

/// The review requirements of an update.
#[derive(Debug, Clone, PartialEq, Eq)]
pub struct BranchProtectionUpdateRequiredPullRequestReviews {
    pub dismissal_restrictions: ListOfUserTeamsOrApps,
    pub strict: bool,
    pub dismiss_stale_reviews: bool,
    pub require_codeowner_reviews: bool,
    /// Zero switches the requirement off; one to six are valid counts.
    pub required_approving_review_count: i64,
    pub require_last_push_approval: bool,
    pub bypass_pull_request_allowances: ListOfUserTeamsOrApps,
}

/// The push restrictions of an update.
#[derive(Debug, Clone, PartialEq, Eq)]
pub struct BranchProtectionUpdateRestrictions {
    pub strict: bool,
    pub checks: Vec<BranchProtectionUpdateRequiredStatusCheck>,
}

/// The protection to set on a branch. A switch that is `None` is left
/// unspecified.
#[derive(Debug, Clone, PartialEq, Eq)]
pub struct BranchProtectionUpdate {
    pub required_status_checks: Option<BranchProtectionUpdateRequiredStatusChecks>,
    pub enforce_admins: Option<bool>,
    pub required_pull_request_reviews: Option<BranchProtectionUpdateRequiredPullRequestReviews>,
    pub restrictions: Option<BranchProtectionUpdateRestrictions>,
    pub required_linear_history: Option<bool>,
    pub allow_force_pushes: Option<bool>,
    pub allow_deletions: Option<bool>,
    pub block_creations: Option<bool>,
    pub required_conversation_resolution: Option<bool>,
    pub lock_branch: Option<bool>,
    pub allow_fork_syncing: Option<bool>,
}

/// What a required status check says.
pub struct StatusCheckModel {
    pub context: Seq<char>,
    pub app_id: Option<i64>,
}

/// What the required status checks of an update say.
pub struct StatusChecksModel {
    pub strict: bool,
    pub checks: Seq<StatusCheckModel>,
}

/// What a list of users, teams and apps says.
pub struct ActorsModel {
    pub users: Seq<Seq<char>>,
    pub teams: Seq<Seq<char>>,
    pub apps: Seq<Seq<char>>,
}

/// What the review requirements of an update say.
pub struct ReviewsModel {
    pub dismissal_restrictions: ActorsModel,
    pub strict: bool,
    pub dismiss_stale_reviews: bool,
    pub require_codeowner_reviews: bool,
    pub required_approving_review_count: i64,
    pub require_last_push_approval: bool,
    pub bypass_pull_request_allowances: ActorsModel,
}

/// What an update says.
pub struct UpdateModel {
    pub required_status_checks: Option<StatusChecksModel>,
    pub enforce_admins: Option<bool>,
    pub required_pull_request_reviews: Option<ReviewsModel>,
    pub restrictions: Option<StatusChecksModel>,
    pub required_linear_history: Option<bool>,
    pub allow_force_pushes: Option<bool>,
    pub allow_deletions: Option<bool>,
    pub block_creations: Option<bool>,
    pub required_conversation_resolution: Option<bool>,
    pub lock_branch: Option<bool>,
    pub allow_fork_syncing: Option<bool>,
}

/// The texts of a list of strings.
pub open spec fn texts(list: Seq<String>) -> Seq<Seq<char>> {
    Seq::new(list.len(), |i: int| list[i]@)
}

/// What a list of required status checks says.
pub open spec fn checks_view(list: Seq<BranchProtectionUpdateRequiredStatusCheck>) -> Seq<
    StatusCheckModel,
> {
    Seq::new(list.len(), |i: int| list[i]@)
}

impl View for BranchProtectionUpdateRequiredStatusCheck {
    type V = StatusCheckModel;

    open spec fn view(&self) -> StatusCheckModel {
        StatusCheckModel { context: self.context@, app_id: self.app_id }
    }
}

impl View for BranchProtectionUpdateRequiredStatusChecks {
    type V = StatusChecksModel;

    open spec fn view(&self) -> StatusChecksModel {
        StatusChecksModel { strict: self.strict, checks: checks_view(self.checks@) }
    }
}

impl View for BranchProtectionUpdateRestrictions {
    type V = StatusChecksModel;

    open spec fn view(&self) -> StatusChecksModel {
        StatusChecksModel { strict: self.strict, checks: checks_view(self.checks@) }
    }
}

impl View for ListOfUserTeamsOrApps {
    type V = ActorsModel;

    open spec fn view(&self) -> ActorsModel {
        ActorsModel {
            users: texts(self.users@),
            teams: texts(self.teams@),
            apps: texts(self.apps@),
        }
    }
}

impl View for BranchProtectionUpdateRequiredPullRequestReviews {
    type V = ReviewsModel;

    open spec fn view(&self) -> ReviewsModel {
        ReviewsModel {
            dismissal_restrictions: self.dismissal_restrictions@,
            strict: self.strict,
            dismiss_stale_reviews: self.dismiss_stale_reviews,
            require_codeowner_reviews: self.require_codeowner_reviews,
            required_approving_review_count: self.required_approving_review_count,
            require_last_push_approval: self.require_last_push_approval,
            bypass_pull_request_allowances: self.bypass_pull_request_allowances@,
        }
    }
}

impl View for BranchProtectionUpdate {
    type V = UpdateModel;

    open spec fn view(&self) -> UpdateModel {
        UpdateModel {
            required_status_checks: match self.required_status_checks {
                Some(c) => Some(c@),
                None => None,
            },
            enforce_admins: self.enforce_admins,
            required_pull_request_reviews: match self.required_pull_request_reviews {
                Some(r) => Some(r@),
                None => None,
            },
            restrictions: match self.restrictions {
                Some(r) => Some(r@),
                None => None,
            },
            required_linear_history: self.required_linear_history,
            allow_force_pushes: self.allow_force_pushes,
            allow_deletions: self.allow_deletions,
            block_creations: self.block_creations,
            required_conversation_resolution: self.required_conversation_resolution,
            lock_branch: self.lock_branch,
            allow_fork_syncing: self.allow_fork_syncing,
        }
    }
}

/// The update in which nothing is specified.
pub open spec fn unset_update() -> UpdateModel {
    UpdateModel {
        required_status_checks: None,
        enforce_admins: None,
        required_pull_request_reviews: None,
        restrictions: None,
        required_linear_history: None,
        allow_force_pushes: None,
        allow_deletions: None,
        block_creations: None,
        required_conversation_resolution: None,
        lock_branch: None,
        allow_fork_syncing: None,
    }
}

/// A reported status check, taken over as it is.
pub open spec fn check_model(check: ProtectedBranchRequiredStatusCheckChecksItem) -> StatusCheckModel {
    StatusCheckModel { context: check.context@, app_id: check.app_id }
}

/// The reported status checks, each taken over, in order.
pub open spec fn checks_model(checks: Seq<ProtectedBranchRequiredStatusCheckChecksItem>) -> Seq<
    StatusCheckModel,
> {
    Seq::new(checks.len(), |i: int| check_model(checks[i]))
}

/// The reported status-check section. Strictness that was not reported
/// counts as off.
pub open spec fn status_checks_model(section: ProtectedBranchRequiredStatusCheck) -> StatusChecksModel {
    StatusChecksModel {
        strict: match section.strict {
            Some(strict) => strict,
            None => false,
        },
        checks: checks_model(section.checks@),
    }
}

/// The logins of the users, in order.
pub open spec fn user_logins(users: Seq<SimpleUser>) -> Seq<Seq<char>> {
    Seq::new(users.len(), |i: int| users[i].login@)
}

/// The slugs of the teams, in order.
pub open spec fn team_slugs(teams: Seq<Team>) -> Seq<Seq<char>> {
    Seq::new(teams.len(), |i: int| teams[i].slug@)
}

/// The slugs of the apps that have one, in order. An app without a slug
/// cannot be named in an update and is left out.
pub open spec fn app_slugs(apps: Seq<GitHubApp>) -> Seq<Seq<char>>
    decreases apps.len(),
{
    if apps.len() == 0 {
        Seq::empty()
    } else {
        let before = app_slugs(apps.drop_last());
        match apps.last().slug {
            Some(slug) => before.push(slug@),
            None => before,
        }
    }
}

/// The users, teams and apps of a reported section by login and slug; three
/// empty lists where the section is absent.
pub open spec fn actors_model(section: Option<IncomingUsersTeamsOrApps>) -> ActorsModel {
    match section {
        Some(actors) => ActorsModel {
            users: user_logins(actors.users@),
            teams: team_slugs(actors.teams@),
            apps: app_slugs(actors.apps@),
        },
        None => ActorsModel { users: Seq::empty(), teams: Seq::empty(), apps: Seq::empty() },
    }
}

/// The reported review requirements. A review count that was not reported
/// counts as zero; `strict` has no counterpart in the report and is off.
pub open spec fn reviews_model(section: ProtectedBranchPullRequestReview) -> ReviewsModel {
    ReviewsModel {
        dismissal_restrictions: actors_model(section.dismissal_restrictions),
        strict: false,
        dismiss_stale_reviews: section.dismiss_stale_reviews,
        require_codeowner_reviews: section.require_code_owner_reviews,
        required_approving_review_count: match section.required_approving_review_count {
            Some(count) => count,
            None => 0,
        },
        require_last_push_approval: section.require_last_push_approval,
        bypass_pull_request_allowances: actors_model(section.bypass_pull_request_allowances),
    }
}

/// The update that restates a reported protection: its status checks, its
/// admin enforcement and its review requirements. The push restrictions and
/// the other switches stay unspecified, so that an update changes them only
/// where a rule says so.
pub open spec fn baseline(protection: BranchProtection) -> UpdateModel {
    UpdateModel {
        required_status_checks: match protection.required_status_checks {
            Some(section) => Some(status_checks_model(section)),
            None => None,
        },
        enforce_admins: protection.enforce_admins,
        required_pull_request_reviews: match protection.required_pull_request_reviews {
            Some(section) => Some(reviews_model(section)),
            None => None,
        },
        ..unset_update()
    }
}

impl From<&ProtectedBranchRequiredStatusCheckChecksItem> for BranchProtectionUpdateRequiredStatusCheck {
    fn from(check: &ProtectedBranchRequiredStatusCheckChecksItem) -> (update: Self)
        ensures
            update@ == check_model(*check),
    {
        BranchProtectionUpdateRequiredStatusCheck {
            context: check.context.clone(),
            app_id: check.app_id,
        }
    }
}

impl vstd::std_specs::convert::FromSpecImpl<&ProtectedBranchRequiredStatusCheckChecksItem> for BranchProtectionUpdateRequiredStatusCheck {
    open spec fn obeys_from_spec() -> bool {
        false
    }

    open spec fn from_spec(check: &ProtectedBranchRequiredStatusCheckChecksItem) -> Self {
        arbitrary()
    }
}

fn copy_checks(checks: &Vec<ProtectedBranchRequiredStatusCheckChecksItem>) -> (copied: Vec<
    BranchProtectionUpdateRequiredStatusCheck,
>)
    ensures
        checks_view(copied@) == checks_model(checks@),
{
    let mut copied: Vec<BranchProtectionUpdateRequiredStatusCheck> = Vec::new();
    let mut i: usize = 0;
    while i < checks.len()
        invariant
            i <= checks.len(),
            copied.len() == i,
            forall|k: int| 0 <= k < i ==> (#[trigger] copied[k])@ == check_model(checks[k]),
        decreases checks.len() - i,
    {
        copied.push(BranchProtectionUpdateRequiredStatusCheck::from(&checks[i]));
        i += 1;
    }
    assert(checks_view(copied@) =~= checks_model(checks@));
    copied
}

fn copy_user_logins(users: &Vec<SimpleUser>) -> (logins: Vec<String>)
    ensures
        texts(logins@) == user_logins(users@),
{
    let mut logins: Vec<String> = Vec::new();
    let mut i: usize = 0;
    while i < users.len()
        invariant
            i <= users.len(),
            logins.len() == i,
            forall|k: int| 0 <= k < i ==> (#[trigger] logins[k])@ == users[k].login@,
        decreases users.len() - i,
    {
        logins.push(users[i].login.clone());
        i += 1;
    }
    assert(texts(logins@) =~= user_logins(users@));
    logins
}

fn copy_team_slugs(teams: &Vec<Team>) -> (slugs: Vec<String>)
    ensures
        texts(slugs@) == team_slugs(teams@),
{
    let mut slugs: Vec<String> = Vec::new();
    let mut i: usize = 0;
    while i < teams.len()
        invariant
            i <= teams.len(),
            slugs.len() == i,
            forall|k: int| 0 <= k < i ==> (#[trigger] slugs[k])@ == teams[k].slug@,
        decreases teams.len() - i,
    {
        slugs.push(teams[i].slug.clone());
        i += 1;
    }
    assert(texts(slugs@) =~= team_slugs(teams@));
    slugs
}

fn copy_app_slugs(apps: &Vec<GitHubApp>) -> (slugs: Vec<String>)
    ensures
        texts(slugs@) == app_slugs(apps@),
{
    let mut slugs: Vec<String> = Vec::new();
    let mut i: usize = 0;
    assert(texts(slugs@) =~= app_slugs(apps@.take(0)));
    while i < apps.len()
        invariant
            i <= apps.len(),
            texts(slugs@) == app_slugs(apps@.take(i as int)),
        decreases apps.len() - i,
    {
        let ghost before = texts(slugs@);
        assert(apps@.take(i + 1).drop_last() =~= apps@.take(i as int));
        if let Some(slug) = &apps[i].slug {
            slugs.push(slug.clone());
            assert(texts(slugs@) =~= before.push(slug@));
        }
        i += 1;
    }
    assert(apps@.take(apps.len() as int) =~= apps@);
    slugs
}

fn copy_actors(section: &Option<IncomingUsersTeamsOrApps>) -> (actors: ListOfUserTeamsOrApps)
    ensures
        actors@ == actors_model(*section),
{
    match section {
        Some(found) => ListOfUserTeamsOrApps {
            users: copy_user_logins(&found.users),
            teams: copy_team_slugs(&found.teams),
            apps: copy_app_slugs(&found.apps),
        },
        None => {
            let actors = ListOfUserTeamsOrApps {
                users: Vec::new(),
                teams: Vec::new(),
                apps: Vec::new(),
            };
            assert(texts(actors.users@) =~= Seq::empty());
            assert(texts(actors.teams@) =~= Seq::empty());
            assert(texts(actors.apps@) =~= Seq::empty());
            actors
        },
    }
}

fn copy_reviews(
    section: &ProtectedBranchPullRequestReview,
) -> (reviews: BranchProtectionUpdateRequiredPullRequestReviews)
    ensures
        reviews@ == reviews_model(*section),
{
    BranchProtectionUpdateRequiredPullRequestReviews {
        dismissal_restrictions: copy_actors(&section.dismissal_restrictions),
        strict: false,
        dismiss_stale_reviews: section.dismiss_stale_reviews,
        require_codeowner_reviews: section.require_code_owner_reviews,
        required_approving_review_count: match section.required_approving_review_count {
            Some(count) => count,
            None => 0,
        },
        require_last_push_approval: section.require_last_push_approval,
        bypass_pull_request_allowances: copy_actors(&section.bypass_pull_request_allowances),
    }
}

impl Default for BranchProtectionUpdate {
    fn default() -> (update: Self)
        ensures
            update@ == unset_update(),
    {
        BranchProtectionUpdate {
            required_status_checks: None,
            enforce_admins: None,
            required_pull_request_reviews: None,
            restrictions: None,
            required_linear_history: None,
            allow_force_pushes: None,
            allow_deletions: None,
            block_creations: None,
            required_conversation_resolution: None,
            lock_branch: None,
            allow_fork_syncing: None,
        }
    }
}

impl vstd::std_specs::convert::FromSpecImpl<&BranchProtection> for BranchProtectionUpdate {
    open spec fn obeys_from_spec() -> bool {
        false
    }

    open spec fn from_spec(branch_protection: &BranchProtection) -> Self {
        arbitrary()
    }
}

impl From<&BranchProtection> for BranchProtectionUpdate {
    /// Restates a reported protection as an update.
    fn from(branch_protection: &BranchProtection) -> (update: Self)
        ensures
            update@ == baseline(*branch_protection),
    {
        BranchProtectionUpdate {
            required_status_checks: match &branch_protection.required_status_checks {
                Some(section) => Some(
                    BranchProtectionUpdateRequiredStatusChecks {
                        strict: match section.strict {
                            Some(strict) => strict,
                            None => false,
                        },
                        checks: copy_checks(&section.checks),
                    },
                ),
                None => None,
            },
            enforce_admins: branch_protection.enforce_admins,
            required_pull_request_reviews: match &branch_protection.required_pull_request_reviews {
                Some(section) => Some(copy_reviews(section)),
                None => None,
            },
            restrictions: None,
            required_linear_history: None,
            allow_force_pushes: None,
            allow_deletions: None,
            block_creations: None,
            required_conversation_resolution: None,
            lock_branch: None,
            allow_fork_syncing: None,
        }
    }
}

} // verus!
