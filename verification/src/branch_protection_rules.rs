//! Declared branch-protection rules and the update each one calls for.

use vstd::prelude::*;
use vstd::string::StringExecFns;
use crate::models::branch_protection::BranchProtection;
use crate::models::branch_protection_update::{
    baseline,
    checks_view,
    unset_update,
    BranchProtectionUpdate,
    BranchProtectionUpdateRequiredStatusChecks,
    StatusChecksModel,
    UpdateModel,
};
use crate::models::repository::Repository;

verus! {

/// Whether a rule asks for a protection to be there.
#[derive(Debug, Clone, Copy, PartialEq, Eq, Structural)]
pub enum BranchProtectionOperation {
    /// The branch is protected; a missing protection is created.
    MustExist,
    /// A protection that exists is brought in line; none is created.
    MayExist,
}

/// The desired protection for the branches that match a pattern. A field that
/// is `None` is not managed.
#[derive(Debug, Clone, PartialEq, Eq)]
pub struct BranchProtectionRule {
    pub branch_name_pattern: String,
    pub operation: BranchProtectionOperation,
    pub is_admin_enforced: Option<bool>,
    pub allow_deletions: Option<bool>,
    /// Set together with `requires_strict_status_checks`, or not at all.
    pub requires_status_checks: Option<bool>,
    /// Set together with `requires_status_checks`, or not at all.
    pub requires_strict_status_checks: Option<bool>,
}

/// A rule that sets one of the two status-check fields without the other.
#[derive(Debug, Clone, PartialEq, Eq)]
pub struct RuleError {
    /// The branch-name pattern of the offending rule.
    pub pattern: String,
}

/// The status checks that a rule asks for, over those of the baseline: both
/// fields set and checks required gives the baseline's checks with the rule's
/// strictness; both set and no checks required gives none; otherwise the
/// baseline's section stands.
pub open spec fn overlay_status_checks(
    requires_checks: Option<bool>,
    requires_strict: Option<bool>,
    base: Option<StatusChecksModel>,
) -> Option<StatusChecksModel> {
    match (requires_checks, requires_strict) {
        (Some(true), Some(strict)) => Some(
            StatusChecksModel {
                strict,
                checks: match base {
                    Some(section) => section.checks,
                    None => Seq::empty(),
                },
            },
        ),
        (Some(false), Some(_)) => None,
        _ => base,
    }
}

/// The baseline with every field that the rule sets written over it.
pub open spec fn overlay(rule: BranchProtectionRule, base: UpdateModel) -> UpdateModel {
    UpdateModel {
        enforce_admins: if rule.is_admin_enforced is Some {
            rule.is_admin_enforced
        } else {
            base.enforce_admins
        },
        allow_deletions: if rule.allow_deletions is Some {
            rule.allow_deletions
        } else {
            base.allow_deletions
        },
        required_status_checks: overlay_status_checks(
            rule.requires_status_checks,
            rule.requires_strict_status_checks,
            base.required_status_checks,
        ),
        ..base
    }
}

/// The update that a rule calls for, given the protection found: none where
/// nothing is protected and the rule does not ask for a protection.
pub open spec fn diff_spec(rule: BranchProtectionRule, actual: Option<BranchProtection>) -> Option<
    UpdateModel,
> {
    match actual {
        Some(protection) => Some(overlay(rule, baseline(protection))),
        None => match rule.operation {
            BranchProtectionOperation::MayExist => None,
            BranchProtectionOperation::MustExist => Some(overlay(rule, unset_update())),
        },
    }
}

/// What an optional update says.
pub open spec fn update_view(update: Option<BranchProtectionUpdate>) -> Option<UpdateModel> {
    match update {
        Some(u) => Some(u@),
        None => None,
    }
}

impl BranchProtectionRule {
    /// The two status-check fields are both set or both unset.
    pub open spec fn is_valid(&self) -> bool {
        self.requires_status_checks is Some == self.requires_strict_status_checks is Some
    }

    /// The branch that the rule is about in `repo`: the repository's default
    /// branch for the pattern `$default_branch`, the pattern itself otherwise.
    pub fn parsed_branch_name_pattern<'a>(&'a self, repo: &'a Repository) -> (branch: &'a String)
        ensures
            *branch == if self.branch_name_pattern@ == "$default_branch"@ {
                repo.info.default_branch
            } else {
                self.branch_name_pattern
            },
    {
        if self.branch_name_pattern == String::from_str("$default_branch") {
            &repo.info.default_branch
        } else {
            &self.branch_name_pattern
        }
    }

    /// Accepts the rule where its two status-check fields are both set or
    /// both unset, and otherwise rejects it, naming its pattern.
    pub fn validate(&self) -> (checked: Result<(), RuleError>)
        ensures
            checked is Ok == self.is_valid(),
            checked matches Err(e) ==> e.pattern@ == self.branch_name_pattern@,
    {
        if self.requires_status_checks.is_some() == self.requires_strict_status_checks.is_some() {
            Ok(())
        } else {
            Err(RuleError { pattern: self.branch_name_pattern.clone() })
        }
    }

    /// The update that brings a branch in line with the rule.
    ///
    /// Starts from the protection found, or from an update with nothing set
    /// where there is none and the rule asks for one, and writes the rule's
    /// fields over it. The update is returned whether or not it differs from
    /// the protection found.
    pub fn diff(&self, actual_branch_protection: &Option<BranchProtection>) -> (update: Option<
        BranchProtectionUpdate,
    >)
        ensures
            update_view(update) == diff_spec(*self, *actual_branch_protection),
    {
        let mut diff = match actual_branch_protection {
            Some(protection) => BranchProtectionUpdate::from(protection),
            None => match self.operation {
                BranchProtectionOperation::MayExist => {
                    return None;
                },
                BranchProtectionOperation::MustExist => BranchProtectionUpdate::default(),
            },
        };
        let ghost base = diff@;
        if let Some(v) = self.is_admin_enforced {
            diff.enforce_admins = Some(v);
        }
        if let Some(v) = self.allow_deletions {
            diff.allow_deletions = Some(v);
        }
        match (self.requires_status_checks, self.requires_strict_status_checks) {
            (Some(true), Some(strict)) => {
                let checks = match diff.required_status_checks {
                    Some(section) => section.checks,
                    None => {
                        let none = Vec::new();
                        assert(checks_view(none@) =~= Seq::empty());
                        none
                    },
                };
                diff.required_status_checks = Some(
                    BranchProtectionUpdateRequiredStatusChecks { strict, checks },
                );
            },
            (Some(false), Some(_)) => {
                diff.required_status_checks = None;
            },
            _ => {},
        }
        assert(diff@ == overlay(*self, base));
        Some(diff)
    }
}

impl RuleError {
    /// The rejection in words.
    pub fn message(&self) -> (text: String)
        ensures
            text@ == "branch protection rule for '"@ + self.pattern@
                + "' must set requires_status_checks and requires_strict_status_checks together"@,
    {
        String::from_str("branch protection rule for '").concat(self.pattern.as_str()).concat(
            "' must set requires_status_checks and requires_strict_status_checks together",
        )
    }
}

} // verus!
