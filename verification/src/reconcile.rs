//! What to do about each repository: the decisions of a run, without the
//! requests that carry them out.

use vstd::prelude::*;
use crate::branch_protection_rules::{diff_spec, BranchProtectionRule};
use crate::config::Config;
use crate::models::branch_protection::BranchProtection;
use crate::models::branch_protection_update::BranchProtectionUpdate;
use crate::models::repository::{Info, Repository};
use crate::repository_settings::{
    actual_setting,
    entries_view,
    lemma_agreeing_settings_give_empty_diff,
    lemma_second_diff_is_empty,
    patched,
    RepositorySettings,
    Setting,
};
use crate::topic_operation::{
    apply_operations,
    distinct_names,
    lemma_second_application_changes_nothing,
    name_set,
    renames_stand_alone,
    TopicOperation,
};

verus! {

/// What to do about a repository's topics.
#[derive(Debug, Clone, PartialEq, Eq)]
pub enum TopicsPlan {
    /// No topic operations are declared.
    Unmanaged,
    /// The topics are as the operations leave them.
    NoChanges,
    /// The topics differ and the run is a dry run: report, and send nothing.
    Report { added: Vec<String>, removed: Vec<String> },
    /// The topics differ: report, and replace them all by `names`.
    Update { added: Vec<String>, removed: Vec<String>, names: Vec<String> },
}

/// What to do about a repository's settings.
#[derive(Debug, Clone, PartialEq, Eq)]
pub enum SettingsPlan {
    /// No settings are declared.
    Unmanaged,
    /// No setting differs.
    NothingToChange,
    /// Settings differ and the run is a dry run: report the patch, and send
    /// nothing.
    Report { patch: Vec<(&'static str, bool)> },
    /// Settings differ: send the patch.
    Apply { patch: Vec<(&'static str, bool)> },
}

/// What to do about one branch-protection rule on a repository.
#[derive(Debug, Clone, PartialEq, Eq)]
pub enum BranchProtectionPlan {
    /// The branch is not protected and the rule does not ask that it be.
    Leave,
    /// The run is a dry run: report the update for `branch`, and send nothing.
    Report { branch: String, update: BranchProtectionUpdate },
    /// Send the update for `branch`.
    Update { branch: String, update: BranchProtectionUpdate },
}

/// What to do about a repository that is reconciled: first its topics, then
/// its settings.
#[derive(Debug, Clone, PartialEq, Eq)]
pub struct RepositoryPlan {
    pub topics: TopicsPlan,
    pub settings: SettingsPlan,
}

/// What to do about one repository of a run.
#[derive(Debug, Clone, PartialEq, Eq)]
pub enum RepositoryStep {
    /// The repository is archived or disabled: say so, and leave it alone.
    Skip,
    Reconcile(RepositoryPlan),
}

/// Whether a repository is left alone: it is archived or disabled.
pub open spec fn is_skipped(info: Info) -> bool {
    info.archived || info.disabled
}

/// Whether `plan` is what the declared operations call for on the topics
/// `current`.
pub open spec fn topics_plan_meets(
    plan: TopicsPlan,
    current: Set<Seq<char>>,
    ops: Option<Vec<TopicOperation>>,
    dry_run: bool,
) -> bool {
    match ops {
        None => plan is Unmanaged,
        Some(ops) => {
            let wanted = apply_operations(current, ops@);
            if wanted == current {
                plan is NoChanges
            } else if dry_run {
                plan matches TopicsPlan::Report { added, removed } && name_set(added@)
                    == wanted.difference(current) && name_set(removed@) == current.difference(
                    wanted,
                )
            } else {
                plan matches TopicsPlan::Update { added, removed, names } && name_set(added@)
                    == wanted.difference(current) && name_set(removed@) == current.difference(
                    wanted,
                ) && name_set(names@) == wanted
            }
        },
    }
}

/// No list of the plan names a topic twice.
pub open spec fn topics_plan_distinct(plan: TopicsPlan) -> bool {
    match plan {
        TopicsPlan::Unmanaged => true,
        TopicsPlan::NoChanges => true,
        TopicsPlan::Report { added, removed } => distinct_names(added@) && distinct_names(
            removed@,
        ),
        TopicsPlan::Update { added, removed, names } => distinct_names(added@) && distinct_names(
            removed@,
        ) && distinct_names(names@),
    }
}

/// Whether `plan` is what the declared settings call for on the snapshot
/// `info`.
pub open spec fn settings_plan_meets(
    plan: SettingsPlan,
    info: Info,
    settings: Option<RepositorySettings>,
    dry_run: bool,
) -> bool {
    match settings {
        None => plan is Unmanaged,
        Some(desired) => {
            let changes = desired.diff_spec(&info);
            if changes.is_empty() {
                plan is NothingToChange
            } else if dry_run {
                plan matches SettingsPlan::Report { patch } && entries_view(patch@)
                    == changes.patch_entries()
            } else {
                plan matches SettingsPlan::Apply { patch } && entries_view(patch@)
                    == changes.patch_entries()
            }
        },
    }
}

/// The branch that a rule is about in a repository: the default branch for
/// the pattern `$default_branch`, the pattern itself otherwise.
pub open spec fn rule_branch(rule: BranchProtectionRule, repository: Repository) -> Seq<char> {
    if rule.branch_name_pattern@ == "$default_branch"@ {
        repository.info.default_branch@
    } else {
        rule.branch_name_pattern@
    }
}

/// Whether `plan` is what `rule` calls for on `repository`, given the
/// protection found on the rule's branch.
pub open spec fn branch_protection_plan_meets(
    plan: BranchProtectionPlan,
    repository: Repository,
    rule: BranchProtectionRule,
    actual: Option<BranchProtection>,
    dry_run: bool,
) -> bool {
    match diff_spec(rule, actual) {
        None => plan is Leave,
        Some(wanted) => if dry_run {
            plan matches BranchProtectionPlan::Report { branch, update } && branch@ == rule_branch(
                rule,
                repository,
            ) && update@ == wanted
        } else {
            plan matches BranchProtectionPlan::Update { branch, update } && branch@ == rule_branch(
                rule,
                repository,
            ) && update@ == wanted
        },
    }
}

/// Whether `step` is what the configuration calls for on `repository`.
pub open spec fn step_meets(
    step: RepositoryStep,
    repository: Repository,
    config: Config,
    dry_run: bool,
) -> bool {
    if is_skipped(repository.info) {
        step is Skip
    } else {
        step matches RepositoryStep::Reconcile(plan) && topics_plan_meets(
            plan.topics,
            repository.topics@,
            config.topics,
            dry_run,
        ) && (repository.topics.wf() ==> topics_plan_distinct(plan.topics)) && settings_plan_meets(
            plan.settings,
            repository.info,
            config.settings,
            dry_run,
        )
    }
}

impl Repository {
    /// Decides what to do about the topics, given the declared operations.
    ///
    /// The operations are applied in order to the current topics. Where the
    /// outcome is the current set there is nothing to do. Otherwise the plan
    /// names the topics gained and lost, and, outside a dry run, the full set
    /// to send.
    pub fn check_topics(&self, topics: &Option<Vec<TopicOperation>>, dry_run: bool) -> (plan:
        TopicsPlan)
        ensures
            topics_plan_meets(plan, self.topics@, *topics, dry_run),
            self.topics.wf() ==> topics_plan_distinct(plan),
    {
        let ops = match topics {
            Some(ops) => ops,
            None => {
                return TopicsPlan::Unmanaged;
            },
        };
        let final_topics = self.topics.apply(ops);
        if self.topics.same_as(&final_topics) {
            TopicsPlan::NoChanges
        } else {
            let added = final_topics.difference(&self.topics);
            let removed = self.topics.difference(&final_topics);
            if dry_run {
                TopicsPlan::Report { added, removed }
            } else {
                TopicsPlan::Update { added, removed, names: final_topics.names }
            }
        }
    }

    /// Decides what to do about the settings, given the declared ones.
    ///
    /// Where no setting differs there is nothing to do. Otherwise the plan
    /// holds the patch of the differing settings, to report in a dry run and
    /// to send outside one.
    pub fn check_settings(&self, settings: &Option<RepositorySettings>, dry_run: bool) -> (plan:
        SettingsPlan)
        ensures
            settings_plan_meets(plan, self.info, *settings, dry_run),
    {
        let desired = match settings {
            Some(desired) => desired,
            None => {
                return SettingsPlan::Unmanaged;
            },
        };
        let result = desired.diff(&self.info);
        if result.empty() {
            SettingsPlan::NothingToChange
        } else {
            let patch = result.dump_patch();
            if dry_run {
                SettingsPlan::Report { patch }
            } else {
                SettingsPlan::Apply { patch }
            }
        }
    }

    /// Decides what to do about one branch-protection rule, given the
    /// protection found on the branch that the rule is about.
    ///
    /// Where the rule calls for an update, the plan holds it with the name
    /// of that branch, to report in a dry run and to send outside one.
    pub fn check_branch_protection_rule(
        &self,
        rule: &BranchProtectionRule,
        actual: &Option<BranchProtection>,
        dry_run: bool,
    ) -> (plan: BranchProtectionPlan)
        ensures
            branch_protection_plan_meets(plan, *self, *rule, *actual, dry_run),
    {
        match rule.diff(actual) {
            None => BranchProtectionPlan::Leave,
            Some(update) => {
                let branch = rule.parsed_branch_name_pattern(self).clone();
                if dry_run {
                    BranchProtectionPlan::Report { branch, update }
                } else {
                    BranchProtectionPlan::Update { branch, update }
                }
            },
        }
    }

    /// Decides what to do about the topics and the settings.
    pub fn check_repository(&self, config: &Config, dry_run: bool) -> (plan: RepositoryPlan)
        ensures
            topics_plan_meets(plan.topics, self.topics@, config.topics, dry_run),
            self.topics.wf() ==> topics_plan_distinct(plan.topics),
            settings_plan_meets(plan.settings, self.info, config.settings, dry_run),
    {
        RepositoryPlan {
            topics: self.check_topics(&config.topics, dry_run),
            settings: self.check_settings(&config.settings, dry_run),
        }
    }
}

/// Decides, for each repository in turn, whether it is left alone or
/// reconciled, and how.
pub fn check_repositories(config: &Config, repositories: &Vec<Repository>, dry_run: bool) -> (steps:
    Vec<RepositoryStep>)
    ensures
        steps.len() == repositories.len(),
        forall|i: int|
            0 <= i < steps.len() ==> step_meets(
                #[trigger] steps[i],
                repositories[i],
                *config,
                dry_run,
            ),
{
    let mut steps: Vec<RepositoryStep> = Vec::new();
    let mut i: usize = 0;
    while i < repositories.len()
        invariant
            i <= repositories.len(),
            steps.len() == i,
            forall|k: int|
                0 <= k < i ==> step_meets(#[trigger] steps[k], repositories[k], *config, dry_run),
        decreases repositories.len() - i,
    {
        let repository = &repositories[i];
        if repository.info.archived || repository.info.disabled {
            steps.push(RepositoryStep::Skip);
        } else {
            steps.push(RepositoryStep::Reconcile(repository.check_repository(config, dry_run)));
        }
        i += 1;
    }
    steps
}

/// A repository whose snapshot holds every declared setting is left without
/// a patch, in a dry run and outside one.
pub proof fn lemma_agreeing_settings_need_no_patch(
    plan: SettingsPlan,
    info: Info,
    desired: RepositorySettings,
    dry_run: bool,
)
    requires
        settings_plan_meets(plan, info, Some(desired), dry_run),
        forall|s: Setting| (#[trigger] desired.get(s)) is Some ==> actual_setting(info, s) == desired.get(s),
    ensures
        plan is NothingToChange,
{
    lemma_agreeing_settings_give_empty_diff(desired, info);
}

/// Reconciling a second time, right after the first plan was carried out,
/// finds nothing to do: the settings hold the patched values and, where the
/// renames among the operations stand alone, the topics are the set that was
/// sent.
pub proof fn lemma_second_run_is_a_no_op(
    repository: Repository,
    desired: RepositorySettings,
    ops: Vec<TopicOperation>,
    settings_plan: SettingsPlan,
    topics_plan: TopicsPlan,
    dry_run: bool,
)
    requires
        renames_stand_alone(ops@),
        settings_plan_meets(
            settings_plan,
            patched(
                repository.info,
                desired.diff_spec(&repository.info),
            ),
            Some(desired),
            dry_run,
        ),
        topics_plan_meets(
            topics_plan,
            apply_operations(repository.topics@, ops@),
            Some(ops),
            dry_run,
        ),
    ensures
        settings_plan is NothingToChange,
        topics_plan is NoChanges,
{
    lemma_second_diff_is_empty(desired, repository.info);
    lemma_second_application_changes_nothing(repository.topics@, ops@);
}

} // verus!
