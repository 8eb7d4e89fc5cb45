//! The declared desired state.

use vstd::prelude::*;
use vstd::string::StringExecFns;
use crate::branch_protection_rules::{BranchProtectionRule, RuleError};
use crate::repository_settings::RepositorySettings;
use crate::topic_operation::TopicOperations;

verus! {

/// The address of the service's public API, used where none is configured.
pub fn default_github_api_root() -> (root: String)
    ensures
        root@ == "https://api.github.com"@,
{
    String::from_str("https://api.github.com")
}

/// What is desired of every repository that is looked at. A part that is
/// `None` is not managed.
#[derive(Debug, Clone, PartialEq, Eq)]
pub struct Config {
    pub github_api_root: String,
    pub settings: Option<RepositorySettings>,
    pub branch_protections: Option<Vec<BranchProtectionRule>>,
    pub topics: Option<TopicOperations>,
}

/// Every rule of the list is valid.
pub open spec fn all_valid(rules: Seq<BranchProtectionRule>) -> bool {
    forall|i: int| 0 <= i < rules.len() ==> (#[trigger] rules[i]).is_valid()
}

impl Config {
    /// The branch-protection rules, or none where that part is not managed.
    pub open spec fn rules(&self) -> Seq<BranchProtectionRule> {
        match self.branch_protections {
            Some(rules) => rules@,
            None => Seq::empty(),
        }
    }

    /// Checks every branch-protection rule, in order. The configuration is
    /// rejected with the pattern of the first rule that is not valid.
    pub fn validate(&self) -> (checked: Result<(), RuleError>)
        ensures
            checked is Ok == all_valid(self.rules()),
            checked matches Err(e) ==> exists|i: int|
                0 <= i < self.rules().len() && !(#[trigger] self.rules()[i]).is_valid()
                    && all_valid(self.rules().take(i)) && e.pattern@
                    == self.rules()[i].branch_name_pattern@,
    {
        if let Some(rules) = &self.branch_protections {
            let mut i: usize = 0;
            while i < rules.len()
                invariant
                    i <= rules.len(),
                    self.branch_protections == Some(*rules),
                    all_valid(rules@.take(i as int)),
                decreases rules.len() - i,
            {
                match rules[i].validate() {
                    Ok(()) => {},
                    Err(e) => {
                        assert(!self.rules()[i as int].is_valid());
                        return Err(e);
                    },
                }
                assert forall|k: int| 0 <= k < i + 1 implies (#[trigger] rules@.take(
                    i + 1,
                )[k]).is_valid() by {
                    if k < i {
                        assert(rules@.take(i as int)[k].is_valid());
                    }
                }
                i += 1;
            }
            assert(rules@.take(rules.len() as int) =~= rules@);
        }
        Ok(())
    }
}

} // verus!
