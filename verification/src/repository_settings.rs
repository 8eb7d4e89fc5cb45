//! Desired repository settings and the changes needed to reach them.

use vstd::prelude::*;
use crate::models::repository::Info;

verus! {

/// One of the settings that can be managed.
#[derive(Debug, Clone, Copy, PartialEq, Eq, Structural)]
pub enum Setting {
    AutoMerge,
    Issues,
    Projects,
    Wiki,
    MergeCommit,
    SquashMerge,
    RebaseMerge,
}

impl Setting {
    /// The name under which the remote service knows this setting.
    pub open spec fn api_name(self) -> Seq<char> {
        match self {
            Setting::AutoMerge => "allow_auto_merge"@,
            Setting::Issues => "has_issues"@,
            Setting::Projects => "has_projects"@,
            Setting::Wiki => "has_wiki"@,
            Setting::MergeCommit => "allow_merge_commit"@,
            Setting::SquashMerge => "allow_squash_merge"@,
            Setting::RebaseMerge => "allow_rebase_merge"@,
        }
    }

    /// The name under which the remote service knows this setting.
    pub fn name(self) -> (r: &'static str)
        ensures
            r@ == self.api_name(),
    {
        match self {
            Setting::AutoMerge => "allow_auto_merge",
            Setting::Issues => "has_issues",
            Setting::Projects => "has_projects",
            Setting::Wiki => "has_wiki",
            Setting::MergeCommit => "allow_merge_commit",
            Setting::SquashMerge => "allow_squash_merge",
            Setting::RebaseMerge => "allow_rebase_merge",
        }
    }
}

/// What a repository snapshot reports for a setting.
pub open spec fn actual_setting(info: Info, s: Setting) -> Option<bool> {
    match s {
        Setting::AutoMerge => info.allow_auto_merge,
        Setting::Issues => info.has_issues,
        Setting::Projects => info.has_projects,
        Setting::Wiki => info.has_wiki,
        Setting::MergeCommit => info.allow_merge_commit,
        Setting::SquashMerge => info.allow_squash_merge,
        Setting::RebaseMerge => info.allow_rebase_merge,
    }
}

/// The change one setting needs: the desired value where both sides are known
/// and differ, nothing otherwise. An unknown actual value is never a difference.
pub open spec fn field_diff(desired: Option<bool>, actual: Option<bool>) -> Option<bool> {
    if desired is Some && actual is Some && desired != actual {
        desired
    } else {
        None
    }
}

/// The entry a setting contributes to a patch: its name and value when set.
pub open spec fn patch_entry(s: Setting, value: Option<bool>) -> Seq<(Seq<char>, bool)> {
    match value {
        Some(v) => seq![(s.api_name(), v)],
        None => seq![],
    }
}

/// The names and values that a list of patch entries holds.
pub open spec fn entries_view(entries: Seq<(&'static str, bool)>) -> Seq<(Seq<char>, bool)> {
    Seq::new(entries.len(), |i: int| (entries[i].0@, entries[i].1))
}

/// The snapshot that results once the service has applied `patch`.
pub open spec fn patched(info: Info, patch: RepositorySettings) -> Info {
    Info {
        allow_auto_merge: if patch.auto_merge_allowed is Some {
            patch.auto_merge_allowed
        } else {
            info.allow_auto_merge
        },
        has_issues: if patch.has_issues_enabled is Some {
            patch.has_issues_enabled
        } else {
            info.has_issues
        },
        has_projects: if patch.has_projects_enabled is Some {
            patch.has_projects_enabled
        } else {
            info.has_projects
        },
        has_wiki: if patch.has_wiki_enabled is Some {
            patch.has_wiki_enabled
        } else {
            info.has_wiki
        },
        allow_merge_commit: if patch.merge_commit_allowed is Some {
            patch.merge_commit_allowed
        } else {
            info.allow_merge_commit
        },
        allow_squash_merge: if patch.squash_merge_allowed is Some {
            patch.squash_merge_allowed
        } else {
            info.allow_squash_merge
        },
        allow_rebase_merge: if patch.rebase_merge_allowed is Some {
            patch.rebase_merge_allowed
        } else {
            info.allow_rebase_merge
        },
        ..info
    }
}

/// Desired values for the managed settings. `None` leaves a setting unmanaged.
///
/// The same shape holds the outcome of a comparison: there a set field is a
/// change to make.
#[derive(Debug, Clone, Copy, PartialEq, Eq, Structural)]
pub struct RepositorySettings {
    pub auto_merge_allowed: Option<bool>,
    pub has_issues_enabled: Option<bool>,
    pub has_projects_enabled: Option<bool>,
    pub has_wiki_enabled: Option<bool>,
    pub merge_commit_allowed: Option<bool>,
    pub squash_merge_allowed: Option<bool>,
    pub rebase_merge_allowed: Option<bool>,
}

fn ensure_same(desired: Option<bool>, actual: Option<bool>) -> (r: Option<bool>)
    ensures
        r == field_diff(desired, actual),
{
    match (desired, actual) {
        (Some(expected), Some(found)) => {
            if expected != found {
                Some(expected)
            } else {
                None
            }
        },
        _ => None,
    }
}

fn push_entry(patch: &mut Vec<(&'static str, bool)>, s: Setting, value: Option<bool>)
    ensures
        entries_view(final(patch)@) == entries_view(old(patch)@) + patch_entry(s, value),
{
    if let Some(v) = value {
        patch.push((s.name(), v));
    }
    assert(entries_view(patch@) =~= entries_view(old(patch)@) + patch_entry(s, value));
}

impl RepositorySettings {
    /// The value held for a setting.
    pub open spec fn get(&self, s: Setting) -> Option<bool> {
        match s {
            Setting::AutoMerge => self.auto_merge_allowed,
            Setting::Issues => self.has_issues_enabled,
            Setting::Projects => self.has_projects_enabled,
            Setting::Wiki => self.has_wiki_enabled,
            Setting::MergeCommit => self.merge_commit_allowed,
            Setting::SquashMerge => self.squash_merge_allowed,
            Setting::RebaseMerge => self.rebase_merge_allowed,
        }
    }

    /// No setting is held.
    pub open spec fn is_empty(&self) -> bool {
        forall|s: Setting| (#[trigger] self.get(s)) is None
    }

    /// The changes that bring `info` to these desired settings.
    pub open spec fn diff_spec(&self, info: &Info) -> RepositorySettings {
        RepositorySettings {
            auto_merge_allowed: field_diff(self.auto_merge_allowed, info.allow_auto_merge),
            has_issues_enabled: field_diff(self.has_issues_enabled, info.has_issues),
            has_projects_enabled: field_diff(self.has_projects_enabled, info.has_projects),
            has_wiki_enabled: field_diff(self.has_wiki_enabled, info.has_wiki),
            merge_commit_allowed: field_diff(self.merge_commit_allowed, info.allow_merge_commit),
            squash_merge_allowed: field_diff(self.squash_merge_allowed, info.allow_squash_merge),
            rebase_merge_allowed: field_diff(self.rebase_merge_allowed, info.allow_rebase_merge),
        }
    }

    /// The patch as a list: one entry for each held setting, in a fixed order.
    pub open spec fn patch_entries(&self) -> Seq<(Seq<char>, bool)> {
        patch_entry(Setting::AutoMerge, self.auto_merge_allowed)
            + patch_entry(Setting::Issues, self.has_issues_enabled)
            + patch_entry(Setting::Projects, self.has_projects_enabled)
            + patch_entry(Setting::Wiki, self.has_wiki_enabled)
            + patch_entry(Setting::MergeCommit, self.merge_commit_allowed)
            + patch_entry(Setting::SquashMerge, self.squash_merge_allowed)
            + patch_entry(Setting::RebaseMerge, self.rebase_merge_allowed)
    }

    /// The patch as a mapping from the service's field names to values.
    pub open spec fn patch_spec(&self) -> Map<Seq<char>, bool> {
        Map::new(
            |k: Seq<char>| exists|s: Setting| #[trigger] s.api_name() == k && self.get(s) is Some,
            |k: Seq<char>| self.get(choose|s: Setting| #[trigger] s.api_name() == k && self.get(s) is Some)->0,
        )
    }

    /// Compares these desired settings with a repository snapshot.
    ///
    /// A field of the result is set exactly where the desired and the actual
    /// value are both known and differ, and then holds the desired value.
    pub fn diff(&self, repository: &Info) -> (r: RepositorySettings)
        ensures
            r == self.diff_spec(repository),
            forall|s: Setting| #[trigger]
                r.get(s) == field_diff(self.get(s), actual_setting(*repository, s)),
    {
        RepositorySettings {
            auto_merge_allowed: ensure_same(self.auto_merge_allowed, repository.allow_auto_merge),
            has_issues_enabled: ensure_same(self.has_issues_enabled, repository.has_issues),
            has_projects_enabled: ensure_same(self.has_projects_enabled, repository.has_projects),
            has_wiki_enabled: ensure_same(self.has_wiki_enabled, repository.has_wiki),
            merge_commit_allowed: ensure_same(
                self.merge_commit_allowed,
                repository.allow_merge_commit,
            ),
            squash_merge_allowed: ensure_same(
                self.squash_merge_allowed,
                repository.allow_squash_merge,
            ),
            rebase_merge_allowed: ensure_same(
                self.rebase_merge_allowed,
                repository.allow_rebase_merge,
            ),
        }
    }

    /// Whether no field is set.
    pub fn empty(&self) -> (r: bool)
        ensures
            r == self.is_empty(),
    {
        let r = self.auto_merge_allowed.is_none() && self.has_issues_enabled.is_none()
            && self.has_projects_enabled.is_none() && self.has_wiki_enabled.is_none()
            && self.merge_commit_allowed.is_none() && self.squash_merge_allowed.is_none()
            && self.rebase_merge_allowed.is_none();
        proof {
            if !r {
                assert(self.get(Setting::AutoMerge) is Some || self.get(Setting::Issues) is Some
                    || self.get(Setting::Projects) is Some || self.get(Setting::Wiki) is Some
                    || self.get(Setting::MergeCommit) is Some || self.get(Setting::SquashMerge) is Some
                    || self.get(Setting::RebaseMerge) is Some);
            }
        }
        r
    }

    /// The set fields as a patch: each under the service's name for it, with
    /// its value, in the order in which the fields are declared.
    pub fn dump_patch(&self) -> (patch: Vec<(&'static str, bool)>)
        ensures
            entries_view(patch@) == self.patch_entries(),
            forall|k: Seq<char>| #[trigger]
                self.patch_spec().contains_key(k) <==> exists|i: int|
                    0 <= i < patch.len() && (#[trigger] patch[i]).0@ == k,
            forall|i: int|
                0 <= i < patch.len() ==> self.patch_spec()[(#[trigger] patch[i]).0@] == patch[i].1,
            (patch.len() == 0) == self.is_empty(),
    {
        let mut patch: Vec<(&'static str, bool)> = Vec::new();
        assert(entries_view(patch@) =~= Seq::empty());
        push_entry(&mut patch, Setting::AutoMerge, self.auto_merge_allowed);
        push_entry(&mut patch, Setting::Issues, self.has_issues_enabled);
        push_entry(&mut patch, Setting::Projects, self.has_projects_enabled);
        push_entry(&mut patch, Setting::Wiki, self.has_wiki_enabled);
        push_entry(&mut patch, Setting::MergeCommit, self.merge_commit_allowed);
        push_entry(&mut patch, Setting::SquashMerge, self.squash_merge_allowed);
        push_entry(&mut patch, Setting::RebaseMerge, self.rebase_merge_allowed);
        proof {
            assert(entries_view(patch@) =~= self.patch_entries());
            self.lemma_patch_entries_model();
            assert forall|k: Seq<char>| #[trigger]
                self.patch_spec().contains_key(k) <==> exists|i: int|
                    0 <= i < patch.len() && (#[trigger] patch[i]).0@ == k by {
                if self.patch_spec().contains_key(k) {
                    let i = choose|i: int|
                        0 <= i < self.patch_entries().len() && (#[trigger] self.patch_entries()[i]).0
                            == k;
                    assert(entries_view(patch@)[i].0 == patch[i].0@);
                }
                if exists|i: int| 0 <= i < patch.len() && (#[trigger] patch[i]).0@ == k {
                    let i = choose|i: int| 0 <= i < patch.len() && (#[trigger] patch[i]).0@ == k;
                    assert(self.patch_entries()[i].0 == k);
                }
            }
            assert forall|i: int| 0 <= i < patch.len() implies self.patch_spec()[(
            #[trigger] patch[i]).0@] == patch[i].1 by {
                assert(self.patch_entries()[i] == (patch[i].0@, patch[i].1));
            }
        }
        patch
    }

    /// The list and the mapping describe the same patch: the list names each
    /// key of the mapping once, with the mapping's value, and nothing else.
    pub proof fn lemma_patch_entries_model(&self)
        ensures
            forall|k: Seq<char>| #[trigger]
                self.patch_spec().contains_key(k) <==> exists|i: int|
                    0 <= i < self.patch_entries().len() && (#[trigger] self.patch_entries()[i]).0
                        == k,
            forall|i: int|
                0 <= i < self.patch_entries().len() ==> self.patch_spec()[(
                #[trigger] self.patch_entries()[i]).0] == self.patch_entries()[i].1,
            forall|i: int, j: int|
                0 <= i < j < self.patch_entries().len() ==> (#[trigger] self.patch_entries()[i]).0 != (
                #[trigger] self.patch_entries()[j]).0,
            (self.patch_entries().len() == 0) == self.is_empty(),
    {
        lemma_api_names_distinct();
        let e = self.patch_entries();
        // Every entry names a held setting with its value.
        assert forall|i: int| 0 <= i < e.len() implies exists|s: Setting|
            (#[trigger] e[i]) == (s.api_name(), self.get(s)->0) && self.get(s) is Some
                && self.position(s) == i by {
            self.lemma_entry_at(i);
        }
        assert forall|s: Setting| (#[trigger] self.get(s)) is Some implies 0 <= self.position(s)
            < e.len() && e[self.position(s)] == (s.api_name(), self.get(s)->0) by {
            self.lemma_position(s);
        }
        assert forall|k: Seq<char>| #[trigger]
            self.patch_spec().contains_key(k) <==> exists|i: int|
                0 <= i < e.len() && (#[trigger] e[i]).0 == k by {
            if self.patch_spec().contains_key(k) {
                let s = choose|s: Setting| #[trigger] s.api_name() == k && self.get(s) is Some;
                assert(self.get(s) is Some);
                assert(e[self.position(s)].0 == k);
            }
            if exists|i: int| 0 <= i < e.len() && (#[trigger] e[i]).0 == k {
                let i = choose|i: int| 0 <= i < e.len() && (#[trigger] e[i]).0 == k;
                let s = choose|s: Setting|
                    (#[trigger] e[i]) == (s.api_name(), self.get(s)->0) && self.get(s) is Some
                        && self.position(s) == i;
                assert(s.api_name() == k && self.get(s) is Some);
            }
        }
        assert forall|i: int| 0 <= i < e.len() implies self.patch_spec()[(#[trigger] e[i]).0]
            == e[i].1 by {
            let s = choose|s: Setting|
                (#[trigger] e[i]) == (s.api_name(), self.get(s)->0) && self.get(s) is Some
                    && self.position(s) == i;
            let k = e[i].0;
            assert(s.api_name() == k && self.get(s) is Some);
            let t = choose|t: Setting| #[trigger] t.api_name() == k && self.get(t) is Some;
            assert(t == s);
        }
        assert forall|i: int, j: int| 0 <= i < j < e.len() implies (#[trigger] e[i]).0 != (
        #[trigger] e[j]).0 by {
            let s = choose|s: Setting|
                (#[trigger] e[i]) == (s.api_name(), self.get(s)->0) && self.get(s) is Some
                    && self.position(s) == i;
            let t = choose|t: Setting|
                (#[trigger] e[j]) == (t.api_name(), self.get(t)->0) && self.get(t) is Some
                    && self.position(t) == j;
            assert(s != t);
        }
        if e.len() == 0 {
            assert forall|s: Setting| (#[trigger] self.get(s)) is None by {
                if self.get(s) is Some {
                    self.lemma_position(s);
                }
            }
        } else {
            self.lemma_entry_at(0);
        }
    }

    /// How many entries a field contributes.
    spec fn width(&self, s: Setting) -> int {
        if self.get(s) is Some {
            1
        } else {
            0
        }
    }

    /// The index of a held setting's entry in the list.
    spec fn position(&self, s: Setting) -> int {
        let w0 = self.width(Setting::AutoMerge);
        let w1 = w0 + self.width(Setting::Issues);
        let w2 = w1 + self.width(Setting::Projects);
        let w3 = w2 + self.width(Setting::Wiki);
        let w4 = w3 + self.width(Setting::MergeCommit);
        let w5 = w4 + self.width(Setting::SquashMerge);
        match s {
            Setting::AutoMerge => 0,
            Setting::Issues => w0,
            Setting::Projects => w1,
            Setting::Wiki => w2,
            Setting::MergeCommit => w3,
            Setting::SquashMerge => w4,
            Setting::RebaseMerge => w5,
        }
    }

    proof fn lemma_position(&self, s: Setting)
        requires
            self.get(s) is Some,
        ensures
            0 <= self.position(s) < self.patch_entries().len(),
            self.patch_entries()[self.position(s)] == (s.api_name(), self.get(s)->0),
    {
    }

    proof fn lemma_entry_at(&self, i: int)
        requires
            0 <= i < self.patch_entries().len(),
        ensures
            exists|s: Setting|
                (#[trigger] self.patch_entries()[i]) == (s.api_name(), self.get(s)->0) && self.get(
                    s,
                ) is Some && self.position(s) == i,
    {
        let e = self.patch_entries();
        if self.get(Setting::AutoMerge) is Some && self.position(Setting::AutoMerge) == i {
            self.lemma_position(Setting::AutoMerge);
        } else if self.get(Setting::Issues) is Some && self.position(Setting::Issues) == i {
            self.lemma_position(Setting::Issues);
        } else if self.get(Setting::Projects) is Some && self.position(Setting::Projects) == i {
            self.lemma_position(Setting::Projects);
        } else if self.get(Setting::Wiki) is Some && self.position(Setting::Wiki) == i {
            self.lemma_position(Setting::Wiki);
        } else if self.get(Setting::MergeCommit) is Some && self.position(Setting::MergeCommit)
            == i {
            self.lemma_position(Setting::MergeCommit);
        } else if self.get(Setting::SquashMerge) is Some && self.position(Setting::SquashMerge)
            == i {
            self.lemma_position(Setting::SquashMerge);
        } else if self.get(Setting::RebaseMerge) is Some && self.position(Setting::RebaseMerge)
            == i {
            self.lemma_position(Setting::RebaseMerge);
        } else {
            assert(false);
        }
    }
}

/// No two settings share a name.
pub proof fn lemma_api_names_distinct()
    ensures
        forall|s: Setting, t: Setting| #[trigger] s.api_name() == #[trigger] t.api_name() ==> s == t,
{
    reveal_strlit("allow_auto_merge");
    reveal_strlit("has_issues");
    reveal_strlit("has_projects");
    reveal_strlit("has_wiki");
    reveal_strlit("allow_merge_commit");
    reveal_strlit("allow_squash_merge");
    reveal_strlit("allow_rebase_merge");
    assert("allow_merge_commit"@[6] == 'm');
    assert("allow_squash_merge"@[6] == 's');
    assert("allow_rebase_merge"@[6] == 'r');
    assert forall|s: Setting, t: Setting| #[trigger] s.api_name() == #[trigger] t.api_name() implies s
        == t by {
        if s != t {
            assert(s.api_name().len() != t.api_name().len() || s.api_name()[6] != t.api_name()[6]);
        }
    }
}

/// Where the snapshot already holds every desired value, nothing is left to
/// change: the comparison is empty and so is its patch.
pub proof fn lemma_agreeing_settings_give_empty_diff(desired: RepositorySettings, actual: Info)
    requires
        forall|s: Setting| (#[trigger] desired.get(s)) is Some ==> actual_setting(actual, s) == desired.get(s),
    ensures
        desired.diff_spec(&actual).is_empty(),
        desired.diff_spec(&actual).patch_entries().len() == 0,
        desired.diff_spec(&actual).patch_spec() == Map::<Seq<char>, bool>::empty(),
{
    let d = desired.diff_spec(&actual);
    assert forall|s: Setting| (#[trigger] d.get(s)) is None by {
        assert(d.get(s) == field_diff(desired.get(s), actual_setting(actual, s)));
    }
    d.lemma_patch_entries_model();
    assert(d.patch_spec() =~= Map::<Seq<char>, bool>::empty());
}

/// A setting that is not managed never shows up in the patch, whatever the
/// snapshot holds for it.
pub proof fn lemma_unmanaged_setting_not_patched(desired: RepositorySettings, actual: Info, s: Setting)
    requires
        desired.get(s) is None,
    ensures
        desired.diff_spec(&actual).get(s) is None,
        !desired.diff_spec(&actual).patch_spec().contains_key(s.api_name()),
        forall|i: int|
            0 <= i < desired.diff_spec(&actual).patch_entries().len() ==> (
            #[trigger] desired.diff_spec(&actual).patch_entries()[i]).0 != s.api_name(),
{
    let d = desired.diff_spec(&actual);
    lemma_api_names_distinct();
    d.lemma_patch_entries_model();
    assert(d.get(s) == field_diff(desired.get(s), actual_setting(actual, s)));
}

/// A setting for which the snapshot holds no value counts as satisfied: it is
/// left out of the comparison and of the patch.
pub proof fn lemma_unknown_setting_not_patched(desired: RepositorySettings, actual: Info, s: Setting)
    requires
        actual_setting(actual, s) is None,
    ensures
        desired.diff_spec(&actual).get(s) is None,
        !desired.diff_spec(&actual).patch_spec().contains_key(s.api_name()),
        forall|i: int|
            0 <= i < desired.diff_spec(&actual).patch_entries().len() ==> (
            #[trigger] desired.diff_spec(&actual).patch_entries()[i]).0 != s.api_name(),
{
    let d = desired.diff_spec(&actual);
    lemma_api_names_distinct();
    d.lemma_patch_entries_model();
    assert(d.get(s) == field_diff(desired.get(s), actual_setting(actual, s)));
}

/// Once the service has applied the computed changes, a second comparison
/// against the same desired settings finds nothing to change.
pub proof fn lemma_second_diff_is_empty(desired: RepositorySettings, actual: Info)
    ensures
        desired.diff_spec(&patched(actual, desired.diff_spec(&actual))).is_empty(),
{
    let first = desired.diff_spec(&actual);
    let after = patched(actual, first);
    let second = desired.diff_spec(&after);
    assert forall|s: Setting| (#[trigger] second.get(s)) is None by {
        assert(first.get(s) == field_diff(desired.get(s), actual_setting(actual, s)));
        assert(second.get(s) == field_diff(desired.get(s), actual_setting(after, s)));
    }
}

} // verus!
