use repo_settings_sync::models::{Info, RepositoryOwner};
use repo_settings_sync::repository_settings::{RepositorySettings, Setting};

fn info() -> Info {
    Info {
        name: "tool".to_string(),
        full_name: "octo/tool".to_string(),
        owner: RepositoryOwner { login: "octo".to_string(), owner_type: "User".to_string() },
        default_branch: "main".to_string(),
        archived: false,
        disabled: false,
        visibility: Some("public".to_string()),
        allow_rebase_merge: Some(true),
        allow_merge_commit: Some(true),
        allow_squash_merge: Some(true),
        delete_branch_on_merge: Some(false),
        has_issues: Some(true),
        has_projects: Some(true),
        has_downloads: Some(true),
        has_wiki: Some(true),
        allow_auto_merge: Some(false),
    }
}

fn unmanaged() -> RepositorySettings {
    RepositorySettings {
        auto_merge_allowed: None,
        has_issues_enabled: None,
        has_projects_enabled: None,
        has_wiki_enabled: None,
        merge_commit_allowed: None,
        squash_merge_allowed: None,
        rebase_merge_allowed: None,
    }
}

#[test]
fn unmanaged_settings_give_an_empty_diff() {
    let diff = unmanaged().diff(&info());
    assert_eq!(diff, unmanaged());
    assert!(diff.empty());
    assert!(diff.dump_patch().is_empty());
}

#[test]
fn agreeing_settings_give_an_empty_diff() {
    let desired = RepositorySettings {
        auto_merge_allowed: Some(false),
        has_issues_enabled: Some(true),
        has_projects_enabled: Some(true),
        has_wiki_enabled: Some(true),
        merge_commit_allowed: Some(true),
        squash_merge_allowed: Some(true),
        rebase_merge_allowed: Some(true),
    };
    let diff = desired.diff(&info());
    assert!(diff.empty());
    assert_eq!(diff.dump_patch(), Vec::<(&'static str, bool)>::new());
}

#[test]
fn differing_settings_carry_the_desired_value() {
    let desired = RepositorySettings {
        auto_merge_allowed: Some(true),
        has_wiki_enabled: Some(false),
        squash_merge_allowed: Some(true),
        ..unmanaged()
    };
    let diff = desired.diff(&info());
    assert_eq!(
        diff,
        RepositorySettings {
            auto_merge_allowed: Some(true),
            has_wiki_enabled: Some(false),
            ..unmanaged()
        }
    );
    assert!(!diff.empty());
    assert_eq!(diff.dump_patch(), vec![("allow_auto_merge", true), ("has_wiki", false)]);
}

#[test]
fn unset_desired_field_is_never_patched() {
    let mut actual = info();
    actual.has_issues = Some(false);
    let desired = RepositorySettings { has_projects_enabled: Some(false), ..unmanaged() };
    let patch = desired.diff(&actual).dump_patch();
    assert_eq!(patch, vec![("has_projects", false)]);
    assert!(patch.iter().all(|entry| entry.0 != "has_issues"));
}

#[test]
fn missing_actual_field_is_not_a_difference() {
    let mut actual = info();
    actual.allow_merge_commit = None;
    let desired = RepositorySettings { merge_commit_allowed: Some(false), ..unmanaged() };
    let diff = desired.diff(&actual);
    assert_eq!(diff.merge_commit_allowed, None);
    assert!(diff.empty());
    assert!(diff.dump_patch().is_empty());
}

#[test]
fn patch_uses_the_service_names_in_declaration_order() {
    let all = RepositorySettings {
        auto_merge_allowed: Some(true),
        has_issues_enabled: Some(false),
        has_projects_enabled: Some(true),
        has_wiki_enabled: Some(false),
        merge_commit_allowed: Some(true),
        squash_merge_allowed: Some(false),
        rebase_merge_allowed: Some(true),
    };
    assert_eq!(
        all.dump_patch(),
        vec![
            ("allow_auto_merge", true),
            ("has_issues", false),
            ("has_projects", true),
            ("has_wiki", false),
            ("allow_merge_commit", true),
            ("allow_squash_merge", false),
            ("allow_rebase_merge", true),
        ]
    );
}

#[test]
fn setting_names() {
    assert_eq!(Setting::AutoMerge.name(), "allow_auto_merge");
    assert_eq!(Setting::Issues.name(), "has_issues");
    assert_eq!(Setting::Projects.name(), "has_projects");
    assert_eq!(Setting::Wiki.name(), "has_wiki");
    assert_eq!(Setting::MergeCommit.name(), "allow_merge_commit");
    assert_eq!(Setting::SquashMerge.name(), "allow_squash_merge");
    assert_eq!(Setting::RebaseMerge.name(), "allow_rebase_merge");
}

#[test]
fn second_diff_after_patching_is_empty() {
    let desired = RepositorySettings {
        auto_merge_allowed: Some(true),
        has_issues_enabled: Some(false),
        rebase_merge_allowed: Some(true),
        ..unmanaged()
    };
    let mut actual = info();
    let first = desired.diff(&actual);
    assert_eq!(first.dump_patch(), vec![("allow_auto_merge", true), ("has_issues", false)]);
    actual.allow_auto_merge = first.auto_merge_allowed.or(actual.allow_auto_merge);
    actual.has_issues = first.has_issues_enabled.or(actual.has_issues);
    let second = desired.diff(&actual);
    assert!(second.empty());
}
