use repo_settings_sync::branch_protection_rules::{
    BranchProtectionOperation, BranchProtectionRule, RuleError,
};
use repo_settings_sync::config::{default_github_api_root, Config};
use repo_settings_sync::reconcile::BranchProtectionPlan;
use repo_settings_sync::models::{
    BranchProtection, BranchProtectionUpdate, BranchProtectionUpdateRequiredPullRequestReviews,
    BranchProtectionUpdateRequiredStatusCheck, BranchProtectionUpdateRequiredStatusChecks,
    GitHubApp, IncomingUsersTeamsOrApps, Info, ListOfUserTeamsOrApps,
    ProtectedBranchPullRequestReview, ProtectedBranchRequiredStatusCheck,
    ProtectedBranchRequiredStatusCheckChecksItem, Repository, RepositoryOwner, SimpleUser, Team,
    Topics,
};

fn repository(default_branch: &str) -> Repository {
    Repository {
        info: Info {
            name: "tool".to_string(),
            full_name: "octo/tool".to_string(),
            owner: RepositoryOwner { login: "octo".to_string(), owner_type: "User".to_string() },
            default_branch: default_branch.to_string(),
            archived: false,
            disabled: false,
            visibility: None,
            allow_rebase_merge: None,
            allow_merge_commit: None,
            allow_squash_merge: None,
            delete_branch_on_merge: None,
            has_issues: None,
            has_projects: None,
            has_downloads: None,
            has_wiki: None,
            allow_auto_merge: None,
        },
        topics: Topics { names: vec![] },
    }
}

fn rule(pattern: &str, operation: BranchProtectionOperation) -> BranchProtectionRule {
    BranchProtectionRule {
        branch_name_pattern: pattern.to_string(),
        operation,
        is_admin_enforced: None,
        allow_deletions: None,
        requires_status_checks: None,
        requires_strict_status_checks: None,
    }
}

fn user(login: &str) -> SimpleUser {
    SimpleUser {
        avatar_url: String::new(),
        email: None,
        events_url: String::new(),
        followers_url: String::new(),
        following_url: String::new(),
        gists_url: String::new(),
        gravatar_id: None,
        html_url: String::new(),
        id: 1,
        login: login.to_string(),
        name: None,
        node_id: String::new(),
        organizations_url: String::new(),
        received_events_url: String::new(),
        repos_url: String::new(),
        site_admin: false,
        starred_at: None,
        starred_url: String::new(),
        subscriptions_url: String::new(),
        type_: "User".to_string(),
        url: String::new(),
    }
}

fn team(slug: &str) -> Team {
    Team {
        description: None,
        html_url: String::new(),
        id: 2,
        members_url: String::new(),
        name: slug.to_uppercase(),
        node_id: String::new(),
        notification_setting: None,
        parent: None,
        permission: "push".to_string(),
        permissions: None,
        privacy: None,
        repositories_url: String::new(),
        slug: slug.to_string(),
        url: String::new(),
    }
}

fn app(slug: Option<&str>) -> GitHubApp {
    GitHubApp {
        created_at: "2020-01-01T00:00:00Z".to_string(),
        description: None,
        events: vec![],
        id: 3,
        installations_count: None,
        name: "An App".to_string(),
        node_id: String::new(),
        owner: None,
        pem: None,
        slug: slug.map(|s| s.to_string()),
        updated_at: "2020-01-02T00:00:00Z".to_string(),
        webhook_secret: None,
    }
}

#[test]
fn test_branch_protection_update_all_enabled() {
    let branch_protection_update = BranchProtectionUpdate::from(
        &(BranchProtection {
            allow_deletions: None,
            allow_force_pushes: None,
            allow_fork_syncing: None,
            block_creations: None,
            enabled: None,
            enforce_admins: Some(true),
            lock_branch: None,
            name: None,
            required_conversation_resolution: None,
            required_linear_history: None,
            required_pull_request_reviews: None,
            required_signatures: None,
            required_status_checks: Some(ProtectedBranchRequiredStatusCheck {
                checks: vec![
                    ProtectedBranchRequiredStatusCheckChecksItem {
                        app_id: Some(15368),
                        context: "build (ubuntu)".to_string(),
                    },
                    ProtectedBranchRequiredStatusCheckChecksItem {
                        app_id: None,
                        context: "build (windows)".to_string(),
                    },
                ],
                contexts: vec![],
                contexts_url: None,
                enforcement_level: None,
                strict: Some(true),
                url: None,
            }),
            restrictions: None,
        }),
    );
    let expected_branch_protection_update = BranchProtectionUpdate {
        required_status_checks: Some(BranchProtectionUpdateRequiredStatusChecks {
            strict: true,
            checks: vec![
                BranchProtectionUpdateRequiredStatusCheck {
                    app_id: Some(15368),
                    context: "build (ubuntu)".to_string(),
                },
                BranchProtectionUpdateRequiredStatusCheck {
                    app_id: None,
                    context: "build (windows)".to_string(),
                },
            ],
        }),
        enforce_admins: Some(true),
        required_pull_request_reviews: None,
        restrictions: None,
        required_linear_history: None,
        allow_force_pushes: None,
        allow_deletions: None,
        block_creations: None,
        required_conversation_resolution: None,
        lock_branch: None,
        allow_fork_syncing: None,
    };

    assert_eq!(branch_protection_update, expected_branch_protection_update);
}

#[test]
fn test_branch_protection_update_all_disabled() {
    let branch_protection_update = BranchProtectionUpdate::from(
        &(BranchProtection {
            allow_deletions: None,
            allow_force_pushes: None,
            allow_fork_syncing: None,
            block_creations: None,
            enabled: None,
            enforce_admins: Some(false),
            lock_branch: None,
            name: None,
            required_conversation_resolution: None,
            required_linear_history: None,
            required_pull_request_reviews: None,
            required_signatures: None,
            required_status_checks: None,
            restrictions: None,
        }),
    );
    let expected_branch_protection_update = BranchProtectionUpdate {
        required_status_checks: None,
        enforce_admins: Some(false),
        required_pull_request_reviews: None,
        restrictions: None,
        required_linear_history: None,
        allow_force_pushes: None,
        allow_deletions: None,
        block_creations: None,
        required_conversation_resolution: None,
        lock_branch: None,
        allow_fork_syncing: None,
    };

    assert_eq!(branch_protection_update, expected_branch_protection_update);
}

#[test]
fn update_from_default_protection_is_the_default_update() {
    let actual = BranchProtectionUpdate::from(&BranchProtection::default());
    assert_eq!(actual, BranchProtectionUpdate::default());
}

#[test]
fn update_does_not_take_over_allow_deletions() {
    let input = BranchProtection { allow_deletions: Some(true), ..Default::default() };
    let actual = BranchProtectionUpdate::from(&input);
    assert_eq!(actual, BranchProtectionUpdate { allow_deletions: None, ..Default::default() });
}

#[test]
fn status_check_is_taken_over() {
    let check = ProtectedBranchRequiredStatusCheckChecksItem {
        app_id: Some(7),
        context: "lint".to_string(),
    };
    assert_eq!(
        BranchProtectionUpdateRequiredStatusCheck::from(&check),
        BranchProtectionUpdateRequiredStatusCheck { context: "lint".to_string(), app_id: Some(7) }
    );
}

#[test]
fn unreported_strictness_counts_as_off() {
    let input = BranchProtection {
        required_status_checks: Some(ProtectedBranchRequiredStatusCheck {
            checks: vec![],
            contexts: vec!["ci".to_string()],
            contexts_url: None,
            enforcement_level: None,
            strict: None,
            url: None,
        }),
        ..Default::default()
    };
    assert_eq!(
        BranchProtectionUpdate::from(&input).required_status_checks,
        Some(BranchProtectionUpdateRequiredStatusChecks { strict: false, checks: vec![] })
    );
}

#[test]
fn review_requirements_are_restated() {
    let input = BranchProtection {
        required_pull_request_reviews: Some(ProtectedBranchPullRequestReview {
            bypass_pull_request_allowances: None,
            dismiss_stale_reviews: true,
            dismissal_restrictions: Some(IncomingUsersTeamsOrApps {
                apps: vec![app(Some("bot")), app(None), app(Some("ci"))],
                teams: vec![team("core")],
                users: vec![user("ann"), user("bob")],
            }),
            require_code_owner_reviews: true,
            require_last_push_approval: false,
            required_approving_review_count: None,
        }),
        ..Default::default()
    };
    let none = ListOfUserTeamsOrApps { users: vec![], teams: vec![], apps: vec![] };
    assert_eq!(
        BranchProtectionUpdate::from(&input).required_pull_request_reviews,
        Some(BranchProtectionUpdateRequiredPullRequestReviews {
            dismissal_restrictions: ListOfUserTeamsOrApps {
                users: vec!["ann".to_string(), "bob".to_string()],
                teams: vec!["core".to_string()],
                apps: vec!["bot".to_string(), "ci".to_string()],
            },
            strict: false,
            dismiss_stale_reviews: true,
            require_codeowner_reviews: true,
            required_approving_review_count: 0,
            require_last_push_approval: false,
            bypass_pull_request_allowances: none,
        })
    );
}

#[test]
fn default_branch_pattern_resolves_to_the_default_branch() {
    let repo = repository("main");
    let r = rule("$default_branch", BranchProtectionOperation::MustExist);
    assert_eq!(r.parsed_branch_name_pattern(&repo), "main");
}

#[test]
fn literal_pattern_is_returned_unchanged() {
    let repo = repository("main");
    let r = rule("release/*", BranchProtectionOperation::MustExist);
    assert_eq!(r.parsed_branch_name_pattern(&repo), "release/*");
    let r = rule("$default_branch ", BranchProtectionOperation::MustExist);
    assert_eq!(r.parsed_branch_name_pattern(&repo), "$default_branch ");
}

#[test]
fn optional_rule_without_protection_gives_no_update() {
    let mut r = rule("master", BranchProtectionOperation::MayExist);
    r.is_admin_enforced = Some(true);
    assert_eq!(r.diff(&None), None);
}

#[test]
fn required_rule_without_protection_starts_from_nothing() {
    let mut r = rule("master", BranchProtectionOperation::MustExist);
    r.is_admin_enforced = Some(true);
    r.allow_deletions = Some(false);
    assert_eq!(
        r.diff(&None),
        Some(BranchProtectionUpdate {
            enforce_admins: Some(true),
            allow_deletions: Some(false),
            ..Default::default()
        })
    );
}

#[test]
fn rule_overwrites_only_what_it_sets() {
    let actual = BranchProtection {
        enforce_admins: Some(false),
        allow_deletions: Some(true),
        required_status_checks: Some(ProtectedBranchRequiredStatusCheck {
            checks: vec![ProtectedBranchRequiredStatusCheckChecksItem {
                app_id: None,
                context: "ci".to_string(),
            }],
            contexts: vec![],
            contexts_url: None,
            enforcement_level: None,
            strict: Some(true),
            url: None,
        }),
        ..Default::default()
    };
    let checks = Some(BranchProtectionUpdateRequiredStatusChecks {
        strict: true,
        checks: vec![BranchProtectionUpdateRequiredStatusCheck {
            context: "ci".to_string(),
            app_id: None,
        }],
    });

    let r = rule("main", BranchProtectionOperation::MayExist);
    assert_eq!(
        r.diff(&Some(actual.clone())),
        Some(BranchProtectionUpdate {
            enforce_admins: Some(false),
            required_status_checks: checks.clone(),
            ..Default::default()
        })
    );

    let mut r = rule("main", BranchProtectionOperation::MayExist);
    r.is_admin_enforced = Some(true);
    assert_eq!(
        r.diff(&Some(actual.clone())),
        Some(BranchProtectionUpdate {
            enforce_admins: Some(true),
            required_status_checks: checks.clone(),
            ..Default::default()
        })
    );

    let mut r = rule("main", BranchProtectionOperation::MustExist);
    r.allow_deletions = Some(false);
    assert_eq!(
        r.diff(&Some(actual)),
        Some(BranchProtectionUpdate {
            enforce_admins: Some(false),
            allow_deletions: Some(false),
            required_status_checks: checks,
            ..Default::default()
        })
    );
}

#[test]
fn rule_sets_status_checks() {
    let actual = BranchProtection {
        required_status_checks: Some(ProtectedBranchRequiredStatusCheck {
            checks: vec![ProtectedBranchRequiredStatusCheckChecksItem {
                app_id: Some(5),
                context: "ci".to_string(),
            }],
            contexts: vec![],
            contexts_url: None,
            enforcement_level: None,
            strict: Some(true),
            url: None,
        }),
        ..Default::default()
    };

    let mut r = rule("main", BranchProtectionOperation::MustExist);
    r.requires_status_checks = Some(true);
    r.requires_strict_status_checks = Some(false);
    assert_eq!(
        r.diff(&Some(actual.clone())).unwrap().required_status_checks,
        Some(BranchProtectionUpdateRequiredStatusChecks {
            strict: false,
            checks: vec![BranchProtectionUpdateRequiredStatusCheck {
                context: "ci".to_string(),
                app_id: Some(5),
            }],
        })
    );
    assert_eq!(
        r.diff(&None).unwrap().required_status_checks,
        Some(BranchProtectionUpdateRequiredStatusChecks { strict: false, checks: vec![] })
    );

    r.requires_status_checks = Some(false);
    assert_eq!(r.diff(&Some(actual)).unwrap().required_status_checks, None);
}

#[test]
fn paired_fields_are_validated() {
    let mut r = rule("main", BranchProtectionOperation::MustExist);
    assert_eq!(r.validate(), Ok(()));
    r.requires_status_checks = Some(true);
    assert_eq!(r.validate(), Err(RuleError { pattern: "main".to_string() }));
    r.requires_strict_status_checks = Some(false);
    assert_eq!(r.validate(), Ok(()));
    r.requires_status_checks = None;
    assert_eq!(r.validate(), Err(RuleError { pattern: "main".to_string() }));
}

#[test]
fn rule_error_message_names_the_pattern() {
    assert_eq!(
        RuleError { pattern: "release/*".to_string() }.message(),
        "branch protection rule for 'release/*' must set requires_status_checks and \
         requires_strict_status_checks together"
    );
}

#[test]
fn config_is_rejected_at_its_first_invalid_rule() {
    let good = rule("main", BranchProtectionOperation::MustExist);
    let mut bad_one = rule("dev", BranchProtectionOperation::MayExist);
    bad_one.requires_strict_status_checks = Some(true);
    let mut bad_two = rule("old", BranchProtectionOperation::MayExist);
    bad_two.requires_status_checks = Some(true);
    let mut config = Config {
        github_api_root: default_github_api_root(),
        settings: None,
        branch_protections: None,
        topics: None,
    };
    assert_eq!(config.validate(), Ok(()));
    config.branch_protections = Some(vec![good.clone(), good.clone()]);
    assert_eq!(config.validate(), Ok(()));
    config.branch_protections = Some(vec![good, bad_one, bad_two]);
    assert_eq!(config.validate(), Err(RuleError { pattern: "dev".to_string() }));
}

#[test]
fn default_api_root() {
    assert_eq!(default_github_api_root(), "https://api.github.com");
}

#[test]
fn branch_protection_plans() {
    let repo = repository("main");
    let mut r = rule("$default_branch", BranchProtectionOperation::MayExist);
    r.is_admin_enforced = Some(true);
    assert_eq!(repo.check_branch_protection_rule(&r, &None, false), BranchProtectionPlan::Leave);
    assert_eq!(repo.check_branch_protection_rule(&r, &None, true), BranchProtectionPlan::Leave);

    let actual = Some(BranchProtection { enforce_admins: Some(false), ..Default::default() });
    let update = BranchProtectionUpdate { enforce_admins: Some(true), ..Default::default() };
    assert_eq!(
        repo.check_branch_protection_rule(&r, &actual, false),
        BranchProtectionPlan::Update { branch: "main".to_string(), update: update.clone() }
    );
    assert_eq!(
        repo.check_branch_protection_rule(&r, &actual, true),
        BranchProtectionPlan::Report { branch: "main".to_string(), update: update.clone() }
    );

    // A protection that already agrees is written again all the same.
    let agreeing = Some(BranchProtection { enforce_admins: Some(true), ..Default::default() });
    assert_eq!(
        repo.check_branch_protection_rule(&r, &agreeing, false),
        BranchProtectionPlan::Update { branch: "main".to_string(), update }
    );

    let mut r = rule("release", BranchProtectionOperation::MustExist);
    r.allow_deletions = Some(false);
    assert_eq!(
        repo.check_branch_protection_rule(&r, &None, false),
        BranchProtectionPlan::Update {
            branch: "release".to_string(),
            update: BranchProtectionUpdate { allow_deletions: Some(false), ..Default::default() },
        }
    );
}
