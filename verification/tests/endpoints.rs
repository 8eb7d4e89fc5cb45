use repo_settings_sync::api::endpoints::{
    branch_protection_path, organization_repositories_path, protection_reply, repository_path,
    repository_settings_path, repository_topics_path, topics_update_accepted,
    user_repositories_path, ProtectionReply,
};

#[test]
fn request_paths() {
    assert_eq!(repository_path("octo/tool"), "repos/octo/tool");
    assert_eq!(repository_topics_path("octo/tool"), "repos/octo/tool/topics");
    assert_eq!(user_repositories_path("octo"), "users/octo/repos");
    assert_eq!(organization_repositories_path("acme"), "orgs/acme/repos");
    assert_eq!(repository_settings_path("octo", "tool"), "repos/octo/tool");
    assert_eq!(
        branch_protection_path("octo", "tool", "main"),
        "repos/octo/tool/branches/main/protection"
    );
}

#[test]
fn protection_reply_by_status() {
    assert_eq!(protection_reply(200), ProtectionReply::Present);
    assert_eq!(protection_reply(304), ProtectionReply::Present);
    assert_eq!(protection_reply(399), ProtectionReply::Present);
    assert_eq!(protection_reply(404), ProtectionReply::Absent);
    assert_eq!(protection_reply(400), ProtectionReply::Failed);
    assert_eq!(protection_reply(403), ProtectionReply::Failed);
    assert_eq!(protection_reply(500), ProtectionReply::Failed);
    assert_eq!(protection_reply(599), ProtectionReply::Failed);
    assert_eq!(protection_reply(600), ProtectionReply::Present);
}

#[test]
fn topics_update_needs_status_ok() {
    assert!(topics_update_accepted(200));
    assert!(!topics_update_accepted(201));
    assert!(!topics_update_accepted(204));
    assert!(!topics_update_accepted(404));
    assert!(!topics_update_accepted(422));
}
