//! The paths of the requests, relative to the API root, and what the status
//! of a reply means.

use vstd::prelude::*;
use vstd::string::StringExecFns;

verus! {

/// What the reply to a request for a branch's protection means.
#[derive(Debug, Clone, Copy, PartialEq, Eq, Structural)]
pub enum ProtectionReply {
    /// The branch has no protection.
    Absent,
    /// The body holds the branch's protection.
    Present,
    /// The request failed.
    Failed,
}

/// The path of a repository, given its full name.
pub fn repository_path(full_name: &str) -> (path: String)
    ensures
        path@ == "repos/"@ + full_name@,
{
    String::from_str("repos/").concat(full_name)
}

/// The path of a repository's topics, given its full name.
pub fn repository_topics_path(full_name: &str) -> (path: String)
    ensures
        path@ == "repos/"@ + full_name@ + "/topics"@,
{
    String::from_str("repos/").concat(full_name).concat("/topics")
}

/// The path of the listing of a user's repositories.
pub fn user_repositories_path(owner: &str) -> (path: String)
    ensures
        path@ == "users/"@ + owner@ + "/repos"@,
{
    String::from_str("users/").concat(owner).concat("/repos")
}

/// The path of the listing of an organization's repositories.
pub fn organization_repositories_path(owner: &str) -> (path: String)
    ensures
        path@ == "orgs/"@ + owner@ + "/repos"@,
{
    String::from_str("orgs/").concat(owner).concat("/repos")
}

/// The path of a repository, given its owner and its name.
pub fn repository_settings_path(owner: &str, name: &str) -> (path: String)
    ensures
        path@ == "repos/"@ + owner@ + "/"@ + name@,
{
    String::from_str("repos/").concat(owner).concat("/").concat(name)
}

/// The path of the protection of one branch of a repository.
pub fn branch_protection_path(owner: &str, name: &str, branch: &str) -> (path: String)
    ensures
        path@ == "repos/"@ + owner@ + "/"@ + name@ + "/branches/"@ + branch@ + "/protection"@,
{
    String::from_str("repos/").concat(owner).concat("/").concat(name).concat("/branches/").concat(
        branch,
    ).concat("/protection")
}

/// Reads the status of the reply to a request for a branch's protection:
/// 404 says that there is none, any other client or server error that the
/// request failed, and every other status that the body holds it.
pub fn protection_reply(status: u16) -> (reply: ProtectionReply)
    ensures
        reply == if status == 404 {
            ProtectionReply::Absent
        } else if 400 <= status <= 599 {
            ProtectionReply::Failed
        } else {
            ProtectionReply::Present
        },
{
    if status == 404 {
        ProtectionReply::Absent
    } else if 400 <= status && status <= 599 {
        ProtectionReply::Failed
    } else {
        ProtectionReply::Present
    }
}

/// Whether the reply to a replacement of the topics says that it was done:
/// only the status 200 does.
pub fn topics_update_accepted(status: u16) -> (accepted: bool)
    ensures
        accepted == (status == 200),
{
    status == 200
}

} // verus!
