//! Repository settings: the client that talks to the GitHub API, the live
//! state it reports, and the changes that bring the live state to the spec.
use vstd::prelude::*;

use crate::copies::{protection_value, ruleset_value, ProtectionValue, RulesetValue};
use crate::json::Json;
use crate::manifest::{BranchProtection, Ruleset};

pub mod apply;
pub mod compare;
pub mod matching;
pub mod parse;
pub mod print;

verus! {

/// Talks to the GitHub API for one repository's settings.  Implementations
/// reach the network (or stand in for it in tests); nothing is promised of
/// what they return.
pub trait GhRepoClient {
    /// The `owner/name` of the repository in the current directory.
    fn detect_repo(&self) -> anyhow::Result<String>;

    /// The repository's general settings.
    fn fetch_repo(&self, repo: &str) -> anyhow::Result<RepoApiData>;

    /// The repository's topics.
    fn fetch_topics(&self, repo: &str) -> anyhow::Result<Vec<String>>;

    /// The repository's labels.
    fn fetch_labels(&self, repo: &str) -> anyhow::Result<Vec<ApiLabel>>;

    /// The repository's GitHub Actions permissions.
    fn fetch_actions_permissions(&self, repo: &str) -> anyhow::Result<ActionsPermissionsApi>;

    /// The actions allowed when only selected actions may run.
    fn fetch_selected_actions(&self, repo: &str) -> anyhow::Result<SelectedActionsApi>;

    /// The default workflow token permissions.
    fn fetch_workflow_permissions(&self, repo: &str) -> anyhow::Result<WorkflowPermissionsApi>;

    /// The repository's rulesets (id and name).
    fn fetch_rulesets(&self, repo: &str) -> anyhow::Result<Vec<LiveRuleset>>;

    /// The full description of ruleset `id`.
    fn fetch_ruleset_details(&self, repo: &str, id: u64) -> anyhow::Result<Json>;

    /// The classic protection of `branch`; `None` when it has none.
    fn fetch_branch_protection(&self, repo: &str, branch: &str) -> anyhow::Result<
        Option<BranchProtectionApi>,
    >;

    /// The names of the protected branches.
    fn list_protected_branches(&self, repo: &str) -> anyhow::Result<Vec<String>>;

    /// Whether releases are immutable; `None` when the endpoint is not available.
    fn fetch_release_immutability(&self, repo: &str) -> anyhow::Result<Option<bool>>;

    /// Turn release immutability on or off.
    fn put_release_immutability(&self, repo: &str, enabled: bool) -> anyhow::Result<()>;

    /// The fork pull request approval policy; `None` when the endpoint is not
    /// available (user-owned or private repositories).
    fn fetch_fork_pr_approval(&self, repo: &str) -> anyhow::Result<Option<String>>;

    /// Set the fork pull request approval policy.
    fn put_fork_pr_approval(&self, repo: &str, policy: &str) -> anyhow::Result<()>;

    /// Update the repository's general settings with the members of `body`.
    fn patch_repo(&self, repo: &str, body: &Json) -> anyhow::Result<()>;

    /// Replace the repository's topics.
    fn put_topics(&self, repo: &str, topics: &[String]) -> anyhow::Result<()>;

    /// Create a label.
    fn create_label(
        &self,
        repo: &str,
        name: &str,
        color: &str,
        description: Option<&str>,
    ) -> anyhow::Result<()>;

    /// Update a label.
    fn update_label(
        &self,
        repo: &str,
        name: &str,
        color: &str,
        description: Option<&str>,
    ) -> anyhow::Result<()>;

    /// Delete a label.
    fn delete_label(&self, repo: &str, name: &str) -> anyhow::Result<()>;

    /// Set the GitHub Actions permissions.
    fn put_actions_permissions(&self, repo: &str, body: &Json) -> anyhow::Result<()>;

    /// Set the selected actions.
    fn put_selected_actions(&self, repo: &str, body: &Json) -> anyhow::Result<()>;

    /// Set the default workflow token permissions.
    fn put_workflow_permissions(&self, repo: &str, body: &Json) -> anyhow::Result<()>;

    /// Create a ruleset.
    fn create_ruleset(&self, repo: &str, body: &Json) -> anyhow::Result<()>;

    /// Update ruleset `id`.
    fn update_ruleset(&self, repo: &str, id: u64, body: &Json) -> anyhow::Result<()>;

    /// Delete ruleset `id`.
    fn delete_ruleset(&self, repo: &str, id: u64) -> anyhow::Result<()>;

    /// Set the classic protection of `branch`.
    fn put_branch_protection(&self, repo: &str, branch: &str, body: &Json) -> anyhow::Result<()>;

    /// Remove the classic protection of `branch`.
    fn delete_branch_protection(&self, repo: &str, branch: &str) -> anyhow::Result<()>;

    /// The id of a team of `org`.
    fn resolve_team_id(&self, org: &str, team_slug: &str) -> anyhow::Result<u64>;

    /// The id of a GitHub App.
    fn resolve_app_id(&self, app_slug: &str) -> anyhow::Result<u64>;

    /// The id of a custom repository role of `org`.
    fn resolve_org_custom_role_id(&self, org: &str, role_name: &str) -> anyhow::Result<u64>;
}

// ---------------------------------------------------------------------------
// API response types
// ---------------------------------------------------------------------------

/// The repository's general settings as the API reports them.
#[derive(Debug, Clone)]
pub struct RepoApiData {
    pub description: Option<String>,
    pub homepage: Option<String>,
    pub visibility: String,
    pub archived: bool,
    pub has_issues: bool,
    pub has_projects: bool,
    pub has_wiki: bool,
    pub has_discussions: bool,
    pub delete_branch_on_merge: bool,
    pub allow_merge_commit: bool,
    pub allow_squash_merge: bool,
    pub allow_rebase_merge: bool,
    pub allow_auto_merge: bool,
    pub allow_update_branch: bool,
    pub web_commit_signoff_required: bool,
    pub squash_merge_commit_title: Option<String>,
    pub squash_merge_commit_message: Option<String>,
    pub merge_commit_title: Option<String>,
    pub merge_commit_message: Option<String>,
}

/// A label as the API reports it.
#[derive(Debug, Clone, PartialEq, Eq)]
pub struct ApiLabel {
    pub name: String,
    pub color: String,
    pub description: Option<String>,
}

/// The GitHub Actions permissions as the API reports them.
#[derive(Debug, Clone)]
pub struct ActionsPermissionsApi {
    pub enabled: bool,
    pub allowed_actions: Option<String>,
    pub sha_pinning_required: Option<bool>,
}

/// The selected actions as the API reports them.
#[derive(Debug, Clone)]
pub struct SelectedActionsApi {
    pub github_owned_allowed: Option<bool>,
    pub patterns_allowed: Option<Vec<String>>,
}

/// The default workflow token permissions as the API reports them.
#[derive(Debug, Clone)]
pub struct WorkflowPermissionsApi {
    pub default_workflow_permissions: Option<String>,
    pub can_approve_pull_request_reviews: bool,
}

/// A ruleset in the API's list: its id and name.
#[derive(Debug, Clone)]
pub struct LiveRuleset {
    pub id: u64,
    pub name: String,
}

/// The classic protection of a branch as the API reports it.
#[derive(Debug, Clone)]
pub struct BranchProtectionApi {
    pub required_reviews: Option<u32>,
    pub dismiss_stale_reviews: bool,
    pub require_code_owner_reviews: bool,
    pub strict_status_checks: bool,
    pub status_check_contexts: Vec<String>,
    pub enforce_admins: bool,
    pub allow_force_pushes: bool,
    pub allow_deletions: bool,
}

// ---------------------------------------------------------------------------
// Change descriptors
// ---------------------------------------------------------------------------

/// One difference between the spec and the live repository, or one setting
/// found in agreement.
#[derive(Debug)]
pub enum SpecChange {
    FieldChanged { field: String, old: String, new: String },
    FieldOk { field: String, value: String },
    LabelAdd { name: String, color: String, description: Option<String> },
    LabelUpdate {
        name: String,
        old_color: String,
        old_description: Option<String>,
        new_color: String,
        new_description: Option<String>,
    },
    LabelDelete { name: String },
    LabelOk { name: String },
    RulesetAdd { name: String, spec: Box<Ruleset> },
    RulesetUpdate {
        id: u64,
        name: String,
        spec: Box<Ruleset>,
        /// Live ruleset JSON from the API; `None` when the detail fetch failed.
        live: Option<Box<Json>>,
    },
    RulesetOk { id: u64, name: String },
    RulesetDelete { id: u64, name: String },
    BranchProtectionAdd { spec: Box<BranchProtection> },
    BranchProtectionUpdate { spec: Box<BranchProtection> },
    BranchProtectionRemove { pattern: String },
    BranchProtectionOk { pattern: String },
}

/// An optional string taken by value.
pub open spec fn opt_view(o: Option<String>) -> Option<Seq<char>> {
    match o {
        Some(s) => Some(s@),
        None => None,
    }
}

/// A change taken by value.  A ruleset or branch protection that is to be
/// sent is kept by value too, and a ruleset update keeps the live details
/// that came with it.
pub enum ChangeView {
    FieldChanged(Seq<char>, Seq<char>, Seq<char>),
    FieldOk(Seq<char>, Seq<char>),
    LabelAdd(Seq<char>, Seq<char>, Option<Seq<char>>),
    LabelUpdate(Seq<char>, Seq<char>, Option<Seq<char>>, Seq<char>, Option<Seq<char>>),
    LabelDelete(Seq<char>),
    LabelOk(Seq<char>),
    RulesetAdd(Seq<char>, RulesetValue),
    RulesetUpdate(u64, Seq<char>, RulesetValue, Option<Json>),
    RulesetOk(u64, Seq<char>),
    RulesetDelete(u64, Seq<char>),
    BranchProtectionAdd(ProtectionValue),
    BranchProtectionUpdate(ProtectionValue),
    BranchProtectionRemove(Seq<char>),
    BranchProtectionOk(Seq<char>),
}

/// The live details of a ruleset update taken by value.
pub open spec fn live_view(o: Option<Box<Json>>) -> Option<Json> {
    match o {
        Some(b) => Some(*b),
        None => None,
    }
}

impl View for SpecChange {
    type V = ChangeView;

    open spec fn view(&self) -> ChangeView {
        match self {
            SpecChange::FieldChanged { field, old, new } => ChangeView::FieldChanged(
                field@,
                old@,
                new@,
            ),
            SpecChange::FieldOk { field, value } => ChangeView::FieldOk(field@, value@),
            SpecChange::LabelAdd { name, color, description } => ChangeView::LabelAdd(
                name@,
                color@,
                opt_view(*description),
            ),
            SpecChange::LabelUpdate {
                name,
                old_color,
                old_description,
                new_color,
                new_description,
            } => ChangeView::LabelUpdate(
                name@,
                old_color@,
                opt_view(*old_description),
                new_color@,
                opt_view(*new_description),
            ),
            SpecChange::LabelDelete { name } => ChangeView::LabelDelete(name@),
            SpecChange::LabelOk { name } => ChangeView::LabelOk(name@),
            SpecChange::RulesetAdd { name, spec } => ChangeView::RulesetAdd(
                name@,
                ruleset_value(**spec),
            ),
            SpecChange::RulesetUpdate { id, name, spec, live } => ChangeView::RulesetUpdate(
                *id,
                name@,
                ruleset_value(**spec),
                live_view(*live),
            ),
            SpecChange::RulesetOk { id, name } => ChangeView::RulesetOk(*id, name@),
            SpecChange::RulesetDelete { id, name } => ChangeView::RulesetDelete(*id, name@),
            SpecChange::BranchProtectionAdd { spec } => ChangeView::BranchProtectionAdd(
                protection_value(**spec),
            ),
            SpecChange::BranchProtectionUpdate { spec } => ChangeView::BranchProtectionUpdate(
                protection_value(**spec),
            ),
            SpecChange::BranchProtectionRemove { pattern } => ChangeView::BranchProtectionRemove(
                pattern@,
            ),
            SpecChange::BranchProtectionOk { pattern } => ChangeView::BranchProtectionOk(
                pattern@,
            ),
        }
    }
}

/// Changes taken by value.
pub open spec fn changes_view(v: Seq<SpecChange>) -> Seq<ChangeView> {
    v.map_values(|c: SpecChange| c@)
}

/// Append a change to a list.
pub fn push_change(changes: &mut Vec<SpecChange>, c: SpecChange)
    ensures
        changes_view(final(changes)@) == changes_view(old(changes)@).push(c@),
{
    let ghost before = changes@;
    changes.push(c);
    assert(changes_view(changes@) =~= changes_view(before).push(c@));
}

} // verus!
