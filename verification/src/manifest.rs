//! Manifest schema types and validation.
use std::path::Path;

use vstd::prelude::*;

use crate::error::{at_rule, errors_view, top, ErrorView, SyncError, ValidationError};
use crate::external::{join_path, path_exists};
use crate::text::{
    chars_of, contains, contains_exec, decimal, ends_with, ends_with_exec, has_char, starts_with,
    starts_with_exec, text_eq,
};

verus! {

// ---------------------------------------------------------------------------
// Schema types
// ---------------------------------------------------------------------------

/// Top-level manifest structure.
#[derive(Debug)]
pub struct Manifest {
    /// Upstream template repository configuration.
    pub upstream: Upstream,
    /// Repository settings (optional).
    pub spec: Option<Spec>,
    /// Synchronisation file rules (must be non-empty).
    pub files: Vec<Rule>,
}

/// Repository settings block.
#[derive(Debug)]
pub struct Spec {
    /// Short description of the repository.
    pub description: Option<String>,
    /// Repository homepage URL.
    pub homepage: Option<String>,
    /// Repository visibility: `public`, `private`, or `internal`.
    pub visibility: Option<String>,
    /// Whether the repository is archived.
    pub archived: Option<bool>,
    /// Topic tags for the repository (full list, not additive).
    pub topics: Option<Vec<String>>,
    /// Optional repository feature toggles.
    pub features: Option<Features>,
    /// Require contributors to sign off on web-based commits.
    pub web_commit_signoff_required: Option<bool>,
    /// Merge strategy settings.
    pub merge_strategy: Option<MergeStrategy>,
    /// Lock releases after publishing.
    pub release_immutability: Option<bool>,
    /// Label sync mode: `additive` (default) or `mirror`.
    pub label_sync: Option<String>,
    /// Managed labels list.
    pub labels: Option<Vec<Label>>,
    /// GitHub Actions settings.
    pub actions: Option<Actions>,
    /// Repository rulesets (prefer over `branch_protection`).
    pub rulesets: Option<Vec<Ruleset>>,
    /// Classic branch protection rules.
    pub branch_protection: Option<Vec<BranchProtection>>,
}

/// Repository feature toggles.
#[derive(Debug)]
pub struct Features {
    /// Enable or disable the Issues tab.
    pub issues: Option<bool>,
    /// Enable or disable the Projects tab.
    pub projects: Option<bool>,
    /// Enable or disable the Wiki tab.
    pub wiki: Option<bool>,
    /// Enable or disable the Discussions tab.
    pub discussions: Option<bool>,
}

/// Merge strategy settings.
#[derive(Debug)]
pub struct MergeStrategy {
    /// Allow merge commits (creates a merge commit).
    pub allow_merge_commit: Option<bool>,
    /// Allow squash merging (combines all commits into one).
    pub allow_squash_merge: Option<bool>,
    /// Allow rebase merging (replays commits onto the base branch).
    pub allow_rebase_merge: Option<bool>,
    /// Allow auto-merge to automatically merge when all checks pass.
    pub allow_auto_merge: Option<bool>,
    /// Allow contributors to update pull request branches.
    pub allow_update_branch: Option<bool>,
    /// Automatically delete head branches after a pull request is merged.
    pub auto_delete_head_branches: Option<bool>,
    /// Title format for merge commits: `PR_TITLE` or `MERGE_MESSAGE`.
    pub merge_commit_title: Option<String>,
    /// Body format for merge commits: `PR_BODY`, `PR_TITLE`, or `BLANK`.
    pub merge_commit_message: Option<String>,
    /// Title format for squash commits: `PR_TITLE` or `COMMIT_OR_PR_TITLE`.
    pub squash_merge_commit_title: Option<String>,
    /// Body format for squash commits: `PR_BODY`, `COMMIT_MESSAGES`, or `BLANK`.
    pub squash_merge_commit_message: Option<String>,
}

/// A managed repository label.
#[derive(Debug)]
pub struct Label {
    /// Label name (must be unique).
    pub name: String,
    /// Hex colour without `#`.
    pub color: String,
    /// Optional human-readable description.
    pub description: Option<String>,
}

/// GitHub Actions settings.
#[derive(Debug)]
pub struct Actions {
    /// Must be set when any other `actions.*` field is present.
    pub enabled: Option<bool>,
    /// `all`, `local_only`, or `selected`.
    pub allowed_actions: Option<String>,
    /// Require full SHA pinning for external actions.
    pub sha_pinning_required: Option<bool>,
    /// Default token permissions: `read` or `write`.
    pub workflow_permissions: Option<String>,
    /// Allow workflows to approve pull requests.
    pub can_approve_pull_requests: Option<bool>,
    /// Allowed action patterns (requires `allowed_actions: selected`).
    pub selected_actions: Option<SelectedActions>,
    /// Fork PR approval policy.
    pub fork_pr_approval: Option<String>,
}

/// Allowed action patterns for `allowed_actions: selected`.
#[derive(Debug)]
pub struct SelectedActions {
    /// Allow actions created by GitHub (e.g. `actions/*`).
    pub github_owned_allowed: Option<bool>,
    /// Glob patterns for externally-authored actions that are permitted.
    pub patterns_allowed: Option<Vec<String>>,
}

/// A repository ruleset.
#[derive(Debug, Clone)]
pub struct Ruleset {
    /// Unique ruleset name.
    pub name: String,
    /// `branch` or `tag`.
    pub target: Option<String>,
    /// `active`, `disabled`, or `evaluate`.
    pub enforcement: Option<String>,
    /// Actors that may bypass this ruleset.
    pub bypass_actors: Option<Vec<BypassActor>>,
    /// Ref name conditions for this ruleset.
    pub conditions: Option<RulesetConditions>,
    /// Rules to enforce.
    pub rules: Option<RulesetRules>,
}

/// A bypass actor for a ruleset.
///
/// Exactly one of `role`, `team`, `app`, `org_admin`, or `custom_role` must be set.
#[derive(Debug, Clone)]
pub struct BypassActor {
    /// Built-in role name: `admin`, `maintain`, `write`, `triage`, or `read`.
    pub role: Option<String>,
    /// GitHub team slug (without the `@org/` prefix).
    pub team: Option<String>,
    /// GitHub App slug that may bypass the ruleset.
    pub app: Option<String>,
    /// Grant bypass to all organisation admins when `true`.
    pub org_admin: Option<bool>,
    /// Custom repository role name that may bypass the ruleset.
    pub custom_role: Option<String>,
    /// `always`, `pull_request`, or `exempt`.
    pub bypass_mode: Option<String>,
}

/// Conditions for a ruleset.
#[derive(Debug, Clone)]
pub struct RulesetConditions {
    /// Ref name include/exclude filter applied to the ruleset.
    pub ref_name: Option<RefNameCondition>,
}

/// `fnmatch`-style ref name include/exclude patterns.
#[derive(Debug, Clone)]
pub struct RefNameCondition {
    /// Patterns that must match for the ruleset to apply.
    pub includes: Option<Vec<String>>,
    /// Patterns that, when matched, exempt the ref from the ruleset.
    pub exclude: Option<Vec<String>>,
}

/// Rules within a ruleset.
#[derive(Debug, Clone)]
pub struct RulesetRules {
    /// Block force pushes.
    pub non_fast_forward: Option<bool>,
    /// Block ref deletion.
    pub deletion: Option<bool>,
    /// Block ref creation.
    pub creation: Option<bool>,
    /// Require linear commit history.
    pub required_linear_history: Option<bool>,
    /// Require signed commits.
    pub required_signatures: Option<bool>,
    /// Pull request review requirements.
    pub pull_request: Option<PullRequestRule>,
    /// Required status checks.
    pub required_status_checks: Option<RequiredStatusChecks>,
}

/// Pull request review rule.
#[derive(Debug, Clone)]
pub struct PullRequestRule {
    /// Minimum number of approving reviews required before merging.
    pub required_approving_review_count: Option<u32>,
    /// Dismiss approved reviews when new commits are pushed.
    pub dismiss_stale_reviews_on_push: Option<bool>,
    /// Require review from a code owner.
    pub require_code_owner_review: Option<bool>,
    /// Require approval of the most recent push.
    pub require_last_push_approval: Option<bool>,
    /// Require all review threads to be resolved before merging.
    pub required_review_thread_resolution: Option<bool>,
    /// Allowed merge methods: `squash`, `merge`, `rebase`.
    pub allowed_merge_methods: Option<Vec<String>>,
}

/// Required status checks rule.
#[derive(Debug, Clone)]
pub struct RequiredStatusChecks {
    /// Require branches to be up-to-date before merging.
    pub strict_required_status_checks_policy: Option<bool>,
    /// Status check contexts that must pass before merging.
    pub contexts: Option<Vec<StatusCheckContext>>,
}

/// A single status check context.
#[derive(Debug, Clone)]
pub struct StatusCheckContext {
    /// Check name as it appears in the GitHub UI (e.g. `"ci / test"`).
    pub context: String,
    /// App slug resolved to an `integration_id` at apply-time; defaults to
    /// `"github-actions"`.  Mutually exclusive with `integration_id`.
    pub app: Option<String>,
    /// Pass an `integration_id` directly without API resolution.
    pub integration_id: Option<u64>,
}

/// Classic branch protection rule.
#[derive(Debug, Clone)]
pub struct BranchProtection {
    /// Branch name pattern (must be unique).
    pub pattern: String,
    /// Number of required approving reviews before merging.
    pub required_reviews: Option<u32>,
    /// Dismiss pull request approvals when new commits are pushed.
    pub dismiss_stale_reviews: Option<bool>,
    /// Require review from a designated code owner.
    pub require_code_owner_reviews: Option<bool>,
    /// Required status checks that must pass before merging.
    pub require_status_checks: Option<BranchProtectionStatusChecks>,
    /// Enforce all configured restrictions for administrators.
    pub enforce_admins: Option<bool>,
    /// Permit force pushes to this branch.
    pub allow_force_pushes: Option<bool>,
    /// Permit deletion of this branch.
    pub allow_deletions: Option<bool>,
}

/// Status check settings for classic branch protection.
#[derive(Debug, Clone)]
pub struct BranchProtectionStatusChecks {
    /// Require branches to be up-to-date with the base branch before merging.
    pub strict: Option<bool>,
    /// Status check context names that must pass.
    pub contexts: Option<Vec<String>>,
}

/// Upstream repository reference.
#[derive(Debug)]
pub struct Upstream {
    /// `owner/name` format GitHub repository.
    pub repo: String,
    /// Git ref (branch, tag, or commit SHA). Defaults to `"main"`.
    pub ref_: String,
}

/// The git ref used when a manifest names none.
pub fn default_ref() -> (s: String)
    ensures
        s@ == "main"@,
{
    String::from_str("main")
}

/// A single synchronisation rule.
#[derive(Debug)]
pub struct Rule {
    /// Destination path in the downstream repository (relative, no leading `/`).
    pub path: String,
    /// Synchronisation strategy.
    pub strategy: Strategy,
    /// Override for the upstream source path (`replace`/`create_only` only).
    pub source: Option<String>,
    /// Explicit patch file path (`patch` strategy only; defaults to convention).
    pub patch: Option<String>,
    /// When `true`, lines enclosed by keep markers are excluded from drift
    /// detection and preserved on write-back (`patch` or `replace` only).
    pub preserve_markers: Option<bool>,
}

/// Synchronisation strategy for a rule.
#[derive(Debug, Clone, Copy, PartialEq, Eq, Structural)]
pub enum Strategy {
    /// Overwrite local file with upstream content unconditionally.
    Replace,
    /// Create the file only if it does not yet exist locally.
    CreateOnly,
    /// Delete the local file if it exists.
    Delete,
    /// Apply a unified diff patch on top of the upstream file.
    Patch,
    /// Exclude this path from sync entirely (cancels an upstream rule for the
    /// same path in a local overlay).
    Ignore,
}

/// The manifest name of a strategy.
pub open spec fn strategy_name(s: Strategy) -> Seq<char> {
    match s {
        Strategy::Replace => "replace"@,
        Strategy::CreateOnly => "create_only"@,
        Strategy::Delete => "delete"@,
        Strategy::Patch => "patch"@,
        Strategy::Ignore => "ignore"@,
    }
}

impl Strategy {
    /// The manifest name of the strategy (`replace`, `create_only`, ...).
    pub fn to_string(&self) -> (s: String)
        ensures
            s@ == strategy_name(*self),
    {
        match self {
            Strategy::Replace => String::from_str("replace"),
            Strategy::CreateOnly => String::from_str("create_only"),
            Strategy::Delete => String::from_str("delete"),
            Strategy::Patch => String::from_str("patch"),
            Strategy::Ignore => String::from_str("ignore"),
        }
    }
}

// ---------------------------------------------------------------------------
// Paths and repository names
// ---------------------------------------------------------------------------

/// The patch file path of a `patch` rule: the explicit one, else
/// `.github/graft/patches/<path>.patch`.
pub open spec fn patch_path_spec(rule: Rule) -> Seq<char> {
    match rule.patch {
        Some(p) => p@,
        None => ".github/graft/patches/"@ + rule.path@ + ".patch"@,
    }
}

/// Return the resolved patch file path for a `patch` strategy rule.
///
/// Uses `rule.patch` when specified, otherwise falls back to the convention:
/// `.github/graft/patches/<path>.patch`.
pub fn resolve_patch_path(rule: &Rule) -> (s: String)
    ensures
        s@ == patch_path_spec(*rule),
{
    match &rule.patch {
        Some(p) => String::from_str(p.as_str()),
        None => {
            let mut s = String::from_str(".github/graft/patches/");
            s.append(rule.path.as_str());
            s.append(".patch");
            s
        },
    }
}

/// A character allowed in a repository owner or name.
pub open spec fn repo_char_ok(c: char) -> bool {
    ('a' <= c <= 'z') || ('A' <= c <= 'Z') || ('0' <= c <= '9') || c == '.' || c == '_' || c == '-'
}

/// A non-empty owner or name made of allowed characters.
pub open spec fn repo_segment_ok(s: Seq<char>) -> bool {
    s.len() > 0 && forall|i: int| 0 <= i < s.len() ==> repo_char_ok(#[trigger] s[i])
}

/// `repo` is `owner/name`: a single `/` between two valid segments.
pub open spec fn repo_ok(s: Seq<char>) -> bool {
    exists|k: int|
        0 <= k < s.len() && s[k] == '/' && repo_segment_ok(#[trigger] s.take(k)) && repo_segment_ok(
            s.skip(k + 1),
        )
}

fn is_repo_char(c: char) -> (r: bool)
    ensures
        r == repo_char_ok(c),
{
    ('a' <= c && c <= 'z') || ('A' <= c && c <= 'Z') || ('0' <= c && c <= '9') || c == '.' || c
        == '_' || c == '-'
}

/// Whether `s[from..to]` is a valid repository segment.
fn is_valid_repo_segment(s: &Vec<char>, from: usize, to: usize) -> (r: bool)
    requires
        from <= to <= s.len(),
    ensures
        r == repo_segment_ok(s@.subrange(from as int, to as int)),
{
    if from == to {
        return false;
    }
    let mut i = from;
    while i < to
        invariant
            from <= i <= to <= s.len(),
            forall|j: int| from <= j < i ==> repo_char_ok(s@[j]),
        decreases to - i,
    {
        if !is_repo_char(s[i]) {
            assert(s@.subrange(from as int, to as int)[i - from] == s@[i as int]);
            return false;
        }
        i = i + 1;
    }
    assert forall|j: int| 0 <= j < to - from implies repo_char_ok(
        #[trigger] s@.subrange(from as int, to as int)[j],
    ) by {
        assert(s@.subrange(from as int, to as int)[j] == s@[from + j]);
    }
    true
}

/// Return `true` when `repo` matches the `owner/name` pattern.
///
/// Both segments allow ASCII alphanumerics plus `.`, `_`, and `-`.
/// Neither segment may be empty.
pub fn is_valid_repo(repo: &str) -> (r: bool)
    ensures
        r == repo_ok(repo@),
{
    let s = chars_of(repo);
    let n = s.len();
    let mut k: usize = 0;
    while k < n && s[k] != '/'
        invariant
            k <= n == s.len(),
            forall|j: int| 0 <= j < k ==> s@[j] != '/',
        decreases n - k,
    {
        k = k + 1;
    }
    if k == n {
        proof {
            assert forall|q: int| 0 <= q < s@.len() && s@[q] == '/' implies false by {}
        }
        return false;
    }
    let owner_ok = is_valid_repo_segment(&s, 0, k);
    let name_ok = is_valid_repo_segment(&s, k + 1, n);
    proof {
        assert(s@.subrange(0, k as int) =~= s@.take(k as int));
        assert(s@.subrange(k + 1, n as int) =~= s@.skip(k + 1));
        assert forall|q: int|
            0 <= q < s@.len() && s@[q] == '/' && repo_segment_ok(#[trigger] s@.take(q))
                && repo_segment_ok(s@.skip(q + 1)) implies q == k by {
            if q < k {
                assert(false);
            } else if q > k {
                assert(s@.take(q)[k as int] == '/');
                assert(!repo_char_ok(s@.take(q)[k as int]));
            }
        }
    }
    owner_ok && name_ok
}

/// A `..` segment of `s` starts at `i`.
pub open spec fn dotdot_at(s: Seq<char>, i: int) -> bool {
    0 <= i && i + 2 <= s.len() && s[i] == '.' && s[i + 1] == '.' && (i == 0 || s[i - 1] == '/')
        && (i + 2 == s.len() || s[i + 2] == '/')
}

/// `..` is one of the `/`-separated segments of `s`.
pub open spec fn has_dotdot_segment(s: Seq<char>) -> bool {
    exists|i: int| dotdot_at(s, i)
}

fn has_dotdot_exec(s: &Vec<char>) -> (r: bool)
    ensures
        r == has_dotdot_segment(s@),
{
    let n = s.len();
    if n < 2 {
        return false;
    }
    let mut i: usize = 0;
    while i < n - 1
        invariant
            2 <= n == s.len(),
            i + 1 <= n,
            forall|k: int| 0 <= k < i ==> !dotdot_at(s@, k),
        decreases n - i,
    {
        if s[i] == '.' && s[i + 1] == '.' && (i == 0 || s[i - 1] == '/') && (i + 2 == n || s[i
            + 2] == '/') {
            assert(dotdot_at(s@, i as int));
            return true;
        }
        i = i + 1;
    }
    assert forall|k: int| !dotdot_at(s@, k) by {
        if dotdot_at(s@, k) {
            assert(k < i);
        }
    }
    false
}

/// The message for an invalid path, or none when the path is valid.
pub open spec fn path_problem(p: Seq<char>) -> Option<Seq<char>> {
    let quoted = "'"@ + p + "'"@;
    if p.len() == 0 {
        Some("must not be empty"@)
    } else if starts_with(p, "/"@) {
        Some("must be relative (no leading '/'): "@ + quoted)
    } else if starts_with(p, "./"@) {
        Some("must not start with './' : "@ + quoted)
    } else if ends_with(p, "/"@) {
        Some("must not end with '/' : "@ + quoted)
    } else if contains(p, "//"@) {
        Some("must not contain '//' : "@ + quoted)
    } else if p.contains('\\') {
        Some("must not contain '\\' (use '/' instead): "@ + quoted)
    } else if has_dotdot_segment(p) {
        Some("must not contain '..' segments: "@ + quoted)
    } else {
        None
    }
}

fn quoted_message(prefix: &str, path: &str) -> (s: String)
    ensures
        s@ == prefix@ + ("'"@ + path@ + "'"@),
{
    let mut s = String::from_str(prefix);
    s.append("'");
    s.append(path);
    s.append("'");
    s
}

/// Return an error message if `path` violates the path constraints, or `None`
/// if the path is valid.
pub fn validate_path(path: &str) -> (r: Option<String>)
    ensures
        match r {
            Some(m) => path_problem(path@) == Some(m@),
            None => path_problem(path@) is None,
        },
{
    let s = chars_of(path);
    if s.len() == 0 {
        return Some(String::from_str("must not be empty"));
    }
    if starts_with_exec(&s, "/") {
        return Some(quoted_message("must be relative (no leading '/'): ", path));
    }
    if starts_with_exec(&s, "./") {
        return Some(quoted_message("must not start with './' : ", path));
    }
    if ends_with_exec(&s, "/") {
        return Some(quoted_message("must not end with '/' : ", path));
    }
    if contains_exec(&s, "//") {
        return Some(quoted_message("must not contain '//' : ", path));
    }
    if has_char(&s, '\\') {
        return Some(quoted_message("must not contain '\\' (use '/' instead): ", path));
    }
    if has_dotdot_exec(&s) {
        return Some(quoted_message("must not contain '..' segments: ", path));
    }
    None
}

// ---------------------------------------------------------------------------
// Schema validation: building blocks
// ---------------------------------------------------------------------------

/// Strings taken by value.
pub open spec fn strs_view(v: Seq<&str>) -> Seq<Seq<char>> {
    v.map_values(|s: &str| s@)
}

/// The error for a value outside the allowed set, or none.
pub open spec fn one_of_error(
    field: Seq<char>,
    value: Option<String>,
    allowed: Seq<Seq<char>>,
    allowed_text: Seq<char>,
) -> Seq<ErrorView> {
    match value {
        Some(v) => if allowed.contains(v@) {
            Seq::empty()
        } else {
            seq![top(field, "must be one of "@ + allowed_text + "; got '"@ + v@ + "'"@)]
        },
        None => Seq::empty(),
    }
}

/// Push `e` onto `errors`.
fn push_error(errors: &mut Vec<ValidationError>, e: ValidationError)
    ensures
        errors_view(final(errors)@) == errors_view(old(errors)@).push(e@),
{
    let ghost before = errors@;
    errors.push(e);
    assert(errors_view(errors@) =~= errors_view(before).push(e@));
}

/// Whether `value` is one of `allowed`.
fn is_one_of(value: &str, allowed: &[&str]) -> (r: bool)
    ensures
        r == strs_view(allowed@).contains(value@),
{
    let mut i: usize = 0;
    while i < allowed.len()
        invariant
            i <= allowed.len(),
            forall|j: int| 0 <= j < i ==> allowed@[j]@ != value@,
        decreases allowed.len() - i,
    {
        if text_eq(value, allowed[i]) {
            assert(strs_view(allowed@)[i as int] == value@);
            return true;
        }
        i = i + 1;
    }
    assert forall|j: int| 0 <= j < strs_view(allowed@).len() implies strs_view(allowed@)[j]
        != value@ by {
        assert(strs_view(allowed@)[j] == allowed@[j]@);
    }
    false
}

/// Record an error when `value` is set and not one of `allowed`.
fn check_one_of(
    errors: &mut Vec<ValidationError>,
    field: &str,
    value: &Option<String>,
    allowed: &[&str],
    allowed_text: &str,
)
    ensures
        errors_view(final(errors)@) == errors_view(old(errors)@) + one_of_error(
            field@,
            *value,
            strs_view(allowed@),
            allowed_text@,
        ),
{
    match value {
        Some(v) => {
            if !is_one_of(v.as_str(), allowed) {
                let mut m = String::from_str("must be one of ");
                m.append(allowed_text);
                m.append("; got '");
                m.append(v.as_str());
                m.append("'");
                push_error(errors, ValidationError::top_level(field, m.as_str()));
            } else {
                assert(errors_view(errors@) =~= errors_view(errors@) + Seq::<ErrorView>::empty());
            }
        },
        None => {
            assert(errors_view(errors@) =~= errors_view(errors@) + Seq::<ErrorView>::empty());
        },
    }
}

/// A one-error list when `cond` holds, else nothing.
pub open spec fn error_if(cond: bool, e: ErrorView) -> Seq<ErrorView> {
    if cond {
        seq![e]
    } else {
        Seq::empty()
    }
}

// ---------------------------------------------------------------------------
// Schema validation: rules
// ---------------------------------------------------------------------------

/// The error for a path field of rule `i`, or none.
pub open spec fn path_field_error(i: usize, field: Seq<char>, p: Seq<char>) -> Seq<ErrorView> {
    match path_problem(p) {
        Some(m) => seq![at_rule(i, field, m)],
        None => Seq::empty(),
    }
}

/// An earlier rule has the same path as rule `i`.
pub open spec fn duplicate_before(rules: Seq<Rule>, i: int) -> bool {
    exists|j: int| 0 <= j < i && #[trigger] rules[j].path@ == rules[i].path@
}

/// Errors for fields that the rule's strategy does not allow.
pub open spec fn strategy_field_errors(i: usize, r: Rule) -> Seq<ErrorView> {
    match r.strategy {
        Strategy::Delete => error_if(
            r.source is Some,
            at_rule(i, "source"@, "field not allowed for strategy 'delete'"@),
        ) + error_if(r.patch is Some, at_rule(i, "patch"@, "field not allowed for strategy 'delete'"@)),
        Strategy::Patch => error_if(
            r.source is Some,
            at_rule(
                i,
                "source"@,
                "field not allowed for strategy 'patch' (source and path must be identical)"@,
            ),
        ),
        Strategy::Replace => error_if(
            r.patch is Some,
            at_rule(i, "patch"@, "field not allowed for strategy 'replace'"@),
        ),
        Strategy::CreateOnly => error_if(
            r.patch is Some,
            at_rule(i, "patch"@, "field not allowed for strategy 'create_only'"@),
        ),
        Strategy::Ignore => error_if(
            r.source is Some,
            at_rule(i, "source"@, "field not allowed for strategy 'ignore'"@),
        ) + error_if(r.patch is Some, at_rule(i, "patch"@, "field not allowed for strategy 'ignore'"@)),
    }
}

/// The error for a path that an earlier rule already has.
pub open spec fn duplicate_error(rules: Seq<Rule>, i: int) -> Seq<ErrorView> {
    error_if(
        duplicate_before(rules, i),
        at_rule(i as usize, "path"@, "duplicate path '"@ + rules[i].path@ + "'"@),
    )
}

/// The error for an invalid source path, when there is a source.
pub open spec fn source_error(i: usize, r: Rule) -> Seq<ErrorView> {
    match r.source {
        Some(src) => path_field_error(i, "source"@, src@),
        None => Seq::empty(),
    }
}

/// The error for `preserve_markers` on a strategy other than `patch` and
/// `replace`.
pub open spec fn preserve_error(i: usize, r: Rule) -> Seq<ErrorView> {
    error_if(
        !(r.strategy == Strategy::Patch || r.strategy == Strategy::Replace)
            && r.preserve_markers is Some,
        at_rule(i, "preserve_markers"@, "field only allowed for strategy 'patch' or 'replace'"@),
    )
}

/// The errors of rule `i`, in order: its path, a duplicate path, its source,
/// fields its strategy does not allow, and `preserve_markers` outside the
/// `patch` and `replace` strategies.
pub open spec fn rule_errors(rules: Seq<Rule>, i: int) -> Seq<ErrorView> {
    path_field_error(i as usize, "path"@, rules[i].path@) + duplicate_error(rules, i)
        + source_error(i as usize, rules[i]) + strategy_field_errors(i as usize, rules[i])
        + preserve_error(i as usize, rules[i])
}

/// The errors of the first `n` rules.
pub open spec fn rules_errors(rules: Seq<Rule>, n: nat) -> Seq<ErrorView>
    decreases n,
{
    if n == 0 {
        Seq::empty()
    } else {
        rules_errors(rules, (n - 1) as nat) + rule_errors(rules, n - 1)
    }
}

fn check_path_field(errors: &mut Vec<ValidationError>, i: usize, field: &str, p: &str)
    ensures
        errors_view(final(errors)@) == errors_view(old(errors)@) + path_field_error(i, field@, p@),
{
    match validate_path(p) {
        Some(m) => push_error(errors, ValidationError::rule(i, field, m.as_str())),
        None => {
            assert(errors_view(errors@) =~= errors_view(errors@) + Seq::<ErrorView>::empty());
        },
    }
}

fn push_error_if(errors: &mut Vec<ValidationError>, cond: bool, i: usize, field: &str, msg: &str)
    ensures
        errors_view(final(errors)@) == errors_view(old(errors)@) + error_if(
            cond,
            at_rule(i, field@, msg@),
        ),
{
    if cond {
        push_error(errors, ValidationError::rule(i, field, msg));
    } else {
        assert(errors_view(errors@) =~= errors_view(errors@) + Seq::<ErrorView>::empty());
    }
}

fn has_duplicate_before(rules: &Vec<Rule>, i: usize) -> (dup: bool)
    requires
        i < rules.len(),
    ensures
        dup == duplicate_before(rules@, i as int),
{
    let mut dup = false;
    let mut j: usize = 0;
    while j < i
        invariant
            j <= i < rules.len(),
            dup == exists|k: int| 0 <= k < j && #[trigger] rules@[k].path@ == rules@[i as int].path@,
        decreases i - j,
    {
        if text_eq(rules[j].path.as_str(), rules[i].path.as_str()) {
            dup = true;
        }
        j = j + 1;
    }
    dup
}

fn check_strategy_fields(errors: &mut Vec<ValidationError>, i: usize, rule: &Rule)
    ensures
        errors_view(final(errors)@) == errors_view(old(errors)@) + strategy_field_errors(i, *rule),
{
    let ghost e0 = errors_view(errors@);
    match rule.strategy {
        Strategy::Delete => {
            push_error_if(
                errors,
                rule.source.is_some(),
                i,
                "source",
                "field not allowed for strategy 'delete'",
            );
            push_error_if(
                errors,
                rule.patch.is_some(),
                i,
                "patch",
                "field not allowed for strategy 'delete'",
            );
        },
        Strategy::Patch => {
            push_error_if(
                errors,
                rule.source.is_some(),
                i,
                "source",
                "field not allowed for strategy 'patch' (source and path must be identical)",
            );
        },
        Strategy::Replace => {
            push_error_if(
                errors,
                rule.patch.is_some(),
                i,
                "patch",
                "field not allowed for strategy 'replace'",
            );
        },
        Strategy::CreateOnly => {
            push_error_if(
                errors,
                rule.patch.is_some(),
                i,
                "patch",
                "field not allowed for strategy 'create_only'",
            );
        },
        Strategy::Ignore => {
            push_error_if(
                errors,
                rule.source.is_some(),
                i,
                "source",
                "field not allowed for strategy 'ignore'",
            );
            push_error_if(
                errors,
                rule.patch.is_some(),
                i,
                "patch",
                "field not allowed for strategy 'ignore'",
            );
        },
    }
    assert(errors_view(errors@) =~= e0 + strategy_field_errors(i, *rule));
}

fn check_duplicate(errors: &mut Vec<ValidationError>, rules: &Vec<Rule>, i: usize)
    requires
        i < rules.len(),
    ensures
        errors_view(final(errors)@) == errors_view(old(errors)@) + duplicate_error(rules@, i as int),
{
    let ghost e0 = errors_view(errors@);
    if has_duplicate_before(rules, i) {
        let mut m = String::from_str("duplicate path '");
        m.append(rules[i].path.as_str());
        m.append("'");
        push_error(errors, ValidationError::rule(i, "path", m.as_str()));
    }
    assert(errors_view(errors@) =~= e0 + duplicate_error(rules@, i as int));
}

fn check_source(errors: &mut Vec<ValidationError>, i: usize, rule: &Rule)
    ensures
        errors_view(final(errors)@) == errors_view(old(errors)@) + source_error(i, *rule),
{
    let ghost e0 = errors_view(errors@);
    match &rule.source {
        Some(src) => check_path_field(errors, i, "source", src.as_str()),
        None => {},
    }
    assert(errors_view(errors@) =~= e0 + source_error(i, *rule));
}

fn check_preserve(errors: &mut Vec<ValidationError>, i: usize, rule: &Rule)
    ensures
        errors_view(final(errors)@) == errors_view(old(errors)@) + preserve_error(i, *rule),
{
    let not_allowed = !(rule.strategy == Strategy::Patch || rule.strategy == Strategy::Replace);
    push_error_if(
        errors,
        not_allowed && rule.preserve_markers.is_some(),
        i,
        "preserve_markers",
        "field only allowed for strategy 'patch' or 'replace'",
    );
}

#[verifier::spinoff_prover]
fn check_rule(errors: &mut Vec<ValidationError>, rules: &Vec<Rule>, i: usize)
    requires
        i < rules.len(),
    ensures
        errors_view(final(errors)@) == errors_view(old(errors)@) + rule_errors(rules@, i as int),
{
    let ghost e0 = errors_view(errors@);
    let rule = &rules[i];
    check_path_field(errors, i, "path", rule.path.as_str());
    check_duplicate(errors, rules, i);
    check_source(errors, i, rule);
    check_strategy_fields(errors, i, rule);
    check_preserve(errors, i, rule);
    assert(errors_view(errors@) =~= e0 + rule_errors(rules@, i as int));
}

// ---------------------------------------------------------------------------
// Schema validation: the `spec` block
// ---------------------------------------------------------------------------

/// Errors of the merge strategy's enumerated fields.
pub open spec fn merge_strategy_errors(ms: MergeStrategy) -> Seq<ErrorView> {
    one_of_error(
        "spec.merge_strategy.merge_commit_title"@,
        ms.merge_commit_title,
        seq!["PR_TITLE"@, "MERGE_MESSAGE"@],
        "'PR_TITLE', 'MERGE_MESSAGE'"@,
    ) + one_of_error(
        "spec.merge_strategy.merge_commit_message"@,
        ms.merge_commit_message,
        seq!["PR_BODY"@, "PR_TITLE"@, "BLANK"@],
        "'PR_BODY', 'PR_TITLE', 'BLANK'"@,
    ) + one_of_error(
        "spec.merge_strategy.squash_merge_commit_title"@,
        ms.squash_merge_commit_title,
        seq!["PR_TITLE"@, "COMMIT_OR_PR_TITLE"@],
        "'PR_TITLE', 'COMMIT_OR_PR_TITLE'"@,
    ) + one_of_error(
        "spec.merge_strategy.squash_merge_commit_message"@,
        ms.squash_merge_commit_message,
        seq!["PR_BODY"@, "COMMIT_MESSAGES"@, "BLANK"@],
        "'PR_BODY', 'COMMIT_MESSAGES', 'BLANK'"@,
    )
}

fn validate_merge_strategy(ms: &MergeStrategy, errors: &mut Vec<ValidationError>)
    ensures
        errors_view(final(errors)@) == errors_view(old(errors)@) + merge_strategy_errors(*ms),
{
    let ghost e0 = errors_view(errors@);
    let a1 = ["PR_TITLE", "MERGE_MESSAGE"];
    assert(strs_view(a1@) =~= seq!["PR_TITLE"@, "MERGE_MESSAGE"@]);
    check_one_of(
        errors,
        "spec.merge_strategy.merge_commit_title",
        &ms.merge_commit_title,
        &a1,
        "'PR_TITLE', 'MERGE_MESSAGE'",
    );
    let a2 = ["PR_BODY", "PR_TITLE", "BLANK"];
    assert(strs_view(a2@) =~= seq!["PR_BODY"@, "PR_TITLE"@, "BLANK"@]);
    check_one_of(
        errors,
        "spec.merge_strategy.merge_commit_message",
        &ms.merge_commit_message,
        &a2,
        "'PR_BODY', 'PR_TITLE', 'BLANK'",
    );
    let a3 = ["PR_TITLE", "COMMIT_OR_PR_TITLE"];
    assert(strs_view(a3@) =~= seq!["PR_TITLE"@, "COMMIT_OR_PR_TITLE"@]);
    check_one_of(
        errors,
        "spec.merge_strategy.squash_merge_commit_title",
        &ms.squash_merge_commit_title,
        &a3,
        "'PR_TITLE', 'COMMIT_OR_PR_TITLE'",
    );
    let a4 = ["PR_BODY", "COMMIT_MESSAGES", "BLANK"];
    assert(strs_view(a4@) =~= seq!["PR_BODY"@, "COMMIT_MESSAGES"@, "BLANK"@]);
    check_one_of(
        errors,
        "spec.merge_strategy.squash_merge_commit_message",
        &ms.squash_merge_commit_message,
        &a4,
        "'PR_BODY', 'COMMIT_MESSAGES', 'BLANK'",
    );
    assert(errors_view(errors@) =~= e0 + merge_strategy_errors(*ms));
}

/// Index of the first `c` in `s`, or the length of `s` when there is none.
pub open spec fn first_index_of(s: Seq<char>, c: char) -> int
    decreases s.len(),
{
    if s.len() == 0 {
        0
    } else if s[0] == c {
        0
    } else {
        1 + first_index_of(s.drop_first(), c)
    }
}

/// The owner part of an action pattern: the text before the first `/`.
pub open spec fn pattern_owner(p: Seq<char>) -> Seq<char> {
    p.take(first_index_of(p, '/'))
}

/// Some character of `s` is an uppercase letter.
pub open spec fn has_uppercase(s: Seq<char>) -> bool {
    exists|i: int| 0 <= i < s.len() && crate::external::unicode_uppercase(#[trigger] s[i])
}

/// The field name of pattern `i`.
pub open spec fn pattern_field(i: int) -> Seq<char> {
    "spec.actions.selected_actions.patterns_allowed["@ + decimal(i as nat) + "]"@
}

/// The errors of one allowed-action pattern: an owner with uppercase letters
/// (GitHub lowercases action refs, so it would never match), then a missing
/// `@` ref specifier.
pub open spec fn pattern_errors(i: int, p: Seq<char>) -> Seq<ErrorView> {
    let owner = pattern_owner(p);
    error_if(
        has_uppercase(owner),
        top(
            pattern_field(i),
            "owner '"@ + owner
                + "' contains uppercase letters; GitHub normalises action refs to lowercase so this pattern will never match — use all-lowercase (e.g. '"@
                + crate::external::unicode_lowercase(p) + "')"@,
        ),
    ) + error_if(
        !p.contains('@'),
        top(
            pattern_field(i),
            "pattern '"@ + p
                + "' has no ref specifier; it will not match SHA-pinned or tagged actions — use '"@
                + p + "@*' to allow any ref"@,
        ),
    )
}

/// The errors of the first `n` patterns.
pub open spec fn patterns_errors(ps: Seq<Seq<char>>, n: nat) -> Seq<ErrorView>
    decreases n,
{
    if n == 0 {
        Seq::empty()
    } else {
        patterns_errors(ps, (n - 1) as nat) + pattern_errors(n - 1, ps[n - 1])
    }
}

/// `first_index_of` finds the first occurrence of `c`, or the length when
/// there is none.
pub proof fn lemma_first_index_of(s: Seq<char>, c: char, k: int)
    requires
        0 <= k <= s.len(),
        forall|j: int| 0 <= j < k ==> s[j] != c,
        k == s.len() || s[k] == c,
    ensures
        first_index_of(s, c) == k,
    decreases s.len(),
{
    if s.len() > 0 && k > 0 {
        lemma_first_index_of(s.drop_first(), c, k - 1);
    }
}

fn pattern_field_name(i: usize) -> (s: String)
    ensures
        s@ == pattern_field(i as int),
{
    let mut s = String::from_str("spec.actions.selected_actions.patterns_allowed[");
    crate::text::append_decimal(&mut s, i as u64);
    s.append("]");
    s
}

fn check_pattern(errors: &mut Vec<ValidationError>, i: usize, pat: &String)
    ensures
        errors_view(final(errors)@) == errors_view(old(errors)@) + pattern_errors(i as int, pat@),
{
    let ghost e0 = errors_view(errors@);
    let cs = chars_of(pat.as_str());
    let mut k: usize = 0;
    while k < cs.len() && cs[k] != '/'
        invariant
            k <= cs.len(),
            cs@ == pat@,
            forall|j: int| 0 <= j < k ==> cs@[j] != '/',
        decreases cs.len() - k,
    {
        k = k + 1;
    }
    proof {
        lemma_first_index_of(pat@, '/', k as int);
    }
    let mut upper = false;
    let mut j: usize = 0;
    while j < k
        invariant
            j <= k <= cs.len(),
            cs@ == pat@,
            upper == exists|q: int| 0 <= q < j && crate::external::unicode_uppercase(#[trigger] cs@[q]),
        decreases k - j,
    {
        if crate::external::char_is_uppercase(cs[j]) {
            upper = true;
        }
        j = j + 1;
    }
    let owner = pat.as_str().substring_char(0, k);
    assert(owner@ =~= cs@.take(k as int));
    proof {
        let ow = pattern_owner(pat@);
        assert(ow == cs@.take(k as int));
        if upper {
            let q = choose|q: int| 0 <= q < k && crate::external::unicode_uppercase(#[trigger] cs@[q]);
            assert(ow[q] == cs@[q]);
        }
        if has_uppercase(ow) {
            let q = choose|q: int| 0 <= q < ow.len() && crate::external::unicode_uppercase(#[trigger] ow[q]);
            assert(ow[q] == cs@[q]);
        }
    }
    let field = pattern_field_name(i);
    if upper {
        let mut m = String::from_str("owner '");
        m.append(owner);
        m.append(
            "' contains uppercase letters; GitHub normalises action refs to lowercase so this pattern will never match — use all-lowercase (e.g. '",
        );
        let lower = crate::external::str_to_lowercase(pat.as_str());
        m.append(lower.as_str());
        m.append("')");
        push_error(errors, ValidationError::top_level(field.as_str(), m.as_str()));
    }
    let ghost e1 = errors_view(errors@);
    let has_at = has_char(&cs, '@');
    if !has_at {
        let mut m = String::from_str("pattern '");
        m.append(pat.as_str());
        m.append("' has no ref specifier; it will not match SHA-pinned or tagged actions — use '");
        m.append(pat.as_str());
        m.append("@*' to allow any ref");
        push_error(errors, ValidationError::top_level(field.as_str(), m.as_str()));
    }
    assert(errors_view(errors@) =~= e0 + pattern_errors(i as int, pat@));
}

/// Validate each entry in `patterns_allowed`.
///
/// Two rules are enforced:
/// - The owner portion must be all-lowercase: GitHub normalises action refs to
///   lowercase before pattern matching, so mixed-case owners never match.
/// - Every pattern must contain `@`: without a ref specifier the pattern only
///   matches the bare action name and will not match SHA-pinned or tagged refs.
fn validate_action_patterns(patterns: &Vec<String>, errors: &mut Vec<ValidationError>)
    ensures
        errors_view(final(errors)@) == errors_view(old(errors)@) + patterns_errors(
            crate::text::strings_view(patterns@),
            patterns@.len(),
        ),
{
    let ghost e0 = errors_view(errors@);
    let ghost pv = crate::text::strings_view(patterns@);
    let mut i: usize = 0;
    while i < patterns.len()
        invariant
            i <= patterns.len(),
            pv == crate::text::strings_view(patterns@),
            errors_view(errors@) == e0 + patterns_errors(pv, i as nat),
        decreases patterns.len() - i,
    {
        check_pattern(errors, i, &patterns[i]);
        assert(pv[i as int] == patterns@[i as int]@);
        i = i + 1;
    }
}

/// `selected` actions with nothing selected.
pub open spec fn selected_missing(a: Actions) -> bool {
    a.allowed_actions matches Some(v) && v@ == "selected"@ && match a.selected_actions {
        None => true,
        Some(sa) => sa.github_owned_allowed is None && sa.patterns_allowed is None,
    }
}

/// Errors of the actions block, in order: the allowed patterns, workflow
/// permissions, fork PR approval, allowed actions, and a missing selection.
pub open spec fn actions_errors(a: Actions) -> Seq<ErrorView> {
    (match a.selected_actions {
        Some(sel) => match sel.patterns_allowed {
            Some(ps) => patterns_errors(crate::text::strings_view(ps@), ps@.len()),
            None => Seq::empty(),
        },
        None => Seq::empty(),
    }) + one_of_error(
        "spec.actions.workflow_permissions"@,
        a.workflow_permissions,
        seq!["read"@, "write"@],
        "'read', 'write'"@,
    ) + one_of_error(
        "spec.actions.fork_pr_approval"@,
        a.fork_pr_approval,
        seq![
            "first_time_contributors_new_to_github"@,
            "first_time_contributors"@,
            "all_external_contributors"@,
        ],
        "'first_time_contributors_new_to_github', 'first_time_contributors', 'all_external_contributors'"@,
    ) + one_of_error(
        "spec.actions.allowed_actions"@,
        a.allowed_actions,
        seq!["all"@, "local_only"@, "selected"@],
        "'all', 'local_only', 'selected'"@,
    ) + error_if(
        selected_missing(a),
        top(
            "spec.actions.selected_actions"@,
            "required when allowed_actions is 'selected': set github_owned_allowed or patterns_allowed"@,
        ),
    )
}

fn validate_actions(actions: &Actions, errors: &mut Vec<ValidationError>)
    ensures
        errors_view(final(errors)@) == errors_view(old(errors)@) + actions_errors(*actions),
{
    let ghost e0 = errors_view(errors@);
    match &actions.selected_actions {
        Some(sel) => match &sel.patterns_allowed {
            Some(patterns) => validate_action_patterns(patterns, errors),
            None => {},
        },
        None => {},
    }
    let ghost e1 = errors_view(errors@);
    let a1 = ["read", "write"];
    assert(strs_view(a1@) =~= seq!["read"@, "write"@]);
    check_one_of(
        errors,
        "spec.actions.workflow_permissions",
        &actions.workflow_permissions,
        &a1,
        "'read', 'write'",
    );
    let a2 = [
        "first_time_contributors_new_to_github",
        "first_time_contributors",
        "all_external_contributors",
    ];
    assert(strs_view(a2@) =~= seq![
        "first_time_contributors_new_to_github"@,
        "first_time_contributors"@,
        "all_external_contributors"@,
    ]);
    check_one_of(
        errors,
        "spec.actions.fork_pr_approval",
        &actions.fork_pr_approval,
        &a2,
        "'first_time_contributors_new_to_github', 'first_time_contributors', 'all_external_contributors'",
    );
    let a3 = ["all", "local_only", "selected"];
    assert(strs_view(a3@) =~= seq!["all"@, "local_only"@, "selected"@]);
    check_one_of(
        errors,
        "spec.actions.allowed_actions",
        &actions.allowed_actions,
        &a3,
        "'all', 'local_only', 'selected'",
    );
    let ghost e2 = errors_view(errors@);
    let is_selected = match &actions.allowed_actions {
        Some(v) => text_eq(v.as_str(), "selected"),
        None => false,
    };
    let nothing = match &actions.selected_actions {
        None => true,
        Some(sa) => sa.github_owned_allowed.is_none() && sa.patterns_allowed.is_none(),
    };
    if is_selected && nothing {
        push_error(
            errors,
            ValidationError::top_level(
                "spec.actions.selected_actions",
                "required when allowed_actions is 'selected': set github_owned_allowed or patterns_allowed",
            ),
        );
    }
    assert(errors_view(errors@) =~= e0 + actions_errors(*actions));
}

// ---------------------------------------------------------------------------
// Schema validation: rulesets
// ---------------------------------------------------------------------------

/// The field name `spec.rulesets[ri]` followed by `rest`.
pub open spec fn ruleset_field(ri: int, rest: Seq<char>) -> Seq<char> {
    "spec.rulesets["@ + decimal(ri as nat) + "]"@ + rest
}

/// The field name of bypass actor `ai` of ruleset `ri`, followed by `rest`.
pub open spec fn actor_field(ri: int, ai: int, rest: Seq<char>) -> Seq<char> {
    ruleset_field(ri, ".bypass_actors["@ + decimal(ai as nat) + "]"@ + rest)
}

/// Errors of one bypass actor: its role and its bypass mode.
pub open spec fn actor_errors(ri: int, ai: int, a: BypassActor) -> Seq<ErrorView> {
    one_of_error(
        actor_field(ri, ai, ".role"@),
        a.role,
        seq!["admin"@, "maintain"@, "write"@, "triage"@, "read"@],
        "'admin', 'maintain', 'write', 'triage', 'read'"@,
    ) + one_of_error(
        actor_field(ri, ai, ".bypass_mode"@),
        a.bypass_mode,
        seq!["always"@, "pull_request"@, "exempt"@],
        "'always', 'pull_request', 'exempt'"@,
    )
}

/// Errors of the first `n` bypass actors of ruleset `ri`.
pub open spec fn actors_errors(ri: int, actors: Seq<BypassActor>, n: nat) -> Seq<ErrorView>
    decreases n,
{
    if n == 0 {
        Seq::empty()
    } else {
        actors_errors(ri, actors, (n - 1) as nat) + actor_errors(ri, n - 1, actors[n - 1])
    }
}

/// The error of allowed merge method `mi` of ruleset `ri`, or none.
pub open spec fn method_error(ri: int, mi: int, m: Seq<char>) -> Seq<ErrorView> {
    error_if(
        !(m == "squash"@ || m == "merge"@ || m == "rebase"@),
        top(
            ruleset_field(
                ri,
                ".rules.pull_request.allowed_merge_methods["@ + decimal(mi as nat) + "]"@,
            ),
            "must be one of 'squash', 'merge', 'rebase'; got '"@ + m + "'"@,
        ),
    )
}

/// Errors of the first `n` allowed merge methods of ruleset `ri`.
pub open spec fn methods_errors(ri: int, ms: Seq<Seq<char>>, n: nat) -> Seq<ErrorView>
    decreases n,
{
    if n == 0 {
        Seq::empty()
    } else {
        methods_errors(ri, ms, (n - 1) as nat) + method_error(ri, n - 1, ms[n - 1])
    }
}

/// The allowed merge methods of a ruleset's pull request rule, when set.
pub open spec fn ruleset_methods(rs: Ruleset) -> Seq<Seq<char>> {
    match rs.rules {
        Some(rules) => match rules.pull_request {
            Some(pr) => match pr.allowed_merge_methods {
                Some(ms) => crate::text::strings_view(ms@),
                None => Seq::empty(),
            },
            None => Seq::empty(),
        },
        None => Seq::empty(),
    }
}

/// Errors of ruleset `ri`: target, enforcement, bypass actors, merge methods.
pub open spec fn ruleset_errors(ri: int, rs: Ruleset) -> Seq<ErrorView> {
    one_of_error(
        ruleset_field(ri, ".target"@),
        rs.target,
        seq!["branch"@, "tag"@],
        "'branch', 'tag'"@,
    ) + one_of_error(
        ruleset_field(ri, ".enforcement"@),
        rs.enforcement,
        seq!["active"@, "disabled"@, "evaluate"@],
        "'active', 'disabled', 'evaluate'"@,
    ) + (match rs.bypass_actors {
        Some(actors) => actors_errors(ri, actors@, actors@.len()),
        None => Seq::empty(),
    }) + methods_errors(ri, ruleset_methods(rs), ruleset_methods(rs).len())
}

/// Errors of the first `n` rulesets.
pub open spec fn rulesets_errors(rss: Seq<Ruleset>, n: nat) -> Seq<ErrorView>
    decreases n,
{
    if n == 0 {
        Seq::empty()
    } else {
        rulesets_errors(rss, (n - 1) as nat) + ruleset_errors(n - 1, rss[n - 1])
    }
}

fn ruleset_field_name(ri: usize, rest: &str) -> (s: String)
    ensures
        s@ == ruleset_field(ri as int, rest@),
{
    let mut s = String::from_str("spec.rulesets[");
    crate::text::append_decimal(&mut s, ri as u64);
    s.append("]");
    s.append(rest);
    s
}

fn actor_field_name(ri: usize, ai: usize, rest: &str) -> (s: String)
    ensures
        s@ == actor_field(ri as int, ai as int, rest@),
{
    let mut tail = String::from_str(".bypass_actors[");
    crate::text::append_decimal(&mut tail, ai as u64);
    tail.append("]");
    tail.append(rest);
    ruleset_field_name(ri, tail.as_str())
}

fn validate_bypass_actor(ri: usize, ai: usize, actor: &BypassActor, errors: &mut Vec<ValidationError>)
    ensures
        errors_view(final(errors)@) == errors_view(old(errors)@) + actor_errors(
            ri as int,
            ai as int,
            *actor,
        ),
{
    let ghost e0 = errors_view(errors@);
    let f1 = actor_field_name(ri, ai, ".role");
    let a1 = ["admin", "maintain", "write", "triage", "read"];
    assert(strs_view(a1@) =~= seq!["admin"@, "maintain"@, "write"@, "triage"@, "read"@]);
    check_one_of(
        errors,
        f1.as_str(),
        &actor.role,
        &a1,
        "'admin', 'maintain', 'write', 'triage', 'read'",
    );
    let f2 = actor_field_name(ri, ai, ".bypass_mode");
    let a2 = ["always", "pull_request", "exempt"];
    assert(strs_view(a2@) =~= seq!["always"@, "pull_request"@, "exempt"@]);
    check_one_of(errors, f2.as_str(), &actor.bypass_mode, &a2, "'always', 'pull_request', 'exempt'");
    assert(errors_view(errors@) =~= e0 + actor_errors(ri as int, ai as int, *actor));
}

fn check_method(errors: &mut Vec<ValidationError>, ri: usize, mi: usize, method: &String)
    ensures
        errors_view(final(errors)@) == errors_view(old(errors)@) + method_error(
            ri as int,
            mi as int,
            method@,
        ),
{
    let ok = text_eq(method.as_str(), "squash") || text_eq(method.as_str(), "merge") || text_eq(
        method.as_str(),
        "rebase",
    );
    if !ok {
        let mut tail = String::from_str(".rules.pull_request.allowed_merge_methods[");
        crate::text::append_decimal(&mut tail, mi as u64);
        tail.append("]");
        let field = ruleset_field_name(ri, tail.as_str());
        let mut m = String::from_str("must be one of 'squash', 'merge', 'rebase'; got '");
        m.append(method.as_str());
        m.append("'");
        push_error(errors, ValidationError::top_level(field.as_str(), m.as_str()));
    } else {
        assert(errors_view(errors@) =~= errors_view(errors@) + Seq::<ErrorView>::empty());
    }
}

fn check_methods(errors: &mut Vec<ValidationError>, ri: usize, rs: &Ruleset)
    ensures
        errors_view(final(errors)@) == errors_view(old(errors)@) + methods_errors(
            ri as int,
            ruleset_methods(*rs),
            ruleset_methods(*rs).len(),
        ),
{
    let ghost e0 = errors_view(errors@);
    let ghost mv = ruleset_methods(*rs);
    match &rs.rules {
        Some(rules) => match &rules.pull_request {
            Some(pr) => match &pr.allowed_merge_methods {
                Some(methods) => {
                    let mut mi: usize = 0;
                    while mi < methods.len()
                        invariant
                            mi <= methods.len(),
                            mv == crate::text::strings_view(methods@),
                            errors_view(errors@) == e0 + methods_errors(ri as int, mv, mi as nat),
                        decreases methods.len() - mi,
                    {
                        check_method(errors, ri, mi, &methods[mi]);
                        assert(mv[mi as int] == methods@[mi as int]@);
                        mi = mi + 1;
                    }
                    return ;
                },
                None => {},
            },
            None => {},
        },
        None => {},
    }
    assert(errors_view(errors@) =~= e0 + methods_errors(ri as int, mv, mv.len()));
}

fn validate_ruleset(ri: usize, rs: &Ruleset, errors: &mut Vec<ValidationError>)
    ensures
        errors_view(final(errors)@) == errors_view(old(errors)@) + ruleset_errors(ri as int, *rs),
{
    let ghost e0 = errors_view(errors@);
    let f1 = ruleset_field_name(ri, ".target");
    let a1 = ["branch", "tag"];
    assert(strs_view(a1@) =~= seq!["branch"@, "tag"@]);
    check_one_of(errors, f1.as_str(), &rs.target, &a1, "'branch', 'tag'");
    let f2 = ruleset_field_name(ri, ".enforcement");
    let a2 = ["active", "disabled", "evaluate"];
    assert(strs_view(a2@) =~= seq!["active"@, "disabled"@, "evaluate"@]);
    check_one_of(errors, f2.as_str(), &rs.enforcement, &a2, "'active', 'disabled', 'evaluate'");
    let ghost e1 = errors_view(errors@);
    match &rs.bypass_actors {
        Some(actors) => {
            let mut ai: usize = 0;
            while ai < actors.len()
                invariant
                    ai <= actors.len(),
                    errors_view(errors@) == e1 + actors_errors(ri as int, actors@, ai as nat),
                decreases actors.len() - ai,
            {
                validate_bypass_actor(ri, ai, &actors[ai], errors);
                ai = ai + 1;
            }
        },
        None => {
            assert(errors_view(errors@) =~= e1 + Seq::<ErrorView>::empty());
        },
    }
    let ghost e2 = errors_view(errors@);
    check_methods(errors, ri, rs);
    assert(errors_view(errors@) =~= e0 + ruleset_errors(ri as int, *rs));
}

// ---------------------------------------------------------------------------
// Schema validation: whole manifest
// ---------------------------------------------------------------------------

/// All three merge methods are explicitly disabled.
pub open spec fn no_merge_method(ms: MergeStrategy) -> bool {
    ms.allow_merge_commit == Some(false) && ms.allow_squash_merge == Some(false)
        && ms.allow_rebase_merge == Some(false)
}

/// The error for a merge strategy that disables every merge method.
pub open spec fn merge_enabled_error(spec: Spec) -> Seq<ErrorView> {
    error_if(
        spec.merge_strategy matches Some(ms) && no_merge_method(ms),
        top(
            "spec.merge_strategy"@,
            "at least one merge method must be enabled (allow_merge_commit, allow_squash_merge, or allow_rebase_merge)"@,
        ),
    )
}

/// Errors of the visibility and label sync mode.
pub open spec fn enum_field_errors(spec: Spec) -> Seq<ErrorView> {
    one_of_error(
        "spec.visibility"@,
        spec.visibility,
        seq!["public"@, "private"@, "internal"@],
        "'public', 'private', 'internal'"@,
    ) + one_of_error(
        "spec.label_sync"@,
        spec.label_sync,
        seq!["additive"@, "mirror"@],
        "'additive', 'mirror'"@,
    )
}

/// Errors of the merge strategy fields, when there is a merge strategy.
pub open spec fn merge_fields_errors(spec: Spec) -> Seq<ErrorView> {
    match spec.merge_strategy {
        Some(ms) => merge_strategy_errors(ms),
        None => Seq::empty(),
    }
}

/// Errors of the actions block, when there is one.
pub open spec fn actions_part_errors(spec: Spec) -> Seq<ErrorView> {
    match spec.actions {
        Some(a) => actions_errors(a),
        None => Seq::empty(),
    }
}

/// Errors of the rulesets, when there are any.
pub open spec fn rulesets_part_errors(spec: Spec) -> Seq<ErrorView> {
    match spec.rulesets {
        Some(rss) => rulesets_errors(rss@, rss@.len()),
        None => Seq::empty(),
    }
}

/// Errors of the `spec` block, in order: no merge method enabled,
/// visibility, label sync mode, merge strategy fields, actions, rulesets.
pub open spec fn spec_errors(spec: Spec) -> Seq<ErrorView> {
    merge_enabled_error(spec) + enum_field_errors(spec) + merge_fields_errors(spec)
        + actions_part_errors(spec) + rulesets_part_errors(spec)
}

/// Every schema error of a manifest, in the order they are reported: the
/// upstream repository name, an empty rule list, each rule, then the `spec`
/// block.
pub open spec fn schema_errors(m: Manifest) -> Seq<ErrorView> {
    error_if(
        !repo_ok(m.upstream.repo@),
        top(
            "upstream.repo"@,
            "must match owner/name (alphanumeric, '.', '_', '-'); got '"@ + m.upstream.repo@ + "'"@,
        ),
    ) + error_if(m.files@.len() == 0, top("files"@, "must not be empty"@)) + rules_errors(
        m.files@,
        m.files@.len(),
    ) + (match m.spec {
        Some(spec) => spec_errors(spec),
        None => Seq::empty(),
    })
}

/// The outcome of a validation: success when there are no errors, else the
/// errors.
pub open spec fn validation_outcome(r: Result<(), SyncError>, errs: Seq<ErrorView>) -> bool {
    match r {
        Ok(_) => errs.len() == 0,
        Err(SyncError::Validation(es)) => errs.len() > 0 && errors_view(es@) == errs,
        Err(SyncError::ManifestLoad { .. }) => false,
    }
}

fn check_merge_enabled(spec: &Spec, errors: &mut Vec<ValidationError>)
    ensures
        errors_view(final(errors)@) == errors_view(old(errors)@) + merge_enabled_error(*spec),
{
    let ghost e0 = errors_view(errors@);
    let all_off = match &spec.merge_strategy {
        Some(ms) => ms.allow_merge_commit == Some(false) && ms.allow_squash_merge == Some(false)
            && ms.allow_rebase_merge == Some(false),
        None => false,
    };
    if all_off {
        push_error(
            errors,
            ValidationError::top_level(
                "spec.merge_strategy",
                "at least one merge method must be enabled (allow_merge_commit, allow_squash_merge, or allow_rebase_merge)",
            ),
        );
    }
    assert(errors_view(errors@) =~= e0 + merge_enabled_error(*spec));
}

fn check_enum_fields(spec: &Spec, errors: &mut Vec<ValidationError>)
    ensures
        errors_view(final(errors)@) == errors_view(old(errors)@) + enum_field_errors(*spec),
{
    let ghost e0 = errors_view(errors@);
    let a1 = ["public", "private", "internal"];
    assert(strs_view(a1@) =~= seq!["public"@, "private"@, "internal"@]);
    check_one_of(errors, "spec.visibility", &spec.visibility, &a1, "'public', 'private', 'internal'");
    let a2 = ["additive", "mirror"];
    assert(strs_view(a2@) =~= seq!["additive"@, "mirror"@]);
    check_one_of(errors, "spec.label_sync", &spec.label_sync, &a2, "'additive', 'mirror'");
    assert(errors_view(errors@) =~= e0 + enum_field_errors(*spec));
}

fn check_rulesets(spec: &Spec, errors: &mut Vec<ValidationError>)
    ensures
        errors_view(final(errors)@) == errors_view(old(errors)@) + rulesets_part_errors(*spec),
{
    let ghost e0 = errors_view(errors@);
    match &spec.rulesets {
        Some(rulesets) => {
            let mut ri: usize = 0;
            assert(errors_view(errors@) =~= e0 + rulesets_errors(rulesets@, 0));
            while ri < rulesets.len()
                invariant
                    ri <= rulesets.len(),
                    errors_view(errors@) == e0 + rulesets_errors(rulesets@, ri as nat),
                decreases rulesets.len() - ri,
            {
                validate_ruleset(ri, &rulesets[ri], errors);
                assert(errors_view(errors@) =~= e0 + rulesets_errors(rulesets@, (ri + 1) as nat));
                ri = ri + 1;
            }
        },
        None => {
            assert(errors_view(errors@) =~= e0 + rulesets_part_errors(*spec));
        },
    }
}

#[verifier::spinoff_prover]
fn validate_spec(spec: &Spec, errors: &mut Vec<ValidationError>)
    ensures
        errors_view(final(errors)@) == errors_view(old(errors)@) + spec_errors(*spec),
{
    let ghost e0 = errors_view(errors@);
    check_merge_enabled(spec, errors);
    check_enum_fields(spec, errors);
    let ghost e2 = errors_view(errors@);
    match &spec.merge_strategy {
        Some(ms) => validate_merge_strategy(ms, errors),
        None => {},
    }
    assert(errors_view(errors@) =~= e2 + merge_fields_errors(*spec));
    let ghost e3 = errors_view(errors@);
    match &spec.actions {
        Some(actions) => validate_actions(actions, errors),
        None => {},
    }
    assert(errors_view(errors@) =~= e3 + actions_part_errors(*spec));
    check_rulesets(spec, errors);
    assert(errors_view(errors@) =~= e0 + spec_errors(*spec));
}

/// Validate the manifest schema without accessing the network or filesystem.
///
/// Checks, in order: `upstream.repo` matches `owner/name`; `files` is
/// non-empty; each rule's path and source, duplicate paths and the fields its
/// strategy allows; then the `spec` block (merge methods, visibility, label
/// sync mode, merge commit formats, actions settings and patterns, rulesets,
/// bypass actors and allowed merge methods).  Fails with every error found.
pub fn validate_schema(manifest: &Manifest) -> (r: Result<(), SyncError>)
    ensures
        validation_outcome(r, schema_errors(*manifest)),
{
    let mut errors: Vec<ValidationError> = Vec::new();
    assert(errors_view(errors@) =~= Seq::<ErrorView>::empty());
    if !is_valid_repo(manifest.upstream.repo.as_str()) {
        let mut m = String::from_str("must match owner/name (alphanumeric, '.', '_', '-'); got '");
        m.append(manifest.upstream.repo.as_str());
        m.append("'");
        push_error(&mut errors, ValidationError::top_level("upstream.repo", m.as_str()));
    }
    if manifest.files.len() == 0 {
        push_error(&mut errors, ValidationError::top_level("files", "must not be empty"));
    }
    let ghost e2 = errors_view(errors@);
    let mut i: usize = 0;
    while i < manifest.files.len()
        invariant
            i <= manifest.files.len(),
            errors_view(errors@) == e2 + rules_errors(manifest.files@, i as nat),
        decreases manifest.files.len() - i,
    {
        check_rule(&mut errors, &manifest.files, i);
        i = i + 1;
    }
    let ghost e3 = errors_view(errors@);
    match &manifest.spec {
        Some(spec) => validate_spec(spec, &mut errors),
        None => {},
    }
    assert(errors_view(errors@) =~= schema_errors(*manifest));
    if errors.len() == 0 {
        Ok(())
    } else {
        Err(SyncError::Validation(errors))
    }
}

// ---------------------------------------------------------------------------
// Reference validation
// ---------------------------------------------------------------------------

/// The errors for `patch` rules among the first `n` rules whose patch file is
/// missing (`exists[i]` false), in rule order.
pub open spec fn reference_errors(rules: Seq<Rule>, exists: Seq<bool>, n: nat) -> Seq<ErrorView>
    decreases n,
{
    if n == 0 {
        Seq::empty()
    } else {
        let i = (n - 1) as int;
        reference_errors(rules, exists, (n - 1) as nat) + if rules[i].strategy == Strategy::Patch
            && !exists[i] {
            seq![
                at_rule(
                    i as usize,
                    "patch"@,
                    "patch file not found: "@ + patch_path_spec(rules[i]),
                ),
            ]
        } else {
            Seq::empty()
        }
    }
}

/// Check the patch file references of `manifest` against what exists: the
/// `i`-th flag tells whether the resolved patch file of rule `i` exists (it is
/// read only for `patch` rules).  Fails with one error per missing file.
pub fn check_references(manifest: &Manifest, patch_exists: &[bool]) -> (r: Result<(), SyncError>)
    requires
        patch_exists@.len() == manifest.files@.len(),
    ensures
        validation_outcome(
            r,
            reference_errors(manifest.files@, patch_exists@, manifest.files@.len()),
        ),
{
    let mut errors: Vec<ValidationError> = Vec::new();
    let ghost rules = manifest.files@;
    let mut i: usize = 0;
    assert(errors_view(errors@) =~= Seq::<ErrorView>::empty());
    while i < manifest.files.len()
        invariant
            i <= manifest.files.len(),
            rules == manifest.files@,
            patch_exists@.len() == rules.len(),
            errors_view(errors@) == reference_errors(rules, patch_exists@, i as nat),
        decreases manifest.files.len() - i,
    {
        let rule = &manifest.files[i];
        if rule.strategy == Strategy::Patch && !patch_exists[i] {
            let patch_path = resolve_patch_path(rule);
            let mut m = String::from_str("patch file not found: ");
            m.append(patch_path.as_str());
            let e = ValidationError::rule(i, "patch", m.as_str());
            let ghost before = errors_view(errors@);
            errors.push(e);
            assert(errors_view(errors@) =~= before + seq![e@]);
        }
        i = i + 1;
    }
    if errors.len() == 0 {
        Ok(())
    } else {
        Err(SyncError::Validation(errors))
    }
}

/// Validate file references in the manifest against the local file system.
///
/// Checks that every `patch` strategy rule has a corresponding patch file on
/// disk, resolved from `repo_root`.  Whatever the disk holds, the result is
/// what [`check_references`] gives for some answer to each existence check.
pub fn validate_references(manifest: &Manifest, repo_root: &Path) -> (r: Result<(), SyncError>)
    ensures
        exists|flags: Seq<bool>|
            flags.len() == manifest.files@.len() && validation_outcome(
                r,
                #[trigger] reference_errors(manifest.files@, flags, manifest.files@.len()),
            ),
{
    let mut flags: Vec<bool> = Vec::new();
    let mut i: usize = 0;
    while i < manifest.files.len()
        invariant
            i <= manifest.files.len(),
            flags@.len() == i,
        decreases manifest.files.len() - i,
    {
        let rule = &manifest.files[i];
        if rule.strategy == Strategy::Patch {
            let patch_path = resolve_patch_path(rule);
            let full = join_path(repo_root, patch_path.as_str());
            flags.push(path_exists(&full));
        } else {
            flags.push(true);
        }
        i = i + 1;
    }
    let r = check_references(manifest, flags.as_slice());
    assert(validation_outcome(
        r,
        reference_errors(manifest.files@, flags@, manifest.files@.len()),
    ));
    r
}

} // verus!
