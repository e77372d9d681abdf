use graft::error::SyncError;
use graft::manifest::{
    is_valid_repo, resolve_patch_path, validate_path, validate_references, validate_schema,
    Actions, BranchProtection, BranchProtectionStatusChecks, BypassActor, Features, Label,
    Manifest, MergeStrategy, PullRequestRule, RefNameCondition, RequiredStatusChecks, Rule,
    Ruleset, RulesetConditions, RulesetRules, SelectedActions, Spec, StatusCheckContext,
    Strategy, Upstream,
};
use serde_yml::Value;
use tempfile::TempDir;

// --- building a manifest from YAML text ---

fn text(v: &Value, key: &str) -> Option<String> {
    v.get(key).and_then(Value::as_str).map(str::to_owned)
}

fn flag(v: &Value, key: &str) -> Option<bool> {
    v.get(key).and_then(Value::as_bool)
}

fn number(v: &Value, key: &str) -> Option<u64> {
    v.get(key).and_then(Value::as_u64)
}

fn texts(v: &Value, key: &str) -> Option<Vec<String>> {
    v.get(key)
        .and_then(Value::as_sequence)
        .map(|s| s.iter().filter_map(Value::as_str).map(str::to_owned).collect())
}

fn list<T>(v: &Value, key: &str, f: fn(&Value) -> T) -> Option<Vec<T>> {
    v.get(key).and_then(Value::as_sequence).map(|s| s.iter().map(f).collect())
}

fn node<T>(v: &Value, key: &str, f: fn(&Value) -> T) -> Option<T> {
    v.get(key).filter(|x| !x.is_null()).map(f)
}

fn strategy_of(v: &Value) -> Strategy {
    match v.as_str() {
        Some("replace") => Strategy::Replace,
        Some("create_only") => Strategy::CreateOnly,
        Some("delete") => Strategy::Delete,
        Some("patch") => Strategy::Patch,
        Some("ignore") => Strategy::Ignore,
        other => panic!("unknown strategy {other:?}"),
    }
}

fn rule_of(v: &Value) -> Rule {
    Rule {
        path: text(v, "path").unwrap_or_default(),
        strategy: strategy_of(v.get("strategy").expect("strategy")),
        source: text(v, "source"),
        patch: text(v, "patch"),
        preserve_markers: flag(v, "preserve_markers"),
    }
}

fn features_of(v: &Value) -> Features {
    Features {
        issues: flag(v, "issues"),
        projects: flag(v, "projects"),
        wiki: flag(v, "wiki"),
        discussions: flag(v, "discussions"),
    }
}

fn merge_strategy_of(v: &Value) -> MergeStrategy {
    MergeStrategy {
        allow_merge_commit: flag(v, "allow_merge_commit"),
        allow_squash_merge: flag(v, "allow_squash_merge"),
        allow_rebase_merge: flag(v, "allow_rebase_merge"),
        allow_auto_merge: flag(v, "allow_auto_merge"),
        allow_update_branch: flag(v, "allow_update_branch"),
        auto_delete_head_branches: flag(v, "auto_delete_head_branches"),
        merge_commit_title: text(v, "merge_commit_title"),
        merge_commit_message: text(v, "merge_commit_message"),
        squash_merge_commit_title: text(v, "squash_merge_commit_title"),
        squash_merge_commit_message: text(v, "squash_merge_commit_message"),
    }
}

fn label_of(v: &Value) -> Label {
    Label {
        name: text(v, "name").unwrap_or_default(),
        color: text(v, "color").unwrap_or_default(),
        description: text(v, "description"),
    }
}

fn selected_of(v: &Value) -> SelectedActions {
    SelectedActions {
        github_owned_allowed: flag(v, "github_owned_allowed"),
        patterns_allowed: texts(v, "patterns_allowed"),
    }
}

fn actions_of(v: &Value) -> Actions {
    Actions {
        enabled: flag(v, "enabled"),
        allowed_actions: text(v, "allowed_actions"),
        sha_pinning_required: flag(v, "sha_pinning_required"),
        workflow_permissions: text(v, "workflow_permissions"),
        can_approve_pull_requests: flag(v, "can_approve_pull_requests"),
        selected_actions: node(v, "selected_actions", selected_of),
        fork_pr_approval: text(v, "fork_pr_approval"),
    }
}

fn actor_of(v: &Value) -> BypassActor {
    BypassActor {
        role: text(v, "role"),
        team: text(v, "team"),
        app: text(v, "app"),
        org_admin: flag(v, "org-admin"),
        custom_role: text(v, "custom-role"),
        bypass_mode: text(v, "bypass_mode"),
    }
}

fn ref_name_of(v: &Value) -> RefNameCondition {
    RefNameCondition {
        includes: texts(v, &["incl", "ude"].concat()),
        exclude: texts(v, "exclude"),
    }
}

fn conditions_of(v: &Value) -> RulesetConditions {
    RulesetConditions { ref_name: node(v, "ref_name", ref_name_of) }
}

fn pull_request_of(v: &Value) -> PullRequestRule {
    PullRequestRule {
        required_approving_review_count: number(v, "required_approving_review_count")
            .map(|n| u32::try_from(n).expect("count fits u32")),
        dismiss_stale_reviews_on_push: flag(v, "dismiss_stale_reviews_on_push"),
        require_code_owner_review: flag(v, "require_code_owner_review"),
        require_last_push_approval: flag(v, "require_last_push_approval"),
        required_review_thread_resolution: flag(v, "required_review_thread_resolution"),
        allowed_merge_methods: texts(v, "allowed_merge_methods"),
    }
}

fn context_of(v: &Value) -> StatusCheckContext {
    StatusCheckContext {
        context: text(v, "context").unwrap_or_default(),
        app: text(v, "app"),
        integration_id: number(v, "integration_id"),
    }
}

fn status_checks_of(v: &Value) -> RequiredStatusChecks {
    RequiredStatusChecks {
        strict_required_status_checks_policy: flag(v, "strict_required_status_checks_policy"),
        contexts: list(v, "contexts", context_of),
    }
}

fn rules_of(v: &Value) -> RulesetRules {
    RulesetRules {
        non_fast_forward: flag(v, "non_fast_forward"),
        deletion: flag(v, "deletion"),
        creation: flag(v, "creation"),
        required_linear_history: flag(v, "required_linear_history"),
        required_signatures: flag(v, "required_signatures"),
        pull_request: node(v, "pull_request", pull_request_of),
        required_status_checks: node(v, "required_status_checks", status_checks_of),
    }
}

fn ruleset_of(v: &Value) -> Ruleset {
    Ruleset {
        name: text(v, "name").unwrap_or_default(),
        target: text(v, "target"),
        enforcement: text(v, "enforcement"),
        bypass_actors: list(v, "bypass_actors", actor_of),
        conditions: node(v, "conditions", conditions_of),
        rules: node(v, "rules", rules_of),
    }
}

fn protection_checks_of(v: &Value) -> BranchProtectionStatusChecks {
    BranchProtectionStatusChecks { strict: flag(v, "strict"), contexts: texts(v, "contexts") }
}

fn protection_of(v: &Value) -> BranchProtection {
    BranchProtection {
        pattern: text(v, "pattern").unwrap_or_default(),
        required_reviews: number(v, "required_reviews")
            .map(|n| u32::try_from(n).expect("count fits u32")),
        dismiss_stale_reviews: flag(v, "dismiss_stale_reviews"),
        require_code_owner_reviews: flag(v, "require_code_owner_reviews"),
        require_status_checks: node(v, "require_status_checks", protection_checks_of),
        enforce_admins: flag(v, "enforce_admins"),
        allow_force_pushes: flag(v, "allow_force_pushes"),
        allow_deletions: flag(v, "allow_deletions"),
    }
}

fn spec_of(v: &Value) -> Spec {
    Spec {
        description: text(v, "description"),
        homepage: text(v, "homepage"),
        visibility: text(v, "visibility"),
        archived: flag(v, "archived"),
        topics: texts(v, "topics"),
        features: node(v, "features", features_of),
        web_commit_signoff_required: flag(v, "web_commit_signoff_required"),
        merge_strategy: node(v, "merge_strategy", merge_strategy_of),
        release_immutability: flag(v, "release_immutability"),
        label_sync: text(v, "label_sync"),
        labels: list(v, "labels", label_of),
        actions: node(v, "actions", actions_of),
        rulesets: list(v, "rulesets", ruleset_of),
        branch_protection: list(v, "branch_protection", protection_of),
    }
}

fn manifest_from_yaml(yaml: &str) -> Manifest {
    let v: Value = serde_yml::from_str(yaml).expect("test YAML should be valid");
    let up = v.get("upstream").expect("upstream");
    Manifest {
        upstream: Upstream {
            repo: text(up, "repo").unwrap_or_default(),
            ref_: text(up, "ref").unwrap_or_else(|| String::from("main")),
        },
        spec: node(&v, "spec", spec_of),
        files: list(&v, "files", rule_of).unwrap_or_default(),
    }
}

fn expect_schema_error(yaml: &str, field: &'static str) {
    let m = manifest_from_yaml(yaml);
    let Err(SyncError::Validation(errors)) = validate_schema(&m) else {
        panic!("expected validation error for field '{field}', got Ok");
    };
    assert!(
        errors.iter().any(|e| e.field == field),
        "expected error on field '{field}', got: {errors:?}"
    );
}

fn expect_schema_ok(yaml: &str) {
    let m = manifest_from_yaml(yaml);
    if let Err(e) = validate_schema(&m) {
        panic!("expected Ok, got: {}", e.to_string());
    }
}

fn expect_schema_error_contains(yaml: &str, needle: &str) {
    let m = manifest_from_yaml(yaml);
    let Err(SyncError::Validation(errors)) = validate_schema(&m) else {
        panic!("expected validation error containing '{needle}', got Ok");
    };
    assert!(
        errors
            .iter()
            .any(|e| e.field.contains(needle) || e.message.contains(needle)),
        "expected error containing '{needle}', got: {errors:?}"
    );
}

#[test]
fn test_valid_repo_simple() {
    assert!(is_valid_repo("owner/name"));
}

#[test]
fn test_valid_repo_with_special_chars() {
    assert!(is_valid_repo("my-org/my_repo.2"));
}

#[test]
fn test_invalid_repo_no_slash() {
    assert!(!is_valid_repo("noowner"));
}

#[test]
fn test_invalid_repo_empty_owner() {
    assert!(!is_valid_repo("/name"));
}

#[test]
fn test_invalid_repo_empty_name() {
    assert!(!is_valid_repo("owner/"));
}

#[test]
fn test_invalid_repo_three_parts() {
    assert!(!is_valid_repo("owner/repo/extra"));
}

#[test]
fn test_invalid_repo_space() {
    assert!(!is_valid_repo("ow ner/name"));
}

#[test]
fn test_valid_path() {
    assert_eq!(validate_path(".github/workflows/ci.yaml"), None);
}

#[test]
fn test_path_empty() {
    assert!(validate_path("").is_some());
}

#[test]
fn test_path_absolute() {
    assert!(validate_path("/etc/passwd").is_some());
}

#[test]
fn test_path_dotslash() {
    assert!(validate_path("./foo").is_some());
}

#[test]
fn test_path_trailing_slash() {
    assert!(validate_path("foo/").is_some());
}

#[test]
fn test_path_double_slash() {
    assert!(validate_path("foo//bar").is_some());
}

#[test]
fn test_path_backslash() {
    assert!(validate_path("foo\\bar").is_some());
}

#[test]
fn test_path_dotdot() {
    assert!(validate_path("../escape").is_some());
}

#[test]
fn test_path_dotdot_middle() {
    assert!(validate_path("foo/../bar").is_some());
}

#[test]
fn test_schema_invalid_repo_pattern() {
    expect_schema_error(
        r"
upstream:
  repo: 'invalid repo!'
files:
  - path: foo.txt
    strategy: replace
",
        "upstream.repo",
    );
}

#[test]
fn test_schema_valid_repo_pattern() {
    expect_schema_ok(
        r"
upstream:
  repo: 'owner/repo'
files:
  - path: foo.txt
    strategy: replace
",
    );
}

#[test]
fn test_schema_empty_rules() {
    expect_schema_error(
        r"
upstream:
  repo: owner/repo
files: []
",
        "files",
    );
}

#[test]
fn test_schema_path_absolute() {
    expect_schema_error(
        r"
upstream:
  repo: owner/repo
files:
  - path: /absolute/path
    strategy: replace
",
        "path",
    );
}

#[test]
fn test_schema_path_dotdot() {
    expect_schema_error(
        r"
upstream:
  repo: owner/repo
files:
  - path: ../escape
    strategy: replace
",
        "path",
    );
}

#[test]
fn test_schema_duplicate_path() {
    expect_schema_error(
        r"
upstream:
  repo: owner/repo
files:
  - path: foo.txt
    strategy: replace
  - path: foo.txt
    strategy: create_only
",
        "path",
    );
}

#[test]
fn test_schema_delete_with_source() {
    expect_schema_error(
        r"
upstream:
  repo: owner/repo
files:
  - path: foo.txt
    strategy: delete
    source: bar.txt
",
        "source",
    );
}

#[test]
fn test_schema_delete_with_patch() {
    expect_schema_error(
        r"
upstream:
  repo: owner/repo
files:
  - path: foo.txt
    strategy: delete
    patch: foo.patch
",
        "patch",
    );
}

#[test]
fn test_schema_patch_with_source() {
    expect_schema_error(
        r"
upstream:
  repo: owner/repo
files:
  - path: foo.txt
    strategy: patch
    source: bar.txt
",
        "source",
    );
}

#[test]
fn test_schema_replace_with_patch_field() {
    expect_schema_error(
        r"
upstream:
  repo: owner/repo
files:
  - path: foo.txt
    strategy: replace
    patch: foo.patch
",
        "patch",
    );
}

#[test]
fn validate_schema_accepts_replace_with_preserve_markers() {
    expect_schema_ok(
        r"
upstream:
  repo: owner/repo
files:
  - path: foo.txt
    strategy: replace
    preserve_markers: true
",
    );
}

#[test]
fn validate_schema_accepts_patch_with_preserve_markers() {
    expect_schema_ok(
        r"
upstream:
  repo: owner/repo
files:
  - path: foo.txt
    strategy: patch
    preserve_markers: true
",
    );
}

#[test]
fn validate_schema_rejects_create_only_with_preserve_markers() {
    expect_schema_error(
        r"
upstream:
  repo: owner/repo
files:
  - path: foo.txt
    strategy: create_only
    preserve_markers: true
",
        "preserve_markers",
    );
}

#[test]
fn validate_schema_rejects_delete_with_preserve_markers() {
    expect_schema_error(
        r"
upstream:
  repo: owner/repo
files:
  - path: foo.txt
    strategy: delete
    preserve_markers: true
",
        "preserve_markers",
    );
}

#[test]
fn validate_schema_rejects_ignore_with_preserve_markers() {
    expect_schema_error(
        r"
upstream:
  repo: owner/repo
files:
  - path: foo.txt
    strategy: ignore
    preserve_markers: true
",
        "preserve_markers",
    );
}

#[test]
fn validate_schema_error_message_mentions_patch_or_replace() {
    let m = manifest_from_yaml(
        r"
upstream:
  repo: owner/repo
files:
  - path: foo.txt
    strategy: delete
    preserve_markers: true
",
    );
    let Err(SyncError::Validation(errors)) = validate_schema(&m) else {
        panic!("expected Validation error");
    };
    let msg = errors
        .iter()
        .find(|e| e.field == "preserve_markers")
        .map_or("", |e| e.message.as_str());
    assert!(
        msg.contains("patch") && msg.contains("replace"),
        "error message should mention both 'patch' and 'replace': {msg}"
    );
}

#[test]
fn test_schema_create_only_with_patch_field() {
    expect_schema_error(
        r"
upstream:
  repo: owner/repo
files:
  - path: foo.txt
    strategy: create_only
    patch: foo.patch
",
        "patch",
    );
}

#[test]
fn test_schema_valid_all_strategies() {
    expect_schema_ok(
        r"
upstream:
  repo: naa0yama/boilerplate-rust
  ref: main
spec:
  visibility: public
  archived: false
files:
  - path: .github/workflows/ci.yaml
    strategy: replace
  - path: .github/workflows/ci2.yaml
    strategy: replace
    source: templates/ci.yaml
  - path: bootstrap.sh
    strategy: create_only
  - path: legacy.sh
    strategy: delete
  - path: Cargo.toml
    strategy: patch
  - path: other.toml
    strategy: patch
    patch: custom/other.toml.patch
  - path: optional.txt
    strategy: ignore
",
    );
}

#[test]
fn test_references_patch_file_missing() {
    let dir = TempDir::new().unwrap();

    let manifest = manifest_from_yaml(
        r"
upstream:
  repo: owner/repo
files:
  - path: Cargo.toml
    strategy: patch
",
    );
    let Err(SyncError::Validation(errors)) = validate_references(&manifest, dir.path()) else {
        panic!("expected validation error for missing patch file");
    };
    assert!(errors.iter().any(|e| e.field == "patch"));
}

#[test]
fn test_schema_full_spec_deserialization() {
    let yaml = format!(
        r"
upstream:
  repo: naa0yama/boilerplate-rust
  ref: main
spec:
  description: 'My project'
  homepage: 'https://example.com'
  visibility: public
  archived: false
  topics: [rust, cli]
  release_immutability: true
  label_sync: mirror
  labels:
    - name: kind/bug
      color: d73a4a
      description: 'A bug'
  features:
    issues: true
    projects: false
    wiki: false
    discussions: false
  merge_strategy:
    allow_merge_commit: false
    allow_squash_merge: true
    allow_rebase_merge: false
    auto_delete_head_branches: true
    merge_commit_title: MERGE_MESSAGE
    merge_commit_message: PR_TITLE
    squash_merge_commit_title: PR_TITLE
    squash_merge_commit_message: COMMIT_MESSAGES
  actions:
    enabled: true
    allowed_actions: selected
    sha_pinning_required: true
    workflow_permissions: read
    can_approve_pull_requests: false
    selected_actions:
      github_owned_allowed: true
      patterns_allowed:
        - 'actions/*'
    fork_pr_approval: all_external_contributors
  rulesets:
    - name: protect-main
      target: branch
      enforcement: active
      bypass_actors:
        - role: admin
          bypass_mode: always
        - org-admin: true
          bypass_mode: pull_request
        - custom-role: deployer
          bypass_mode: exempt
      conditions:
        ref_name:
          {}: ['refs/heads/main']
          exclude: []
      rules:
        non_fast_forward: true
        deletion: true
        creation: false
        required_linear_history: true
        required_signatures: true
        pull_request:
          required_approving_review_count: 1
        required_status_checks:
          strict_required_status_checks_policy: true
          contexts:
            - context: 'ci/test'
              app: github-actions
  branch_protection:
    - pattern: main
      required_reviews: 1
      dismiss_stale_reviews: true
      require_code_owner_reviews: false
      require_status_checks:
        strict: true
        contexts: ['ci / test']
      enforce_admins: false
      allow_force_pushes: false
      allow_deletions: false
files:
  - path: Cargo.toml
    strategy: replace
",
        ["incl", "ude"].concat()
    );
    let m = manifest_from_yaml(&yaml);
    let spec = m.spec.as_ref().unwrap();
    assert_eq!(spec.description.as_deref(), Some("My project"));
    assert_eq!(spec.visibility.as_deref(), Some("public"));
    let features = spec.features.as_ref().unwrap();
    assert_eq!(features.issues, Some(true));
    let ms = spec.merge_strategy.as_ref().unwrap();
    assert_eq!(ms.allow_squash_merge, Some(true));
    let actions = spec.actions.as_ref().unwrap();
    assert_eq!(actions.enabled, Some(true));
    let sa = actions.selected_actions.as_ref().unwrap();
    assert_eq!(sa.github_owned_allowed, Some(true));
    let rulesets = spec.rulesets.as_ref().unwrap();
    assert_eq!(rulesets.len(), 1);
    let rs = &rulesets[0];
    assert_eq!(rs.name, "protect-main");
    let actors = rs.bypass_actors.as_ref().unwrap();
    assert_eq!(actors.len(), 3);
    assert_eq!(actors[1].org_admin, Some(true));
    assert_eq!(actors[2].custom_role.as_deref(), Some("deployer"));
    let rules = rs.rules.as_ref().unwrap();
    assert_eq!(rules.non_fast_forward, Some(true));
    let pr_rule = rules.pull_request.as_ref().unwrap();
    assert_eq!(pr_rule.required_approving_review_count, Some(1));
    let bp = spec.branch_protection.as_ref().unwrap();
    assert_eq!(bp.len(), 1);
    assert_eq!(bp[0].pattern, "main");
    let labels = spec.labels.as_ref().unwrap();
    assert_eq!(labels[0].name, "kind/bug");
}

#[test]
fn test_resolve_patch_path_default() {
    let rule = Rule {
        path: String::from("Cargo.toml"),
        strategy: Strategy::Patch,
        source: None,
        patch: None,
        preserve_markers: None,
    };
    assert_eq!(
        resolve_patch_path(&rule),
        ".github/graft/patches/Cargo.toml.patch"
    );
}

#[test]
fn test_resolve_patch_path_nested() {
    let rule = Rule {
        path: String::from(".github/workflows/ci.yaml"),
        strategy: Strategy::Patch,
        source: None,
        patch: None,
        preserve_markers: None,
    };
    assert_eq!(
        resolve_patch_path(&rule),
        ".github/graft/patches/.github/workflows/ci.yaml.patch"
    );
}

#[test]
fn test_resolve_patch_path_explicit() {
    let rule = Rule {
        path: String::from("Cargo.toml"),
        strategy: Strategy::Patch,
        source: None,
        patch: Some(String::from("custom/cargo.patch")),
        preserve_markers: None,
    };
    assert_eq!(resolve_patch_path(&rule), "custom/cargo.patch");
}

#[test]
fn test_schema_pattern_missing_ref_is_error() {
    expect_schema_error_contains(
        r"
upstream:
  repo: owner/repo
files:
  - path: foo.txt
    strategy: replace
spec:
  actions:
    enabled: true
    allowed_actions: selected
    selected_actions:
      patterns_allowed:
        - 'jdx/mise-action'
",
        "no ref specifier",
    );
}

#[test]
fn test_schema_pattern_uppercase_owner_is_error() {
    expect_schema_error_contains(
        r"
upstream:
  repo: owner/repo
files:
  - path: foo.txt
    strategy: replace
spec:
  actions:
    enabled: true
    allowed_actions: selected
    selected_actions:
      patterns_allowed:
        - 'Songmu/tagpr@*'
",
        "uppercase",
    );
}

#[test]
fn test_schema_pattern_with_wildcard_ref_is_ok() {
    expect_schema_ok(
        r"
upstream:
  repo: owner/repo
files:
  - path: foo.txt
    strategy: replace
spec:
  actions:
    enabled: true
    allowed_actions: selected
    selected_actions:
      patterns_allowed:
        - 'jdx/mise-action@*'
        - 'songmu/tagpr@*'
",
    );
}

#[test]
fn test_schema_ignore_is_valid() {
    expect_schema_ok(
        r"
upstream:
  repo: owner/repo
files:
  - path: foo.txt
    strategy: ignore
",
    );
}

#[test]
fn test_schema_ignore_with_source() {
    expect_schema_error(
        r"
upstream:
  repo: owner/repo
files:
  - path: foo.txt
    strategy: ignore
    source: bar.txt
",
        "source",
    );
}

#[test]
fn test_schema_ignore_with_patch() {
    expect_schema_error(
        r"
upstream:
  repo: owner/repo
files:
  - path: foo.txt
    strategy: ignore
    patch: foo.patch
",
        "patch",
    );
}

#[test]
fn test_strategy_display() {
    assert_eq!(Strategy::Replace.to_string(), "replace");
    assert_eq!(Strategy::CreateOnly.to_string(), "create_only");
    assert_eq!(Strategy::Delete.to_string(), "delete");
    assert_eq!(Strategy::Patch.to_string(), "patch");
    assert_eq!(Strategy::Ignore.to_string(), "ignore");
}

#[test]
fn validate_schema_merge_strategy_all_disabled_is_error() {
    expect_schema_error(
        r"
upstream:
  repo: owner/repo
files:
  - path: foo.txt
    strategy: replace
spec:
  merge_strategy:
    allow_merge_commit: false
    allow_squash_merge: false
    allow_rebase_merge: false
",
        "spec.merge_strategy",
    );
}

#[test]
fn validate_schema_merge_strategy_one_enabled_is_ok() {
    expect_schema_ok(
        r"
upstream:
  repo: owner/repo
files:
  - path: foo.txt
    strategy: replace
spec:
  merge_strategy:
    allow_merge_commit: false
    allow_squash_merge: false
    allow_rebase_merge: true
",
    );
}

#[test]
fn validate_schema_allowed_actions_invalid_value_is_error() {
    expect_schema_error(
        r"
upstream:
  repo: owner/repo
files:
  - path: foo.txt
    strategy: replace
spec:
  actions:
    allowed_actions: bad_value
",
        "spec.actions.allowed_actions",
    );
}

#[test]
fn validate_schema_allowed_actions_valid_value_is_ok() {
    expect_schema_ok(
        r"
upstream:
  repo: owner/repo
files:
  - path: foo.txt
    strategy: replace
spec:
  actions:
    allowed_actions: all
",
    );
}

#[test]
fn validate_schema_allowed_actions_selected_without_patterns_is_error() {
    expect_schema_error(
        r"
upstream:
  repo: owner/repo
files:
  - path: foo.txt
    strategy: replace
spec:
  actions:
    allowed_actions: selected
",
        "spec.actions.selected_actions",
    );
}

#[test]
fn validate_schema_allowed_actions_selected_with_patterns_is_ok() {
    expect_schema_ok(
        r"
upstream:
  repo: owner/repo
files:
  - path: foo.txt
    strategy: replace
spec:
  actions:
    allowed_actions: selected
    selected_actions:
      github_owned_allowed: true
",
    );
}

#[test]
fn validate_schema_visibility_invalid_value_is_error() {
    expect_schema_error(
        r"
upstream:
  repo: owner/repo
files:
  - path: foo.txt
    strategy: replace
spec:
  visibility: bad_value
",
        "spec.visibility",
    );
}

#[test]
fn validate_schema_visibility_valid_value_is_ok() {
    expect_schema_ok(
        r"
upstream:
  repo: owner/repo
files:
  - path: foo.txt
    strategy: replace
spec:
  visibility: public
",
    );
}

#[test]
fn validate_schema_label_sync_invalid_value_is_error() {
    expect_schema_error(
        r"
upstream:
  repo: owner/repo
files:
  - path: foo.txt
    strategy: replace
spec:
  label_sync: bad_value
",
        "spec.label_sync",
    );
}

#[test]
fn validate_schema_label_sync_valid_value_is_ok() {
    expect_schema_ok(
        r"
upstream:
  repo: owner/repo
files:
  - path: foo.txt
    strategy: replace
spec:
  label_sync: mirror
",
    );
}

#[test]
fn validate_schema_merge_commit_title_invalid_value_is_error() {
    expect_schema_error(
        r"
upstream:
  repo: owner/repo
files:
  - path: foo.txt
    strategy: replace
spec:
  merge_strategy:
    merge_commit_title: bad_value
",
        "spec.merge_strategy.merge_commit_title",
    );
}

#[test]
fn validate_schema_merge_commit_title_valid_value_is_ok() {
    expect_schema_ok(
        r"
upstream:
  repo: owner/repo
files:
  - path: foo.txt
    strategy: replace
spec:
  merge_strategy:
    merge_commit_title: PR_TITLE
",
    );
}

#[test]
fn validate_schema_merge_commit_message_invalid_value_is_error() {
    expect_schema_error(
        r"
upstream:
  repo: owner/repo
files:
  - path: foo.txt
    strategy: replace
spec:
  merge_strategy:
    merge_commit_message: COMMIT_MESSAGES
",
        "spec.merge_strategy.merge_commit_message",
    );
}

#[test]
fn validate_schema_merge_commit_message_valid_value_is_ok() {
    expect_schema_ok(
        r"
upstream:
  repo: owner/repo
files:
  - path: foo.txt
    strategy: replace
spec:
  merge_strategy:
    merge_commit_message: PR_BODY
",
    );
}

#[test]
fn validate_schema_squash_merge_commit_title_invalid_value_is_error() {
    expect_schema_error(
        r"
upstream:
  repo: owner/repo
files:
  - path: foo.txt
    strategy: replace
spec:
  merge_strategy:
    squash_merge_commit_title: bad_value
",
        "spec.merge_strategy.squash_merge_commit_title",
    );
}

#[test]
fn validate_schema_squash_merge_commit_title_valid_value_is_ok() {
    expect_schema_ok(
        r"
upstream:
  repo: owner/repo
files:
  - path: foo.txt
    strategy: replace
spec:
  merge_strategy:
    squash_merge_commit_title: COMMIT_OR_PR_TITLE
",
    );
}

#[test]
fn validate_schema_squash_merge_commit_message_invalid_value_is_error() {
    expect_schema_error(
        r"
upstream:
  repo: owner/repo
files:
  - path: foo.txt
    strategy: replace
spec:
  merge_strategy:
    squash_merge_commit_message: bad_value
",
        "spec.merge_strategy.squash_merge_commit_message",
    );
}

#[test]
fn validate_schema_squash_merge_commit_message_valid_value_is_ok() {
    expect_schema_ok(
        r"
upstream:
  repo: owner/repo
files:
  - path: foo.txt
    strategy: replace
spec:
  merge_strategy:
    squash_merge_commit_message: COMMIT_MESSAGES
",
    );
}

#[test]
fn validate_schema_workflow_permissions_invalid_value_is_error() {
    expect_schema_error(
        r"
upstream:
  repo: owner/repo
files:
  - path: foo.txt
    strategy: replace
spec:
  actions:
    workflow_permissions: bad_value
",
        "spec.actions.workflow_permissions",
    );
}

#[test]
fn validate_schema_workflow_permissions_valid_value_is_ok() {
    expect_schema_ok(
        r"
upstream:
  repo: owner/repo
files:
  - path: foo.txt
    strategy: replace
spec:
  actions:
    workflow_permissions: read
",
    );
}

#[test]
fn validate_schema_fork_pr_approval_invalid_value_is_error() {
    expect_schema_error(
        r"
upstream:
  repo: owner/repo
files:
  - path: foo.txt
    strategy: replace
spec:
  actions:
    fork_pr_approval: bad_value
",
        "spec.actions.fork_pr_approval",
    );
}

#[test]
fn validate_schema_fork_pr_approval_valid_value_is_ok() {
    expect_schema_ok(
        r"
upstream:
  repo: owner/repo
files:
  - path: foo.txt
    strategy: replace
spec:
  actions:
    fork_pr_approval: first_time_contributors
",
    );
}

#[test]
fn validate_schema_ruleset_target_invalid_value_is_error() {
    expect_schema_error(
        r"
upstream:
  repo: owner/repo
files:
  - path: foo.txt
    strategy: replace
spec:
  rulesets:
    - name: test
      target: bad_value
",
        "spec.rulesets[0].target",
    );
}

#[test]
fn validate_schema_ruleset_target_valid_value_is_ok() {
    expect_schema_ok(
        r"
upstream:
  repo: owner/repo
files:
  - path: foo.txt
    strategy: replace
spec:
  rulesets:
    - name: test
      target: branch
",
    );
}

#[test]
fn validate_schema_ruleset_enforcement_invalid_value_is_error() {
    expect_schema_error(
        r"
upstream:
  repo: owner/repo
files:
  - path: foo.txt
    strategy: replace
spec:
  rulesets:
    - name: test
      enforcement: bad_value
",
        "spec.rulesets[0].enforcement",
    );
}

#[test]
fn validate_schema_ruleset_enforcement_valid_value_is_ok() {
    expect_schema_ok(
        r"
upstream:
  repo: owner/repo
files:
  - path: foo.txt
    strategy: replace
spec:
  rulesets:
    - name: test
      enforcement: active
",
    );
}

#[test]
fn validate_schema_bypass_actor_role_invalid_value_is_error() {
    expect_schema_error(
        r"
upstream:
  repo: owner/repo
files:
  - path: foo.txt
    strategy: replace
spec:
  rulesets:
    - name: test
      bypass_actors:
        - role: bad_value
",
        "spec.rulesets[0].bypass_actors[0].role",
    );
}

#[test]
fn validate_schema_bypass_actor_role_valid_value_is_ok() {
    expect_schema_ok(
        r"
upstream:
  repo: owner/repo
files:
  - path: foo.txt
    strategy: replace
spec:
  rulesets:
    - name: test
      bypass_actors:
        - role: admin
",
    );
}

#[test]
fn validate_schema_bypass_actor_bypass_mode_invalid_value_is_error() {
    expect_schema_error(
        r"
upstream:
  repo: owner/repo
files:
  - path: foo.txt
    strategy: replace
spec:
  rulesets:
    - name: test
      bypass_actors:
        - role: admin
          bypass_mode: bad_value
",
        "spec.rulesets[0].bypass_actors[0].bypass_mode",
    );
}

#[test]
fn validate_schema_bypass_actor_bypass_mode_valid_value_is_ok() {
    expect_schema_ok(
        r"
upstream:
  repo: owner/repo
files:
  - path: foo.txt
    strategy: replace
spec:
  rulesets:
    - name: test
      bypass_actors:
        - role: admin
          bypass_mode: always
",
    );
}

#[test]
fn validate_schema_allowed_merge_methods_invalid_value_is_error() {
    expect_schema_error(
        r"
upstream:
  repo: owner/repo
files:
  - path: foo.txt
    strategy: replace
spec:
  rulesets:
    - name: test
      rules:
        pull_request:
          allowed_merge_methods:
            - bad_value
",
        "spec.rulesets[0].rules.pull_request.allowed_merge_methods[0]",
    );
}

#[test]
fn validate_schema_allowed_merge_methods_valid_value_is_ok() {
    expect_schema_ok(
        r"
upstream:
  repo: owner/repo
files:
  - path: foo.txt
    strategy: replace
spec:
  rulesets:
    - name: test
      rules:
        pull_request:
          allowed_merge_methods:
            - squash
            - merge
",
    );
}

