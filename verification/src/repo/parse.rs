//! Reading the GitHub API's answers into typed settings.
use vstd::prelude::*;

use super::{opt_view, BranchProtectionApi, RepoApiData};
use crate::external::{str_to_lowercase, unicode_lowercase};
use crate::json::{
    collect_texts, deref_opt, json_array, json_bool, json_get, json_str, json_u64, member,
    opt_array, opt_bool, opt_get, opt_str, opt_u64, texts_of, Json,
};
use crate::text::strings_view;

verus! {

/// A text member, when present and not empty.
pub open spec fn non_empty_text(v: Json, key: Seq<char>) -> Option<Seq<char>> {
    match json_str(json_get(v, key)) {
        Some(s) => if s.len() > 0 {
            Some(s)
        } else {
            None
        },
        None => None,
    }
}

/// A boolean member with its default.
pub open spec fn flag_member(v: Json, key: Seq<char>, default: bool) -> bool {
    match json_bool(json_get(v, key)) {
        Some(b) => b,
        None => default,
    }
}

/// What [`parse_repo_api_data`] reads: the description and homepage when
/// present and not empty, the visibility in lowercase (`public` by default),
/// each flag with GitHub's default, the merge commit formats when present.
pub open spec fn repo_data_spec(v: Json, d: RepoApiData) -> bool {
    &&& opt_view(d.description) == non_empty_text(v, "description"@)
    &&& opt_view(d.homepage) == non_empty_text(v, "homepage"@)
    &&& d.visibility@ == unicode_lowercase(
        match json_str(json_get(v, "visibility"@)) {
            Some(s) => s,
            None => "public"@,
        },
    )
    &&& d.archived == flag_member(v, "archived"@, false)
    &&& d.has_issues == flag_member(v, "has_issues"@, true)
    &&& d.has_projects == flag_member(v, "has_projects"@, true)
    &&& d.has_wiki == flag_member(v, "has_wiki"@, true)
    &&& d.has_discussions == flag_member(v, "has_discussions"@, false)
    &&& d.delete_branch_on_merge == flag_member(v, "delete_branch_on_merge"@, false)
    &&& d.allow_merge_commit == flag_member(v, "allow_merge_commit"@, true)
    &&& d.allow_squash_merge == flag_member(v, "allow_squash_merge"@, true)
    &&& d.allow_rebase_merge == flag_member(v, "allow_rebase_merge"@, true)
    &&& d.allow_auto_merge == flag_member(v, "allow_auto_merge"@, false)
    &&& d.allow_update_branch == flag_member(v, "allow_update_branch"@, false)
    &&& d.web_commit_signoff_required == flag_member(v, "web_commit_signoff_required"@, false)
    &&& opt_view(d.squash_merge_commit_title) == json_str(
        json_get(v, "squash_merge_commit_title"@),
    )
    &&& opt_view(d.squash_merge_commit_message) == json_str(
        json_get(v, "squash_merge_commit_message"@),
    )
    &&& opt_view(d.merge_commit_title) == json_str(json_get(v, "merge_commit_title"@))
    &&& opt_view(d.merge_commit_message) == json_str(json_get(v, "merge_commit_message"@))
}

fn text_member(v: &Json, key: &str) -> (r: Option<String>)
    ensures
        opt_view(r) == json_str(json_get(*v, key@)),
{
    match opt_str(v.get(key)) {
        Some(s) => Some(String::from_str(s)),
        None => None,
    }
}

fn non_empty_member(v: &Json, key: &str) -> (r: Option<String>)
    ensures
        opt_view(r) == non_empty_text(*v, key@),
{
    match opt_str(v.get(key)) {
        Some(s) => if s.unicode_len() > 0 {
            Some(String::from_str(s))
        } else {
            None
        },
        None => None,
    }
}

fn flag_member_exec(v: &Json, key: &str, default: bool) -> (r: bool)
    ensures
        r == flag_member(*v, key@, default),
{
    match opt_bool(v.get(key)) {
        Some(b) => b,
        None => default,
    }
}

/// Read the repository's general settings from the API's answer.
pub fn parse_repo_api_data(v: &Json) -> (r: RepoApiData)
    ensures
        repo_data_spec(*v, r),
{
    let visibility = match opt_str(v.get("visibility")) {
        Some(s) => str_to_lowercase(s),
        None => str_to_lowercase("public"),
    };
    RepoApiData {
        description: non_empty_member(v, "description"),
        homepage: non_empty_member(v, "homepage"),
        visibility,
        archived: flag_member_exec(v, "archived", false),
        has_issues: flag_member_exec(v, "has_issues", true),
        has_projects: flag_member_exec(v, "has_projects", true),
        has_wiki: flag_member_exec(v, "has_wiki", true),
        has_discussions: flag_member_exec(v, "has_discussions", false),
        delete_branch_on_merge: flag_member_exec(v, "delete_branch_on_merge", false),
        allow_merge_commit: flag_member_exec(v, "allow_merge_commit", true),
        allow_squash_merge: flag_member_exec(v, "allow_squash_merge", true),
        allow_rebase_merge: flag_member_exec(v, "allow_rebase_merge", true),
        allow_auto_merge: flag_member_exec(v, "allow_auto_merge", false),
        allow_update_branch: flag_member_exec(v, "allow_update_branch", false),
        web_commit_signoff_required: flag_member_exec(v, "web_commit_signoff_required", false),
        squash_merge_commit_title: text_member(v, "squash_merge_commit_title"),
        squash_merge_commit_message: text_member(v, "squash_merge_commit_message"),
        merge_commit_title: text_member(v, "merge_commit_title"),
        merge_commit_message: text_member(v, "merge_commit_message"),
    }
}

/// A boolean member of a member, `false` by default.
pub open spec fn nested_flag(v: Json, outer: Seq<char>, key: Seq<char>) -> bool {
    match json_bool(opt_get(json_get(v, outer), key)) {
        Some(b) => b,
        None => false,
    }
}

/// What [`parse_branch_protection_api`] reads: the review count (capped at
/// `u32::MAX`) and review flags, the status check strictness and context
/// names, and the enabled state of admin enforcement, force pushes and
/// deletions; missing flags are off and missing contexts empty.
pub open spec fn protection_spec(v: Json, p: BranchProtectionApi) -> bool {
    &&& p.required_reviews == match json_u64(
        opt_get(json_get(v, "required_pull_request_reviews"@), "required_approving_review_count"@),
    ) {
        Some(n) => Some(
            if n <= u32::MAX {
                n as u32
            } else {
                u32::MAX
            },
        ),
        None => None,
    }
    &&& p.dismiss_stale_reviews == nested_flag(
        v,
        "required_pull_request_reviews"@,
        "dismiss_stale_reviews"@,
    )
    &&& p.require_code_owner_reviews == nested_flag(
        v,
        "required_pull_request_reviews"@,
        "require_code_owner_reviews"@,
    )
    &&& p.strict_status_checks == nested_flag(v, "required_status_checks"@, "strict"@)
    &&& strings_view(p.status_check_contexts@) == match json_array(
        opt_get(json_get(v, "required_status_checks"@), "contexts"@),
    ) {
        Some(a) => texts_of(a),
        None => Seq::empty(),
    }
    &&& p.enforce_admins == nested_flag(v, "enforce_admins"@, "enabled"@)
    &&& p.allow_force_pushes == nested_flag(v, "allow_force_pushes"@, "enabled"@)
    &&& p.allow_deletions == nested_flag(v, "allow_deletions"@, "enabled"@)
}

fn nested_flag_exec(v: &Json, outer: &str, key: &str) -> (r: bool)
    ensures
        r == nested_flag(*v, outer@, key@),
{
    match opt_bool(member(v.get(outer), key)) {
        Some(b) => b,
        None => false,
    }
}

/// Read a branch's classic protection from the API's answer.
pub fn parse_branch_protection_api(v: &Json) -> (r: BranchProtectionApi)
    ensures
        protection_spec(*v, r),
{
    let required_reviews = match opt_u64(
        member(v.get("required_pull_request_reviews"), "required_approving_review_count"),
    ) {
        Some(n) => Some(
            if n <= u32::MAX as u64 {
                n as u32
            } else {
                u32::MAX
            },
        ),
        None => None,
    };
    let contexts = match opt_array(member(v.get("required_status_checks"), "contexts")) {
        Some(a) => collect_texts(a),
        None => {
            let e: Vec<String> = Vec::new();
            assert(strings_view(e@) =~= Seq::<Seq<char>>::empty());
            e
        },
    };
    BranchProtectionApi {
        required_reviews,
        dismiss_stale_reviews: nested_flag_exec(
            v,
            "required_pull_request_reviews",
            "dismiss_stale_reviews",
        ),
        require_code_owner_reviews: nested_flag_exec(
            v,
            "required_pull_request_reviews",
            "require_code_owner_reviews",
        ),
        strict_status_checks: nested_flag_exec(v, "required_status_checks", "strict"),
        status_check_contexts: contexts,
        enforce_admins: nested_flag_exec(v, "enforce_admins", "enabled"),
        allow_force_pushes: nested_flag_exec(v, "allow_force_pushes", "enabled"),
        allow_deletions: nested_flag_exec(v, "allow_deletions", "enabled"),
    }
}

} // verus!
