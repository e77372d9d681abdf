//! Whether spec rulesets and branch protections agree with the live ones.
use vstd::prelude::*;

use super::BranchProtectionApi;
use crate::json::{
    collect_texts, deref_opt, json_array, json_bool, json_get, json_str, json_u64, member,
    opt_array, opt_bool, opt_get, opt_str, opt_u64, texts_of, Json,
};
use crate::manifest::{
    BranchProtection, PullRequestRule, RefNameCondition, RequiredStatusChecks, Ruleset,
    RulesetRules, StatusCheckContext,
};
use crate::repo::compare::texts_or_empty;
use crate::text::{strings_view, text_eq};
use crate::text_order::{copy_texts, same_texts, same_texts_exec};

verus! {

/// The key under which ref name conditions list the refs they apply to.
pub open spec fn inclusion_key() -> Seq<char> {
    "incl"@ + "ude"@
}

/// Build [`inclusion_key`].
pub fn inclusion_key_text() -> (s: String)
    ensures
        s@ == inclusion_key(),
{
    let mut s = String::from_str("incl");
    s.append("ude");
    s
}

/// The texts of a list member of an optional object (none as empty).
pub open spec fn member_texts(v: Option<Json>, key: Seq<char>) -> Seq<Seq<char>> {
    match json_array(opt_get(v, key)) {
        Some(a) => texts_of(a),
        None => Seq::empty(),
    }
}

fn member_texts_exec(v: Option<&Json>, key: &str) -> (r: Vec<String>)
    ensures
        strings_view(r@) == member_texts(deref_opt(v), key@),
{
    match opt_array(member(v, key)) {
        Some(a) => collect_texts(a),
        None => {
            let r: Vec<String> = Vec::new();
            assert(strings_view(r@) =~= Seq::<Seq<char>>::empty());
            r
        },
    }
}

fn texts_or_empty_exec(o: &Option<Vec<String>>) -> (r: Vec<String>)
    ensures
        strings_view(r@) == texts_or_empty(*o),
{
    match o {
        Some(v) => copy_texts(v.as_slice()),
        None => {
            let r: Vec<String> = Vec::new();
            assert(strings_view(r@) =~= Seq::<Seq<char>>::empty());
            r
        },
    }
}

// ---------------------------------------------------------------------------
// Rulesets
// ---------------------------------------------------------------------------

/// Whether the ref name conditions agree: the same refs listed for
/// inclusion and for exclusion, in any order (absent lists as empty).
pub open spec fn conditions_match_spec(rn: RefNameCondition, live: Json) -> bool {
    let live_rn = opt_get(json_get(live, "conditions"@), "ref_name"@);
    same_texts(texts_or_empty(rn.includes), member_texts(live_rn, inclusion_key()))
        && same_texts(texts_or_empty(rn.exclude), member_texts(live_rn, "exclude"@))
}

/// Whether the ref name conditions of a spec ruleset agree with the live
/// ruleset.
pub fn ruleset_conditions_match(ref_name: &RefNameCondition, live: &Json) -> (r: bool)
    ensures
        r == conditions_match_spec(*ref_name, *live),
{
    let live_rn = member(live.get("conditions"), "ref_name");
    let key = inclusion_key_text();
    let live_inc = member_texts_exec(live_rn, key.as_str());
    let live_exc = member_texts_exec(live_rn, "exclude");
    let spec_inc = texts_or_empty_exec(&ref_name.includes);
    let spec_exc = texts_or_empty_exec(&ref_name.exclude);
    same_texts_exec(spec_inc.as_slice(), live_inc.as_slice()) && same_texts_exec(
        spec_exc.as_slice(),
        live_exc.as_slice(),
    )
}

/// Whether some live rule has type `t`.
pub open spec fn has_rule_type(rules: Seq<Json>, t: Seq<char>) -> bool {
    exists|i: int|
        0 <= i < rules.len() && #[trigger] json_str(json_get(rules[i], "type"@)) == Some(t)
}

/// The first live rule of type `t`.
pub open spec fn rule_of_type(rules: Seq<Json>, t: Seq<char>) -> Option<Json>
    decreases rules.len(),
{
    if rules.len() == 0 {
        None
    } else if json_str(json_get(rules[0], "type"@)) == Some(t) {
        Some(rules[0])
    } else {
        rule_of_type(rules.drop_first(), t)
    }
}

/// The parameters of the first live rule of type `t`.
pub open spec fn rule_params(rules: Seq<Json>, t: Seq<char>) -> Option<Json> {
    opt_get(rule_of_type(rules, t), "parameters"@)
}

pub fn find_rule<'a>(rules: &'a Vec<Json>, t: &str) -> (r: Option<&'a Json>)
    ensures
        deref_opt(r) == rule_of_type(rules@, t@),
        (r is Some) == has_rule_type(rules@, t@),
{
    let mut i: usize = 0;
    assert(rules@.skip(0) =~= rules@);
    while i < rules.len()
        invariant
            i <= rules.len(),
            rule_of_type(rules@, t@) == rule_of_type(rules@.skip(i as int), t@),
            forall|j: int|
                0 <= j < i ==> json_str(json_get(#[trigger] rules@[j], "type"@)) != Some(t@),
        decreases rules.len() - i,
    {
        assert(rules@.skip(i as int).drop_first() =~= rules@.skip(i + 1));
        match rules[i].get("type") {
            Some(v) => match v.as_str() {
                Some(s) => {
                    if text_eq(s, t) {
                        return Some(&rules[i]);
                    }
                },
                None => {},
            },
            None => {},
        }
        i = i + 1;
    }
    None
}

/// Whether a boolean rule agrees: when the spec sets it, a rule of that type
/// is present exactly when it is enabled.
pub open spec fn flag_rule_matches(rules: Seq<Json>, t: Seq<char>, spec: Option<bool>) -> bool {
    match spec {
        Some(v) => has_rule_type(rules, t) == v,
        None => true,
    }
}

/// Whether a whole-number parameter agrees (or the spec leaves it out).
pub open spec fn u64_param_matches(params: Json, key: Seq<char>, spec: Option<u64>) -> bool {
    match spec {
        Some(v) => json_u64(json_get(params, key)) == Some(v),
        None => true,
    }
}

/// Whether a boolean parameter agrees (or the spec leaves it out).
pub open spec fn bool_param_matches(params: Json, key: Seq<char>, spec: Option<bool>) -> bool {
    match spec {
        Some(v) => json_bool(json_get(params, key)) == Some(v),
        None => true,
    }
}

/// Whether the pull request rule agrees with the live parameters: each
/// setting the spec names equal, the merge methods the same in any order.
/// With no live parameters it does not.
pub open spec fn pr_matches_spec(pr: PullRequestRule, live: Option<Json>) -> bool {
    match live {
        None => false,
        Some(lp) => {
            &&& u64_param_matches(
                lp,
                "required_approving_review_count"@,
                match pr.required_approving_review_count {
                    Some(n) => Some(n as u64),
                    None => None,
                },
            )
            &&& bool_param_matches(
                lp,
                "dismiss_stale_reviews_on_push"@,
                pr.dismiss_stale_reviews_on_push,
            )
            &&& bool_param_matches(lp, "require_code_owner_review"@, pr.require_code_owner_review)
            &&& bool_param_matches(
                lp,
                "require_last_push_approval"@,
                pr.require_last_push_approval,
            )
            &&& bool_param_matches(
                lp,
                "required_review_thread_resolution"@,
                pr.required_review_thread_resolution,
            )
            &&& match pr.allowed_merge_methods {
                Some(m) => same_texts(
                    strings_view(m@),
                    member_texts(Some(lp), "allowed_merge_methods"@),
                ),
                None => true,
            }
        },
    }
}

fn u64_param_ok(params: &Json, key: &str, spec: Option<u64>) -> (r: bool)
    ensures
        r == u64_param_matches(*params, key@, spec),
{
    match spec {
        Some(v) => match params.get(key) {
            Some(x) => x.as_u64() == Some(v),
            None => false,
        },
        None => true,
    }
}

fn bool_param_ok(params: &Json, key: &str, spec: Option<bool>) -> (r: bool)
    ensures
        r == bool_param_matches(*params, key@, spec),
{
    match spec {
        Some(v) => match params.get(key) {
            Some(x) => x.as_bool() == Some(v),
            None => false,
        },
        None => true,
    }
}

/// Whether the pull request rule agrees with the live parameters.
pub fn ruleset_pr_matches(spec_pr: &PullRequestRule, live_params: Option<&Json>) -> (r: bool)
    ensures
        r == pr_matches_spec(*spec_pr, deref_opt(live_params)),
{
    let lp = match live_params {
        Some(p) => p,
        None => return false,
    };
    let count = match spec_pr.required_approving_review_count {
        Some(n) => Some(n as u64),
        None => None,
    };
    let methods_match = match &spec_pr.allowed_merge_methods {
        Some(m) => {
            let live_methods = member_texts_exec(Some(lp), "allowed_merge_methods");
            same_texts_exec(m.as_slice(), live_methods.as_slice())
        },
        None => true,
    };
    u64_param_ok(lp, "required_approving_review_count", count) && bool_param_ok(
        lp,
        "dismiss_stale_reviews_on_push",
        spec_pr.dismiss_stale_reviews_on_push,
    ) && bool_param_ok(lp, "require_code_owner_review", spec_pr.require_code_owner_review)
        && bool_param_ok(lp, "require_last_push_approval", spec_pr.require_last_push_approval)
        && bool_param_ok(
        lp,
        "required_review_thread_resolution",
        spec_pr.required_review_thread_resolution,
    ) && methods_match
}

/// The context names of the live status checks, in order (items without a
/// text `context` are skipped).
pub open spec fn context_texts(items: Seq<Json>) -> Seq<Seq<char>>
    decreases items.len(),
{
    if items.len() == 0 {
        Seq::empty()
    } else {
        context_texts(items.drop_last()) + match json_str(json_get(items.last(), "context"@)) {
            Some(c) => seq![c],
            None => Seq::empty(),
        }
    }
}

/// The context names of the spec status checks.
pub open spec fn spec_context_names(ctxs: Seq<StatusCheckContext>) -> Seq<Seq<char>> {
    ctxs.map_values(|c: StatusCheckContext| c.context@)
}

/// Whether the status check rule agrees with the live parameters: the strict
/// policy when the spec sets it, and the same context names in any order.
/// With no live parameters it does not.
pub open spec fn status_checks_match_spec(sc: RequiredStatusChecks, live: Option<Json>) -> bool {
    match live {
        None => false,
        Some(lp) => {
            &&& bool_param_matches(
                lp,
                "strict_required_status_checks_policy"@,
                sc.strict_required_status_checks_policy,
            )
            &&& match sc.contexts {
                Some(ctxs) => same_texts(
                    spec_context_names(ctxs@),
                    match json_array(json_get(lp, "required_status_checks"@)) {
                        Some(a) => context_texts(a),
                        None => Seq::empty(),
                    },
                ),
                None => true,
            }
        },
    }
}

pub fn context_names_of(items: &Vec<Json>) -> (r: Vec<String>)
    ensures
        strings_view(r@) == context_texts(items@),
{
    let mut r: Vec<String> = Vec::new();
    let mut i: usize = 0;
    assert(items@.take(0) =~= Seq::<Json>::empty());
    while i < items.len()
        invariant
            i <= items.len(),
            strings_view(r@) == context_texts(items@.take(i as int)),
        decreases items.len() - i,
    {
        assert(items@.take(i + 1).drop_last() =~= items@.take(i as int));
        let ghost before = r@;
        match opt_str(items[i].get("context")) {
            Some(c) => {
                r.push(String::from_str(c));
                assert(strings_view(r@) =~= strings_view(before).push(c@));
            },
            None => {
                assert(strings_view(r@) =~= strings_view(before) + Seq::empty());
            },
        }
        i = i + 1;
    }
    assert(items@.take(i as int) =~= items@);
    r
}

pub fn spec_context_names_exec(ctxs: &Vec<StatusCheckContext>) -> (r: Vec<String>)
    ensures
        strings_view(r@) == spec_context_names(ctxs@),
{
    let mut r: Vec<String> = Vec::new();
    let mut i: usize = 0;
    while i < ctxs.len()
        invariant
            i <= ctxs.len(),
            strings_view(r@) == spec_context_names(ctxs@).take(i as int),
        decreases ctxs.len() - i,
    {
        let ghost before = r@;
        r.push(String::from_str(ctxs[i].context.as_str()));
        assert(strings_view(r@) =~= strings_view(before).push(ctxs@[i as int].context@));
        assert(strings_view(r@) =~= spec_context_names(ctxs@).take(i + 1));
        i = i + 1;
    }
    assert(spec_context_names(ctxs@).take(i as int) =~= spec_context_names(ctxs@));
    r
}

/// Whether the status check rule agrees with the live parameters.
pub fn ruleset_status_checks_match(
    spec_sc: &RequiredStatusChecks,
    live_params: Option<&Json>,
) -> (r: bool)
    ensures
        r == status_checks_match_spec(*spec_sc, deref_opt(live_params)),
{
    let lsc = match live_params {
        Some(p) => p,
        None => return false,
    };
    if !bool_param_ok(
        lsc,
        "strict_required_status_checks_policy",
        spec_sc.strict_required_status_checks_policy,
    ) {
        return false;
    }
    match &spec_sc.contexts {
        Some(ctxs) => {
            let live_names = match opt_array(lsc.get("required_status_checks")) {
                Some(a) => context_names_of(a),
                None => {
                    let r: Vec<String> = Vec::new();
                    assert(strings_view(r@) =~= Seq::<Seq<char>>::empty());
                    r
                },
            };
            let spec_names = spec_context_names_exec(ctxs);
            same_texts_exec(spec_names.as_slice(), live_names.as_slice())
        },
        None => true,
    }
}

/// Whether the rules of a spec ruleset agree with the live rules: each
/// boolean rule the spec sets, and the pull request and status check rules
/// against the parameters of the first live rule of their type.
pub open spec fn rules_match_spec(rules: RulesetRules, live: Seq<Json>) -> bool {
    &&& flag_rule_matches(live, "non_fast_forward"@, rules.non_fast_forward)
    &&& flag_rule_matches(live, "deletion"@, rules.deletion)
    &&& flag_rule_matches(live, "creation"@, rules.creation)
    &&& flag_rule_matches(live, "required_linear_history"@, rules.required_linear_history)
    &&& flag_rule_matches(live, "required_signatures"@, rules.required_signatures)
    &&& match rules.pull_request {
        Some(pr) => pr_matches_spec(pr, rule_params(live, "pull_request"@)),
        None => true,
    }
    &&& match rules.required_status_checks {
        Some(sc) => status_checks_match_spec(sc, rule_params(live, "required_status_checks"@)),
        None => true,
    }
}

fn flag_rule_ok(rules: &Vec<Json>, t: &str, spec: Option<bool>) -> (r: bool)
    ensures
        r == flag_rule_matches(rules@, t@, spec),
{
    match spec {
        Some(v) => find_rule(rules, t).is_some() == v,
        None => true,
    }
}

/// Whether the rules of a spec ruleset agree with the live rules.
pub fn ruleset_rules_match(rules: &RulesetRules, live_rules: &Vec<Json>) -> (r: bool)
    ensures
        r == rules_match_spec(*rules, live_rules@),
{
    if !flag_rule_ok(live_rules, "non_fast_forward", rules.non_fast_forward) {
        return false;
    }
    if !flag_rule_ok(live_rules, "deletion", rules.deletion) {
        return false;
    }
    if !flag_rule_ok(live_rules, "creation", rules.creation) {
        return false;
    }
    if !flag_rule_ok(live_rules, "required_linear_history", rules.required_linear_history) {
        return false;
    }
    if !flag_rule_ok(live_rules, "required_signatures", rules.required_signatures) {
        return false;
    }
    match &rules.pull_request {
        Some(pr) => {
            let live_pr = member(find_rule(live_rules, "pull_request"), "parameters");
            if !ruleset_pr_matches(pr, live_pr) {
                return false;
            }
        },
        None => {},
    }
    match &rules.required_status_checks {
        Some(sc) => {
            let live_sc = member(find_rule(live_rules, "required_status_checks"), "parameters");
            if !ruleset_status_checks_match(sc, live_sc) {
                return false;
            }
        },
        None => {},
    }
    true
}

/// A text the spec may leave out, with its default.
pub open spec fn text_or(o: Option<String>, default: Seq<char>) -> Seq<char> {
    match o {
        Some(s) => s@,
        None => default,
    }
}

/// The live rules of a ruleset (none as empty).
pub open spec fn live_rules_of(live: Json) -> Seq<Json> {
    match json_array(json_get(live, "rules"@)) {
        Some(a) => a,
        None => Seq::empty(),
    }
}

/// Whether a spec ruleset agrees with the live ruleset: target (default
/// `branch`) and enforcement (default `active`) equal, ref name conditions
/// and rules agreeing where the spec names them.  Bypass actors are not
/// compared.
pub open spec fn ruleset_matches_spec(rs: Ruleset, live: Json) -> bool {
    &&& json_str(json_get(live, "target"@)) == Some(text_or(rs.target, "branch"@))
    &&& json_str(json_get(live, "enforcement"@)) == Some(text_or(rs.enforcement, "active"@))
    &&& match rs.conditions {
        Some(c) => match c.ref_name {
            Some(rn) => conditions_match_spec(rn, live),
            None => true,
        },
        None => true,
    }
    &&& match rs.rules {
        Some(rules) => rules_match_spec(rules, live_rules_of(live)),
        None => true,
    }
}

fn str_member_is(v: &Json, key: &str, expected: &str) -> (r: bool)
    ensures
        r == (json_str(json_get(*v, key@)) == Some(expected@)),
{
    match opt_str(v.get(key)) {
        Some(s) => text_eq(s, expected),
        None => false,
    }
}

/// Return `true` when the spec ruleset matches the live ruleset.
pub fn ruleset_matches(spec: &Ruleset, live: &Json) -> (r: bool)
    ensures
        r == ruleset_matches_spec(*spec, *live),
{
    let target = match &spec.target {
        Some(t) => t.as_str(),
        None => "branch",
    };
    if !str_member_is(live, "target", target) {
        return false;
    }
    let enforcement = match &spec.enforcement {
        Some(e) => e.as_str(),
        None => "active",
    };
    if !str_member_is(live, "enforcement", enforcement) {
        return false;
    }
    match &spec.conditions {
        Some(cond) => match &cond.ref_name {
            Some(ref_name) => {
                if !ruleset_conditions_match(ref_name, live) {
                    return false;
                }
            },
            None => {},
        },
        None => {},
    }
    match &spec.rules {
        Some(rules) => {
            let empty: Vec<Json> = Vec::new();
            let live_rules = match opt_array(live.get("rules")) {
                Some(a) => a,
                None => &empty,
            };
            assert(live_rules@ == live_rules_of(*live));
            if !ruleset_rules_match(rules, live_rules) {
                return false;
            }
        },
        None => {},
    }
    true
}

// ---------------------------------------------------------------------------
// Branch protection
// ---------------------------------------------------------------------------

/// Whether a spec branch protection agrees with the live one: every setting
/// the spec names equal, the status check contexts the same in any order.
pub open spec fn protection_matches_spec(spec: BranchProtection, live: BranchProtectionApi) -> bool {
    &&& match spec.required_reviews {
        Some(v) => live.required_reviews == Some(v),
        None => true,
    }
    &&& match spec.dismiss_stale_reviews {
        Some(v) => live.dismiss_stale_reviews == v,
        None => true,
    }
    &&& match spec.require_code_owner_reviews {
        Some(v) => live.require_code_owner_reviews == v,
        None => true,
    }
    &&& match spec.require_status_checks {
        Some(sc) => {
            &&& match sc.strict {
                Some(s) => live.strict_status_checks == s,
                None => true,
            }
            &&& match sc.contexts {
                Some(ctxs) => same_texts(
                    strings_view(ctxs@),
                    strings_view(live.status_check_contexts@),
                ),
                None => true,
            }
        },
        None => true,
    }
    &&& match spec.enforce_admins {
        Some(v) => live.enforce_admins == v,
        None => true,
    }
    &&& match spec.allow_force_pushes {
        Some(v) => live.allow_force_pushes == v,
        None => true,
    }
    &&& match spec.allow_deletions {
        Some(v) => live.allow_deletions == v,
        None => true,
    }
}

/// Whether a spec branch protection agrees with the live one.
pub fn protection_matches(spec: &BranchProtection, live: &BranchProtectionApi) -> (r: bool)
    ensures
        r == protection_matches_spec(*spec, *live),
{
    match spec.required_reviews {
        Some(v) => {
            if live.required_reviews != Some(v) {
                return false;
            }
        },
        None => {},
    }
    match spec.dismiss_stale_reviews {
        Some(v) => {
            if live.dismiss_stale_reviews != v {
                return false;
            }
        },
        None => {},
    }
    match spec.require_code_owner_reviews {
        Some(v) => {
            if live.require_code_owner_reviews != v {
                return false;
            }
        },
        None => {},
    }
    match &spec.require_status_checks {
        Some(sc) => {
            match sc.strict {
                Some(strict) => {
                    if live.strict_status_checks != strict {
                        return false;
                    }
                },
                None => {},
            }
            match &sc.contexts {
                Some(ctxs) => {
                    if !same_texts_exec(ctxs.as_slice(), live.status_check_contexts.as_slice()) {
                        return false;
                    }
                },
                None => {},
            }
        },
        None => {},
    }
    match spec.enforce_admins {
        Some(v) => {
            if live.enforce_admins != v {
                return false;
            }
        },
        None => {},
    }
    match spec.allow_force_pushes {
        Some(v) => {
            if live.allow_force_pushes != v {
                return false;
            }
        },
        None => {},
    }
    match spec.allow_deletions {
        Some(v) => {
            if live.allow_deletions != v {
                return false;
            }
        },
        None => {},
    }
    true
}


/// Whether a branch protection agrees with the live one does not depend on
/// the order in which the live protection lists its required status checks.
pub proof fn lemma_protection_contexts_order(
    spec: BranchProtection,
    live: BranchProtectionApi,
    reordered: BranchProtectionApi,
)
    requires
        strings_view(reordered.status_check_contexts@).to_multiset() == strings_view(
            live.status_check_contexts@,
        ).to_multiset(),
        reordered.required_reviews == live.required_reviews,
        reordered.dismiss_stale_reviews == live.dismiss_stale_reviews,
        reordered.require_code_owner_reviews == live.require_code_owner_reviews,
        reordered.strict_status_checks == live.strict_status_checks,
        reordered.enforce_admins == live.enforce_admins,
        reordered.allow_force_pushes == live.allow_force_pushes,
        reordered.allow_deletions == live.allow_deletions,
    ensures
        protection_matches_spec(spec, reordered) == protection_matches_spec(spec, live),
{
}

} // verus!
