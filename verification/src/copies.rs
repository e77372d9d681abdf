//! Copies of spec rulesets and branch protections, field for field.
use vstd::prelude::*;

use crate::manifest::{
    BranchProtection, BranchProtectionStatusChecks, BypassActor, PullRequestRule,
    RefNameCondition, RequiredStatusChecks, Ruleset, RulesetConditions, RulesetRules,
    StatusCheckContext,
};
use crate::text::strings_view;
use crate::text_order::copy_texts;

verus! {

/// An optional string taken by value.
pub open spec fn text_opt(o: Option<String>) -> Option<Seq<char>> {
    match o {
        Some(s) => Some(s@),
        None => None,
    }
}

/// An optional list of strings taken by value.
pub open spec fn texts_opt(o: Option<Vec<String>>) -> Option<Seq<Seq<char>>> {
    match o {
        Some(v) => Some(strings_view(v@)),
        None => None,
    }
}

fn copy_opt_text(o: &Option<String>) -> (r: Option<String>)
    ensures
        text_opt(r) == text_opt(*o),
{
    match o {
        Some(s) => Some(String::from_str(s.as_str())),
        None => None,
    }
}

fn copy_opt_texts(o: &Option<Vec<String>>) -> (r: Option<Vec<String>>)
    ensures
        texts_opt(r) == texts_opt(*o),
{
    match o {
        Some(v) => Some(copy_texts(v.as_slice())),
        None => None,
    }
}

// ---------------------------------------------------------------------------
// Branch protection
// ---------------------------------------------------------------------------

/// The required status checks of a branch protection taken by value: the
/// strict flag and the contexts.
pub open spec fn protection_checks_value(o: Option<BranchProtectionStatusChecks>) -> Option<
    (Option<bool>, Option<Seq<Seq<char>>>),
> {
    match o {
        Some(c) => Some((c.strict, texts_opt(c.contexts))),
        None => None,
    }
}

/// A branch protection taken by value.
pub struct ProtectionValue {
    pub pattern: Seq<char>,
    pub required_reviews: Option<u32>,
    pub dismiss_stale_reviews: Option<bool>,
    pub require_code_owner_reviews: Option<bool>,
    pub require_status_checks: Option<(Option<bool>, Option<Seq<Seq<char>>>)>,
    pub enforce_admins: Option<bool>,
    pub allow_force_pushes: Option<bool>,
    pub allow_deletions: Option<bool>,
}

/// A branch protection taken by value.
pub open spec fn protection_value(bp: BranchProtection) -> ProtectionValue {
    ProtectionValue {
        pattern: bp.pattern@,
        required_reviews: bp.required_reviews,
        dismiss_stale_reviews: bp.dismiss_stale_reviews,
        require_code_owner_reviews: bp.require_code_owner_reviews,
        require_status_checks: protection_checks_value(bp.require_status_checks),
        enforce_admins: bp.enforce_admins,
        allow_force_pushes: bp.allow_force_pushes,
        allow_deletions: bp.allow_deletions,
    }
}

/// A copy of a branch protection.
pub fn copy_protection(bp: &BranchProtection) -> (r: BranchProtection)
    ensures
        protection_value(r) == protection_value(*bp),
{
    let checks = match &bp.require_status_checks {
        Some(sc) => Some(
            BranchProtectionStatusChecks {
                strict: sc.strict,
                contexts: copy_opt_texts(&sc.contexts),
            },
        ),
        None => None,
    };
    BranchProtection {
        pattern: String::from_str(bp.pattern.as_str()),
        required_reviews: bp.required_reviews,
        dismiss_stale_reviews: bp.dismiss_stale_reviews,
        require_code_owner_reviews: bp.require_code_owner_reviews,
        require_status_checks: checks,
        enforce_admins: bp.enforce_admins,
        allow_force_pushes: bp.allow_force_pushes,
        allow_deletions: bp.allow_deletions,
    }
}

// ---------------------------------------------------------------------------
// Rulesets
// ---------------------------------------------------------------------------

/// A bypass actor taken by value.
pub struct ActorValue {
    pub role: Option<Seq<char>>,
    pub team: Option<Seq<char>>,
    pub app: Option<Seq<char>>,
    pub org_admin: Option<bool>,
    pub custom_role: Option<Seq<char>>,
    pub bypass_mode: Option<Seq<char>>,
}

/// A bypass actor taken by value.
pub open spec fn actor_value(a: BypassActor) -> ActorValue {
    ActorValue {
        role: text_opt(a.role),
        team: text_opt(a.team),
        app: text_opt(a.app),
        org_admin: a.org_admin,
        custom_role: text_opt(a.custom_role),
        bypass_mode: text_opt(a.bypass_mode),
    }
}

/// An optional list of bypass actors taken by value.
pub open spec fn actors_value(o: Option<Vec<BypassActor>>) -> Option<Seq<ActorValue>> {
    match o {
        Some(v) => Some(v@.map_values(|a: BypassActor| actor_value(a))),
        None => None,
    }
}

/// Optional ref name conditions taken by value: for the ref name filter, its
/// patterns to apply to and to leave out.
pub open spec fn conditions_value(o: Option<RulesetConditions>) -> Option<
    Option<(Option<Seq<Seq<char>>>, Option<Seq<Seq<char>>>)>,
> {
    match o {
        Some(c) => Some(
            match c.ref_name {
                Some(rn) => Some((texts_opt(rn.includes), texts_opt(rn.exclude))),
                None => None,
            },
        ),
        None => None,
    }
}

/// A status check context taken by value.
pub struct ContextValue {
    pub context: Seq<char>,
    pub app: Option<Seq<char>>,
    pub integration_id: Option<u64>,
}

/// A status check context taken by value.
pub open spec fn context_value(c: StatusCheckContext) -> ContextValue {
    ContextValue { context: c.context@, app: text_opt(c.app), integration_id: c.integration_id }
}

/// A pull request rule taken by value.
pub struct PrRuleValue {
    pub required_approving_review_count: Option<u32>,
    pub dismiss_stale_reviews_on_push: Option<bool>,
    pub require_code_owner_review: Option<bool>,
    pub require_last_push_approval: Option<bool>,
    pub required_review_thread_resolution: Option<bool>,
    pub allowed_merge_methods: Option<Seq<Seq<char>>>,
}

/// An optional pull request rule taken by value.
pub open spec fn pr_rule_value(o: Option<PullRequestRule>) -> Option<PrRuleValue> {
    match o {
        Some(p) => Some(
            PrRuleValue {
                required_approving_review_count: p.required_approving_review_count,
                dismiss_stale_reviews_on_push: p.dismiss_stale_reviews_on_push,
                require_code_owner_review: p.require_code_owner_review,
                require_last_push_approval: p.require_last_push_approval,
                required_review_thread_resolution: p.required_review_thread_resolution,
                allowed_merge_methods: texts_opt(p.allowed_merge_methods),
            },
        ),
        None => None,
    }
}

/// An optional status check rule taken by value: the strict flag and the
/// contexts.
pub open spec fn checks_rule_value(o: Option<RequiredStatusChecks>) -> Option<
    (Option<bool>, Option<Seq<ContextValue>>),
> {
    match o {
        Some(sc) => Some(
            (
                sc.strict_required_status_checks_policy,
                match sc.contexts {
                    Some(v) => Some(v@.map_values(|c: StatusCheckContext| context_value(c))),
                    None => None,
                },
            ),
        ),
        None => None,
    }
}

/// The rules of a ruleset taken by value.
pub struct RulesValue {
    pub non_fast_forward: Option<bool>,
    pub deletion: Option<bool>,
    pub creation: Option<bool>,
    pub required_linear_history: Option<bool>,
    pub required_signatures: Option<bool>,
    pub pull_request: Option<PrRuleValue>,
    pub required_status_checks: Option<(Option<bool>, Option<Seq<ContextValue>>)>,
}

/// Optional ruleset rules taken by value.
pub open spec fn rules_value(o: Option<RulesetRules>) -> Option<RulesValue> {
    match o {
        Some(r) => Some(
            RulesValue {
                non_fast_forward: r.non_fast_forward,
                deletion: r.deletion,
                creation: r.creation,
                required_linear_history: r.required_linear_history,
                required_signatures: r.required_signatures,
                pull_request: pr_rule_value(r.pull_request),
                required_status_checks: checks_rule_value(r.required_status_checks),
            },
        ),
        None => None,
    }
}

/// A ruleset taken by value.
pub struct RulesetValue {
    pub name: Seq<char>,
    pub target: Option<Seq<char>>,
    pub enforcement: Option<Seq<char>>,
    pub bypass_actors: Option<Seq<ActorValue>>,
    pub conditions: Option<Option<(Option<Seq<Seq<char>>>, Option<Seq<Seq<char>>>)>>,
    pub rules: Option<RulesValue>,
}

/// A ruleset taken by value.
pub open spec fn ruleset_value(r: Ruleset) -> RulesetValue {
    RulesetValue {
        name: r.name@,
        target: text_opt(r.target),
        enforcement: text_opt(r.enforcement),
        bypass_actors: actors_value(r.bypass_actors),
        conditions: conditions_value(r.conditions),
        rules: rules_value(r.rules),
    }
}

fn copy_actor(a: &BypassActor) -> (r: BypassActor)
    ensures
        actor_value(r) == actor_value(*a),
{
    BypassActor {
        role: copy_opt_text(&a.role),
        team: copy_opt_text(&a.team),
        app: copy_opt_text(&a.app),
        org_admin: a.org_admin,
        custom_role: copy_opt_text(&a.custom_role),
        bypass_mode: copy_opt_text(&a.bypass_mode),
    }
}

fn copy_actors(o: &Option<Vec<BypassActor>>) -> (r: Option<Vec<BypassActor>>)
    ensures
        actors_value(r) == actors_value(*o),
{
    match o {
        Some(v) => {
            let mut out: Vec<BypassActor> = Vec::new();
            let mut i: usize = 0;
            while i < v.len()
                invariant
                    i <= v.len(),
                    out@.len() == i,
                    forall|k: int| 0 <= k < i ==> #[trigger] actor_value(out@[k]) == actor_value(v@[k]),
                decreases v.len() - i,
            {
                out.push(copy_actor(&v[i]));
                i = i + 1;
            }
            assert(out@.map_values(|a: BypassActor| actor_value(a)) =~= v@.map_values(
                |a: BypassActor| actor_value(a),
            ));
            Some(out)
        },
        None => None,
    }
}

fn copy_conditions(o: &Option<RulesetConditions>) -> (r: Option<RulesetConditions>)
    ensures
        conditions_value(r) == conditions_value(*o),
{
    match o {
        Some(c) => Some(
            RulesetConditions {
                ref_name: match &c.ref_name {
                    Some(rn) => Some(
                        RefNameCondition {
                            includes: copy_opt_texts(&rn.includes),
                            exclude: copy_opt_texts(&rn.exclude),
                        },
                    ),
                    None => None,
                },
            },
        ),
        None => None,
    }
}

fn copy_context(c: &StatusCheckContext) -> (r: StatusCheckContext)
    ensures
        context_value(r) == context_value(*c),
{
    StatusCheckContext {
        context: String::from_str(c.context.as_str()),
        app: copy_opt_text(&c.app),
        integration_id: c.integration_id,
    }
}

fn copy_checks_rule(o: &Option<RequiredStatusChecks>) -> (r: Option<RequiredStatusChecks>)
    ensures
        checks_rule_value(r) == checks_rule_value(*o),
{
    match o {
        Some(sc) => {
            let contexts = match &sc.contexts {
                Some(v) => {
                    let mut out: Vec<StatusCheckContext> = Vec::new();
                    let mut i: usize = 0;
                    while i < v.len()
                        invariant
                            i <= v.len(),
                            out@.len() == i,
                            forall|k: int|
                                0 <= k < i ==> #[trigger] context_value(out@[k]) == context_value(
                                    v@[k],
                                ),
                        decreases v.len() - i,
                    {
                        out.push(copy_context(&v[i]));
                        i = i + 1;
                    }
                    assert(out@.map_values(|c: StatusCheckContext| context_value(c))
                        =~= v@.map_values(|c: StatusCheckContext| context_value(c)));
                    Some(out)
                },
                None => None,
            };
            Some(
                RequiredStatusChecks {
                    strict_required_status_checks_policy: sc.strict_required_status_checks_policy,
                    contexts,
                },
            )
        },
        None => None,
    }
}

fn copy_rules(o: &Option<RulesetRules>) -> (r: Option<RulesetRules>)
    ensures
        rules_value(r) == rules_value(*o),
{
    match o {
        Some(rules) => {
            let pr = match &rules.pull_request {
                Some(p) => Some(
                    PullRequestRule {
                        required_approving_review_count: p.required_approving_review_count,
                        dismiss_stale_reviews_on_push: p.dismiss_stale_reviews_on_push,
                        require_code_owner_review: p.require_code_owner_review,
                        require_last_push_approval: p.require_last_push_approval,
                        required_review_thread_resolution: p.required_review_thread_resolution,
                        allowed_merge_methods: copy_opt_texts(&p.allowed_merge_methods),
                    },
                ),
                None => None,
            };
            Some(
                RulesetRules {
                    non_fast_forward: rules.non_fast_forward,
                    deletion: rules.deletion,
                    creation: rules.creation,
                    required_linear_history: rules.required_linear_history,
                    required_signatures: rules.required_signatures,
                    pull_request: pr,
                    required_status_checks: copy_checks_rule(&rules.required_status_checks),
                },
            )
        },
        None => None,
    }
}

/// A copy of a ruleset.
pub fn copy_ruleset(rs: &Ruleset) -> (r: Ruleset)
    ensures
        ruleset_value(r) == ruleset_value(*rs),
{
    Ruleset {
        name: String::from_str(rs.name.as_str()),
        target: copy_opt_text(&rs.target),
        enforcement: copy_opt_text(&rs.enforcement),
        bypass_actors: copy_actors(&rs.bypass_actors),
        conditions: copy_conditions(&rs.conditions),
        rules: copy_rules(&rs.rules),
    }
}

} // verus!
