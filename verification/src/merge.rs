//! Merging an upstream manifest with a local overlay.
//!
//! The local overlay wins on a per-field / per-path basis; entries the local
//! manifest does not mention are inherited verbatim from upstream.
use vstd::prelude::*;

use crate::manifest::{Manifest, Rule, Spec, Strategy};
use crate::text::text_eq;

verus! {

// ---------------------------------------------------------------------------
// Specification
// ---------------------------------------------------------------------------

/// The local value when it is set, else the upstream one.
pub open spec fn prefer<T>(local: Option<T>, upstream: Option<T>) -> Option<T> {
    match local {
        Some(_) => local,
        None => upstream,
    }
}

/// The field-by-field merge of two `spec` blocks: each local field that is set
/// wins; nested blocks are replaced whole.
pub open spec fn merge_spec_spec(upstream: Option<Spec>, local: Option<Spec>) -> Option<Spec> {
    match (upstream, local) {
        (None, None) => None,
        (Some(u), None) => Some(u),
        (None, Some(l)) => Some(l),
        (Some(u), Some(l)) => Some(
            Spec {
                description: prefer(l.description, u.description),
                homepage: prefer(l.homepage, u.homepage),
                visibility: prefer(l.visibility, u.visibility),
                archived: prefer(l.archived, u.archived),
                topics: prefer(l.topics, u.topics),
                features: prefer(l.features, u.features),
                web_commit_signoff_required: prefer(
                    l.web_commit_signoff_required,
                    u.web_commit_signoff_required,
                ),
                merge_strategy: prefer(l.merge_strategy, u.merge_strategy),
                release_immutability: prefer(l.release_immutability, u.release_immutability),
                label_sync: prefer(l.label_sync, u.label_sync),
                labels: prefer(l.labels, u.labels),
                actions: prefer(l.actions, u.actions),
                rulesets: prefer(l.rulesets, u.rulesets),
                branch_protection: prefer(l.branch_protection, u.branch_protection),
            },
        ),
    }
}

/// Each field of the merged block `s` is the local field when the local
/// block sets it, and the upstream field when it does not.
pub open spec fn local_fields_first(s: Spec, u: Spec, l: Spec) -> bool {
    &&& (if l.description is Some { s.description == l.description } else { s.description == u.description })
    &&& (if l.homepage is Some { s.homepage == l.homepage } else { s.homepage == u.homepage })
    &&& (if l.visibility is Some { s.visibility == l.visibility } else { s.visibility == u.visibility })
    &&& (if l.archived is Some { s.archived == l.archived } else { s.archived == u.archived })
    &&& (if l.topics is Some { s.topics == l.topics } else { s.topics == u.topics })
    &&& (if l.features is Some { s.features == l.features } else { s.features == u.features })
    &&& (if l.web_commit_signoff_required is Some { s.web_commit_signoff_required == l.web_commit_signoff_required } else { s.web_commit_signoff_required == u.web_commit_signoff_required })
    &&& (if l.merge_strategy is Some { s.merge_strategy == l.merge_strategy } else { s.merge_strategy == u.merge_strategy })
    &&& (if l.release_immutability is Some { s.release_immutability == l.release_immutability } else { s.release_immutability == u.release_immutability })
    &&& (if l.label_sync is Some { s.label_sync == l.label_sync } else { s.label_sync == u.label_sync })
    &&& (if l.labels is Some { s.labels == l.labels } else { s.labels == u.labels })
    &&& (if l.actions is Some { s.actions == l.actions } else { s.actions == u.actions })
    &&& (if l.rulesets is Some { s.rulesets == l.rulesets } else { s.rulesets == u.rulesets })
    &&& (if l.branch_protection is Some { s.branch_protection == l.branch_protection } else { s.branch_protection == u.branch_protection })
}

/// The first rule of `rules` with path `p`, if any.
pub open spec fn first_with_path(rules: Seq<Rule>, p: Seq<char>) -> Option<Rule>
    decreases rules.len(),
{
    if rules.len() == 0 {
        None
    } else if rules[0].path@ == p {
        Some(rules[0])
    } else {
        first_with_path(rules.drop_first(), p)
    }
}

/// Some rule of `rules` has path `p`.
pub open spec fn has_path(rules: Seq<Rule>, p: Seq<char>) -> bool {
    exists|i: int| 0 <= i < rules.len() && #[trigger] rules[i].path@ == p
}

/// What an upstream rule becomes: the first local rule with its path, unless
/// that one is `ignore` (then nothing); the upstream rule itself when the
/// local overlay does not name its path.
pub open spec fn overlaid(u: Rule, local: Seq<Rule>) -> Seq<Rule> {
    match first_with_path(local, u.path@) {
        Some(l) => if l.strategy != Strategy::Ignore {
            seq![l]
        } else {
            Seq::empty()
        },
        None => seq![u],
    }
}

/// The first `n` upstream rules, each overlaid by the local rules.
pub open spec fn merge_upstream(up: Seq<Rule>, local: Seq<Rule>, n: nat) -> Seq<Rule>
    decreases n,
{
    if n == 0 {
        Seq::empty()
    } else {
        merge_upstream(up, local, (n - 1) as nat) + overlaid(up[n - 1], local)
    }
}

/// `acc` followed by each of the first `n` local rules whose path is not yet
/// present and whose strategy is not `ignore`.
pub open spec fn append_local(acc: Seq<Rule>, local: Seq<Rule>, n: nat) -> Seq<Rule>
    decreases n,
{
    if n == 0 {
        acc
    } else {
        let prev = append_local(acc, local, (n - 1) as nat);
        let l = local[n - 1];
        if !has_path(prev, l.path@) && l.strategy != Strategy::Ignore {
            prev.push(l)
        } else {
            prev
        }
    }
}

/// The merged rule list: upstream rules overlaid by local ones, then the
/// local rules for paths not yet present.
pub open spec fn merge_files_spec(up: Seq<Rule>, local: Seq<Rule>) -> Seq<Rule> {
    append_local(merge_upstream(up, local, up.len()), local, local.len())
}

// ---------------------------------------------------------------------------
// Implementation
// ---------------------------------------------------------------------------

/// Merge a local overlay manifest on top of an upstream manifest.
///
/// - `upstream:` node — local replaces upstream entirely when present.
/// - `spec:` node — field-by-field merge; local `Some` fields win.
/// - `files:` — merged by `path` key: upstream-only entries are kept as-is,
///   local-only entries are appended, entries present in both are replaced by
///   the local rule, and a local entry with `strategy: ignore` removes the
///   upstream entry.
///
/// Returns `upstream` unchanged when `local` is `None`.
pub fn merge_overlay(upstream: Manifest, local: Option<Manifest>) -> (m: Manifest)
    ensures
        match local {
            None => m == upstream,
            Some(l) => {
                &&& m.upstream == l.upstream
                &&& m.spec == merge_spec_spec(upstream.spec, l.spec)
                &&& (upstream.spec is None ==> m.spec == l.spec)
                &&& (l.spec is None ==> m.spec == upstream.spec)
                &&& (upstream.spec is Some && l.spec is Some) ==> {
                    &&& m.spec is Some
                    &&& local_fields_first(m.spec->Some_0, upstream.spec->Some_0, l.spec->Some_0)
                }
                &&& m.files@ == merge_files_spec(upstream.files@, l.files@)
            },
        },
{
    match local {
        None => upstream,
        Some(local) => {
            let merged_upstream = local.upstream;
            let merged_spec = merge_spec(upstream.spec, local.spec);
            let merged_files = merge_files(upstream.files, local.files);
            Manifest { upstream: merged_upstream, spec: merged_spec, files: merged_files }
        },
    }
}

fn or_opt<T>(l: Option<T>, u: Option<T>) -> (r: Option<T>)
    ensures
        r == prefer(l, u),
{
    match l {
        Some(x) => Some(x),
        None => u,
    }
}

fn merge_spec(upstream: Option<Spec>, local: Option<Spec>) -> (r: Option<Spec>)
    ensures
        r == merge_spec_spec(upstream, local),
{
    match (upstream, local) {
        (None, None) => None,
        (Some(u), None) => Some(u),
        (None, Some(l)) => Some(l),
        (Some(u), Some(l)) => Some(
            Spec {
                description: or_opt(l.description, u.description),
                homepage: or_opt(l.homepage, u.homepage),
                visibility: or_opt(l.visibility, u.visibility),
                archived: or_opt(l.archived, u.archived),
                topics: or_opt(l.topics, u.topics),
                features: or_opt(l.features, u.features),
                web_commit_signoff_required: or_opt(
                    l.web_commit_signoff_required,
                    u.web_commit_signoff_required,
                ),
                merge_strategy: or_opt(l.merge_strategy, u.merge_strategy),
                release_immutability: or_opt(l.release_immutability, u.release_immutability),
                label_sync: or_opt(l.label_sync, u.label_sync),
                labels: or_opt(l.labels, u.labels),
                actions: or_opt(l.actions, u.actions),
                rulesets: or_opt(l.rulesets, u.rulesets),
                branch_protection: or_opt(l.branch_protection, u.branch_protection),
            },
        ),
    }
}

fn clone_opt_string(o: &Option<String>) -> (r: Option<String>)
    ensures
        r == *o,
{
    match o {
        Some(s) => Some(s.clone()),
        None => None,
    }
}

/// A copy of a rule.
pub fn copy_rule(r: &Rule) -> (c: Rule)
    ensures
        c == *r,
{
    Rule {
        path: r.path.clone(),
        strategy: r.strategy,
        source: clone_opt_string(&r.source),
        patch: clone_opt_string(&r.patch),
        preserve_markers: r.preserve_markers,
    }
}

proof fn lemma_first_with_path(rules: Seq<Rule>, p: Seq<char>, j: int)
    requires
        0 <= j <= rules.len(),
        forall|k: int| 0 <= k < j ==> #[trigger] rules[k].path@ != p,
    ensures
        j < rules.len() && rules[j].path@ == p ==> first_with_path(rules, p) == Some(rules[j]),
        j == rules.len() ==> first_with_path(rules, p) is None,
    decreases j,
{
    if j > 0 {
        let rest = rules.drop_first();
        assert forall|k: int| 0 <= k < j - 1 implies #[trigger] rest[k].path@ != p by {
            assert(rest[k] == rules[k + 1]);
        }
        assert(rules[0].path@ != p);
        lemma_first_with_path(rest, p, j - 1);
    }
}

/// The index of the first rule with path `p`, if any.
fn find_path(rules: &Vec<Rule>, p: &str) -> (r: Option<usize>)
    ensures
        match r {
            Some(j) => j < rules.len() && first_with_path(rules@, p@) == Some(rules@[j as int]),
            None => first_with_path(rules@, p@) is None,
        },
{
    let mut j: usize = 0;
    while j < rules.len()
        invariant
            j <= rules.len(),
            forall|k: int| 0 <= k < j ==> #[trigger] rules@[k].path@ != p@,
        decreases rules.len() - j,
    {
        if text_eq(rules[j].path.as_str(), p) {
            proof {
                lemma_first_with_path(rules@, p@, j as int);
            }
            return Some(j);
        }
        j = j + 1;
    }
    proof {
        lemma_first_with_path(rules@, p@, j as int);
    }
    None
}

/// Whether some rule has path `p`.
fn contains_path(rules: &Vec<Rule>, p: &str) -> (r: bool)
    ensures
        r == has_path(rules@, p@),
{
    let mut j: usize = 0;
    while j < rules.len()
        invariant
            j <= rules.len(),
            forall|k: int| 0 <= k < j ==> #[trigger] rules@[k].path@ != p@,
        decreases rules.len() - j,
    {
        if text_eq(rules[j].path.as_str(), p) {
            return true;
        }
        j = j + 1;
    }
    false
}

/// Merge two `files:` lists by `path` key.
///
/// The order is: upstream rules (overridden or dropped by local), then
/// local-only rules (not present in upstream).
fn merge_files(upstream: Vec<Rule>, local: Vec<Rule>) -> (r: Vec<Rule>)
    ensures
        r@ == merge_files_spec(upstream@, local@),
{
    let ghost up0 = upstream@;
    let ghost lo0 = local@;
    let mut ups = upstream;
    let mut result: Vec<Rule> = Vec::new();
    let mut i: usize = 0;
    let n = ups.len();
    while i < n
        invariant
            i <= n == up0.len(),
            ups@ == up0.skip(i as int),
            local@ == lo0,
            result@ == merge_upstream(up0, lo0, i as nat),
        decreases n - i,
    {
        let up_rule = ups.remove(0);
        assert(up_rule == up0[i as int]);
        let ghost before = result@;
        match find_path(&local, up_rule.path.as_str()) {
            Some(j) => {
                let local_rule = &local[j];
                if local_rule.strategy != Strategy::Ignore {
                    result.push(copy_rule(local_rule));
                }
            },
            None => {
                result.push(up_rule);
            },
        }
        assert(result@ =~= before + overlaid(up0[i as int], lo0));
        assert(up0.skip(i as int).remove(0) =~= up0.skip(i + 1));
        i = i + 1;
    }
    let ghost base = result@;
    let mut los = local;
    let m = los.len();
    let mut k: usize = 0;
    while k < m
        invariant
            k <= m == lo0.len(),
            los@ == lo0.skip(k as int),
            base == merge_upstream(up0, lo0, up0.len()),
            result@ == append_local(base, lo0, k as nat),
        decreases m - k,
    {
        let local_rule = los.remove(0);
        assert(local_rule == lo0[k as int]);
        let seen = contains_path(&result, local_rule.path.as_str());
        if !seen && local_rule.strategy != Strategy::Ignore {
            result.push(local_rule);
        }
        assert(lo0.skip(k as int).remove(0) =~= lo0.skip(k + 1));
        k = k + 1;
    }
    result
}

// ---------------------------------------------------------------------------
// Laws
// ---------------------------------------------------------------------------

/// No two rules share a path.
pub open spec fn distinct_paths(rs: Seq<Rule>) -> bool {
    forall|i: int, j: int| 0 <= i < j < rs.len() ==> #[trigger] rs[i].path@ != #[trigger] rs[j].path@
}

proof fn lemma_first_with_path_found(rules: Seq<Rule>, p: Seq<char>)
    ensures
        first_with_path(rules, p) matches Some(r) ==> r.path@ == p && rules.contains(r),
        first_with_path(rules, p) is None ==> !has_path(rules, p),
    decreases rules.len(),
{
    if rules.len() > 0 {
        let rest = rules.drop_first();
        lemma_first_with_path_found(rest, p);
        if rules[0].path@ != p {
            if let Some(r) = first_with_path(rest, p) {
                let k = choose|k: int| 0 <= k < rest.len() && rest[k] == r;
                assert(rules[k + 1] == r);
            } else {
                assert forall|i: int| 0 <= i < rules.len() implies #[trigger] rules[i].path@ != p by {
                    if i > 0 {
                        assert(rules[i] == rest[i - 1]);
                    }
                }
            }
        } else {
            assert(rules[0] == rules[0]);
            assert(rules.contains(rules[0]));
        }
    }
}

proof fn lemma_first_with_path_distinct(rules: Seq<Rule>, j: int)
    requires
        distinct_paths(rules),
        0 <= j < rules.len(),
    ensures
        first_with_path(rules, rules[j].path@) == Some(rules[j]),
{
    lemma_first_with_path(rules, rules[j].path@, j);
}

/// Every rule of the upstream part is an overlaid upstream rule.
proof fn lemma_merge_upstream_members(up: Seq<Rule>, local: Seq<Rule>, n: nat, x: Rule)
    requires
        n <= up.len(),
        merge_upstream(up, local, n).contains(x),
    ensures
        exists|i: int| 0 <= i < n && #[trigger] overlaid(up[i], local).contains(x),
    decreases n,
{
    if n > 0 {
        let prev = merge_upstream(up, local, (n - 1) as nat);
        let last = overlaid(up[n - 1], local);
        let k = choose|k: int| 0 <= k < merge_upstream(up, local, n).len() && merge_upstream(up, local, n)[k] == x;
        if k < prev.len() {
            assert(prev[k] == x);
            lemma_merge_upstream_members(up, local, (n - 1) as nat, x);
        } else {
            assert(last[k - prev.len()] == x);
            assert(last.contains(x));
        }
    }
}

/// The upstream part holds every overlaid upstream rule.
proof fn lemma_merge_upstream_has(up: Seq<Rule>, local: Seq<Rule>, n: nat, i: int, x: Rule)
    requires
        n <= up.len(),
        0 <= i < n,
        overlaid(up[i], local).contains(x),
    ensures
        merge_upstream(up, local, n).contains(x),
    decreases n,
{
    let prev = merge_upstream(up, local, (n - 1) as nat);
    let last = overlaid(up[n - 1], local);
    if i < n - 1 {
        lemma_merge_upstream_has(up, local, (n - 1) as nat, i, x);
        let k = choose|k: int| 0 <= k < prev.len() && prev[k] == x;
        assert((prev + last)[k] == x);
    } else {
        let k = choose|k: int| 0 <= k < last.len() && last[k] == x;
        assert((prev + last)[prev.len() + k] == x);
    }
}

/// Appending local rules keeps what was there and adds only non-`ignore`
/// local rules.
proof fn lemma_append_local(acc: Seq<Rule>, local: Seq<Rule>, n: nat)
    requires
        n <= local.len(),
    ensures
        forall|x: Rule| acc.contains(x) ==> #[trigger] append_local(acc, local, n).contains(x),
        forall|x: Rule|
            #[trigger] append_local(acc, local, n).contains(x) ==> acc.contains(x) || (exists|k: int|
                0 <= k < n && local[k] == x && x.strategy != Strategy::Ignore),
    decreases n,
{
    if n > 0 {
        lemma_append_local(acc, local, (n - 1) as nat);
        let prev = append_local(acc, local, (n - 1) as nat);
        let l = local[n - 1];
        assert forall|x: Rule| acc.contains(x) implies #[trigger] append_local(acc, local, n).contains(
            x,
        ) by {
            assert(prev.contains(x));
            if !has_path(prev, l.path@) && l.strategy != Strategy::Ignore {
                let k = choose|k: int| 0 <= k < prev.len() && prev[k] == x;
                assert(prev.push(l)[k] == x);
            }
        }
        assert forall|x: Rule| #[trigger] append_local(acc, local, n).contains(x) implies acc.contains(
            x,
        ) || (exists|k: int| 0 <= k < n && local[k] == x && x.strategy != Strategy::Ignore) by {
            let in_prev = prev.contains(x);
            if !has_path(prev, l.path@) && l.strategy != Strategy::Ignore {
                let k = choose|k: int| 0 <= k < prev.len() + 1 && prev.push(l)[k] == x;
                if k < prev.len() {
                    assert(prev[k] == x);
                } else {
                    assert(local[n - 1] == x);
                }
            }
            if in_prev && !acc.contains(x) {
                let k = choose|k: int| 0 <= k < n - 1 && local[k] == x && x.strategy != Strategy::Ignore;
                assert(0 <= k < n && local[k] == x);
            }
        }
    }
}

/// Merging with a local overlay keeps every upstream rule whose path the
/// overlay does not name.
pub proof fn lemma_upstream_only_kept(up: Seq<Rule>, local: Seq<Rule>, i: int)
    requires
        0 <= i < up.len(),
        !has_path(local, up[i].path@),
    ensures
        merge_files_spec(up, local).contains(up[i]),
{
    lemma_first_with_path_found(local, up[i].path@);
    if let Some(r) = first_with_path(local, up[i].path@) {
        let k = choose|k: int| 0 <= k < local.len() && local[k] == r;
        assert(local[k].path@ == up[i].path@);
    }
    assert(overlaid(up[i], local)[0] == up[i]);
    lemma_merge_upstream_has(up, local, up.len(), i, up[i]);
    lemma_append_local(merge_upstream(up, local, up.len()), local, local.len());
}

/// A local rule with `strategy: ignore` removes its path: when the overlay
/// names that path only once, no merged rule has it.
pub proof fn lemma_ignore_drops_path(up: Seq<Rule>, local: Seq<Rule>, j: int)
    requires
        distinct_paths(local),
        0 <= j < local.len(),
        local[j].strategy == Strategy::Ignore,
    ensures
        !has_path(merge_files_spec(up, local), local[j].path@),
{
    let p = local[j].path@;
    let base = merge_upstream(up, local, up.len());
    let merged = merge_files_spec(up, local);
    lemma_first_with_path_distinct(local, j);
    lemma_append_local(base, local, local.len());
    if has_path(merged, p) {
        let q = choose|q: int| 0 <= q < merged.len() && #[trigger] merged[q].path@ == p;
        let x = merged[q];
        assert(merged.contains(x));
        if base.contains(x) {
            lemma_merge_upstream_members(up, local, up.len(), x);
            let i = choose|i: int| 0 <= i < up.len() && #[trigger] overlaid(up[i], local).contains(x);
            lemma_first_with_path_found(local, up[i].path@);
            match first_with_path(local, up[i].path@) {
                Some(l) => {
                    assert(overlaid(up[i], local).len() <= 1);
                    assert(x == l);
                    assert(up[i].path@ == p);
                    assert(l == local[j]);
                    assert(false);
                },
                None => {
                    assert(x == up[i]);
                    assert(local[j].path@ == up[i].path@);
                    assert(false);
                },
            }
        } else {
            let k = choose|k: int| 0 <= k < local.len() && local[k] == x && x.strategy != Strategy::Ignore;
            if k != j {
                if k < j {
                    assert(local[k].path@ != local[j].path@);
                } else {
                    assert(local[j].path@ != local[k].path@);
                }
            }
        }
    }
}

/// Local spec fields win: when both manifests carry a `spec` block, every
/// field that the local block sets is taken from it, and every field it
/// leaves unset is inherited from upstream.
pub proof fn lemma_local_spec_fields_win(u: Spec, l: Spec)
    ensures
        merge_spec_spec(Some(u), Some(l)) is Some,
        local_fields_first(merge_spec_spec(Some(u), Some(l))->Some_0, u, l),
        l.topics is Some ==> merge_spec_spec(Some(u), Some(l))->Some_0.topics == l.topics,
        l.topics is None ==> merge_spec_spec(Some(u), Some(l))->Some_0.topics == u.topics,
{
}

/// A spec block present on one side only is taken whole.
pub proof fn lemma_one_sided_spec_kept(s: Spec)
    ensures
        merge_spec_spec(Some(s), None) == Some(s),
        merge_spec_spec(None, Some(s)) == Some(s),
        merge_spec_spec(None, None) is None,
{
}

/// A local rule wins over the upstream rule with its path: when the overlay
/// names that path only once and does not `ignore` it, the merged list holds
/// the local rule, and every merged rule with that path is the local rule.
pub proof fn lemma_local_wins(up: Seq<Rule>, local: Seq<Rule>, j: int)
    requires
        distinct_paths(local),
        0 <= j < local.len(),
        local[j].strategy != Strategy::Ignore,
    ensures
        merge_files_spec(up, local).contains(local[j]),
        forall|q: int|
            0 <= q < merge_files_spec(up, local).len() && #[trigger] merge_files_spec(up, local)[q].path@
                == local[j].path@ ==> merge_files_spec(up, local)[q] == local[j],
{
    let l = local[j];
    let p = l.path@;
    let base = merge_upstream(up, local, up.len());
    let merged = merge_files_spec(up, local);
    lemma_first_with_path_distinct(local, j);
    lemma_append_local(base, local, local.len());
    // Every rule with path p in the merged list is l.
    assert forall|q: int| 0 <= q < merged.len() && #[trigger] merged[q].path@ == p implies merged[q]
        == l by {
        let x = merged[q];
        assert(merged.contains(x));
        if base.contains(x) {
            lemma_merge_upstream_members(up, local, up.len(), x);
            let i = choose|i: int| 0 <= i < up.len() && #[trigger] overlaid(up[i], local).contains(x);
            lemma_first_with_path_found(local, up[i].path@);
            match first_with_path(local, up[i].path@) {
                Some(l2) => {
                    assert(x == l2);
                    assert(up[i].path@ == p);
                },
                None => {
                    assert(x == up[i]);
                    assert(has_path(local, p));
                },
            }
        } else {
            let k = choose|k: int| 0 <= k < local.len() && local[k] == x && x.strategy != Strategy::Ignore;
            if k != j {
                if k < j {
                    assert(local[k].path@ != local[j].path@);
                } else {
                    assert(local[j].path@ != local[k].path@);
                }
            }
        }
    }
    // The merged list holds l.
    if has_path(up, p) {
        let i = choose|i: int| 0 <= i < up.len() && #[trigger] up[i].path@ == p;
        assert(overlaid(up[i], local)[0] == l);
        lemma_merge_upstream_has(up, local, up.len(), i, l);
    } else {
        lemma_local_appended(up, local, j);
    }
}

proof fn lemma_local_appended(up: Seq<Rule>, local: Seq<Rule>, j: int)
    requires
        distinct_paths(local),
        0 <= j < local.len(),
        local[j].strategy != Strategy::Ignore,
        !has_path(up, local[j].path@),
    ensures
        merge_files_spec(up, local).contains(local[j]),
{
    let l = local[j];
    let p = l.path@;
    let base = merge_upstream(up, local, up.len());
    // The upstream part has no rule with path p.
    assert forall|q: int| 0 <= q < base.len() implies #[trigger] base[q].path@ != p by {
        let x = base[q];
        assert(base.contains(x));
        lemma_merge_upstream_members(up, local, up.len(), x);
        let i = choose|i: int| 0 <= i < up.len() && #[trigger] overlaid(up[i], local).contains(x);
        lemma_first_with_path_found(local, up[i].path@);
        match first_with_path(local, up[i].path@) {
            Some(l2) => {
                assert(x == l2);
                assert(x.path@ == up[i].path@);
            },
            None => {
                assert(x == up[i]);
            },
        }
    }
    // Before step j nothing with path p was appended.
    lemma_append_local(base, local, j as nat);
    let prev = append_local(base, local, j as nat);
    assert forall|q: int| 0 <= q < prev.len() implies #[trigger] prev[q].path@ != p by {
        let x = prev[q];
        assert(prev.contains(x));
        if base.contains(x) {
            let q2 = choose|q2: int| 0 <= q2 < base.len() && base[q2] == x;
            assert(base[q2].path@ != p);
        } else {
            let k = choose|k: int| 0 <= k < j && local[k] == x && x.strategy != Strategy::Ignore;
            assert(local[k].path@ != local[j].path@);
        }
    }
    let now = append_local(base, local, (j + 1) as nat);
    assert(now == prev.push(l));
    assert(now[prev.len() as int] == l);
    assert(now.contains(l));
    lemma_append_local(now, local.skip(j + 1), (local.len() - j - 1) as nat);
    lemma_append_local_split(base, local, (j + 1) as nat, local.len());
}

proof fn lemma_append_local_split(acc: Seq<Rule>, local: Seq<Rule>, m: nat, n: nat)
    requires
        m <= n <= local.len(),
    ensures
        forall|x: Rule| #[trigger] append_local(acc, local, m).contains(x) ==> append_local(
            acc,
            local,
            n,
        ).contains(x),
    decreases n - m,
{
    if m < n {
        lemma_append_local_split(acc, local, m, (n - 1) as nat);
        let prev = append_local(acc, local, (n - 1) as nat);
        let l = local[n - 1];
        assert forall|x: Rule| #[trigger] append_local(acc, local, m).contains(x) implies append_local(
            acc,
            local,
            n,
        ).contains(x) by {
            assert(prev.contains(x));
            if !has_path(prev, l.path@) && l.strategy != Strategy::Ignore {
                let k = choose|k: int| 0 <= k < prev.len() && prev[k] == x;
                assert(prev.push(l)[k] == x);
            }
        }
    }
}

} // verus!
