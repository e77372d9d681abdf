//! Comparison of the spec with the live repository settings.
use vstd::prelude::*;

use super::matching::{protection_matches, protection_matches_spec, ruleset_matches, ruleset_matches_spec};
use super::{
    changes_view, opt_view, push_change, ActionsPermissionsApi, ApiLabel, BranchProtectionApi,
    ChangeView, GhRepoClient, LiveRuleset, RepoApiData, SelectedActionsApi, SpecChange,
    WorkflowPermissionsApi,
};
use crate::copies::{copy_protection, copy_ruleset, protection_value, ruleset_value};
use crate::external::{str_to_lowercase, unicode_lowercase, with_context};
use crate::json::Json;
use crate::manifest::{Actions, BranchProtection, Features, Label, MergeStrategy, Ruleset, Spec};
use crate::text::{chars_of, join, join_strings, strings_view, text_eq};
use crate::text_order::{copy_texts, same_texts, same_texts_exec, sort_texts, sorted_texts};

verus! {

// ---------------------------------------------------------------------------
// Single fields
// ---------------------------------------------------------------------------

/// How a boolean is shown.
pub open spec fn bool_text(b: bool) -> Seq<char> {
    if b {
        "true"@
    } else {
        "false"@
    }
}

/// The change for a text field: agreement when the live value (empty when
/// absent) equals the spec value.
pub open spec fn str_change(field: Seq<char>, live: Option<Seq<char>>, spec: Seq<char>) -> ChangeView {
    let lv = match live {
        Some(l) => l,
        None => Seq::empty(),
    };
    if lv == spec {
        ChangeView::FieldOk(field, spec)
    } else {
        ChangeView::FieldChanged(field, lv, spec)
    }
}

/// The change for a boolean field.
pub open spec fn bool_change(field: Seq<char>, live: bool, spec: bool) -> ChangeView {
    if live == spec {
        ChangeView::FieldOk(field, bool_text(spec))
    } else {
        ChangeView::FieldChanged(field, bool_text(live), bool_text(spec))
    }
}

/// The change for a boolean field the spec may leave out.
pub open spec fn opt_bool_change(field: Seq<char>, live: bool, spec: Option<bool>) -> Seq<ChangeView> {
    match spec {
        Some(v) => seq![bool_change(field, live, v)],
        None => Seq::empty(),
    }
}

/// The change for a text field the spec may leave out.
pub open spec fn opt_str_change(
    field: Seq<char>,
    live: Option<Seq<char>>,
    spec: Option<String>,
) -> Seq<ChangeView> {
    match spec {
        Some(v) => seq![str_change(field, live, v@)],
        None => Seq::empty(),
    }
}

pub fn bool_string(b: bool) -> (s: String)
    ensures
        s@ == bool_text(b),
{
    if b {
        String::from_str("true")
    } else {
        String::from_str("false")
    }
}

/// Record the change for a text field.
pub fn push_str_field(changes: &mut Vec<SpecChange>, field: &str, live: Option<&str>, spec: &str)
    ensures
        changes_view(final(changes)@) == changes_view(old(changes)@).push(
            str_change(
                field@,
                match live {
                    Some(l) => Some(l@),
                    None => None,
                },
                spec@,
            ),
        ),
{
    let live_val = match live {
        Some(l) => l,
        None => "",
    };
    assert(live_val@ == match live {
        Some(l) => l@,
        None => Seq::<char>::empty(),
    }) by {
        reveal_strlit("");
    }
    if text_eq(live_val, spec) {
        push_change(
            changes,
            SpecChange::FieldOk { field: String::from_str(field), value: String::from_str(spec) },
        );
    } else {
        push_change(
            changes,
            SpecChange::FieldChanged {
                field: String::from_str(field),
                old: String::from_str(live_val),
                new: String::from_str(spec),
            },
        );
    }
}

/// Record the change for a boolean field.
pub fn push_bool_field(changes: &mut Vec<SpecChange>, field: &str, live: bool, spec: bool)
    ensures
        changes_view(final(changes)@) == changes_view(old(changes)@).push(
            bool_change(field@, live, spec),
        ),
{
    if live == spec {
        push_change(
            changes,
            SpecChange::FieldOk { field: String::from_str(field), value: bool_string(spec) },
        );
    } else {
        push_change(
            changes,
            SpecChange::FieldChanged {
                field: String::from_str(field),
                old: bool_string(live),
                new: bool_string(spec),
            },
        );
    }
}

fn push_opt_bool(changes: &mut Vec<SpecChange>, field: &str, live: bool, spec: Option<bool>)
    ensures
        changes_view(final(changes)@) == changes_view(old(changes)@) + opt_bool_change(
            field@,
            live,
            spec,
        ),
{
    let ghost before = changes_view(changes@);
    match spec {
        Some(v) => push_bool_field(changes, field, live, v),
        None => {},
    }
    assert(changes_view(changes@) =~= before + opt_bool_change(field@, live, spec));
}

fn push_opt_str(
    changes: &mut Vec<SpecChange>,
    field: &str,
    live: &Option<String>,
    spec: &Option<String>,
)
    ensures
        changes_view(final(changes)@) == changes_view(old(changes)@) + opt_str_change(
            field@,
            opt_view(*live),
            *spec,
        ),
{
    let ghost before = changes_view(changes@);
    match spec {
        Some(v) => {
            let l = match live {
                Some(s) => Some(s.as_str()),
                None => None,
            };
            push_str_field(changes, field, l, v.as_str());
        },
        None => {},
    }
    assert(changes_view(changes@) =~= before + opt_str_change(field@, opt_view(*live), *spec));
}

// ---------------------------------------------------------------------------
// Topics
// ---------------------------------------------------------------------------

/// A list shown in brackets, its items separated by `, `.
pub open spec fn bracket_list(items: Seq<Seq<char>>) -> Seq<char> {
    "["@ + join(items, ", "@) + "]"@
}

/// The change for the topics: agreement when both lists hold the same
/// topics in any order.
pub open spec fn topics_change(spec: Seq<Seq<char>>, live: Seq<Seq<char>>) -> ChangeView {
    if same_texts(spec, live) {
        ChangeView::FieldOk("topics"@, bracket_list(spec))
    } else {
        ChangeView::FieldChanged("topics"@, bracket_list(live), bracket_list(spec))
    }
}

/// Whether the topics are found up to date does not depend on their order,
/// on either side.
pub proof fn lemma_topics_order(spec: Seq<Seq<char>>, live: Seq<Seq<char>>, spec2: Seq<Seq<char>>, live2: Seq<Seq<char>>)
    requires
        spec2.to_multiset() == spec.to_multiset(),
        live2.to_multiset() == live.to_multiset(),
    ensures
        (topics_change(spec2, live2) is FieldOk) == (topics_change(spec, live) is FieldOk),
{
}

fn bracketed(items: &Vec<String>) -> (s: String)
    ensures
        s@ == bracket_list(strings_view(items@)),
{
    let mut s = String::from_str("[");
    let inner = join_strings(items, ", ");
    s.append(inner.as_str());
    s.append("]");
    s
}

/// Record the change for the topics.
pub fn compare_topics(changes: &mut Vec<SpecChange>, spec: &[String], live: &[String])
    ensures
        changes_view(final(changes)@) == changes_view(old(changes)@).push(
            topics_change(strings_view(spec@), strings_view(live@)),
        ),
{
    let spec_v = copy_texts(spec);
    let live_v = copy_texts(live);
    if same_texts_exec(spec, live) {
        push_change(
            changes,
            SpecChange::FieldOk { field: String::from_str("topics"), value: bracketed(&spec_v) },
        );
    } else {
        push_change(
            changes,
            SpecChange::FieldChanged {
                field: String::from_str("topics"),
                old: bracketed(&live_v),
                new: bracketed(&spec_v),
            },
        );
    }
}

// ---------------------------------------------------------------------------
// Features and merge strategy
// ---------------------------------------------------------------------------

/// The changes for the repository features the spec names.
pub open spec fn features_changes(feat: Features, live: RepoApiData) -> Seq<ChangeView> {
    opt_bool_change("features.issues"@, live.has_issues, feat.issues) + opt_bool_change(
        "features.projects"@,
        live.has_projects,
        feat.projects,
    ) + opt_bool_change("features.wiki"@, live.has_wiki, feat.wiki) + opt_bool_change(
        "features.discussions"@,
        live.has_discussions,
        feat.discussions,
    )
}

/// Record the changes for the repository features.
pub fn compare_features(changes: &mut Vec<SpecChange>, feat: &Features, live: &RepoApiData)
    ensures
        changes_view(final(changes)@) == changes_view(old(changes)@) + features_changes(
            *feat,
            *live,
        ),
{
    let ghost before = changes_view(changes@);
    push_opt_bool(changes, "features.issues", live.has_issues, feat.issues);
    push_opt_bool(changes, "features.projects", live.has_projects, feat.projects);
    push_opt_bool(changes, "features.wiki", live.has_wiki, feat.wiki);
    push_opt_bool(changes, "features.discussions", live.has_discussions, feat.discussions);
    assert(changes_view(changes@) =~= before + features_changes(*feat, *live));
}

/// The changes for the merge settings the spec names.
pub open spec fn merge_strategy_changes(ms: MergeStrategy, live: RepoApiData) -> Seq<ChangeView> {
    merge_method_changes(ms, live) + merge_text_changes(ms, live)
}

/// The changes for the merge methods and branch settings the spec names.
pub open spec fn merge_method_changes(ms: MergeStrategy, live: RepoApiData) -> Seq<ChangeView> {
    opt_bool_change(
        "merge_strategy.allow_merge_commit"@,
        live.allow_merge_commit,
        ms.allow_merge_commit,
    ) + opt_bool_change(
        "merge_strategy.allow_squash_merge"@,
        live.allow_squash_merge,
        ms.allow_squash_merge,
    ) + opt_bool_change(
        "merge_strategy.allow_rebase_merge"@,
        live.allow_rebase_merge,
        ms.allow_rebase_merge,
    ) + opt_bool_change(
        "merge_strategy.allow_auto_merge"@,
        live.allow_auto_merge,
        ms.allow_auto_merge,
    ) + opt_bool_change(
        "merge_strategy.allow_update_branch"@,
        live.allow_update_branch,
        ms.allow_update_branch,
    ) + opt_bool_change(
        "merge_strategy.auto_delete_head_branches"@,
        live.delete_branch_on_merge,
        ms.auto_delete_head_branches,
    )
}

/// The changes for the merge commit texts the spec names.
pub open spec fn merge_text_changes(ms: MergeStrategy, live: RepoApiData) -> Seq<ChangeView> {
    opt_str_change(
        "merge_strategy.squash_merge_commit_title"@,
        opt_view(live.squash_merge_commit_title),
        ms.squash_merge_commit_title,
    ) + opt_str_change(
        "merge_strategy.squash_merge_commit_message"@,
        opt_view(live.squash_merge_commit_message),
        ms.squash_merge_commit_message,
    ) + opt_str_change(
        "merge_strategy.merge_commit_title"@,
        opt_view(live.merge_commit_title),
        ms.merge_commit_title,
    ) + opt_str_change(
        "merge_strategy.merge_commit_message"@,
        opt_view(live.merge_commit_message),
        ms.merge_commit_message,
    )
}

/// What the comparison reports for a field whose live value reads `live`
/// and whose spec value reads `spec`.
pub open spec fn field_report(name: Seq<char>, live: Seq<char>, spec: Seq<char>) -> ChangeView {
    if live == spec {
        ChangeView::FieldOk(name, spec)
    } else {
        ChangeView::FieldChanged(name, live, spec)
    }
}

/// The change is a per-field change about field `name`.
pub open spec fn names_field(c: ChangeView, name: Seq<char>) -> bool {
    match c {
        ChangeView::FieldChanged(f, _, _) => f == name,
        ChangeView::FieldOk(f, _) => f == name,
        _ => false,
    }
}

/// The live text of an optional setting; empty when absent.
pub open spec fn text_or_empty(o: Option<String>) -> Seq<char> {
    match o {
        Some(s) => s@,
        None => Seq::empty(),
    }
}

/// An optional boolean setting as text.
pub open spec fn opt_bool_text(o: Option<bool>) -> Option<Seq<char>> {
    match o {
        Some(b) => Some(bool_text(b)),
        None => None,
    }
}

/// `cs` reports field `name` as the spec value `spec` compared with the live
/// value `live`, and holds no other change about that field; when the spec
/// leaves the field out, `cs` holds no change about it at all.
pub open spec fn reports_setting(
    cs: Seq<ChangeView>,
    name: Seq<char>,
    live: Seq<char>,
    spec: Option<Seq<char>>,
) -> bool {
    match spec {
        Some(v) => {
            &&& exists|i: int| 0 <= i < cs.len() && cs[i] == field_report(name, live, v)
            &&& forall|i: int|
                0 <= i < cs.len() && #[trigger] names_field(cs[i], name) ==> cs[i] == field_report(
                    name,
                    live,
                    v,
                )
        },
        None => reports_none(cs, name),
    }
}

/// No change of `cs` is about field `name`.
pub open spec fn reports_none(cs: Seq<ChangeView>, name: Seq<char>) -> bool {
    forall|i: int| 0 <= i < cs.len() ==> !#[trigger] names_field(cs[i], name)
}

proof fn lemma_reports_concat(
    a: Seq<ChangeView>,
    b: Seq<ChangeView>,
    name: Seq<char>,
    live: Seq<char>,
    spec: Option<Seq<char>>,
)
    ensures
        reports_none(a, name) && reports_none(b, name) ==> reports_none(a + b, name),
        reports_setting(a, name, live, spec) && (reports_setting(b, name, live, spec) || reports_none(
            b,
            name,
        )) ==> reports_setting(a + b, name, live, spec),
        (reports_setting(a, name, live, spec) || reports_none(a, name)) && reports_setting(
            b,
            name,
            live,
            spec,
        ) ==> reports_setting(a + b, name, live, spec),
{
    let ab = a + b;
    assert forall|i: int| 0 <= i < ab.len() implies ab[i] == (if i < a.len() {
        a[i]
    } else {
        b[i - a.len()]
    }) by {}
    if let Some(v) = spec {
        let c = field_report(name, live, v);
        if reports_setting(a, name, live, spec) {
            let k = choose|k: int| 0 <= k < a.len() && a[k] == c;
            assert(ab[k] == c);
        } else if reports_setting(b, name, live, spec) {
            let k = choose|k: int| 0 <= k < b.len() && b[k] == c;
            assert(ab[a.len() + k] == c);
        }
    }
}

/// A part reports field `name` as stated, or holds no change about it.
pub open spec fn settles(
    cs: Seq<ChangeView>,
    name: Seq<char>,
    live: Seq<char>,
    spec: Option<Seq<char>>,
) -> bool {
    reports_setting(cs, name, live, spec) || reports_none(cs, name)
}

/// The merge settings' changes are the concatenation of one part per
/// setting: a field that each part settles and some part reports is
/// reported by the whole.
proof fn lemma_merge_changes_report(
    ms: MergeStrategy,
    live: RepoApiData,
    name: Seq<char>,
    live_text: Seq<char>,
    spec: Option<Seq<char>>,
)
    requires
        settles(
            opt_bool_change(
                "merge_strategy.allow_merge_commit"@,
                live.allow_merge_commit,
                ms.allow_merge_commit,
            ),
            name,
            live_text,
            spec,
        ),
        settles(
            opt_bool_change(
                "merge_strategy.allow_squash_merge"@,
                live.allow_squash_merge,
                ms.allow_squash_merge,
            ),
            name,
            live_text,
            spec,
        ),
        settles(
            opt_bool_change(
                "merge_strategy.allow_rebase_merge"@,
                live.allow_rebase_merge,
                ms.allow_rebase_merge,
            ),
            name,
            live_text,
            spec,
        ),
        settles(
            opt_bool_change(
                "merge_strategy.allow_auto_merge"@,
                live.allow_auto_merge,
                ms.allow_auto_merge,
            ),
            name,
            live_text,
            spec,
        ),
        settles(
            opt_bool_change(
                "merge_strategy.allow_update_branch"@,
                live.allow_update_branch,
                ms.allow_update_branch,
            ),
            name,
            live_text,
            spec,
        ),
        settles(
            opt_bool_change(
                "merge_strategy.auto_delete_head_branches"@,
                live.delete_branch_on_merge,
                ms.auto_delete_head_branches,
            ),
            name,
            live_text,
            spec,
        ),
        settles(
            opt_str_change(
                "merge_strategy.squash_merge_commit_title"@,
                opt_view(live.squash_merge_commit_title),
                ms.squash_merge_commit_title,
            ),
            name,
            live_text,
            spec,
        ),
        settles(
            opt_str_change(
                "merge_strategy.squash_merge_commit_message"@,
                opt_view(live.squash_merge_commit_message),
                ms.squash_merge_commit_message,
            ),
            name,
            live_text,
            spec,
        ),
        settles(
            opt_str_change(
                "merge_strategy.merge_commit_title"@,
                opt_view(live.merge_commit_title),
                ms.merge_commit_title,
            ),
            name,
            live_text,
            spec,
        ),
        settles(
            opt_str_change(
                "merge_strategy.merge_commit_message"@,
                opt_view(live.merge_commit_message),
                ms.merge_commit_message,
            ),
            name,
            live_text,
            spec,
        ),
        reports_setting(
            opt_bool_change(
                "merge_strategy.allow_merge_commit"@,
                live.allow_merge_commit,
                ms.allow_merge_commit,
            ),
            name,
            live_text,
            spec,
        )
            || reports_setting(
            opt_bool_change(
                "merge_strategy.allow_squash_merge"@,
                live.allow_squash_merge,
                ms.allow_squash_merge,
            ),
            name,
            live_text,
            spec,
        )
            || reports_setting(
            opt_bool_change(
                "merge_strategy.allow_rebase_merge"@,
                live.allow_rebase_merge,
                ms.allow_rebase_merge,
            ),
            name,
            live_text,
            spec,
        )
            || reports_setting(
            opt_bool_change(
                "merge_strategy.allow_auto_merge"@,
                live.allow_auto_merge,
                ms.allow_auto_merge,
            ),
            name,
            live_text,
            spec,
        )
            || reports_setting(
            opt_bool_change(
                "merge_strategy.allow_update_branch"@,
                live.allow_update_branch,
                ms.allow_update_branch,
            ),
            name,
            live_text,
            spec,
        )
            || reports_setting(
            opt_bool_change(
                "merge_strategy.auto_delete_head_branches"@,
                live.delete_branch_on_merge,
                ms.auto_delete_head_branches,
            ),
            name,
            live_text,
            spec,
        )
            || reports_setting(
            opt_str_change(
                "merge_strategy.squash_merge_commit_title"@,
                opt_view(live.squash_merge_commit_title),
                ms.squash_merge_commit_title,
            ),
            name,
            live_text,
            spec,
        )
            || reports_setting(
            opt_str_change(
                "merge_strategy.squash_merge_commit_message"@,
                opt_view(live.squash_merge_commit_message),
                ms.squash_merge_commit_message,
            ),
            name,
            live_text,
            spec,
        )
            || reports_setting(
            opt_str_change(
                "merge_strategy.merge_commit_title"@,
                opt_view(live.merge_commit_title),
                ms.merge_commit_title,
            ),
            name,
            live_text,
            spec,
        )
            || reports_setting(
            opt_str_change(
                "merge_strategy.merge_commit_message"@,
                opt_view(live.merge_commit_message),
                ms.merge_commit_message,
            ),
            name,
            live_text,
            spec,
        ),
    ensures
        reports_setting(merge_strategy_changes(ms, live), name, live_text, spec),
{
    let s0 = opt_bool_change(
        "merge_strategy.allow_merge_commit"@,
        live.allow_merge_commit,
        ms.allow_merge_commit,
    );
    let s1 = opt_bool_change(
        "merge_strategy.allow_squash_merge"@,
        live.allow_squash_merge,
        ms.allow_squash_merge,
    );
    let s2 = opt_bool_change(
        "merge_strategy.allow_rebase_merge"@,
        live.allow_rebase_merge,
        ms.allow_rebase_merge,
    );
    let s3 = opt_bool_change(
        "merge_strategy.allow_auto_merge"@,
        live.allow_auto_merge,
        ms.allow_auto_merge,
    );
    let s4 = opt_bool_change(
        "merge_strategy.allow_update_branch"@,
        live.allow_update_branch,
        ms.allow_update_branch,
    );
    let s5 = opt_bool_change(
        "merge_strategy.auto_delete_head_branches"@,
        live.delete_branch_on_merge,
        ms.auto_delete_head_branches,
    );
    let s6 = opt_str_change("merge_strategy.squash_merge_commit_title"@, opt_view(live.squash_merge_commit_title), ms.squash_merge_commit_title);
    let s7 = opt_str_change("merge_strategy.squash_merge_commit_message"@, opt_view(live.squash_merge_commit_message), ms.squash_merge_commit_message);
    let s8 = opt_str_change("merge_strategy.merge_commit_title"@, opt_view(live.merge_commit_title), ms.merge_commit_title);
    let s9 = opt_str_change("merge_strategy.merge_commit_message"@, opt_view(live.merge_commit_message), ms.merge_commit_message);
    lemma_reports_concat(s0, s1, name, live_text, spec);
    lemma_reports_concat(s0 + s1, s2, name, live_text, spec);
    lemma_reports_concat(s0 + s1 + s2, s3, name, live_text, spec);
    lemma_reports_concat(s0 + s1 + s2 + s3, s4, name, live_text, spec);
    lemma_reports_concat(s0 + s1 + s2 + s3 + s4, s5, name, live_text, spec);
    lemma_reports_concat(s6, s7, name, live_text, spec);
    lemma_reports_concat(s6 + s7, s8, name, live_text, spec);
    lemma_reports_concat(s6 + s7 + s8, s9, name, live_text, spec);
    lemma_reports_concat(s0 + s1 + s2 + s3 + s4 + s5, s6 + s7 + s8 + s9, name, live_text, spec);
    assert(merge_strategy_changes(ms, live) == (s0 + s1 + s2 + s3 + s4 + s5) + (s6 + s7 + s8 + s9));
}

proof fn lemma_merge_setting_names()
    ensures
        "merge_strategy.squash_merge_commit_title"@.len() == 40,
        "merge_strategy.squash_merge_commit_message"@.len() == 42,
        "merge_strategy.merge_commit_title"@.len() == 33,
        "merge_strategy.merge_commit_message"@.len() == 35,
        "merge_strategy.allow_merge_commit"@.len() == 33,
        "merge_strategy.allow_squash_merge"@.len() == 33,
        "merge_strategy.allow_rebase_merge"@.len() == 33,
        "merge_strategy.allow_auto_merge"@.len() == 31,
        "merge_strategy.allow_update_branch"@.len() == 34,
        "merge_strategy.auto_delete_head_branches"@.len() == 40,
        "merge_strategy.merge_commit_title"@[21] == 'c',
        "merge_strategy.allow_merge_commit"@[21] == 'm',
        "merge_strategy.allow_squash_merge"@[21] == 's',
        "merge_strategy.allow_rebase_merge"@[21] == 'r',
        "merge_strategy.squash_merge_commit_title"@[15] == 's',
        "merge_strategy.auto_delete_head_branches"@[15] == 'a',
{
    reveal_strlit("merge_strategy.squash_merge_commit_title");
    reveal_strlit("merge_strategy.squash_merge_commit_message");
    reveal_strlit("merge_strategy.merge_commit_title");
    reveal_strlit("merge_strategy.merge_commit_message");
    reveal_strlit("merge_strategy.allow_merge_commit");
    reveal_strlit("merge_strategy.allow_squash_merge");
    reveal_strlit("merge_strategy.allow_rebase_merge");
    reveal_strlit("merge_strategy.allow_auto_merge");
    reveal_strlit("merge_strategy.allow_update_branch");
    reveal_strlit("merge_strategy.auto_delete_head_branches");
}

proof fn lemma_text_segment(n: Seq<char>, live: Option<String>, spec: Option<String>)
    ensures
        reports_setting(
            opt_str_change(n, opt_view(live), spec),
            n,
            text_or_empty(live),
            opt_view(spec),
        ),
        forall|name: Seq<char>| name != n ==> #[trigger] reports_none(opt_str_change(n, opt_view(live), spec), name),
{
    let cs = opt_str_change(n, opt_view(live), spec);
    if let Some(v) = spec {
        assert(cs[0] == field_report(n, text_or_empty(live), v@));
    }
}

proof fn lemma_bool_segment(n: Seq<char>, live: bool, spec: Option<bool>)
    ensures
        reports_setting(opt_bool_change(n, live, spec), n, bool_text(live), opt_bool_text(spec)),
        forall|name: Seq<char>| name != n ==> #[trigger] reports_none(opt_bool_change(n, live, spec), name),
{
    reveal_strlit("true");
    reveal_strlit("false");
    assert("true"@.len() == 4);
    assert("false"@.len() == 5);
    let cs = opt_bool_change(n, live, spec);
    if let Some(v) = spec {
        assert(cs[0] == field_report(n, bool_text(live), bool_text(v)));
    }
}

/// Each merge setting is compared with the live setting of the same name:
/// for every setting the spec names, the changes hold exactly one entry for
/// it, agreement when the live value equals the spec value and otherwise a
/// change from the live value to the spec value; a setting the spec leaves
/// out is not reported.
pub proof fn lemma_merge_settings_compared_by_name(ms: MergeStrategy, live: RepoApiData)
    ensures
        reports_setting(
            merge_strategy_changes(ms, live),
            "merge_strategy.squash_merge_commit_title"@,
            text_or_empty(live.squash_merge_commit_title),
            opt_view(ms.squash_merge_commit_title),
        ),
        reports_setting(
            merge_strategy_changes(ms, live),
            "merge_strategy.squash_merge_commit_message"@,
            text_or_empty(live.squash_merge_commit_message),
            opt_view(ms.squash_merge_commit_message),
        ),
        reports_setting(
            merge_strategy_changes(ms, live),
            "merge_strategy.merge_commit_title"@,
            text_or_empty(live.merge_commit_title),
            opt_view(ms.merge_commit_title),
        ),
        reports_setting(
            merge_strategy_changes(ms, live),
            "merge_strategy.merge_commit_message"@,
            text_or_empty(live.merge_commit_message),
            opt_view(ms.merge_commit_message),
        ),
        reports_setting(
            merge_strategy_changes(ms, live),
            "merge_strategy.allow_merge_commit"@,
            bool_text(live.allow_merge_commit),
            opt_bool_text(ms.allow_merge_commit),
        ),
        reports_setting(
            merge_strategy_changes(ms, live),
            "merge_strategy.allow_squash_merge"@,
            bool_text(live.allow_squash_merge),
            opt_bool_text(ms.allow_squash_merge),
        ),
        reports_setting(
            merge_strategy_changes(ms, live),
            "merge_strategy.allow_rebase_merge"@,
            bool_text(live.allow_rebase_merge),
            opt_bool_text(ms.allow_rebase_merge),
        ),
        reports_setting(
            merge_strategy_changes(ms, live),
            "merge_strategy.allow_auto_merge"@,
            bool_text(live.allow_auto_merge),
            opt_bool_text(ms.allow_auto_merge),
        ),
        reports_setting(
            merge_strategy_changes(ms, live),
            "merge_strategy.allow_update_branch"@,
            bool_text(live.allow_update_branch),
            opt_bool_text(ms.allow_update_branch),
        ),
        reports_setting(
            merge_strategy_changes(ms, live),
            "merge_strategy.auto_delete_head_branches"@,
            bool_text(live.delete_branch_on_merge),
            opt_bool_text(ms.auto_delete_head_branches),
        ),
{
    lemma_merge_setting_names();
    lemma_text_segment(
        "merge_strategy.squash_merge_commit_title"@,
        live.squash_merge_commit_title,
        ms.squash_merge_commit_title,
    );
    lemma_text_segment(
        "merge_strategy.squash_merge_commit_message"@,
        live.squash_merge_commit_message,
        ms.squash_merge_commit_message,
    );
    lemma_text_segment(
        "merge_strategy.merge_commit_title"@,
        live.merge_commit_title,
        ms.merge_commit_title,
    );
    lemma_text_segment(
        "merge_strategy.merge_commit_message"@,
        live.merge_commit_message,
        ms.merge_commit_message,
    );
    lemma_bool_segment(
        "merge_strategy.allow_merge_commit"@,
        live.allow_merge_commit,
        ms.allow_merge_commit,
    );
    lemma_bool_segment(
        "merge_strategy.allow_squash_merge"@,
        live.allow_squash_merge,
        ms.allow_squash_merge,
    );
    lemma_bool_segment(
        "merge_strategy.allow_rebase_merge"@,
        live.allow_rebase_merge,
        ms.allow_rebase_merge,
    );
    lemma_bool_segment(
        "merge_strategy.allow_auto_merge"@,
        live.allow_auto_merge,
        ms.allow_auto_merge,
    );
    lemma_bool_segment(
        "merge_strategy.allow_update_branch"@,
        live.allow_update_branch,
        ms.allow_update_branch,
    );
    lemma_bool_segment(
        "merge_strategy.auto_delete_head_branches"@,
        live.delete_branch_on_merge,
        ms.auto_delete_head_branches,
    );
    lemma_merge_changes_report(
        ms,
        live,
        "merge_strategy.squash_merge_commit_title"@,
        text_or_empty(live.squash_merge_commit_title),
        opt_view(ms.squash_merge_commit_title),
    );
    lemma_merge_changes_report(
        ms,
        live,
        "merge_strategy.squash_merge_commit_message"@,
        text_or_empty(live.squash_merge_commit_message),
        opt_view(ms.squash_merge_commit_message),
    );
    lemma_merge_changes_report(
        ms,
        live,
        "merge_strategy.merge_commit_title"@,
        text_or_empty(live.merge_commit_title),
        opt_view(ms.merge_commit_title),
    );
    lemma_merge_changes_report(
        ms,
        live,
        "merge_strategy.merge_commit_message"@,
        text_or_empty(live.merge_commit_message),
        opt_view(ms.merge_commit_message),
    );
    lemma_merge_changes_report(
        ms,
        live,
        "merge_strategy.allow_merge_commit"@,
        bool_text(live.allow_merge_commit),
        opt_bool_text(ms.allow_merge_commit),
    );
    lemma_merge_changes_report(
        ms,
        live,
        "merge_strategy.allow_squash_merge"@,
        bool_text(live.allow_squash_merge),
        opt_bool_text(ms.allow_squash_merge),
    );
    lemma_merge_changes_report(
        ms,
        live,
        "merge_strategy.allow_rebase_merge"@,
        bool_text(live.allow_rebase_merge),
        opt_bool_text(ms.allow_rebase_merge),
    );
    lemma_merge_changes_report(
        ms,
        live,
        "merge_strategy.allow_auto_merge"@,
        bool_text(live.allow_auto_merge),
        opt_bool_text(ms.allow_auto_merge),
    );
    lemma_merge_changes_report(
        ms,
        live,
        "merge_strategy.allow_update_branch"@,
        bool_text(live.allow_update_branch),
        opt_bool_text(ms.allow_update_branch),
    );
    lemma_merge_changes_report(
        ms,
        live,
        "merge_strategy.auto_delete_head_branches"@,
        bool_text(live.delete_branch_on_merge),
        opt_bool_text(ms.auto_delete_head_branches),
    );
}

/// Four parts that each settle field `name` settle it together, and the
/// whole reports it when one of them does.
proof fn lemma_four_parts_report(
    a: Seq<ChangeView>,
    b: Seq<ChangeView>,
    c: Seq<ChangeView>,
    d: Seq<ChangeView>,
    name: Seq<char>,
    live: Seq<char>,
    spec: Option<Seq<char>>,
)
    requires
        settles(a, name, live, spec),
        settles(b, name, live, spec),
        settles(c, name, live, spec),
        settles(d, name, live, spec),
    ensures
        reports_setting(a, name, live, spec) || reports_setting(b, name, live, spec)
            || reports_setting(c, name, live, spec) || reports_setting(d, name, live, spec)
            ==> reports_setting(a + b + c + d, name, live, spec),
        settles(a + b + c + d, name, live, spec),
{
    lemma_reports_concat(a, b, name, live, spec);
    lemma_reports_concat(a + b, c, name, live, spec);
    lemma_reports_concat(a + b + c, d, name, live, spec);
}

/// Each repository feature is compared with the live feature of the same
/// name: a feature the spec names is reported once, as agreement when the
/// live switch matches and otherwise as a change from the live switch; a
/// feature the spec leaves out is not reported.
pub proof fn lemma_features_compared_by_name(feat: Features, live: RepoApiData)
    ensures
        reports_setting(
            features_changes(feat, live),
            "features.issues"@,
            bool_text(live.has_issues),
            opt_bool_text(feat.issues),
        ),
        reports_setting(
            features_changes(feat, live),
            "features.projects"@,
            bool_text(live.has_projects),
            opt_bool_text(feat.projects),
        ),
        reports_setting(
            features_changes(feat, live),
            "features.wiki"@,
            bool_text(live.has_wiki),
            opt_bool_text(feat.wiki),
        ),
        reports_setting(
            features_changes(feat, live),
            "features.discussions"@,
            bool_text(live.has_discussions),
            opt_bool_text(feat.discussions),
        ),
{
    lemma_feature_names();
    let a = opt_bool_change("features.issues"@, live.has_issues, feat.issues);
    let b = opt_bool_change("features.projects"@, live.has_projects, feat.projects);
    let c = opt_bool_change("features.wiki"@, live.has_wiki, feat.wiki);
    let d = opt_bool_change("features.discussions"@, live.has_discussions, feat.discussions);
    lemma_bool_segment("features.issues"@, live.has_issues, feat.issues);
    lemma_bool_segment("features.projects"@, live.has_projects, feat.projects);
    lemma_bool_segment("features.wiki"@, live.has_wiki, feat.wiki);
    lemma_bool_segment("features.discussions"@, live.has_discussions, feat.discussions);
    lemma_four_parts_report(
        a,
        b,
        c,
        d,
        "features.issues"@,
        bool_text(live.has_issues),
        opt_bool_text(feat.issues),
    );
    lemma_four_parts_report(
        a,
        b,
        c,
        d,
        "features.projects"@,
        bool_text(live.has_projects),
        opt_bool_text(feat.projects),
    );
    lemma_four_parts_report(
        a,
        b,
        c,
        d,
        "features.wiki"@,
        bool_text(live.has_wiki),
        opt_bool_text(feat.wiki),
    );
    lemma_four_parts_report(
        a,
        b,
        c,
        d,
        "features.discussions"@,
        bool_text(live.has_discussions),
        opt_bool_text(feat.discussions),
    );
}

proof fn lemma_feature_names()
    ensures
        "features.issues"@.len() == 15,
        "features.projects"@.len() == 17,
        "features.wiki"@.len() == 13,
        "features.discussions"@.len() == 20,
{
    reveal_strlit("features.issues");
    reveal_strlit("features.projects");
    reveal_strlit("features.wiki");
    reveal_strlit("features.discussions");
}

/// The general settings are each compared with the live setting of the same
/// name (an absent live description or homepage reads as empty): a setting
/// the spec names is reported once, as agreement or as a change from the
/// live value; a setting the spec leaves out is not reported.
pub proof fn lemma_core_settings_compared_by_name(spec: Spec, repo: RepoApiData)
    ensures
        reports_setting(
            core_changes(spec, repo),
            "description"@,
            text_or_empty(repo.description),
            opt_view(spec.description),
        ),
        reports_setting(
            core_changes(spec, repo),
            "homepage"@,
            text_or_empty(repo.homepage),
            opt_view(spec.homepage),
        ),
        reports_setting(
            core_changes(spec, repo),
            "visibility"@,
            repo.visibility@,
            opt_view(spec.visibility),
        ),
        reports_setting(
            core_changes(spec, repo),
            "archived"@,
            bool_text(repo.archived),
            opt_bool_text(spec.archived),
        ),
        reports_setting(
            core_changes(spec, repo),
            "web_commit_signoff_required"@,
            bool_text(repo.web_commit_signoff_required),
            opt_bool_text(spec.web_commit_signoff_required),
        ),
{
    lemma_core_names();
    let a = opt_str_change("description"@, opt_view(repo.description), spec.description);
    let b = opt_str_change("homepage"@, opt_view(repo.homepage), spec.homepage);
    let c = opt_str_change("visibility"@, Some(repo.visibility@), spec.visibility);
    let d = opt_bool_change("archived"@, repo.archived, spec.archived);
    let e = opt_bool_change(
        "web_commit_signoff_required"@,
        repo.web_commit_signoff_required,
        spec.web_commit_signoff_required,
    );
    lemma_text_segment("description"@, repo.description, spec.description);
    lemma_text_segment("homepage"@, repo.homepage, spec.homepage);
    lemma_text_segment("visibility"@, Some(repo.visibility), spec.visibility);
    lemma_bool_segment("archived"@, repo.archived, spec.archived);
    lemma_bool_segment(
        "web_commit_signoff_required"@,
        repo.web_commit_signoff_required,
        spec.web_commit_signoff_required,
    );
    assert(opt_view(Some(repo.visibility)) == Some(repo.visibility@));
    assert(text_or_empty(Some(repo.visibility)) == repo.visibility@);
    lemma_four_parts_report(
        a,
        b,
        c,
        d,
        "description"@,
        text_or_empty(repo.description),
        opt_view(spec.description),
    );
    lemma_reports_concat(
        a + b + c + d,
        e,
        "description"@,
        text_or_empty(repo.description),
        opt_view(spec.description),
    );
    lemma_four_parts_report(
        a,
        b,
        c,
        d,
        "homepage"@,
        text_or_empty(repo.homepage),
        opt_view(spec.homepage),
    );
    lemma_reports_concat(
        a + b + c + d,
        e,
        "homepage"@,
        text_or_empty(repo.homepage),
        opt_view(spec.homepage),
    );
    lemma_four_parts_report(a, b, c, d, "visibility"@, repo.visibility@, opt_view(spec.visibility));
    lemma_reports_concat(
        a + b + c + d,
        e,
        "visibility"@,
        repo.visibility@,
        opt_view(spec.visibility),
    );
    lemma_four_parts_report(
        a,
        b,
        c,
        d,
        "archived"@,
        bool_text(repo.archived),
        opt_bool_text(spec.archived),
    );
    lemma_reports_concat(
        a + b + c + d,
        e,
        "archived"@,
        bool_text(repo.archived),
        opt_bool_text(spec.archived),
    );
    lemma_four_parts_report(
        a,
        b,
        c,
        d,
        "web_commit_signoff_required"@,
        bool_text(repo.web_commit_signoff_required),
        opt_bool_text(spec.web_commit_signoff_required),
    );
    lemma_reports_concat(
        a + b + c + d,
        e,
        "web_commit_signoff_required"@,
        bool_text(repo.web_commit_signoff_required),
        opt_bool_text(spec.web_commit_signoff_required),
    );
}

proof fn lemma_core_names()
    ensures
        "description"@.len() == 11,
        "homepage"@.len() == 8,
        "visibility"@.len() == 10,
        "archived"@.len() == 8,
        "web_commit_signoff_required"@.len() == 27,
        "homepage"@[0] == 'h',
        "archived"@[0] == 'a',
{
    reveal_strlit("description");
    reveal_strlit("homepage");
    reveal_strlit("visibility");
    reveal_strlit("archived");
    reveal_strlit("web_commit_signoff_required");
}

/// Record the changes for the merge settings.
pub fn compare_merge_strategy(changes: &mut Vec<SpecChange>, ms: &MergeStrategy, live: &RepoApiData)
    ensures
        changes_view(final(changes)@) == changes_view(old(changes)@) + merge_strategy_changes(
            *ms,
            *live,
        ),
{
    let ghost before = changes_view(changes@);
    compare_merge_methods(changes, ms, live);
    compare_merge_texts(changes, ms, live);
    assert(changes_view(changes@) =~= before + merge_strategy_changes(*ms, *live));
}

fn compare_merge_methods(changes: &mut Vec<SpecChange>, ms: &MergeStrategy, live: &RepoApiData)
    ensures
        changes_view(final(changes)@) == changes_view(old(changes)@) + merge_method_changes(
            *ms,
            *live,
        ),
{
    let ghost before = changes_view(changes@);
    compare_merge_methods_a(changes, ms, live);
    compare_merge_methods_b(changes, ms, live);
    assert(changes_view(changes@) =~= before + merge_method_changes(*ms, *live));
}

fn compare_merge_methods_a(changes: &mut Vec<SpecChange>, ms: &MergeStrategy, live: &RepoApiData)
    ensures
        changes_view(final(changes)@) == changes_view(old(changes)@) + opt_bool_change(
            "merge_strategy.allow_merge_commit"@,
            live.allow_merge_commit,
            ms.allow_merge_commit,
        ) + opt_bool_change(
            "merge_strategy.allow_squash_merge"@,
            live.allow_squash_merge,
            ms.allow_squash_merge,
        ) + opt_bool_change(
            "merge_strategy.allow_rebase_merge"@,
            live.allow_rebase_merge,
            ms.allow_rebase_merge,
        ),
{
    push_opt_bool(
        changes,
        "merge_strategy.allow_merge_commit",
        live.allow_merge_commit,
        ms.allow_merge_commit,
    );
    push_opt_bool(
        changes,
        "merge_strategy.allow_squash_merge",
        live.allow_squash_merge,
        ms.allow_squash_merge,
    );
    push_opt_bool(
        changes,
        "merge_strategy.allow_rebase_merge",
        live.allow_rebase_merge,
        ms.allow_rebase_merge,
    );
}

fn compare_merge_methods_b(changes: &mut Vec<SpecChange>, ms: &MergeStrategy, live: &RepoApiData)
    ensures
        changes_view(final(changes)@) == changes_view(old(changes)@) + opt_bool_change(
            "merge_strategy.allow_auto_merge"@,
            live.allow_auto_merge,
            ms.allow_auto_merge,
        ) + opt_bool_change(
            "merge_strategy.allow_update_branch"@,
            live.allow_update_branch,
            ms.allow_update_branch,
        ) + opt_bool_change(
            "merge_strategy.auto_delete_head_branches"@,
            live.delete_branch_on_merge,
            ms.auto_delete_head_branches,
        ),
{
    push_opt_bool(
        changes,
        "merge_strategy.allow_auto_merge",
        live.allow_auto_merge,
        ms.allow_auto_merge,
    );
    push_opt_bool(
        changes,
        "merge_strategy.allow_update_branch",
        live.allow_update_branch,
        ms.allow_update_branch,
    );
    push_opt_bool(
        changes,
        "merge_strategy.auto_delete_head_branches",
        live.delete_branch_on_merge,
        ms.auto_delete_head_branches,
    );
}

fn compare_merge_texts(changes: &mut Vec<SpecChange>, ms: &MergeStrategy, live: &RepoApiData)
    ensures
        changes_view(final(changes)@) == changes_view(old(changes)@) + merge_text_changes(
            *ms,
            *live,
        ),
{
    let ghost before = changes_view(changes@);
    push_opt_str(
        changes,
        "merge_strategy.squash_merge_commit_title",
        &live.squash_merge_commit_title,
        &ms.squash_merge_commit_title,
    );
    push_opt_str(
        changes,
        "merge_strategy.squash_merge_commit_message",
        &live.squash_merge_commit_message,
        &ms.squash_merge_commit_message,
    );
    push_opt_str(
        changes,
        "merge_strategy.merge_commit_title",
        &live.merge_commit_title,
        &ms.merge_commit_title,
    );
    push_opt_str(
        changes,
        "merge_strategy.merge_commit_message",
        &live.merge_commit_message,
        &ms.merge_commit_message,
    );
    assert(changes_view(changes@) =~= before + merge_text_changes(*ms, *live));
}

// ---------------------------------------------------------------------------
// Labels
// ---------------------------------------------------------------------------

/// The text without its leading `#` characters.
pub open spec fn trim_hashes(s: Seq<char>) -> Seq<char>
    decreases s.len(),
{
    if s.len() > 0 && s[0] == '#' {
        trim_hashes(s.drop_first())
    } else {
        s
    }
}

/// A label colour as compared: without leading `#`, in lowercase.
pub open spec fn normalized_color(c: Seq<char>) -> Seq<char> {
    unicode_lowercase(trim_hashes(c))
}

/// A leading `#` makes no difference to a label colour as compared.
pub proof fn lemma_color_hash_prefix(c: Seq<char>)
    ensures
        normalized_color(seq!['#'] + c) == normalized_color(c),
{
    assert((seq!['#'] + c).drop_first() =~= c);
}

/// Normalise a label colour to lowercase hex without the leading `#`.
pub fn normalize_color(color: &str) -> (r: String)
    ensures
        r@ == normalized_color(color@),
{
    let cs = chars_of(color);
    let mut k: usize = 0;
    assert(color@.skip(0) =~= color@);
    while k < cs.len() && cs[k] == '#'
        invariant
            k <= cs.len(),
            cs@ == color@,
            trim_hashes(color@) == trim_hashes(color@.skip(k as int)),
        decreases cs.len() - k,
    {
        assert(color@.skip(k as int).drop_first() =~= color@.skip(k + 1));
        k = k + 1;
    }
    let rest = color.substring_char(k, color.unicode_len());
    assert(rest@ =~= color@.skip(k as int));
    str_to_lowercase(rest)
}

/// The first live label named `name`.
pub open spec fn find_label(live: Seq<ApiLabel>, name: Seq<char>) -> Option<ApiLabel>
    decreases live.len(),
{
    if live.len() == 0 {
        None
    } else if live[0].name@ == name {
        Some(live[0])
    } else {
        find_label(live.drop_first(), name)
    }
}

/// The change for one spec label: added when no live label has its name,
/// in agreement when the live one has the same colour (normalised) and
/// description, updated otherwise.
pub open spec fn label_change(sl: Label, live: Seq<ApiLabel>) -> ChangeView {
    let color = normalized_color(sl.color@);
    match find_label(live, sl.name@) {
        None => ChangeView::LabelAdd(sl.name@, color, opt_view(sl.description)),
        Some(ll) => {
            let live_color = normalized_color(ll.color@);
            if live_color == color && opt_view(ll.description) == opt_view(sl.description) {
                ChangeView::LabelOk(sl.name@)
            } else {
                ChangeView::LabelUpdate(
                    sl.name@,
                    live_color,
                    opt_view(ll.description),
                    color,
                    opt_view(sl.description),
                )
            }
        },
    }
}

/// Whether a spec label is named `name`.
pub open spec fn has_label(spec: Seq<Label>, name: Seq<char>) -> bool {
    exists|i: int| 0 <= i < spec.len() && #[trigger] spec[i].name@ == name
}

/// The deletions of the live labels that no spec label names, in order.
pub open spec fn label_deletes(live: Seq<ApiLabel>, spec: Seq<Label>) -> Seq<ChangeView>
    decreases live.len(),
{
    if live.len() == 0 {
        Seq::empty()
    } else {
        label_deletes(live.drop_last(), spec) + if has_label(spec, live.last().name@) {
            Seq::empty()
        } else {
            seq![ChangeView::LabelDelete(live.last().name@)]
        }
    }
}

/// The changes for the labels: one per spec label, then, in mirror mode, the
/// deletion of every live label the spec does not name.
pub open spec fn labels_changes(spec: Seq<Label>, live: Seq<ApiLabel>, mirror: bool) -> Seq<
    ChangeView,
> {
    spec.map_values(|sl: Label| label_change(sl, live)) + if mirror {
        label_deletes(live, spec)
    } else {
        Seq::empty()
    }
}

/// In additive mode no label is ever deleted, and each spec label gets
/// exactly one change, in the order of the spec.
pub proof fn lemma_additive_labels_keep_live(spec: Seq<Label>, live: Seq<ApiLabel>)
    ensures
        labels_changes(spec, live, false).len() == spec.len(),
        forall|i: int|
            0 <= i < spec.len() ==> #[trigger] labels_changes(spec, live, false)[i]
                == label_change(spec[i], live),
        forall|i: int|
            0 <= i < spec.len() ==> !(#[trigger] labels_changes(spec, live, false)[i] is LabelDelete),
{
    let cs = labels_changes(spec, live, false);
    assert(cs =~= spec.map_values(|sl: Label| label_change(sl, live)));
}

fn find_label_index(live: &[ApiLabel], name: &str) -> (r: Option<usize>)
    ensures
        match r {
            Some(i) => i < live@.len() && find_label(live@, name@) == Some(live@[i as int]),
            None => find_label(live@, name@) is None,
        },
{
    let mut i: usize = 0;
    assert(live@.skip(0) =~= live@);
    while i < live.len()
        invariant
            i <= live.len(),
            find_label(live@, name@) == find_label(live@.skip(i as int), name@),
        decreases live.len() - i,
    {
        assert(live@.skip(i as int).drop_first() =~= live@.skip(i + 1));
        if text_eq(live[i].name.as_str(), name) {
            return Some(i);
        }
        i = i + 1;
    }
    None
}

fn copy_opt(o: &Option<String>) -> (r: Option<String>)
    ensures
        opt_view(r) == opt_view(*o),
{
    match o {
        Some(s) => Some(String::from_str(s.as_str())),
        None => None,
    }
}

fn opt_text_eq(a: &Option<String>, b: &Option<String>) -> (r: bool)
    ensures
        r == (opt_view(*a) == opt_view(*b)),
{
    match (a, b) {
        (Some(x), Some(y)) => text_eq(x.as_str(), y.as_str()),
        (None, None) => true,
        _ => false,
    }
}

fn spec_names_label(spec: &[Label], name: &str) -> (r: bool)
    ensures
        r == has_label(spec@, name@),
{
    let mut i: usize = 0;
    while i < spec.len()
        invariant
            i <= spec.len(),
            forall|j: int| 0 <= j < i ==> spec@[j].name@ != name@,
        decreases spec.len() - i,
    {
        if text_eq(spec[i].name.as_str(), name) {
            return true;
        }
        i = i + 1;
    }
    false
}

/// Record the changes for the labels.
pub fn compare_labels(
    changes: &mut Vec<SpecChange>,
    spec_labels: &[Label],
    live_labels: &[ApiLabel],
    mirror: bool,
)
    ensures
        changes_view(final(changes)@) == changes_view(old(changes)@) + labels_changes(
            spec_labels@,
            live_labels@,
            mirror,
        ),
{
    let ghost before = changes_view(changes@);
    let ghost adds = spec_labels@.map_values(|sl: Label| label_change(sl, live_labels@));
    let mut i: usize = 0;
    while i < spec_labels.len()
        invariant
            i <= spec_labels.len(),
            adds == spec_labels@.map_values(|sl: Label| label_change(sl, live_labels@)),
            changes_view(changes@) == before + adds.take(i as int),
        decreases spec_labels.len() - i,
    {
        let sl = &spec_labels[i];
        let color = normalize_color(sl.color.as_str());
        let c = match find_label_index(live_labels, sl.name.as_str()) {
            None => SpecChange::LabelAdd {
                name: String::from_str(sl.name.as_str()),
                color,
                description: copy_opt(&sl.description),
            },
            Some(k) => {
                let ll = &live_labels[k];
                let live_color = normalize_color(ll.color.as_str());
                if text_eq(live_color.as_str(), color.as_str()) && opt_text_eq(
                    &ll.description,
                    &sl.description,
                ) {
                    SpecChange::LabelOk { name: String::from_str(sl.name.as_str()) }
                } else {
                    SpecChange::LabelUpdate {
                        name: String::from_str(sl.name.as_str()),
                        old_color: live_color,
                        old_description: copy_opt(&ll.description),
                        new_color: color,
                        new_description: copy_opt(&sl.description),
                    }
                }
            },
        };
        assert(c@ == label_change(*sl, live_labels@));
        push_change(changes, c);
        assert(adds.take(i + 1) =~= adds.take(i as int).push(adds[i as int]));
        i = i + 1;
    }
    assert(adds.take(i as int) =~= adds);
    if mirror {
        let ghost mid = changes_view(changes@);
        let mut j: usize = 0;
        assert(live_labels@.take(0) =~= Seq::<ApiLabel>::empty());
        while j < live_labels.len()
            invariant
                j <= live_labels.len(),
                changes_view(changes@) == mid + label_deletes(
                    live_labels@.take(j as int),
                    spec_labels@,
                ),
            decreases live_labels.len() - j,
        {
            let ll = &live_labels[j];
            assert(live_labels@.take(j + 1).drop_last() =~= live_labels@.take(j as int));
            let ghost cur = changes_view(changes@);
            if !spec_names_label(spec_labels, ll.name.as_str()) {
                push_change(
                    changes,
                    SpecChange::LabelDelete { name: String::from_str(ll.name.as_str()) },
                );
                assert(changes_view(changes@) =~= cur + seq![ChangeView::LabelDelete(ll.name@)]);
            } else {
                assert(changes_view(changes@) =~= cur + Seq::<ChangeView>::empty());
            }
            j = j + 1;
        }
        assert(live_labels@.take(j as int) =~= live_labels@);
    }
    assert(changes_view(changes@) =~= before + labels_changes(spec_labels@, live_labels@, mirror));
}

// ---------------------------------------------------------------------------
// Actions
// ---------------------------------------------------------------------------

/// An optional list of strings taken by value; none as an empty list.
pub open spec fn texts_or_empty(o: Option<Vec<String>>) -> Seq<Seq<char>> {
    match o {
        Some(v) => strings_view(v@),
        None => Seq::empty(),
    }
}

/// The change for the allowed action patterns: agreement when both lists
/// hold the same patterns in any order; the live patterns are shown sorted.
pub open spec fn patterns_change(spec: Seq<Seq<char>>, live: Seq<Seq<char>>) -> ChangeView {
    if same_texts(spec, live) {
        ChangeView::FieldOk("actions.selected_actions.patterns_allowed"@, bracket_list(spec))
    } else {
        ChangeView::FieldChanged(
            "actions.selected_actions.patterns_allowed"@,
            bracket_list(sorted_texts(live)),
            bracket_list(spec),
        )
    }
}

/// The changes for the selected actions, when the spec names them and the
/// live ones are known.
pub open spec fn selected_changes(
    sel: Option<crate::manifest::SelectedActions>,
    live_sel: Option<SelectedActionsApi>,
) -> Seq<ChangeView> {
    match (sel, live_sel) {
        (Some(s), Some(ls)) => opt_bool_change(
            "actions.selected_actions.github_owned_allowed"@,
            match ls.github_owned_allowed {
                Some(b) => b,
                None => false,
            },
            s.github_owned_allowed,
        ) + match s.patterns_allowed {
            Some(p) => seq![patterns_change(strings_view(p@), texts_or_empty(ls.patterns_allowed))],
            None => Seq::empty(),
        },
        _ => Seq::empty(),
    }
}

/// The changes for the workflow permissions, when the live ones are known.
pub open spec fn workflow_changes(act: Actions, live_wf: Option<WorkflowPermissionsApi>) -> Seq<
    ChangeView,
> {
    (match (act.workflow_permissions, live_wf) {
        (Some(v), Some(wf)) => seq![
            str_change(
                "actions.workflow_permissions"@,
                opt_view(wf.default_workflow_permissions),
                v@,
            ),
        ],
        _ => Seq::empty(),
    }) + match (act.can_approve_pull_requests, live_wf) {
        (Some(v), Some(wf)) => seq![
            bool_change(
                "actions.can_approve_pull_requests"@,
                wf.can_approve_pull_request_reviews,
                v,
            ),
        ],
        _ => Seq::empty(),
    }
}

/// What is shown for a setting whose endpoint is not available.
pub open spec fn skipped_note() -> Seq<char> {
    "(endpoint not available — skipped)"@
}

/// The change for the fork pull request approval policy; skipped when the
/// live policy is not known.
pub open spec fn fork_change(act: Actions, live_fork: Option<Seq<char>>) -> Seq<ChangeView> {
    match act.fork_pr_approval {
        Some(v) => match live_fork {
            Some(l) => seq![str_change("actions.fork_pr_approval"@, Some(l), v@)],
            None => seq![ChangeView::FieldOk("actions.fork_pr_approval"@, skipped_note())],
        },
        None => Seq::empty(),
    }
}

/// The changes for the GitHub Actions settings the spec names.
pub open spec fn actions_changes(
    act: Actions,
    live: ActionsPermissionsApi,
    live_sel: Option<SelectedActionsApi>,
    live_wf: Option<WorkflowPermissionsApi>,
    live_fork: Option<Seq<char>>,
) -> Seq<ChangeView> {
    opt_bool_change("actions.enabled"@, live.enabled, act.enabled) + opt_str_change(
        "actions.allowed_actions"@,
        opt_view(live.allowed_actions),
        act.allowed_actions,
    ) + selected_changes(act.selected_actions, live_sel) + workflow_changes(act, live_wf)
        + fork_change(act, live_fork) + opt_bool_change(
        "actions.sha_pinning_required"@,
        match live.sha_pinning_required {
            Some(b) => b,
            None => false,
        },
        act.sha_pinning_required,
    )
}

fn compare_selected(
    changes: &mut Vec<SpecChange>,
    sel: &Option<crate::manifest::SelectedActions>,
    live_sel: Option<&SelectedActionsApi>,
)
    ensures
        changes_view(final(changes)@) == changes_view(old(changes)@) + selected_changes(
            *sel,
            match live_sel {
                Some(l) => Some(*l),
                None => None,
            },
        ),
{
    let ghost before = changes_view(changes@);
    match (sel, live_sel) {
        (Some(s), Some(ls)) => {
            let owned = match ls.github_owned_allowed {
                Some(b) => b,
                None => false,
            };
            push_opt_bool(
                changes,
                "actions.selected_actions.github_owned_allowed",
                owned,
                s.github_owned_allowed,
            );
            let ghost mid = changes_view(changes@);
            match &s.patterns_allowed {
                Some(patterns) => {
                    let live_p = match &ls.patterns_allowed {
                        Some(p) => copy_texts(p.as_slice()),
                        None => Vec::new(),
                    };
                    assert(strings_view(live_p@) =~= texts_or_empty(ls.patterns_allowed));
                    if same_texts_exec(patterns.as_slice(), live_p.as_slice()) {
                        push_change(
                            changes,
                            SpecChange::FieldOk {
                                field: String::from_str(
                                    "actions.selected_actions.patterns_allowed",
                                ),
                                value: bracketed(patterns),
                            },
                        );
                    } else {
                        let sorted = sort_texts(live_p.as_slice());
                        push_change(
                            changes,
                            SpecChange::FieldChanged {
                                field: String::from_str(
                                    "actions.selected_actions.patterns_allowed",
                                ),
                                old: bracketed(&sorted),
                                new: bracketed(patterns),
                            },
                        );
                    }
                },
                None => {},
            }
        },
        _ => {},
    }
    assert(changes_view(changes@) =~= before + selected_changes(
        *sel,
        match live_sel {
            Some(l) => Some(*l),
            None => None,
        },
    ));
}

fn compare_workflow(
    changes: &mut Vec<SpecChange>,
    act: &Actions,
    live_wf: Option<&WorkflowPermissionsApi>,
)
    ensures
        changes_view(final(changes)@) == changes_view(old(changes)@) + workflow_changes(
            *act,
            match live_wf {
                Some(l) => Some(*l),
                None => None,
            },
        ),
{
    let ghost before = changes_view(changes@);
    match (&act.workflow_permissions, live_wf) {
        (Some(v), Some(wf)) => {
            let l = match &wf.default_workflow_permissions {
                Some(s) => Some(s.as_str()),
                None => None,
            };
            push_str_field(changes, "actions.workflow_permissions", l, v.as_str());
        },
        _ => {},
    }
    let ghost mid = changes_view(changes@);
    match (act.can_approve_pull_requests, live_wf) {
        (Some(v), Some(wf)) => {
            push_bool_field(
                changes,
                "actions.can_approve_pull_requests",
                wf.can_approve_pull_request_reviews,
                v,
            );
        },
        _ => {},
    }
    assert(changes_view(changes@) =~= before + workflow_changes(
        *act,
        match live_wf {
            Some(l) => Some(*l),
            None => None,
        },
    ));
}

fn compare_fork(changes: &mut Vec<SpecChange>, act: &Actions, live_fork: Option<&str>)
    ensures
        changes_view(final(changes)@) == changes_view(old(changes)@) + fork_change(
            *act,
            match live_fork {
                Some(l) => Some(l@),
                None => None,
            },
        ),
{
    let ghost before = changes_view(changes@);
    match &act.fork_pr_approval {
        Some(v) => match live_fork {
            Some(l) => push_str_field(changes, "actions.fork_pr_approval", Some(l), v.as_str()),
            None => push_change(
                changes,
                SpecChange::FieldOk {
                    field: String::from_str("actions.fork_pr_approval"),
                    value: String::from_str("(endpoint not available — skipped)"),
                },
            ),
        },
        None => {},
    }
    assert(changes_view(changes@) =~= before + fork_change(
        *act,
        match live_fork {
            Some(l) => Some(l@),
            None => None,
        },
    ));
}

/// The first part of the actions changes: the switch, the allowed actions
/// and the selected actions.
pub open spec fn actions_head_changes(
    act: Actions,
    live: ActionsPermissionsApi,
    live_sel: Option<SelectedActionsApi>,
) -> Seq<ChangeView> {
    opt_bool_change("actions.enabled"@, live.enabled, act.enabled) + opt_str_change(
        "actions.allowed_actions"@,
        opt_view(live.allowed_actions),
        act.allowed_actions,
    ) + selected_changes(act.selected_actions, live_sel)
}

/// The rest of the actions changes: workflow permissions, fork approval and
/// SHA pinning.
pub open spec fn actions_tail_changes(
    act: Actions,
    live: ActionsPermissionsApi,
    live_wf: Option<WorkflowPermissionsApi>,
    live_fork: Option<Seq<char>>,
) -> Seq<ChangeView> {
    workflow_changes(act, live_wf) + fork_change(act, live_fork) + opt_bool_change(
        "actions.sha_pinning_required"@,
        match live.sha_pinning_required {
            Some(b) => b,
            None => false,
        },
        act.sha_pinning_required,
    )
}

#[verifier::spinoff_prover]
fn compare_actions_head(
    changes: &mut Vec<SpecChange>,
    act: &Actions,
    live: &ActionsPermissionsApi,
    live_sel: Option<&SelectedActionsApi>,
)
    ensures
        changes_view(final(changes)@) == changes_view(old(changes)@) + actions_head_changes(
            *act,
            *live,
            match live_sel {
                Some(l) => Some(*l),
                None => None,
            },
        ),
{
    let ghost before = changes_view(changes@);
    push_opt_bool(changes, "actions.enabled", live.enabled, act.enabled);
    let ghost m1 = changes_view(changes@);
    push_opt_str(changes, "actions.allowed_actions", &live.allowed_actions, &act.allowed_actions);
    let ghost m2 = changes_view(changes@);
    compare_selected(changes, &act.selected_actions, live_sel);
    assert(changes_view(changes@) =~= before + actions_head_changes(
        *act,
        *live,
        match live_sel {
            Some(l) => Some(*l),
            None => None,
        },
    ));
}

#[verifier::spinoff_prover]
fn compare_actions_tail(
    changes: &mut Vec<SpecChange>,
    act: &Actions,
    live: &ActionsPermissionsApi,
    live_wf: Option<&WorkflowPermissionsApi>,
    live_fork_pr: Option<&str>,
)
    ensures
        changes_view(final(changes)@) == changes_view(old(changes)@) + actions_tail_changes(
            *act,
            *live,
            match live_wf {
                Some(l) => Some(*l),
                None => None,
            },
            match live_fork_pr {
                Some(l) => Some(l@),
                None => None,
            },
        ),
{
    let ghost before = changes_view(changes@);
    compare_workflow(changes, act, live_wf);
    let ghost m1 = changes_view(changes@);
    compare_fork(changes, act, live_fork_pr);
    let ghost m2 = changes_view(changes@);
    let pinning = match live.sha_pinning_required {
        Some(b) => b,
        None => false,
    };
    push_opt_bool(changes, "actions.sha_pinning_required", pinning, act.sha_pinning_required);
    assert(changes_view(changes@) =~= before + actions_tail_changes(
        *act,
        *live,
        match live_wf {
            Some(l) => Some(*l),
            None => None,
        },
        match live_fork_pr {
            Some(l) => Some(l@),
            None => None,
        },
    ));
}

/// Record the changes for the GitHub Actions settings.
pub fn compare_actions(
    changes: &mut Vec<SpecChange>,
    act: &Actions,
    live: &ActionsPermissionsApi,
    live_sel: Option<&SelectedActionsApi>,
    live_wf: Option<&WorkflowPermissionsApi>,
    live_fork_pr: Option<&str>,
)
    ensures
        changes_view(final(changes)@) == changes_view(old(changes)@) + actions_changes(
            *act,
            *live,
            match live_sel {
                Some(l) => Some(*l),
                None => None,
            },
            match live_wf {
                Some(l) => Some(*l),
                None => None,
            },
            match live_fork_pr {
                Some(l) => Some(l@),
                None => None,
            },
        ),
{
    let ghost before = changes_view(changes@);
    compare_actions_head(changes, act, live, live_sel);
    compare_actions_tail(changes, act, live, live_wf, live_fork_pr);
    let ghost ls = match live_sel {
        Some(l) => Some(*l),
        None => None,
    };
    let ghost lw = match live_wf {
        Some(l) => Some(*l),
        None => None,
    };
    let ghost lf = match live_fork_pr {
        Some(l) => Some(l@),
        None => None,
    };
    assert(actions_head_changes(*act, *live, ls) + actions_tail_changes(*act, *live, lw, lf)
        =~= actions_changes(*act, *live, ls, lw, lf));
    assert(changes_view(changes@) =~= before + actions_changes(*act, *live, ls, lw, lf));
}

// ---------------------------------------------------------------------------
// Rulesets
// ---------------------------------------------------------------------------

/// The first live ruleset named `name`.
pub open spec fn find_ruleset(live: Seq<LiveRuleset>, name: Seq<char>) -> Option<LiveRuleset>
    decreases live.len(),
{
    if live.len() == 0 {
        None
    } else if live[0].name@ == name {
        Some(live[0])
    } else {
        find_ruleset(live.drop_first(), name)
    }
}

/// The change for one spec ruleset, given what the detail fetch of its live
/// namesake answered (`None` when it failed): added when no live ruleset has
/// its name, in agreement when the details match, updated otherwise (also
/// when the details could not be had).
pub open spec fn ruleset_change(sr: Ruleset, live: Seq<LiveRuleset>, details: Option<Json>) -> ChangeView {
    match find_ruleset(live, sr.name@) {
        None => ChangeView::RulesetAdd(sr.name@, ruleset_value(sr)),
        Some(lr) => match details {
            Some(j) => if ruleset_matches_spec(sr, j) {
                ChangeView::RulesetOk(lr.id, sr.name@)
            } else {
                ChangeView::RulesetUpdate(lr.id, sr.name@, ruleset_value(sr), Some(j))
            },
            None => ChangeView::RulesetUpdate(lr.id, sr.name@, ruleset_value(sr), None),
        },
    }
}

/// Whether a spec ruleset is named `name`.
pub open spec fn has_ruleset(spec: Seq<Ruleset>, name: Seq<char>) -> bool {
    exists|i: int| 0 <= i < spec.len() && #[trigger] spec[i].name@ == name
}

/// The deletions of the live rulesets that no spec ruleset names, in order.
pub open spec fn ruleset_deletes(live: Seq<LiveRuleset>, spec: Seq<Ruleset>) -> Seq<ChangeView>
    decreases live.len(),
{
    if live.len() == 0 {
        Seq::empty()
    } else {
        ruleset_deletes(live.drop_last(), spec) + if has_ruleset(spec, live.last().name@) {
            Seq::empty()
        } else {
            seq![ChangeView::RulesetDelete(live.last().id, live.last().name@)]
        }
    }
}

/// The changes for the rulesets: one per spec ruleset (the `i`-th with the
/// `i`-th detail answer), then the deletion of every live ruleset the spec
/// does not name.
pub open spec fn rulesets_changes(
    spec: Seq<Ruleset>,
    live: Seq<LiveRuleset>,
    details: Seq<Option<Json>>,
) -> Seq<ChangeView> {
    Seq::new(spec.len(), |i: int| ruleset_change(spec[i], live, details[i])) + ruleset_deletes(
        live,
        spec,
    )
}

fn find_ruleset_index(live: &[LiveRuleset], name: &str) -> (r: Option<usize>)
    ensures
        match r {
            Some(i) => i < live@.len() && find_ruleset(live@, name@) == Some(live@[i as int]),
            None => find_ruleset(live@, name@) is None,
        },
{
    let mut i: usize = 0;
    assert(live@.skip(0) =~= live@);
    while i < live.len()
        invariant
            i <= live.len(),
            find_ruleset(live@, name@) == find_ruleset(live@.skip(i as int), name@),
        decreases live.len() - i,
    {
        assert(live@.skip(i as int).drop_first() =~= live@.skip(i + 1));
        if text_eq(live[i].name.as_str(), name) {
            return Some(i);
        }
        i = i + 1;
    }
    None
}

fn spec_names_ruleset(spec: &[Ruleset], name: &str) -> (r: bool)
    ensures
        r == has_ruleset(spec@, name@),
{
    let mut i: usize = 0;
    while i < spec.len()
        invariant
            i <= spec.len(),
            forall|j: int| 0 <= j < i ==> spec@[j].name@ != name@,
        decreases spec.len() - i,
    {
        if text_eq(spec[i].name.as_str(), name) {
            return true;
        }
        i = i + 1;
    }
    false
}

/// The change for one spec ruleset from the detail fetch answer.
pub fn ruleset_change_for(
    sr: &Ruleset,
    live_rulesets: &[LiveRuleset],
    index: Option<usize>,
    details: Option<Json>,
) -> (r: SpecChange)
    requires
        match index {
            Some(i) => i < live_rulesets@.len() && find_ruleset(live_rulesets@, sr.name@) == Some(
                live_rulesets@[i as int],
            ),
            None => find_ruleset(live_rulesets@, sr.name@) is None,
        },
    ensures
        r@ == ruleset_change(*sr, live_rulesets@, details),
{
    match index {
        None => SpecChange::RulesetAdd {
            name: String::from_str(sr.name.as_str()),
            spec: Box::new(copy_ruleset(sr)),
        },
        Some(k) => {
            let lr = &live_rulesets[k];
            match details {
                Some(j) => {
                    if ruleset_matches(sr, &j) {
                        SpecChange::RulesetOk { id: lr.id, name: String::from_str(sr.name.as_str()) }
                    } else {
                        SpecChange::RulesetUpdate {
                            id: lr.id,
                            name: String::from_str(sr.name.as_str()),
                            spec: Box::new(copy_ruleset(sr)),
                            live: Some(Box::new(j)),
                        }
                    }
                },
                None => SpecChange::RulesetUpdate {
                    id: lr.id,
                    name: String::from_str(sr.name.as_str()),
                    spec: Box::new(copy_ruleset(sr)),
                    live: None,
                },
            }
        },
    }
}

/// Compare rulesets by name: added for new, in agreement for unchanged,
/// updated for changed, deleted for removed.  The details of each live
/// namesake are fetched to compare contents; a failed fetch counts as a
/// change.  Whatever the fetches answer, the changes are what
/// [`rulesets_changes`] gives for the answers.
pub fn compare_rulesets(
    changes: &mut Vec<SpecChange>,
    spec_rulesets: &[Ruleset],
    live_rulesets: &[LiveRuleset],
    repo: &str,
    client: &dyn GhRepoClient,
)
    ensures
        exists|details: Seq<Option<Json>>|
            details.len() == spec_rulesets@.len() && changes_view(final(changes)@) == changes_view(
                old(changes)@,
            ) + rulesets_changes(spec_rulesets@, live_rulesets@, details),
{
    let ghost before = changes_view(changes@);
    let ghost mut details: Seq<Option<Json>> = Seq::empty();
    let mut i: usize = 0;
    while i < spec_rulesets.len()
        invariant
            i <= spec_rulesets.len(),
            details.len() == i,
            changes_view(changes@) == before + Seq::new(
                i as nat,
                |k: int| ruleset_change(spec_rulesets@[k], live_rulesets@, details[k]),
            ),
        decreases spec_rulesets.len() - i,
    {
        let sr = &spec_rulesets[i];
        let index = find_ruleset_index(live_rulesets, sr.name.as_str());
        let fetched = match index {
            Some(k) => match client.fetch_ruleset_details(repo, live_rulesets[k].id) {
                Ok(j) => Some(j),
                Err(_) => None,
            },
            None => None,
        };
        let ghost d = fetched;
        let c = ruleset_change_for(sr, live_rulesets, index, fetched);
        let ghost cur = changes_view(changes@);
        push_change(changes, c);
        proof {
            details = details.push(d);
            assert(changes_view(changes@) =~= before + Seq::new(
                (i + 1) as nat,
                |k: int| ruleset_change(spec_rulesets@[k], live_rulesets@, details[k]),
            ));
        }
        i = i + 1;
    }
    let ghost mid = changes_view(changes@);
    let mut j: usize = 0;
    assert(live_rulesets@.take(0) =~= Seq::<LiveRuleset>::empty());
    while j < live_rulesets.len()
        invariant
            j <= live_rulesets.len(),
            changes_view(changes@) == mid + ruleset_deletes(
                live_rulesets@.take(j as int),
                spec_rulesets@,
            ),
        decreases live_rulesets.len() - j,
    {
        let lr = &live_rulesets[j];
        assert(live_rulesets@.take(j + 1).drop_last() =~= live_rulesets@.take(j as int));
        let ghost cur = changes_view(changes@);
        if !spec_names_ruleset(spec_rulesets, lr.name.as_str()) {
            push_change(
                changes,
                SpecChange::RulesetDelete { id: lr.id, name: String::from_str(lr.name.as_str()) },
            );
            assert(changes_view(changes@) =~= cur + seq![ChangeView::RulesetDelete(lr.id, lr.name@)]);
        } else {
            assert(changes_view(changes@) =~= cur + Seq::<ChangeView>::empty());
        }
        j = j + 1;
    }
    assert(live_rulesets@.take(j as int) =~= live_rulesets@);
    assert(changes_view(changes@) =~= before + rulesets_changes(
        spec_rulesets@,
        live_rulesets@,
        details,
    ));
}

// ---------------------------------------------------------------------------
// Branch protection
// ---------------------------------------------------------------------------

/// The change for one spec branch protection, given the live protection of
/// its branch (`None` when it has none).
pub open spec fn protection_change(sbp: BranchProtection, live: Option<BranchProtectionApi>) -> ChangeView {
    match live {
        None => ChangeView::BranchProtectionAdd(protection_value(sbp)),
        Some(l) => if protection_matches_spec(sbp, l) {
            ChangeView::BranchProtectionOk(sbp.pattern@)
        } else {
            ChangeView::BranchProtectionUpdate(protection_value(sbp))
        },
    }
}

/// Whether a spec branch protection has pattern `p`.
pub open spec fn has_pattern(spec: Seq<BranchProtection>, p: Seq<char>) -> bool {
    exists|i: int| 0 <= i < spec.len() && #[trigger] spec[i].pattern@ == p
}

/// The removals of the protected branches that no spec pattern names.
pub open spec fn protection_removals(branches: Seq<Seq<char>>, spec: Seq<BranchProtection>) -> Seq<
    ChangeView,
>
    decreases branches.len(),
{
    if branches.len() == 0 {
        Seq::empty()
    } else {
        protection_removals(branches.drop_last(), spec) + if has_pattern(spec, branches.last()) {
            Seq::empty()
        } else {
            seq![ChangeView::BranchProtectionRemove(branches.last())]
        }
    }
}

/// The changes for branch protection: one per spec entry (the `i`-th with
/// the `i`-th live answer), then the removal of every protected branch the
/// spec does not name.
pub open spec fn protections_changes(
    spec: Seq<BranchProtection>,
    live: Seq<Option<BranchProtectionApi>>,
    branches: Seq<Seq<char>>,
) -> Seq<ChangeView> {
    Seq::new(spec.len(), |i: int| protection_change(spec[i], live[i])) + protection_removals(
        branches,
        spec,
    )
}

fn spec_names_pattern(spec: &[BranchProtection], p: &str) -> (r: bool)
    ensures
        r == has_pattern(spec@, p@),
{
    let mut i: usize = 0;
    while i < spec.len()
        invariant
            i <= spec.len(),
            forall|j: int| 0 <= j < i ==> spec@[j].pattern@ != p@,
        decreases spec.len() - i,
    {
        if text_eq(spec[i].pattern.as_str(), p) {
            return true;
        }
        i = i + 1;
    }
    false
}

fn fetch_context(what: &str, repo: &str) -> (s: String)
    ensures
        s@ == "failed to "@ + what@ + " for "@ + repo@,
{
    let mut s = String::from_str("failed to ");
    s.append(what);
    s.append(" for ");
    s.append(repo);
    s
}

/// Compare branch protections: added when the branch has none, in agreement
/// when it matches, updated otherwise; then removed for each protected
/// branch the spec does not name.  Fails when a fetch fails; on success the
/// changes are what [`protections_changes`] gives for what was fetched.
pub fn compare_branch_protection(
    changes: &mut Vec<SpecChange>,
    spec_bps: &[BranchProtection],
    repo: &str,
    client: &dyn GhRepoClient,
) -> (r: anyhow::Result<()>)
    ensures
        r is Ok ==> exists|live: Seq<Option<BranchProtectionApi>>, branches: Seq<Seq<char>>|
            live.len() == spec_bps@.len() && changes_view(final(changes)@) == changes_view(
                old(changes)@,
            ) + protections_changes(spec_bps@, live, branches),
{
    let ghost before = changes_view(changes@);
    let ghost mut answers: Seq<Option<BranchProtectionApi>> = Seq::empty();
    let mut i: usize = 0;
    while i < spec_bps.len()
        invariant
            i <= spec_bps.len(),
            answers.len() == i,
            changes_view(changes@) == before + Seq::new(
                i as nat,
                |k: int| protection_change(spec_bps@[k], answers[k]),
            ),
        decreases spec_bps.len() - i,
    {
        let sbp = &spec_bps[i];
        let live = match client.fetch_branch_protection(repo, sbp.pattern.as_str()) {
            Ok(l) => l,
            Err(e) => {
                let mut msg = String::from_str("failed to fetch branch protection for ");
                msg.append(repo);
                msg.append("/");
                msg.append(sbp.pattern.as_str());
                return Err(with_context(e, msg));
            },
        };
        let c = match &live {
            None => SpecChange::BranchProtectionAdd { spec: Box::new(copy_protection(sbp)) },
            Some(l) => {
                if protection_matches(sbp, l) {
                    SpecChange::BranchProtectionOk { pattern: String::from_str(sbp.pattern.as_str()) }
                } else {
                    SpecChange::BranchProtectionUpdate { spec: Box::new(copy_protection(sbp)) }
                }
            },
        };
        assert(c@ == protection_change(*sbp, live));
        push_change(changes, c);
        proof {
            answers = answers.push(live);
            assert(changes_view(changes@) =~= before + Seq::new(
                (i + 1) as nat,
                |k: int| protection_change(spec_bps@[k], answers[k]),
            ));
        }
        i = i + 1;
    }
    let live_branches = match client.list_protected_branches(repo) {
        Ok(b) => b,
        Err(e) => return Err(with_context(e, fetch_context("list protected branches", repo))),
    };
    let ghost mid = changes_view(changes@);
    let ghost bs = strings_view(live_branches@);
    let mut j: usize = 0;
    assert(bs.take(0) =~= Seq::<Seq<char>>::empty());
    while j < live_branches.len()
        invariant
            j <= live_branches.len(),
            bs == strings_view(live_branches@),
            changes_view(changes@) == mid + protection_removals(bs.take(j as int), spec_bps@),
        decreases live_branches.len() - j,
    {
        let pattern = live_branches[j].as_str();
        assert(bs.take(j + 1).drop_last() =~= bs.take(j as int));
        assert(bs.take(j + 1).last() == pattern@);
        let ghost cur = changes_view(changes@);
        if !spec_names_pattern(spec_bps, pattern) {
            push_change(
                changes,
                SpecChange::BranchProtectionRemove { pattern: String::from_str(pattern) },
            );
            assert(changes_view(changes@) =~= cur + seq![ChangeView::BranchProtectionRemove(pattern@)]);
        } else {
            assert(changes_view(changes@) =~= cur + Seq::<ChangeView>::empty());
        }
        j = j + 1;
    }
    assert(bs.take(j as int) =~= bs);
    assert(changes_view(changes@) =~= before + protections_changes(spec_bps@, answers, bs));
    Ok(())
}

// ---------------------------------------------------------------------------
// The whole comparison
// ---------------------------------------------------------------------------

/// What the live repository reported, as far as the comparison reads it.
pub struct LiveState {
    /// General settings.
    pub repo: RepoApiData,
    /// Release immutability (`None`: endpoint not available).
    pub release: Option<bool>,
    /// Topics.
    pub topics: Seq<Seq<char>>,
    /// Labels.
    pub labels: Seq<ApiLabel>,
    /// GitHub Actions permissions.
    pub actions: ActionsPermissionsApi,
    /// Selected actions.
    pub selected: Option<SelectedActionsApi>,
    /// Workflow permissions.
    pub workflow: Option<WorkflowPermissionsApi>,
    /// Fork pull request approval policy.
    pub fork_pr: Option<Seq<char>>,
    /// Rulesets.
    pub rulesets: Seq<LiveRuleset>,
    /// Details of the live namesake of each spec ruleset (`None`: fetch failed).
    pub details: Seq<Option<Json>>,
    /// Protection of the branch of each spec entry.
    pub protections: Seq<Option<BranchProtectionApi>>,
    /// Protected branches.
    pub branches: Seq<Seq<char>>,
}

/// The changes for the top-level text and boolean settings the spec names.
pub open spec fn core_changes(spec: Spec, repo: RepoApiData) -> Seq<ChangeView> {
    opt_str_change("description"@, opt_view(repo.description), spec.description)
        + opt_str_change("homepage"@, opt_view(repo.homepage), spec.homepage) + opt_str_change(
        "visibility"@,
        Some(repo.visibility@),
        spec.visibility,
    ) + opt_bool_change("archived"@, repo.archived, spec.archived) + opt_bool_change(
        "web_commit_signoff_required"@,
        repo.web_commit_signoff_required,
        spec.web_commit_signoff_required,
    )
}

/// The change for release immutability; skipped when the live value is not
/// known.
pub open spec fn release_changes(spec: Spec, live: Option<bool>) -> Seq<ChangeView> {
    match spec.release_immutability {
        Some(ri) => match live {
            Some(l) => seq![bool_change("release_immutability"@, l, ri)],
            None => seq![ChangeView::FieldOk("release_immutability"@, skipped_note())],
        },
        None => Seq::empty(),
    }
}

/// The changes for the settings read from the general settings, release
/// immutability, topics, features and merge strategy.
pub open spec fn settings_changes(spec: Spec, live: LiveState) -> Seq<ChangeView> {
    core_changes(spec, live.repo) + release_changes(spec, live.release) + topics_part(
        spec,
        live.topics,
    ) + features_part(spec, live.repo) + merge_part(spec, live.repo)
}

/// The change for the topics, when the spec names them.
pub open spec fn topics_part(spec: Spec, topics: Seq<Seq<char>>) -> Seq<ChangeView> {
    match spec.topics {
        Some(t) => seq![topics_change(strings_view(t@), topics)],
        None => Seq::empty(),
    }
}

/// The changes for the features, when the spec names them.
pub open spec fn features_part(spec: Spec, repo: RepoApiData) -> Seq<ChangeView> {
    match spec.features {
        Some(f) => features_changes(f, repo),
        None => Seq::empty(),
    }
}

/// The changes for the merge settings, when the spec names them.
pub open spec fn merge_part(spec: Spec, repo: RepoApiData) -> Seq<ChangeView> {
    match spec.merge_strategy {
        Some(ms) => merge_strategy_changes(ms, repo),
        None => Seq::empty(),
    }
}

/// Whether the spec asks for mirror label sync.
pub open spec fn mirror_labels(spec: Spec) -> bool {
    match spec.label_sync {
        Some(m) => m@ == "mirror"@,
        None => false,
    }
}

/// The changes for the labels, when the spec names labels or a sync mode.
pub open spec fn labels_part(spec: Spec, labels: Seq<ApiLabel>) -> Seq<ChangeView> {
    if spec.labels is Some || spec.label_sync is Some {
        labels_changes(
            match spec.labels {
                Some(l) => l@,
                None => Seq::empty(),
            },
            labels,
            mirror_labels(spec),
        )
    } else {
        Seq::empty()
    }
}

/// The changes for GitHub Actions: the selected actions are read only when
/// the live permissions allow selected actions only, the workflow
/// permissions only when the spec names them, the fork policy only when the
/// spec names it.
pub open spec fn actions_part(
    spec: Spec,
    perms: ActionsPermissionsApi,
    selected: Option<SelectedActionsApi>,
    workflow: Option<WorkflowPermissionsApi>,
    fork_pr: Option<Seq<char>>,
) -> Seq<ChangeView> {
    match spec.actions {
        Some(a) => actions_changes(
            a,
            perms,
            if opt_view(perms.allowed_actions) == Some("selected"@) {
                selected
            } else {
                None
            },
            if a.workflow_permissions is Some || a.can_approve_pull_requests is Some {
                workflow
            } else {
                None
            },
            if a.fork_pr_approval is Some {
                fork_pr
            } else {
                None
            },
        ),
        None => Seq::empty(),
    }
}

/// The changes for rulesets, when the spec names them.
pub open spec fn rulesets_part(
    spec: Spec,
    rulesets: Seq<LiveRuleset>,
    details: Seq<Option<Json>>,
) -> Seq<ChangeView> {
    match spec.rulesets {
        Some(rs) => rulesets_changes(rs@, rulesets, details),
        None => Seq::empty(),
    }
}

/// The changes for branch protection, when the spec names it.
pub open spec fn protections_part(
    spec: Spec,
    protections: Seq<Option<BranchProtectionApi>>,
    branches: Seq<Seq<char>>,
) -> Seq<ChangeView> {
    match spec.branch_protection {
        Some(b) => protections_changes(b@, protections, branches),
        None => Seq::empty(),
    }
}

/// Every change between the spec and a live state, in report order.
pub open spec fn compare_spec(spec: Spec, live: LiveState) -> Seq<ChangeView> {
    settings_changes(spec, live) + labels_part(spec, live.labels) + actions_part(
        spec,
        live.actions,
        live.selected,
        live.workflow,
        live.fork_pr,
    ) + rulesets_part(spec, live.rulesets, live.details) + protections_part(
        spec,
        live.protections,
        live.branches,
    )
}

fn compare_core(changes: &mut Vec<SpecChange>, spec: &Spec, live: &RepoApiData)
    ensures
        changes_view(final(changes)@) == changes_view(old(changes)@) + core_changes(*spec, *live),
{
    let ghost before = changes_view(changes@);
    push_opt_str(changes, "description", &live.description, &spec.description);
    push_opt_str(changes, "homepage", &live.homepage, &spec.homepage);
    let ghost m = changes_view(changes@);
    match &spec.visibility {
        Some(vis) => push_str_field(changes, "visibility", Some(live.visibility.as_str()), vis.as_str()),
        None => {},
    }
    assert(changes_view(changes@) =~= m + opt_str_change(
        "visibility"@,
        Some(live.visibility@),
        spec.visibility,
    ));
    push_opt_bool(changes, "archived", live.archived, spec.archived);
    push_opt_bool(
        changes,
        "web_commit_signoff_required",
        live.web_commit_signoff_required,
        spec.web_commit_signoff_required,
    );
    assert(changes_view(changes@) =~= before + core_changes(*spec, *live));
}

fn compare_release(changes: &mut Vec<SpecChange>, spec: &Spec, live: Option<bool>)
    ensures
        changes_view(final(changes)@) == changes_view(old(changes)@) + release_changes(*spec, live),
{
    let ghost before = changes_view(changes@);
    match spec.release_immutability {
        Some(ri) => match live {
            Some(l) => push_bool_field(changes, "release_immutability", l, ri),
            None => push_change(
                changes,
                SpecChange::FieldOk {
                    field: String::from_str("release_immutability"),
                    value: String::from_str("(endpoint not available — skipped)"),
                },
            ),
        },
        None => {},
    }
    assert(changes_view(changes@) =~= before + release_changes(*spec, live));
}

#[verifier::spinoff_prover]
fn compare_settings(
    changes: &mut Vec<SpecChange>,
    spec: &Spec,
    repo: &str,
    client: &dyn GhRepoClient,
) -> (r: anyhow::Result<RepoApiData>)
    ensures
        match r {
            Ok(data) => exists|release: Option<bool>, topics: Seq<Seq<char>>|
                changes_view(final(changes)@) == changes_view(old(changes)@) + core_changes(
                    *spec,
                    data,
                ) + release_changes(*spec, release) + topics_part(*spec, topics) + features_part(
                    *spec,
                    data,
                ) + merge_part(*spec, data),
            Err(_) => true,
        },
{
    let ghost before = changes_view(changes@);
    let live = match client.fetch_repo(repo) {
        Ok(l) => l,
        Err(e) => return Err(with_context(e, fetch_context("fetch repo settings", repo))),
    };
    compare_core(changes, spec, &live);
    let release = match spec.release_immutability {
        Some(_) => match client.fetch_release_immutability(repo) {
            Ok(x) => x,
            Err(e) => return Err(with_context(e, fetch_context("fetch release immutability", repo))),
        },
        None => None,
    };
    compare_release(changes, spec, release);
    let ghost m1 = changes_view(changes@);
    let ghost mut topics: Seq<Seq<char>> = Seq::empty();
    match &spec.topics {
        Some(spec_topics) => {
            let live_topics = match client.fetch_topics(repo) {
                Ok(t) => t,
                Err(e) => return Err(with_context(e, fetch_context("fetch topics", repo))),
            };
            compare_topics(changes, spec_topics.as_slice(), live_topics.as_slice());
            proof {
                topics = strings_view(live_topics@);
            }
        },
        None => {},
    }
    let ghost tpart = topics_part(*spec, topics);
    assert(changes_view(changes@) =~= m1 + tpart);
    let ghost m2 = changes_view(changes@);
    match &spec.features {
        Some(f) => compare_features(changes, f, &live),
        None => {},
    }
    let ghost fpart = features_part(*spec, live);
    assert(changes_view(changes@) =~= m2 + fpart);
    let ghost m3 = changes_view(changes@);
    match &spec.merge_strategy {
        Some(ms) => compare_merge_strategy(changes, ms, &live),
        None => {},
    }
    let ghost mpart = merge_part(*spec, live);
    assert(changes_view(changes@) =~= m3 + mpart);
    assert(changes_view(changes@) =~= before + core_changes(*spec, live) + release_changes(
        *spec,
        release,
    ) + tpart + fpart + mpart);
    Ok(live)
}

fn compare_labels_part(
    changes: &mut Vec<SpecChange>,
    spec: &Spec,
    repo: &str,
    client: &dyn GhRepoClient,
) -> (r: anyhow::Result<()>)
    ensures
        r is Ok ==> exists|labels: Seq<ApiLabel>|
            changes_view(final(changes)@) == changes_view(old(changes)@) + labels_part(
                *spec,
                labels,
            ),
        spec.labels is None && spec.label_sync is None ==> r is Ok,
{
    let ghost before = changes_view(changes@);
    if spec.labels.is_none() && spec.label_sync.is_none() {
        assert(changes_view(changes@) =~= before + labels_part(*spec, Seq::empty()));
        return Ok(());
    }
    let live_labels = match client.fetch_labels(repo) {
        Ok(l) => l,
        Err(e) => return Err(with_context(e, fetch_context("fetch labels", repo))),
    };
    let mirror = match &spec.label_sync {
        Some(m) => text_eq(m.as_str(), "mirror"),
        None => false,
    };
    let empty: Vec<Label> = Vec::new();
    let spec_labels = match &spec.labels {
        Some(l) => l.as_slice(),
        None => empty.as_slice(),
    };
    compare_labels(changes, spec_labels, live_labels.as_slice(), mirror);
    assert(changes_view(changes@) =~= before + labels_part(*spec, live_labels@));
    Ok(())
}

#[verifier::spinoff_prover]
fn compare_actions_part(
    changes: &mut Vec<SpecChange>,
    spec: &Spec,
    repo: &str,
    client: &dyn GhRepoClient,
) -> (r: anyhow::Result<()>)
    ensures
        r is Ok ==> exists|
            perms: ActionsPermissionsApi,
            selected: Option<SelectedActionsApi>,
            workflow: Option<WorkflowPermissionsApi>,
            fork_pr: Option<Seq<char>>,
        |
            changes_view(final(changes)@) == changes_view(old(changes)@) + actions_part(
                *spec,
                perms,
                selected,
                workflow,
                fork_pr,
            ),
        spec.actions is None ==> r is Ok,
{
    let ghost before = changes_view(changes@);
    let act = match &spec.actions {
        Some(a) => a,
        None => {
            let ghost any_perms: ActionsPermissionsApi = arbitrary();
            assert(changes_view(changes@) =~= before + actions_part(
                *spec,
                any_perms,
                None,
                None,
                None,
            ));
            return Ok(());
        },
    };
    let live_perms = match client.fetch_actions_permissions(repo) {
        Ok(p) => p,
        Err(e) => return Err(with_context(e, fetch_context("fetch actions permissions", repo))),
    };
    let selected_only = match &live_perms.allowed_actions {
        Some(a) => text_eq(a.as_str(), "selected"),
        None => false,
    };
    let live_sel = if selected_only {
        match client.fetch_selected_actions(repo) {
            Ok(s) => Some(s),
            Err(e) => return Err(with_context(e, fetch_context("fetch selected actions", repo))),
        }
    } else {
        None
    };
    let needs_wf = act.workflow_permissions.is_some() || act.can_approve_pull_requests.is_some();
    let live_wf = if needs_wf {
        match client.fetch_workflow_permissions(repo) {
            Ok(w) => Some(w),
            Err(e) => return Err(
                with_context(e, fetch_context("fetch workflow permissions", repo)),
            ),
        }
    } else {
        None
    };
    let live_fork_pr = if act.fork_pr_approval.is_some() {
        match client.fetch_fork_pr_approval(repo) {
            Ok(f) => f,
            Err(e) => return Err(with_context(e, fetch_context("fetch fork PR approval", repo))),
        }
    } else {
        None
    };
    let fork_ref = match &live_fork_pr {
        Some(f) => Some(f.as_str()),
        None => None,
    };
    compare_actions(changes, act, &live_perms, live_sel.as_ref(), live_wf.as_ref(), fork_ref);
    assert(changes_view(changes@) =~= before + actions_part(
        *spec,
        live_perms,
        live_sel,
        live_wf,
        opt_view(live_fork_pr),
    ));
    Ok(())
}

fn compare_rulesets_part(
    changes: &mut Vec<SpecChange>,
    spec: &Spec,
    repo: &str,
    client: &dyn GhRepoClient,
) -> (r: anyhow::Result<()>)
    ensures
        r is Ok ==> exists|rulesets: Seq<LiveRuleset>, details: Seq<Option<Json>>|
            changes_view(final(changes)@) == changes_view(old(changes)@) + rulesets_part(
                *spec,
                rulesets,
                details,
            ),
        spec.rulesets is None ==> r is Ok,
{
    let ghost before = changes_view(changes@);
    match &spec.rulesets {
        Some(rulesets) => {
            let live_rulesets = match client.fetch_rulesets(repo) {
                Ok(r) => r,
                Err(e) => return Err(with_context(e, fetch_context("fetch rulesets", repo))),
            };
            compare_rulesets(changes, rulesets.as_slice(), live_rulesets.as_slice(), repo, client);
            let ghost details = choose|details: Seq<Option<Json>>|
                details.len() == rulesets@.len() && changes_view(changes@) == before
                    + rulesets_changes(rulesets@, live_rulesets@, details);
            assert(changes_view(changes@) == before + rulesets_part(
                *spec,
                live_rulesets@,
                details,
            ));
        },
        None => {
            assert(changes_view(changes@) =~= before + rulesets_part(
                *spec,
                Seq::empty(),
                Seq::empty(),
            ));
        },
    }
    Ok(())
}

fn compare_protections_part(
    changes: &mut Vec<SpecChange>,
    spec: &Spec,
    repo: &str,
    client: &dyn GhRepoClient,
) -> (r: anyhow::Result<()>)
    ensures
        r is Ok ==> exists|
            protections: Seq<Option<BranchProtectionApi>>,
            branches: Seq<Seq<char>>,
        |
            changes_view(final(changes)@) == changes_view(old(changes)@) + protections_part(
                *spec,
                protections,
                branches,
            ),
        spec.branch_protection is None ==> r is Ok,
{
    let ghost before = changes_view(changes@);
    match &spec.branch_protection {
        Some(bps) => {
            match compare_branch_protection(changes, bps.as_slice(), repo, client) {
                Ok(()) => {},
                Err(e) => return Err(
                    with_context(e, fetch_context("compare branch protection", repo)),
                ),
            }
            let ghost pair = choose|
                live: Seq<Option<BranchProtectionApi>>,
                branches: Seq<Seq<char>>,
            |
                live.len() == bps@.len() && changes_view(changes@) == before
                    + protections_changes(bps@, live, branches);
            assert(changes_view(changes@) == before + protections_part(*spec, pair.0, pair.1));
        },
        None => {
            assert(changes_view(changes@) =~= before + protections_part(
                *spec,
                Seq::empty(),
                Seq::empty(),
            ));
        },
    }
    Ok(())
}

/// Fetch the live repository state through `client` and compute the
/// changes that bring it to `spec`.  Fails when a fetch fails (a failed
/// ruleset detail fetch only marks that ruleset as changed).  On success the
/// changes are what [`compare_spec`] gives for the state that was fetched.
pub fn compare(spec: &Spec, repo: &str, client: &dyn GhRepoClient) -> (r: anyhow::Result<
    Vec<SpecChange>,
>)
    ensures
        match r {
            Ok(changes) => exists|live: LiveState| changes_view(changes@) == compare_spec(*spec, live),
            Err(_) => true,
        },
{
    let mut changes: Vec<SpecChange> = Vec::new();
    assert(changes_view(changes@) =~= Seq::<ChangeView>::empty());
    let data = compare_settings(&mut changes, spec, repo, client)?;
    let ghost p1 = changes_view(changes@);
    compare_labels_part(&mut changes, spec, repo, client)?;
    let ghost p2 = changes_view(changes@);
    compare_actions_part(&mut changes, spec, repo, client)?;
    let ghost p3 = changes_view(changes@);
    compare_rulesets_part(&mut changes, spec, repo, client)?;
    let ghost p4 = changes_view(changes@);
    compare_protections_part(&mut changes, spec, repo, client)?;
    proof {
        let (release, topics) = choose|release: Option<bool>, topics: Seq<Seq<char>>|
            p1 == Seq::<ChangeView>::empty() + core_changes(*spec, data) + release_changes(
                *spec,
                release,
            ) + topics_part(*spec, topics) + features_part(*spec, data) + merge_part(*spec, data);
        let labels = choose|labels: Seq<ApiLabel>| p2 == p1 + labels_part(*spec, labels);
        let (perms, selected, workflow, fork_pr) = choose|
            perms: ActionsPermissionsApi,
            selected: Option<SelectedActionsApi>,
            workflow: Option<WorkflowPermissionsApi>,
            fork_pr: Option<Seq<char>>,
        | p3 == p2 + actions_part(*spec, perms, selected, workflow, fork_pr);
        let (rulesets, details) = choose|rulesets: Seq<LiveRuleset>, details: Seq<Option<Json>>|
            p4 == p3 + rulesets_part(*spec, rulesets, details);
        let (protections, branches) = choose|
            protections: Seq<Option<BranchProtectionApi>>,
            branches: Seq<Seq<char>>,
        | changes_view(changes@) == p4 + protections_part(*spec, protections, branches);
        let live = LiveState {
            repo: data,
            release,
            topics,
            labels,
            actions: perms,
            selected,
            workflow,
            fork_pr,
            rulesets,
            details,
            protections,
            branches,
        };
        assert(changes_view(changes@) =~= compare_spec(*spec, live));
    }
    Ok(changes)
}

} // verus!
