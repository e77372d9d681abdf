//! Applying pending changes to the live repository: the request bodies, and
//! the calls that send them.
use vstd::prelude::*;

use super::{changes_view, ChangeView, GhRepoClient, SpecChange};
use crate::copies::{text_opt, texts_opt};
use crate::json::{
    bool_json, entries_view, json_view, object, opt_field, push_entry, text_json, texts_array,
    texts_json, u64_json, Json, JsonView,
};
use crate::json::{array, items_view, members_get, opt_member, view_member};
use crate::manifest::{
    pattern_owner, Actions, BranchProtection, BypassActor, PullRequestRule, RequiredStatusChecks,
    Ruleset, RulesetRules, SelectedActions, Spec, StatusCheckContext,
};
use crate::external::{error_msg, with_context};
use crate::repo::compare::texts_or_empty;
use crate::repo::matching::{inclusion_key, text_or};
use crate::repo::matching::inclusion_key_text;
use crate::text::{chars_of, strings_view, text_eq};

verus! {

// ---------------------------------------------------------------------------
// Small lookups
// ---------------------------------------------------------------------------

/// The organisation part of `owner/name`: the text before the first `/`
/// (all of it when there is none).
pub fn org_from_repo(repo: &str) -> (r: &str)
    ensures
        r@ == pattern_owner(repo@),
{
    let cs = chars_of(repo);
    let mut k: usize = 0;
    while k < cs.len() && cs[k] != '/'
        invariant
            k <= cs.len(),
            cs@ == repo@,
            forall|j: int| 0 <= j < k ==> cs@[j] != '/',
        decreases cs.len() - k,
    {
        k = k + 1;
    }
    proof {
        crate::manifest::lemma_first_index_of(repo@, '/', k as int);
    }
    let r = repo.substring_char(0, k);
    assert(r@ =~= repo@.take(k as int));
    r
}

/// The well-known actor id of a built-in repository role.
pub open spec fn role_id(role: Seq<char>) -> Option<u64> {
    if role == "read"@ {
        Some(1)
    } else if role == "triage"@ {
        Some(3)
    } else if role == "write"@ {
        Some(2)
    } else if role == "maintain"@ {
        Some(4)
    } else if role == "admin"@ {
        Some(5)
    } else {
        None
    }
}

/// Well-known GitHub `RepositoryRole` actor IDs.
pub fn role_actor_id(role: &str) -> (r: Option<u64>)
    ensures
        r == role_id(role@),
{
    if text_eq(role, "read") {
        Some(1)
    } else if text_eq(role, "triage") {
        Some(3)
    } else if text_eq(role, "write") {
        Some(2)
    } else if text_eq(role, "maintain") {
        Some(4)
    } else if text_eq(role, "admin") {
        Some(5)
    } else {
        None
    }
}

// ---------------------------------------------------------------------------
// General settings
// ---------------------------------------------------------------------------

/// The API key of a changed general setting, and whether its value is a
/// boolean; `None` for topics (sent apart) and fields of other endpoints.
pub open spec fn core_key(field: Seq<char>) -> Option<(Seq<char>, bool)> {
    if field == "description"@ {
        Some(("description"@, false))
    } else if field == "homepage"@ {
        Some(("homepage"@, false))
    } else if field == "visibility"@ {
        Some(("visibility"@, false))
    } else if field == "archived"@ {
        Some(("archived"@, true))
    } else if field == "features.issues"@ {
        Some(("has_issues"@, true))
    } else if field == "features.projects"@ {
        Some(("has_projects"@, true))
    } else if field == "features.wiki"@ {
        Some(("has_wiki"@, true))
    } else if field == "features.discussions"@ {
        Some(("has_discussions"@, true))
    } else if field == "web_commit_signoff_required"@ {
        Some(("web_commit_signoff_required"@, true))
    } else if field == "merge_strategy.allow_auto_merge"@ {
        Some(("allow_auto_merge"@, true))
    } else if field == "merge_strategy.allow_update_branch"@ {
        Some(("allow_update_branch"@, true))
    } else if field == "merge_strategy.allow_merge_commit"@ {
        Some(("allow_merge_commit"@, true))
    } else if field == "merge_strategy.allow_squash_merge"@ {
        Some(("allow_squash_merge"@, true))
    } else if field == "merge_strategy.allow_rebase_merge"@ {
        Some(("allow_rebase_merge"@, true))
    } else if field == "merge_strategy.auto_delete_head_branches"@ {
        Some(("delete_branch_on_merge"@, true))
    } else if field == "merge_strategy.squash_merge_commit_title"@ {
        Some(("squash_merge_commit_title"@, false))
    } else if field == "merge_strategy.squash_merge_commit_message"@ {
        Some(("squash_merge_commit_message"@, false))
    } else if field == "merge_strategy.merge_commit_title"@ {
        Some(("merge_commit_title"@, false))
    } else if field == "merge_strategy.merge_commit_message"@ {
        Some(("merge_commit_message"@, false))
    } else {
        None
    }
}

/// The value sent for a changed general setting: `true` exactly when the
/// new value reads `true` for a boolean, the new text otherwise.
pub open spec fn core_value(is_bool: bool, new: Seq<char>) -> JsonView {
    if is_bool {
        JsonView::Bool(new == "true"@)
    } else {
        JsonView::Str(new)
    }
}

fn core_value_json(is_bool: bool, new: &str) -> (r: Json)
    ensures
        json_view(r) == core_value(is_bool, new@),
{
    if is_bool {
        bool_json(text_eq(new, "true"))
    } else {
        text_json(new)
    }
}

/// Map a changed field name to the API key and value of the repository
/// update.  Returns `None` for `topics` (handled separately) and unknown
/// fields.
pub fn core_field_to_patch(field: &str, new: &str) -> (r: Option<(&'static str, Json)>)
    ensures
        match r {
            Some((k, v)) => core_key(field@) matches Some((key, is_bool)) && k@ == key && json_view(
                v,
            ) == core_value(is_bool, new@),
            None => core_key(field@) is None,
        },
{
    let (key, is_bool): (&'static str, bool) = if text_eq(field, "description") {
        ("description", false)
    } else if text_eq(field, "homepage") {
        ("homepage", false)
    } else if text_eq(field, "visibility") {
        ("visibility", false)
    } else if text_eq(field, "archived") {
        ("archived", true)
    } else if text_eq(field, "features.issues") {
        ("has_issues", true)
    } else if text_eq(field, "features.projects") {
        ("has_projects", true)
    } else if text_eq(field, "features.wiki") {
        ("has_wiki", true)
    } else if text_eq(field, "features.discussions") {
        ("has_discussions", true)
    } else if text_eq(field, "web_commit_signoff_required") {
        ("web_commit_signoff_required", true)
    } else if text_eq(field, "merge_strategy.allow_auto_merge") {
        ("allow_auto_merge", true)
    } else if text_eq(field, "merge_strategy.allow_update_branch") {
        ("allow_update_branch", true)
    } else if text_eq(field, "merge_strategy.allow_merge_commit") {
        ("allow_merge_commit", true)
    } else if text_eq(field, "merge_strategy.allow_squash_merge") {
        ("allow_squash_merge", true)
    } else if text_eq(field, "merge_strategy.allow_rebase_merge") {
        ("allow_rebase_merge", true)
    } else if text_eq(field, "merge_strategy.auto_delete_head_branches") {
        ("delete_branch_on_merge", true)
    } else if text_eq(field, "merge_strategy.squash_merge_commit_title") {
        ("squash_merge_commit_title", false)
    } else if text_eq(field, "merge_strategy.squash_merge_commit_message") {
        ("squash_merge_commit_message", false)
    } else if text_eq(field, "merge_strategy.merge_commit_title") {
        ("merge_commit_title", false)
    } else if text_eq(field, "merge_strategy.merge_commit_message") {
        ("merge_commit_message", false)
    } else {
        return None;
    };
    Some((key, core_value_json(is_bool, new)))
}

/// The entries with `key` set to `v`: the first entry with that key takes
/// the new value, or the entry is appended when there is none.
pub open spec fn set_entry(
    es: Seq<(Seq<char>, JsonView)>,
    key: Seq<char>,
    v: JsonView,
) -> Seq<(Seq<char>, JsonView)>
    decreases es.len(),
{
    if es.len() == 0 {
        seq![(key, v)]
    } else if es[0].0 == key {
        es.update(0, (key, v))
    } else {
        seq![es[0]] + set_entry(es.drop_first(), key, v)
    }
}

/// The entries without those named `key`.
pub open spec fn drop_key(es: Seq<(Seq<char>, JsonView)>, key: Seq<char>) -> Seq<
    (Seq<char>, JsonView),
>
    decreases es.len(),
{
    if es.len() == 0 {
        Seq::empty()
    } else {
        drop_key(es.drop_last(), key) + if es.last().0 == key {
            Seq::empty()
        } else {
            seq![es.last()]
        }
    }
}

/// The value of the first entry named `key`.
pub open spec fn entry_value(es: Seq<(Seq<char>, JsonView)>, key: Seq<char>) -> Option<JsonView>
    decreases es.len(),
{
    if es.len() == 0 {
        None
    } else if es[0].0 == key {
        Some(es[0].1)
    } else {
        entry_value(es.drop_first(), key)
    }
}

/// The repository update collected from the changed general settings, in
/// order of the changes (a later change of the same key replaces the value).
pub open spec fn changed_settings(cs: Seq<ChangeView>) -> Seq<(Seq<char>, JsonView)>
    decreases cs.len(),
{
    if cs.len() == 0 {
        Seq::empty()
    } else {
        let p = changed_settings(cs.drop_last());
        match cs.last() {
            ChangeView::FieldChanged(f, _, new) => if f != "topics"@ {
                match core_key(f) {
                    Some((k, b)) => set_entry(p, k, core_value(b, new)),
                    None => p,
                }
            } else {
                p
            },
            _ => p,
        }
    }
}

/// A merge method counts as enabled when the update turns it on, or when the
/// update leaves it alone and the spec enables it.
pub open spec fn method_enabled(p: Seq<(Seq<char>, JsonView)>, key: Seq<char>, spec_value: Option<bool>) -> bool {
    entry_value(p, key) == Some(JsonView::Bool(true)) || (entry_value(p, key) is None
        && spec_value == Some(true))
}

/// What the spec says of one merge method.
pub open spec fn spec_method(spec: Spec, squash: bool) -> Option<bool> {
    match spec.merge_strategy {
        Some(ms) => if squash {
            ms.allow_squash_merge
        } else {
            ms.allow_merge_commit
        },
        None => None,
    }
}

/// The repository update sent for the changes: the changed general
/// settings, without the commit title and message of a merge method that
/// is not enabled (the API refuses them).
pub open spec fn core_patch_spec(cs: Seq<ChangeView>, spec: Spec) -> Seq<(Seq<char>, JsonView)> {
    let p = changed_settings(cs);
    let p1 = if method_enabled(p, "allow_merge_commit"@, spec_method(spec, false)) {
        p
    } else {
        drop_key(drop_key(p, "merge_commit_title"@), "merge_commit_message"@)
    };
    if method_enabled(p1, "allow_squash_merge"@, spec_method(spec, true)) {
        p1
    } else {
        drop_key(drop_key(p1, "squash_merge_commit_title"@), "squash_merge_commit_message"@)
    }
}

/// Whether a change is a change of the topics.
pub open spec fn is_topics_change(c: ChangeView) -> bool {
    c matches ChangeView::FieldChanged(f, _, _) && f == "topics"@
}

/// Whether some change is a change of the topics.
pub open spec fn topics_changed(cs: Seq<ChangeView>) -> bool
    decreases cs.len(),
{
    if cs.len() == 0 {
        false
    } else {
        topics_changed(cs.drop_last()) || is_topics_change(cs.last())
    }
}

fn set_entry_exec(es: &mut Vec<(String, Json)>, key: &str, v: Json)
    ensures
        entries_view(final(es)@) == set_entry(entries_view(old(es)@), key@, json_view(v)),
{
    let ghost ev = entries_view(es@);
    let mut i: usize = 0;
    assert(ev.skip(0) =~= ev);
    while i < es.len()
        invariant
            i <= es.len(),
            ev == entries_view(es@),
            ev == entries_view(old(es)@),
            set_entry(ev, key@, json_view(v)) == ev.take(i as int) + set_entry(
                ev.skip(i as int),
                key@,
                json_view(v),
            ),
        decreases es.len() - i,
    {
        if text_eq(es[i].0.as_str(), key) {
            let ghost before = es@;
            es.set(i, (String::from_str(key), v));
            proof {
                let rest = ev.skip(i as int);
                assert(rest[0] == ev[i as int]);
                assert(rest[0].0 == key@);
                assert(set_entry(rest, key@, json_view(v)) == rest.update(0, (key@, json_view(v))));
                assert(es@ == before.update(i as int, (es@[i as int].0, v)));
                assert(entries_view(es@) =~= ev.update(i as int, (key@, json_view(v))));
                assert(ev.update(i as int, (key@, json_view(v))) =~= ev.take(i as int) + rest.update(
                    0,
                    (key@, json_view(v)),
                ));
            }
            return;
        }
        proof {
            let rest = ev.skip(i as int);
            assert(rest.drop_first() =~= ev.skip(i + 1));
            assert(ev.take(i + 1) =~= ev.take(i as int) + seq![rest[0]]);
        }
        i = i + 1;
    }
    let ghost before = es@;
    es.push((String::from_str(key), v));
    assert(entries_view(es@) =~= ev.push((key@, json_view(v))));
    assert(ev.take(i as int) =~= ev);
    assert(ev.skip(i as int) =~= Seq::<(Seq<char>, JsonView)>::empty());
}

fn drop_key_exec(es: Vec<(String, Json)>, key: &str) -> (r: Vec<(String, Json)>)
    ensures
        entries_view(r@) == drop_key(entries_view(es@), key@),
{
    let ghost ev = entries_view(es@);
    let ghost orig = es@;
    let mut out: Vec<(String, Json)> = Vec::new();
    let mut rest = es;
    let mut i: usize = 0;
    let n = rest.len();
    assert(ev.take(0) =~= Seq::<(Seq<char>, JsonView)>::empty());
    assert(entries_view(out@) =~= Seq::<(Seq<char>, JsonView)>::empty());
    assert(rest@ =~= orig.skip(0));
    while i < n
        invariant
            i <= n == orig.len(),
            ev == entries_view(orig),
            rest@ == orig.skip(i as int),
            entries_view(out@) == drop_key(ev.take(i as int), key@),
        decreases n - i,
    {
        let e = rest.remove(0);
        assert(e == orig[i as int]);
        assert(rest@ =~= orig.skip(i + 1));
        assert(ev.take(i + 1).drop_last() =~= ev.take(i as int));
        assert(ev.take(i + 1).last() == (e.0@, json_view(e.1)));
        if !text_eq(e.0.as_str(), key) {
            let ghost before = out@;
            out.push(e);
            assert(entries_view(out@) =~= entries_view(before).push((e.0@, json_view(e.1))));
        } else {
            assert(drop_key(ev.take(i + 1), key@) =~= drop_key(ev.take(i as int), key@));
        }
        i = i + 1;
    }
    assert(ev.take(i as int) =~= ev);
    out
}

fn entry_value_is_bool(es: &Vec<(String, Json)>, key: &str) -> (r: Option<Option<bool>>)
    ensures
        match r {
            None => entry_value(entries_view(es@), key@) is None,
            Some(b) => entry_value(entries_view(es@), key@) matches Some(v) && (b == (match v {
                JsonView::Bool(x) => Some(x),
                _ => None,
            })),
        },
{
    let ghost ev = entries_view(es@);
    let mut i: usize = 0;
    assert(ev.skip(0) =~= ev);
    while i < es.len()
        invariant
            i <= es.len(),
            ev == entries_view(es@),
            entry_value(ev, key@) == entry_value(ev.skip(i as int), key@),
        decreases es.len() - i,
    {
        assert(ev.skip(i as int).drop_first() =~= ev.skip(i + 1));
        if text_eq(es[i].0.as_str(), key) {
            return Some(
                match &es[i].1 {
                    Json::Bool(b) => Some(*b),
                    _ => None,
                },
            );
        }
        i = i + 1;
    }
    None
}

fn method_enabled_exec(p: &Vec<(String, Json)>, key: &str, spec_value: Option<bool>) -> (r: bool)
    ensures
        r == method_enabled(entries_view(p@), key@, spec_value),
{
    match entry_value_is_bool(p, key) {
        Some(Some(true)) => true,
        Some(_) => false,
        None => spec_value == Some(true),
    }
}

/// The repository update for the changes (see [`core_patch_spec`]), and
/// whether the topics changed.
pub fn core_patch(changes: &[SpecChange], spec: &Spec) -> (r: (Vec<(String, Json)>, bool))
    ensures
        entries_view(r.0@) == core_patch_spec(changes_view(changes@), *spec),
        r.1 == topics_changed(changes_view(changes@)),
{
    let ghost cv = changes_view(changes@);
    let mut patch: Vec<(String, Json)> = Vec::new();
    let mut topics = false;
    let mut i: usize = 0;
    assert(cv.take(0) =~= Seq::<ChangeView>::empty());
    assert(entries_view(patch@) =~= Seq::<(Seq<char>, JsonView)>::empty());
    while i < changes.len()
        invariant
            i <= changes.len(),
            cv == changes_view(changes@),
            entries_view(patch@) == changed_settings(cv.take(i as int)),
            topics == topics_changed(cv.take(i as int)),
        decreases changes.len() - i,
    {
        let ghost t = cv.take(i + 1);
        assert(t.drop_last() =~= cv.take(i as int));
        assert(t.last() == changes@[i as int]@);
        match &changes[i] {
            SpecChange::FieldChanged { field, new, .. } => {
                if text_eq(field.as_str(), "topics") {
                    topics = true;
                } else {
                    match core_field_to_patch(field.as_str(), new.as_str()) {
                        Some((key, val)) => set_entry_exec(&mut patch, key, val),
                        None => {},
                    }
                }
            },
            _ => {},
        }
        i = i + 1;
    }
    assert(cv.take(i as int) =~= cv);
    let merge_on = method_enabled_exec(
        &patch,
        "allow_merge_commit",
        match &spec.merge_strategy {
            Some(ms) => ms.allow_merge_commit,
            None => None,
        },
    );
    if !merge_on {
        patch = drop_key_exec(patch, "merge_commit_title");
        patch = drop_key_exec(patch, "merge_commit_message");
    }
    let squash_on = method_enabled_exec(
        &patch,
        "allow_squash_merge",
        match &spec.merge_strategy {
            Some(ms) => ms.allow_squash_merge,
            None => None,
        },
    );
    if !squash_on {
        patch = drop_key_exec(patch, "squash_merge_commit_title");
        patch = drop_key_exec(patch, "squash_merge_commit_message");
    }
    (patch, topics)
}

/// The values sent for release immutability, one per change of it, in order.
pub open spec fn release_updates(cs: Seq<ChangeView>) -> Seq<bool>
    decreases cs.len(),
{
    if cs.len() == 0 {
        Seq::empty()
    } else {
        release_updates(cs.drop_last()) + match cs.last() {
            ChangeView::FieldChanged(f, _, new) => if f == "release_immutability"@ {
                seq![new == "true"@]
            } else {
                Seq::empty()
            },
            _ => Seq::empty(),
        }
    }
}

/// The values sent for release immutability.
pub fn release_values(changes: &[SpecChange]) -> (r: Vec<bool>)
    ensures
        r@ == release_updates(changes_view(changes@)),
{
    let ghost cv = changes_view(changes@);
    let mut out: Vec<bool> = Vec::new();
    let mut i: usize = 0;
    assert(cv.take(0) =~= Seq::<ChangeView>::empty());
    while i < changes.len()
        invariant
            i <= changes.len(),
            cv == changes_view(changes@),
            out@ == release_updates(cv.take(i as int)),
        decreases changes.len() - i,
    {
        assert(cv.take(i + 1).drop_last() =~= cv.take(i as int));
        assert(cv.take(i + 1).last() == changes@[i as int]@);
        let ghost before = out@;
        match &changes[i] {
            SpecChange::FieldChanged { field, new, .. } => {
                if text_eq(field.as_str(), "release_immutability") {
                    out.push(text_eq(new.as_str(), "true"));
                }
            },
            _ => {},
        }
        assert(out@ =~= release_updates(cv.take(i + 1)));
        i = i + 1;
    }
    assert(cv.take(i as int) =~= cv);
    out
}

// ---------------------------------------------------------------------------
// Branch protection body
// ---------------------------------------------------------------------------

/// A boolean the spec may leave out, with its default.
pub open spec fn flag_or(o: Option<bool>, default: bool) -> bool {
    match o {
        Some(b) => b,
        None => default,
    }
}

/// The status check part of a branch protection body: strictness and
/// contexts when the spec names status checks, `null` otherwise.
pub open spec fn checks_body(bp: BranchProtection) -> JsonView {
    match bp.require_status_checks {
        Some(sc) => JsonView::Object(
            seq![
                ("strict"@, JsonView::Bool(flag_or(sc.strict, false))),
                (
                    "contexts"@,
                    texts_json(
                        match texts_opt(sc.contexts) {
                            Some(c) => c,
                            None => Seq::empty(),
                        },
                    ),
                ),
            ],
        ),
        None => JsonView::Null,
    }
}

/// The review part of a branch protection body, when the spec names any
/// review requirement (one approval by default); `null` otherwise.
pub open spec fn reviews_body(bp: BranchProtection) -> JsonView {
    if bp.required_reviews is Some || bp.dismiss_stale_reviews is Some
        || bp.require_code_owner_reviews is Some {
        JsonView::Object(
            seq![
                ("dismiss_stale_reviews"@, JsonView::Bool(flag_or(bp.dismiss_stale_reviews, false))),
                (
                    "require_code_owner_reviews"@,
                    JsonView::Bool(flag_or(bp.require_code_owner_reviews, false)),
                ),
                (
                    "required_approving_review_count"@,
                    JsonView::Number(
                        Some(
                            match bp.required_reviews {
                                Some(n) => n as u64,
                                None => 1,
                            },
                        ),
                    ),
                ),
            ],
        )
    } else {
        JsonView::Null
    }
}

/// The body that sets a classic branch protection: status checks, admin
/// enforcement, reviews, no push restrictions, force pushes and deletions;
/// flags the spec leaves out are off.
pub open spec fn protection_body(bp: BranchProtection) -> JsonView {
    JsonView::Object(
        seq![
            ("required_status_checks"@, checks_body(bp)),
            ("enforce_admins"@, JsonView::Bool(flag_or(bp.enforce_admins, false))),
            ("required_pull_request_reviews"@, reviews_body(bp)),
            ("restrictions"@, JsonView::Null),
            ("allow_force_pushes"@, JsonView::Bool(flag_or(bp.allow_force_pushes, false))),
            ("allow_deletions"@, JsonView::Bool(flag_or(bp.allow_deletions, false))),
        ],
    )
}

fn checks_body_json(bp: &BranchProtection) -> (r: Json)
    ensures
        json_view(r) == checks_body(*bp),
{
    match &bp.require_status_checks {
        Some(sc) => {
            let mut es: Vec<(String, Json)> = Vec::new();
            let strict = match sc.strict {
                Some(b) => b,
                None => false,
            };
            push_entry(&mut es, "strict", bool_json(strict));
            let contexts = match &sc.contexts {
                Some(c) => texts_array(c.as_slice()),
                None => {
                    let empty: Vec<String> = Vec::new();
                    assert(strings_view(empty@) =~= Seq::<Seq<char>>::empty());
                    texts_array(empty.as_slice())
                },
            };
            push_entry(&mut es, "contexts", contexts);
            let ghost ctexts = match texts_opt(sc.contexts) {
                Some(c) => c,
                None => Seq::<Seq<char>>::empty(),
            };
            assert(json_view(contexts) == texts_json(ctexts));
            assert(entries_view(es@) =~= seq![
                ("strict"@, JsonView::Bool(strict)),
                ("contexts"@, texts_json(ctexts)),
            ]);
            assert(checks_body(*bp) is Object);
            assert(checks_body(*bp)->Object_0 =~= entries_view(es@));
            object(es)
        },
        None => Json::Null,
    }
}

fn reviews_body_json(bp: &BranchProtection) -> (r: Json)
    ensures
        json_view(r) == reviews_body(*bp),
{
    let has_review = bp.required_reviews.is_some() || bp.dismiss_stale_reviews.is_some()
        || bp.require_code_owner_reviews.is_some();
    if !has_review {
        return Json::Null;
    }
    let dismiss = match bp.dismiss_stale_reviews {
        Some(b) => b,
        None => false,
    };
    let owners = match bp.require_code_owner_reviews {
        Some(b) => b,
        None => false,
    };
    let count: u64 = match bp.required_reviews {
        Some(n) => n as u64,
        None => 1,
    };
    let mut es: Vec<(String, Json)> = Vec::new();
    push_entry(&mut es, "dismiss_stale_reviews", bool_json(dismiss));
    push_entry(&mut es, "require_code_owner_reviews", bool_json(owners));
    push_entry(&mut es, "required_approving_review_count", u64_json(count));
    assert(entries_view(es@) =~= seq![
        ("dismiss_stale_reviews"@, JsonView::Bool(dismiss)),
        ("require_code_owner_reviews"@, JsonView::Bool(owners)),
        ("required_approving_review_count"@, JsonView::Number(Some(count))),
    ]);
    assert(reviews_body(*bp) is Object);
    assert(reviews_body(*bp)->Object_0 =~= entries_view(es@));
    let r = object(es);
    assert(json_view(r) == JsonView::Object(entries_view(es@)));
    r
}

/// Build the body that sets a classic branch protection.
pub fn spec_protection_to_api_body(bp: &BranchProtection) -> (r: Json)
    ensures
        json_view(r) == protection_body(*bp),
        view_member(json_view(r), "enforce_admins"@) == Some(
            JsonView::Bool(flag_or(bp.enforce_admins, false)),
        ),
        view_member(json_view(r), "allow_force_pushes"@) == Some(
            JsonView::Bool(flag_or(bp.allow_force_pushes, false)),
        ),
        view_member(json_view(r), "allow_deletions"@) == Some(
            JsonView::Bool(flag_or(bp.allow_deletions, false)),
        ),
        view_member(json_view(r), "restrictions"@) == Some(JsonView::Null),
        (view_member(json_view(r), "required_status_checks"@) == Some(JsonView::Null))
            == (bp.require_status_checks is None),
        bp.require_status_checks matches Some(sc) ==> opt_member(
            view_member(json_view(r), "required_status_checks"@),
            "strict"@,
        ) == Some(JsonView::Bool(flag_or(sc.strict, false))),
        (view_member(json_view(r), "required_pull_request_reviews"@) == Some(JsonView::Null)) == (
        bp.required_reviews is None && bp.dismiss_stale_reviews is None
            && bp.require_code_owner_reviews is None),
        bp.required_reviews is Some || bp.dismiss_stale_reviews is Some
            || bp.require_code_owner_reviews is Some ==> {
            let reviews = view_member(json_view(r), "required_pull_request_reviews"@);
            &&& opt_member(reviews, "dismiss_stale_reviews"@) == Some(
                JsonView::Bool(flag_or(bp.dismiss_stale_reviews, false)),
            )
            &&& opt_member(reviews, "require_code_owner_reviews"@) == Some(
                JsonView::Bool(flag_or(bp.require_code_owner_reviews, false)),
            )
            &&& opt_member(reviews, "required_approving_review_count"@) == Some(
                JsonView::Number(
                    Some(
                        match bp.required_reviews {
                            Some(n) => n as u64,
                            None => 1,
                        },
                    ),
                ),
            )
        },
{
    let checks = checks_body_json(bp);
    let reviews = reviews_body_json(bp);
    let admins = match bp.enforce_admins {
        Some(b) => b,
        None => false,
    };
    let force = match bp.allow_force_pushes {
        Some(b) => b,
        None => false,
    };
    let deletions = match bp.allow_deletions {
        Some(b) => b,
        None => false,
    };
    let mut body: Vec<(String, Json)> = Vec::new();
    push_entry(&mut body, "required_status_checks", checks);
    push_entry(&mut body, "enforce_admins", bool_json(admins));
    push_entry(&mut body, "required_pull_request_reviews", reviews);
    push_entry(&mut body, "restrictions", Json::Null);
    push_entry(&mut body, "allow_force_pushes", bool_json(force));
    push_entry(&mut body, "allow_deletions", bool_json(deletions));
    assert(entries_view(body@) =~= seq![
        ("required_status_checks"@, checks_body(*bp)),
        ("enforce_admins"@, JsonView::Bool(admins)),
        ("required_pull_request_reviews"@, reviews_body(*bp)),
        ("restrictions"@, JsonView::Null),
        ("allow_force_pushes"@, JsonView::Bool(force)),
        ("allow_deletions"@, JsonView::Bool(deletions)),
    ]);
    let r = object(body);
    proof {
        lemma_protection_keys();
        reveal_with_fuel(members_get, 7);
    }
    r
}

proof fn lemma_protection_keys()
    ensures
        "required_status_checks"@.len() == 22,
        "enforce_admins"@.len() == 14,
        "required_pull_request_reviews"@.len() == 29,
        "restrictions"@.len() == 12,
        "allow_force_pushes"@.len() == 18,
        "allow_deletions"@.len() == 15,
        "strict"@.len() == 6,
        "dismiss_stale_reviews"@.len() == 21,
        "require_code_owner_reviews"@.len() == 26,
        "required_approving_review_count"@.len() == 31,
{
    reveal_strlit("strict");
    reveal_strlit("dismiss_stale_reviews");
    reveal_strlit("require_code_owner_reviews");
    reveal_strlit("required_approving_review_count");
    reveal_strlit("required_status_checks");
    reveal_strlit("enforce_admins");
    reveal_strlit("required_pull_request_reviews");
    reveal_strlit("restrictions");
    reveal_strlit("allow_force_pushes");
    reveal_strlit("allow_deletions");
}

// ---------------------------------------------------------------------------
// Actions
// ---------------------------------------------------------------------------

/// Whether some change is a change of a field that `kind` selects.
pub open spec fn field_changed(cs: Seq<ChangeView>, kind: spec_fn(Seq<char>) -> bool) -> bool
    decreases cs.len(),
{
    if cs.len() == 0 {
        false
    } else {
        field_changed(cs.drop_last(), kind) || match cs.last() {
            ChangeView::FieldChanged(f, _, _) => kind(f),
            _ => false,
        }
    }
}

/// The fields sent with the actions permissions.
pub open spec fn is_permissions_field(f: Seq<char>) -> bool {
    f == "actions.enabled"@ || f == "actions.allowed_actions"@ || f
        == "actions.sha_pinning_required"@
}

/// The fork approval policy field.
pub open spec fn is_fork_field(f: Seq<char>) -> bool {
    f == "actions.fork_pr_approval"@
}

/// The selected actions fields.
pub open spec fn is_selected_field(f: Seq<char>) -> bool {
    crate::text::starts_with(f, "actions.selected_actions"@)
}

/// The workflow permission fields.
pub open spec fn is_workflow_field(f: Seq<char>) -> bool {
    f == "actions.workflow_permissions"@ || f == "actions.can_approve_pull_requests"@
}

/// Which field test to run.
pub enum FieldKind {
    Permissions,
    Fork,
    Selected,
    Workflow,
}

/// The test of a field kind.
pub open spec fn kind_test(k: FieldKind) -> spec_fn(Seq<char>) -> bool {
    match k {
        FieldKind::Permissions => |f: Seq<char>| is_permissions_field(f),
        FieldKind::Fork => |f: Seq<char>| is_fork_field(f),
        FieldKind::Selected => |f: Seq<char>| is_selected_field(f),
        FieldKind::Workflow => |f: Seq<char>| is_workflow_field(f),
    }
}

fn is_kind(f: &str, k: &FieldKind) -> (r: bool)
    ensures
        r == kind_test(*k)(f@),
{
    match k {
        FieldKind::Permissions => text_eq(f, "actions.enabled") || text_eq(
            f,
            "actions.allowed_actions",
        ) || text_eq(f, "actions.sha_pinning_required"),
        FieldKind::Fork => text_eq(f, "actions.fork_pr_approval"),
        FieldKind::Selected => {
            let cs = chars_of(f);
            crate::text::starts_with_exec(&cs, "actions.selected_actions")
        },
        FieldKind::Workflow => text_eq(f, "actions.workflow_permissions") || text_eq(
            f,
            "actions.can_approve_pull_requests",
        ),
    }
}

fn any_field_changed(changes: &[SpecChange], k: FieldKind) -> (r: bool)
    ensures
        r == field_changed(changes_view(changes@), kind_test(k)),
{
    let ghost cv = changes_view(changes@);
    let mut found = false;
    let mut i: usize = 0;
    assert(cv.take(0) =~= Seq::<ChangeView>::empty());
    while i < changes.len()
        invariant
            i <= changes.len(),
            cv == changes_view(changes@),
            found == field_changed(cv.take(i as int), kind_test(k)),
        decreases changes.len() - i,
    {
        assert(cv.take(i + 1).drop_last() =~= cv.take(i as int));
        assert(cv.take(i + 1).last() == changes@[i as int]@);
        match &changes[i] {
            SpecChange::FieldChanged { field, .. } => {
                if is_kind(field.as_str(), &k) {
                    found = true;
                }
            },
            _ => {},
        }
        i = i + 1;
    }
    assert(cv.take(i as int) =~= cv);
    found
}

/// A boolean value when the spec names one.
pub open spec fn opt_flag(o: Option<bool>) -> Option<JsonView> {
    match o {
        Some(b) => Some(JsonView::Bool(b)),
        None => None,
    }
}

/// A text value when the spec names one.
pub open spec fn opt_text(o: Option<String>) -> Option<JsonView> {
    match o {
        Some(s) => Some(JsonView::Str(s@)),
        None => None,
    }
}

/// The actions permissions body: the switch, allowed actions and SHA
/// pinning, each when the spec names it.
pub open spec fn permissions_body(act: Actions) -> Seq<(Seq<char>, JsonView)> {
    opt_field("enabled"@, opt_flag(act.enabled)) + opt_field(
        "allowed_actions"@,
        opt_text(act.allowed_actions),
    ) + opt_field("sha_pinning_required"@, opt_flag(act.sha_pinning_required))
}

/// The selected actions body: GitHub-owned actions and patterns, each when
/// the spec names it.
pub open spec fn selected_body(sel: SelectedActions) -> Seq<(Seq<char>, JsonView)> {
    opt_field("github_owned_allowed"@, opt_flag(sel.github_owned_allowed)) + opt_field(
        "patterns_allowed"@,
        match texts_opt(sel.patterns_allowed) {
            Some(p) => Some(texts_json(p)),
            None => None,
        },
    )
}

/// The workflow permissions body: default permissions and approval, each
/// when the spec names it.
pub open spec fn workflow_body(act: Actions) -> Seq<(Seq<char>, JsonView)> {
    opt_field("default_workflow_permissions"@, opt_text(act.workflow_permissions)) + opt_field(
        "can_approve_pull_request_reviews"@,
        opt_flag(act.can_approve_pull_requests),
    )
}

fn push_opt_flag(es: &mut Vec<(String, Json)>, key: &str, o: Option<bool>)
    ensures
        entries_view(final(es)@) == entries_view(old(es)@) + opt_field(key@, opt_flag(o)),
{
    let ghost before = entries_view(es@);
    match o {
        Some(b) => push_entry(es, key, bool_json(b)),
        None => {},
    }
    assert(entries_view(es@) =~= before + opt_field(key@, opt_flag(o)));
}

fn push_opt_text(es: &mut Vec<(String, Json)>, key: &str, o: &Option<String>)
    ensures
        entries_view(final(es)@) == entries_view(old(es)@) + opt_field(key@, opt_text(*o)),
{
    let ghost before = entries_view(es@);
    match o {
        Some(s) => push_entry(es, key, text_json(s.as_str())),
        None => {},
    }
    assert(entries_view(es@) =~= before + opt_field(key@, opt_text(*o)));
}

fn permissions_entries(act: &Actions) -> (r: Vec<(String, Json)>)
    ensures
        entries_view(r@) == permissions_body(*act),
{
    let mut es: Vec<(String, Json)> = Vec::new();
    assert(entries_view(es@) =~= Seq::<(Seq<char>, JsonView)>::empty());
    push_opt_flag(&mut es, "enabled", act.enabled);
    push_opt_text(&mut es, "allowed_actions", &act.allowed_actions);
    push_opt_flag(&mut es, "sha_pinning_required", act.sha_pinning_required);
    assert(entries_view(es@) =~= permissions_body(*act));
    es
}

fn selected_entries(sel: &SelectedActions) -> (r: Vec<(String, Json)>)
    ensures
        entries_view(r@) == selected_body(*sel),
{
    let mut es: Vec<(String, Json)> = Vec::new();
    assert(entries_view(es@) =~= Seq::<(Seq<char>, JsonView)>::empty());
    push_opt_flag(&mut es, "github_owned_allowed", sel.github_owned_allowed);
    let ghost mid = entries_view(es@);
    match &sel.patterns_allowed {
        Some(p) => push_entry(&mut es, "patterns_allowed", texts_array(p.as_slice())),
        None => {},
    }
    assert(entries_view(es@) =~= selected_body(*sel));
    es
}

fn workflow_entries(act: &Actions) -> (r: Vec<(String, Json)>)
    ensures
        entries_view(r@) == workflow_body(*act),
{
    let mut es: Vec<(String, Json)> = Vec::new();
    assert(entries_view(es@) =~= Seq::<(Seq<char>, JsonView)>::empty());
    push_opt_text(&mut es, "default_workflow_permissions", &act.workflow_permissions);
    push_opt_flag(&mut es, "can_approve_pull_request_reviews", act.can_approve_pull_requests);
    assert(entries_view(es@) =~= workflow_body(*act));
    es
}

/// The requests for the changed GitHub Actions settings, in the order they
/// are sent.
pub struct ActionsPlan {
    /// The permissions body, when a permissions field changed.
    pub permissions: Option<Json>,
    /// The selected actions body sent right after the permissions.
    pub selected_with_permissions: Option<Json>,
    /// The fork approval policy, when it changed.
    pub fork_policy: Option<String>,
    /// The selected actions body sent on its own (only a selected actions
    /// field changed).
    pub selected_alone: Option<Json>,
    /// The workflow permissions body, when a workflow field changed.
    pub workflow: Option<Json>,
}

/// An optional JSON value taken by value.
pub open spec fn opt_json_view(o: Option<Json>) -> Option<JsonView> {
    match o {
        Some(j) => Some(json_view(j)),
        None => None,
    }
}

/// An object body unless it is empty.
pub open spec fn unless_empty(es: Seq<(Seq<char>, JsonView)>) -> Option<JsonView> {
    if es.len() == 0 {
        None
    } else {
        Some(JsonView::Object(es))
    }
}

/// What is sent for the changed actions settings: the permissions (when a
/// permissions field changed), followed by the selected actions when the
/// spec names them; the fork policy (when it changed); the selected actions
/// alone (when only they changed); the workflow permissions (when they
/// changed).  Empty selected and workflow bodies are not sent.
pub open spec fn actions_plan_spec(cs: Seq<ChangeView>, spec: Spec) -> (
    Option<JsonView>,
    Option<JsonView>,
    Option<Seq<char>>,
    Option<JsonView>,
    Option<JsonView>,
) {
    let perms = field_changed(cs, kind_test(FieldKind::Permissions));
    match spec.actions {
        None => (None, None, None, None, None),
        Some(a) => (
            if perms {
                Some(JsonView::Object(permissions_body(a)))
            } else {
                None
            },
            match a.selected_actions {
                Some(sel) => if perms {
                    unless_empty(selected_body(sel))
                } else {
                    None
                },
                None => None,
            },
            match a.fork_pr_approval {
                Some(p) => if field_changed(cs, kind_test(FieldKind::Fork)) {
                    Some(p@)
                } else {
                    None
                },
                None => None,
            },
            match a.selected_actions {
                Some(sel) => if field_changed(cs, kind_test(FieldKind::Selected)) && !perms {
                    unless_empty(selected_body(sel))
                } else {
                    None
                },
                None => None,
            },
            if field_changed(cs, kind_test(FieldKind::Workflow)) {
                unless_empty(workflow_body(a))
            } else {
                None
            },
        ),
    }
}

fn selected_request(sel: &SelectedActions) -> (r: Option<Json>)
    ensures
        opt_json_view(r) == unless_empty(selected_body(*sel)),
{
    let es = selected_entries(sel);
    if es.len() == 0 {
        None
    } else {
        Some(object(es))
    }
}

/// Plan the requests for the changed GitHub Actions settings.
pub fn actions_plan(changes: &[SpecChange], spec: &Spec) -> (r: ActionsPlan)
    ensures
        (
            opt_json_view(r.permissions),
            opt_json_view(r.selected_with_permissions),
            text_opt(r.fork_policy),
            opt_json_view(r.selected_alone),
            opt_json_view(r.workflow),
        ) == actions_plan_spec(changes_view(changes@), *spec),
{
    let perms = any_field_changed(changes, FieldKind::Permissions);
    let act = match &spec.actions {
        Some(a) => a,
        None => {
            return ActionsPlan {
                permissions: None,
                selected_with_permissions: None,
                fork_policy: None,
                selected_alone: None,
                workflow: None,
            };
        },
    };
    let permissions = if perms {
        Some(object(permissions_entries(act)))
    } else {
        None
    };
    let selected_with_permissions = match &act.selected_actions {
        Some(sel) => if perms {
            selected_request(sel)
        } else {
            None
        },
        None => None,
    };
    let fork_policy = match &act.fork_pr_approval {
        Some(p) => if any_field_changed(changes, FieldKind::Fork) {
            Some(String::from_str(p.as_str()))
        } else {
            None
        },
        None => None,
    };
    let selected_alone = match &act.selected_actions {
        Some(sel) => if any_field_changed(changes, FieldKind::Selected) && !perms {
            selected_request(sel)
        } else {
            None
        },
        None => None,
    };
    let workflow = if any_field_changed(changes, FieldKind::Workflow) {
        let es = workflow_entries(act);
        if es.len() == 0 {
            None
        } else {
            Some(object(es))
        }
    } else {
        None
    };
    ActionsPlan { permissions, selected_with_permissions, fork_policy, selected_alone, workflow }
}

// ---------------------------------------------------------------------------
// Ruleset bodies
// ---------------------------------------------------------------------------

/// The API actor type of a bypass actor, by the first of its fields that is
/// set (a role, organisation admins, a team, an app, a custom role); `None`
/// when none is.
pub open spec fn actor_type(a: BypassActor) -> Option<Seq<char>> {
    if a.role is Some {
        Some("RepositoryRole"@)
    } else if a.org_admin == Some(true) {
        Some("OrganizationAdmin"@)
    } else if a.team is Some {
        Some("Team"@)
    } else if a.app is Some {
        Some("Integration"@)
    } else if a.custom_role is Some {
        Some("RepositoryRole"@)
    } else {
        None
    }
}

/// The body of a bypass actor with its resolved id (bypass mode `always` by
/// default).
pub open spec fn actor_body(a: BypassActor, id: u64) -> JsonView {
    JsonView::Object(
        seq![
            ("actor_id"@, JsonView::Number(Some(id))),
            (
                "actor_type"@,
                JsonView::Str(
                    match actor_type(a) {
                        Some(t) => t,
                        None => Seq::empty(),
                    },
                ),
            ),
            ("bypass_mode"@, JsonView::Str(text_or(a.bypass_mode, "always"@))),
        ],
    )
}

/// Whether `id` is what the actor's kind fixes: the well-known id of a
/// built-in role, 1 for organisation admins (team, app and custom role ids
/// come from the API).
pub open spec fn actor_id_ok(a: BypassActor, id: u64) -> bool {
    match a.role {
        Some(role) => role_id(role@) == Some(id),
        None => a.org_admin == Some(true) ==> id == 1,
    }
}

fn actor_json(a: &BypassActor, id: u64, kind: &str) -> (r: Json)
    requires
        actor_type(*a) == Some(kind@),
    ensures
        json_view(r) == actor_body(*a, id),
{
    let mode = match &a.bypass_mode {
        Some(m) => m.as_str(),
        None => "always",
    };
    let mut es: Vec<(String, Json)> = Vec::new();
    push_entry(&mut es, "actor_id", u64_json(id));
    push_entry(&mut es, "actor_type", text_json(kind));
    push_entry(&mut es, "bypass_mode", text_json(mode));
    let r = object(es);
    assert(actor_body(*a, id) is Object);
    assert(actor_body(*a, id)->Object_0 =~= entries_view(es@));
    r
}

/// The actor is resolved without a lookup: a known built-in role, or the
/// organisation admins.
pub open spec fn actor_is_local(a: BypassActor) -> bool {
    match a.role {
        Some(role) => role_id(role@) is Some,
        None => a.org_admin == Some(true),
    }
}

/// Resolve a bypass actor to its API body, looking up team, app and custom
/// role ids through `client`.  Fails for an unknown built-in role, for an
/// actor with no kind set, and when a lookup fails.
pub fn resolve_bypass_actor(actor: &BypassActor, org: &str, client: &dyn GhRepoClient) -> (r:
    anyhow::Result<Json>)
    ensures
        match r {
            Ok(j) => actor_type(*actor) is Some && exists|id: u64|
                json_view(j) == actor_body(*actor, id) && actor_id_ok(*actor, id),
            Err(_) => true,
        },
        actor_type(*actor) is None ==> r is Err,
        (actor.role matches Some(role) && role_id(role@) is None) ==> r is Err,
        actor_is_local(*actor) ==> r is Ok,
{
    proof {
        reveal_strlit("RepositoryRole");
        reveal_strlit("OrganizationAdmin");
        reveal_strlit("Team");
        reveal_strlit("Integration");
    }
    match &actor.role {
        Some(role) => {
            let id = match role_actor_id(role.as_str()) {
                Some(id) => id,
                None => {
                    let mut m = String::from_str("unknown bypass role: ");
                    m.append(role.as_str());
                    return Err(error_msg(m));
                },
            };
            return Ok(actor_json(actor, id, "RepositoryRole"));
        },
        None => {},
    }
    if actor.org_admin == Some(true) {
        return Ok(actor_json(actor, 1, "OrganizationAdmin"));
    }
    match &actor.team {
        Some(team_slug) => {
            let id = client.resolve_team_id(org, team_slug.as_str())?;
            return Ok(actor_json(actor, id, "Team"));
        },
        None => {},
    }
    match &actor.app {
        Some(app_slug) => {
            let id = client.resolve_app_id(app_slug.as_str())?;
            return Ok(actor_json(actor, id, "Integration"));
        },
        None => {},
    }
    match &actor.custom_role {
        Some(role_name) => {
            let id = client.resolve_org_custom_role_id(org, role_name.as_str())?;
            return Ok(actor_json(actor, id, "RepositoryRole"));
        },
        None => {},
    }
    Err(error_msg(String::from_str("bypass actor has no recognized type set")))
}

/// A boolean rule, present when the spec turns it on.
pub open spec fn flag_rule(name: Seq<char>, v: Option<bool>) -> Seq<JsonView> {
    if v == Some(true) {
        seq![JsonView::Object(seq![("type"@, JsonView::Str(name))])]
    } else {
        Seq::empty()
    }
}

/// The parameters of the pull request rule: one approval and the flags off
/// by default, the merge methods when the spec names them.
pub open spec fn pr_params(pr: PullRequestRule) -> JsonView {
    JsonView::Object(
        seq![
            (
                "required_approving_review_count"@,
                JsonView::Number(
                    Some(
                        match pr.required_approving_review_count {
                            Some(n) => n as u64,
                            None => 1,
                        },
                    ),
                ),
            ),
            (
                "dismiss_stale_reviews_on_push"@,
                JsonView::Bool(flag_or(pr.dismiss_stale_reviews_on_push, false)),
            ),
            (
                "require_code_owner_review"@,
                JsonView::Bool(flag_or(pr.require_code_owner_review, false)),
            ),
            (
                "require_last_push_approval"@,
                JsonView::Bool(flag_or(pr.require_last_push_approval, false)),
            ),
            (
                "required_review_thread_resolution"@,
                JsonView::Bool(flag_or(pr.required_review_thread_resolution, false)),
            ),
        ] + opt_field(
            "allowed_merge_methods"@,
            match texts_opt(pr.allowed_merge_methods) {
                Some(m) => Some(texts_json(m)),
                None => None,
            },
        ),
    )
}

/// The status check contexts with their resolved integration ids.
pub open spec fn contexts_body(ctxs: Seq<StatusCheckContext>, ids: Seq<u64>) -> Seq<JsonView> {
    Seq::new(
        ctxs.len(),
        |i: int|
            JsonView::Object(
                seq![
                    ("context"@, JsonView::Str(ctxs[i].context@)),
                    ("integration_id"@, JsonView::Number(Some(ids[i]))),
                ],
            ),
    )
}

/// The contexts of a status check rule (none as empty).
pub open spec fn rule_contexts(sc: RequiredStatusChecks) -> Seq<StatusCheckContext> {
    match sc.contexts {
        Some(c) => c@,
        None => Seq::empty(),
    }
}

/// The rules of a ruleset as the API takes them: the boolean rules turned
/// on, the pull request rule and the status check rule when the spec names
/// them; `ids` are the integration ids of the status check contexts.
pub open spec fn rules_body(rules: RulesetRules, ids: Seq<u64>) -> JsonView {
    JsonView::Array(
        flag_rule("non_fast_forward"@, rules.non_fast_forward) + flag_rule(
            "deletion"@,
            rules.deletion,
        ) + flag_rule("creation"@, rules.creation) + flag_rule(
            "required_linear_history"@,
            rules.required_linear_history,
        ) + flag_rule("required_signatures"@, rules.required_signatures) + match rules.pull_request {
            Some(pr) => seq![
                JsonView::Object(
                    seq![("type"@, JsonView::Str("pull_request"@)), ("parameters"@, pr_params(pr))],
                ),
            ],
            None => Seq::empty(),
        } + match rules.required_status_checks {
            Some(sc) => seq![
                JsonView::Object(
                    seq![
                        ("type"@, JsonView::Str("required_status_checks"@)),
                        (
                            "parameters"@,
                            JsonView::Object(
                                seq![
                                    (
                                        "strict_required_status_checks_policy"@,
                                        JsonView::Bool(
                                            flag_or(sc.strict_required_status_checks_policy, false),
                                        ),
                                    ),
                                    (
                                        "required_status_checks"@,
                                        JsonView::Array(contexts_body(rule_contexts(sc), ids)),
                                    ),
                                ],
                            ),
                        ),
                    ],
                ),
            ],
            None => Seq::empty(),
        },
    )
}

/// Whether `ids` fit the contexts: one per context, the explicit
/// integration id where a context names one.
pub open spec fn ids_fit(ctxs: Seq<StatusCheckContext>, ids: Seq<u64>) -> bool {
    ids.len() == ctxs.len() && forall|i: int|
        0 <= i < ctxs.len() ==> (#[trigger] ctxs[i].integration_id matches Some(x) ==> ids[i] == x)
}

fn push_flag_rule(items: &mut Vec<Json>, name: &str, v: Option<bool>)
    ensures
        items_view(final(items)@) == items_view(old(items)@) + flag_rule(name@, v),
{
    let ghost before = items_view(items@);
    if v == Some(true) {
        let mut es: Vec<(String, Json)> = Vec::new();
        push_entry(&mut es, "type", text_json(name));
        let o = object(es);
        assert(entries_view(es@) =~= seq![("type"@, JsonView::Str(name@))]);
        let ghost b = items@;
        items.push(o);
        assert(items_view(items@) =~= items_view(b).push(json_view(o)));
    }
    assert(items_view(items@) =~= before + flag_rule(name@, v));
}

fn pr_rule_json(pr: &PullRequestRule) -> (r: Json)
    ensures
        json_view(r) == pr_params(*pr),
{
    let count: u64 = match pr.required_approving_review_count {
        Some(n) => n as u64,
        None => 1,
    };
    let mut es: Vec<(String, Json)> = Vec::new();
    push_entry(&mut es, "required_approving_review_count", u64_json(count));
    push_entry(
        &mut es,
        "dismiss_stale_reviews_on_push",
        bool_json(
            match pr.dismiss_stale_reviews_on_push {
                Some(b) => b,
                None => false,
            },
        ),
    );
    push_entry(
        &mut es,
        "require_code_owner_review",
        bool_json(
            match pr.require_code_owner_review {
                Some(b) => b,
                None => false,
            },
        ),
    );
    push_entry(
        &mut es,
        "require_last_push_approval",
        bool_json(
            match pr.require_last_push_approval {
                Some(b) => b,
                None => false,
            },
        ),
    );
    push_entry(
        &mut es,
        "required_review_thread_resolution",
        bool_json(
            match pr.required_review_thread_resolution {
                Some(b) => b,
                None => false,
            },
        ),
    );
    match &pr.allowed_merge_methods {
        Some(m) => push_entry(&mut es, "allowed_merge_methods", texts_array(m.as_slice())),
        None => {},
    }
    let r = object(es);
    assert(pr_params(*pr) is Object);
    assert(pr_params(*pr)->Object_0 =~= entries_view(es@));
    r
}

/// Every context names its integration id, so none is looked up.
pub open spec fn ids_given(ctxs: Seq<StatusCheckContext>) -> bool {
    forall|i: int| 0 <= i < ctxs.len() ==> (#[trigger] ctxs[i]).integration_id is Some
}

/// The status check contexts of the rules name all their integration ids.
pub open spec fn rules_ids_given(rules: RulesetRules) -> bool {
    match rules.required_status_checks {
        Some(sc) => ids_given(rule_contexts(sc)),
        None => true,
    }
}

fn contexts_json(ctxs: &[StatusCheckContext], client: &dyn GhRepoClient) -> (r: anyhow::Result<
    Vec<Json>,
>)
    ensures
        r is Ok ==> exists|ids: Seq<u64>|
            ids_fit(ctxs@, ids) && items_view(r->Ok_0@) == contexts_body(ctxs@, ids),
        ids_given(ctxs@) ==> r is Ok,
{
    let mut out: Vec<Json> = Vec::new();
    let ghost mut ids: Seq<u64> = Seq::empty();
    let ghost given = ids_given(ctxs@);
    let mut i: usize = 0;
    while i < ctxs.len()
        invariant
            i <= ctxs.len(),
            given == ids_given(ctxs@),
            ids.len() == i,
            forall|k: int|
                0 <= k < i ==> (#[trigger] ctxs@[k].integration_id matches Some(x) ==> ids[k] == x),
            items_view(out@) == contexts_body(ctxs@.take(i as int), ids),
        decreases ctxs.len() - i,
    {
        let c = &ctxs[i];
        let id = match c.integration_id {
            Some(id) => id,
            None => {
                let slug = match &c.app {
                    Some(a) => a.as_str(),
                    None => "github-actions",
                };
                client.resolve_app_id(slug)?
            },
        };
        let mut es: Vec<(String, Json)> = Vec::new();
        push_entry(&mut es, "context", text_json(c.context.as_str()));
        push_entry(&mut es, "integration_id", u64_json(id));
        let o = object(es);
        let ghost before = out@;
        out.push(o);
        proof {
            ids = ids.push(id);
            assert(entries_view(es@) =~= seq![
                ("context"@, JsonView::Str(c.context@)),
                ("integration_id"@, JsonView::Number(Some(id))),
            ]);
            assert(items_view(out@) =~= items_view(before).push(json_view(o)));
            assert(contexts_body(ctxs@.take(i + 1), ids) =~= contexts_body(
                ctxs@.take(i as int),
                ids.take(i as int),
            ).push(json_view(o)));
            assert(contexts_body(ctxs@.take(i as int), ids.take(i as int)) =~= contexts_body(
                ctxs@.take(i as int),
                ids.drop_last(),
            ));
        }
        i = i + 1;
    }
    assert(ctxs@.take(i as int) =~= ctxs@);
    Ok(out)
}

/// Build the rules of a ruleset as the API takes them, looking up the
/// integration id of each status check context that names none (the
/// `github-actions` app by default).
pub fn spec_rules_to_api(rules: &RulesetRules, client: &dyn GhRepoClient) -> (r: anyhow::Result<
    Json,
>)
    ensures
        r is Ok ==> exists|ids: Seq<u64>|
            ids_fit(
                match rules.required_status_checks {
                    Some(sc) => rule_contexts(sc),
                    None => Seq::empty(),
                },
                ids,
            ) && json_view(r->Ok_0) == rules_body(*rules, ids),
        rules_ids_given(*rules) ==> r is Ok,
{
    let mut items: Vec<Json> = Vec::new();
    assert(items_view(items@) =~= Seq::<JsonView>::empty());
    push_flag_rule(&mut items, "non_fast_forward", rules.non_fast_forward);
    push_flag_rule(&mut items, "deletion", rules.deletion);
    push_flag_rule(&mut items, "creation", rules.creation);
    push_flag_rule(&mut items, "required_linear_history", rules.required_linear_history);
    push_flag_rule(&mut items, "required_signatures", rules.required_signatures);
    let ghost flags = items_view(items@);
    match &rules.pull_request {
        Some(pr) => {
            let mut es: Vec<(String, Json)> = Vec::new();
            push_entry(&mut es, "type", text_json("pull_request"));
            push_entry(&mut es, "parameters", pr_rule_json(pr));
            let o = object(es);
            assert(entries_view(es@) =~= seq![
                ("type"@, JsonView::Str("pull_request"@)),
                ("parameters"@, pr_params(*pr)),
            ]);
            let ghost b = items@;
            items.push(o);
            assert(items_view(items@) =~= items_view(b).push(json_view(o)));
        },
        None => {},
    }
    let ghost with_pr = items_view(items@);
    let ghost mut ids: Seq<u64> = Seq::empty();
    match &rules.required_status_checks {
        Some(sc) => {
            let strict = match sc.strict_required_status_checks_policy {
                Some(b) => b,
                None => false,
            };
            let empty: Vec<StatusCheckContext> = Vec::new();
            let ctxs = match &sc.contexts {
                Some(c) => c.as_slice(),
                None => empty.as_slice(),
            };
            assert(ctxs@ == rule_contexts(*sc));
            let contexts = contexts_json(ctxs, client)?;
            proof {
                ids = choose|ids: Seq<u64>|
                    ids_fit(ctxs@, ids) && items_view(contexts@) == contexts_body(ctxs@, ids);
            }
            let ghost cview = items_view(contexts@);
            let mut ps: Vec<(String, Json)> = Vec::new();
            push_entry(&mut ps, "strict_required_status_checks_policy", bool_json(strict));
            push_entry(&mut ps, "required_status_checks", array(contexts));
            let params = object(ps);
            let mut es: Vec<(String, Json)> = Vec::new();
            push_entry(&mut es, "type", text_json("required_status_checks"));
            push_entry(&mut es, "parameters", params);
            let o = object(es);
            proof {
                assert(entries_view(ps@) =~= seq![
                    ("strict_required_status_checks_policy"@, JsonView::Bool(strict)),
                    (
                        "required_status_checks"@,
                        JsonView::Array(contexts_body(rule_contexts(*sc), ids)),
                    ),
                ]);
                assert(entries_view(es@) =~= seq![
                    ("type"@, JsonView::Str("required_status_checks"@)),
                    ("parameters"@, json_view(params)),
                ]);
            }
            let ghost b = items@;
            items.push(o);
            assert(items_view(items@) =~= items_view(b).push(json_view(o)));
        },
        None => {},
    }
    let r = array(items);
    proof {
        let body = rules_body(*rules, ids);
        assert(body is Array);
        assert(body->Array_0 =~= items_view(items@));
    }
    Ok(r)
}

/// The ref name conditions body (inclusion and exclusion lists, empty when
/// left out).
pub open spec fn conditions_body(conds: crate::manifest::RulesetConditions) -> JsonView {
    JsonView::Object(
        match conds.ref_name {
            Some(rn) => seq![
                (
                    "ref_name"@,
                    JsonView::Object(
                        seq![
                            (inclusion_key(), texts_json(texts_or_empty(rn.includes))),
                            ("exclude"@, texts_json(texts_or_empty(rn.exclude))),
                        ],
                    ),
                ),
            ],
            None => Seq::empty(),
        },
    )
}

/// The body that creates or updates a ruleset: name, target (`branch` by
/// default), enforcement (`active` by default), then the bypass actors (with
/// their resolved ids), conditions and rules when the spec names them.
pub open spec fn ruleset_body(rs: Ruleset, actor_ids: Seq<u64>, ctx_ids: Seq<u64>) -> JsonView {
    JsonView::Object(
        seq![
            ("name"@, JsonView::Str(rs.name@)),
            ("target"@, JsonView::Str(text_or(rs.target, "branch"@))),
            ("enforcement"@, JsonView::Str(text_or(rs.enforcement, "active"@))),
        ] + match rs.bypass_actors {
            Some(acts) => seq![
                (
                    "bypass_actors"@,
                    JsonView::Array(
                        Seq::new(acts@.len(), |i: int| actor_body(acts@[i], actor_ids[i])),
                    ),
                ),
            ],
            None => Seq::empty(),
        } + match rs.conditions {
            Some(c) => seq![("conditions"@, conditions_body(c))],
            None => Seq::empty(),
        } + match rs.rules {
            Some(r) => seq![("rules"@, rules_body(r, ctx_ids))],
            None => Seq::empty(),
        },
    )
}

fn texts_or_empty_json(o: &Option<Vec<String>>) -> (r: Json)
    ensures
        json_view(r) == texts_json(texts_or_empty(*o)),
{
    match o {
        Some(v) => texts_array(v.as_slice()),
        None => {
            let empty: Vec<String> = Vec::new();
            assert(strings_view(empty@) =~= Seq::<Seq<char>>::empty());
            texts_array(empty.as_slice())
        },
    }
}

fn conditions_json(conds: &crate::manifest::RulesetConditions) -> (r: Json)
    ensures
        json_view(r) == conditions_body(*conds),
{
    let mut es: Vec<(String, Json)> = Vec::new();
    match &conds.ref_name {
        Some(rn) => {
            let key = inclusion_key_text();
            let mut inner: Vec<(String, Json)> = Vec::new();
            push_entry(&mut inner, key.as_str(), texts_or_empty_json(&rn.includes));
            push_entry(&mut inner, "exclude", texts_or_empty_json(&rn.exclude));
            let o = object(inner);
            push_entry(&mut es, "ref_name", o);
            proof {
                assert(entries_view(inner@) =~= seq![
                    (inclusion_key(), texts_json(texts_or_empty(rn.includes))),
                    ("exclude"@, texts_json(texts_or_empty(rn.exclude))),
                ]);
            }
        },
        None => {},
    }
    let r = object(es);
    proof {
        let body = conditions_body(*conds);
        assert(body is Object);
        assert(body->Object_0 =~= entries_view(es@));
    }
    r
}

/// Every bypass actor of the ruleset is resolved without a lookup, and its
/// status check contexts name their integration ids: building its body
/// asks the API nothing.
pub open spec fn ruleset_needs_no_lookup(rs: Ruleset) -> bool {
    &&& match rs.bypass_actors {
        Some(actors) => forall|i: int|
            0 <= i < actors@.len() ==> actor_is_local(#[trigger] actors@[i]),
        None => true,
    }
    &&& match rs.rules {
        Some(rules) => rules_ids_given(rules),
        None => true,
    }
}

/// Build the body that creates or updates a ruleset, resolving bypass actor
/// and status check integration ids through `client`.  Fails when an actor
/// cannot be resolved or a lookup fails.
pub fn spec_ruleset_to_api_body(rs: &Ruleset, org: &str, client: &dyn GhRepoClient) -> (r:
    anyhow::Result<Json>)
    ensures
        r is Ok ==> exists|actor_ids: Seq<u64>, ctx_ids: Seq<u64>|
            json_view(r->Ok_0) == ruleset_body(*rs, actor_ids, ctx_ids),
        ruleset_needs_no_lookup(*rs) ==> r is Ok,
{
    let mut es: Vec<(String, Json)> = Vec::new();
    push_entry(&mut es, "name", text_json(rs.name.as_str()));
    let target = match &rs.target {
        Some(t) => t.as_str(),
        None => "branch",
    };
    push_entry(&mut es, "target", text_json(target));
    let enforcement = match &rs.enforcement {
        Some(e) => e.as_str(),
        None => "active",
    };
    push_entry(&mut es, "enforcement", text_json(enforcement));
    let ghost head = entries_view(es@);
    let ghost mut actor_ids: Seq<u64> = Seq::empty();
    match &rs.bypass_actors {
        Some(actors) => {
            let mut api_actors: Vec<Json> = Vec::new();
            let mut i: usize = 0;
            while i < actors.len()
                invariant
                    i <= actors.len(),
                    actor_ids.len() == i,
                    rs.bypass_actors == Some(*actors),
                    ruleset_needs_no_lookup(*rs) ==> forall|k: int|
                        0 <= k < actors@.len() ==> actor_is_local(#[trigger] actors@[k]),
                    items_view(api_actors@) == Seq::new(
                        i as nat,
                        |k: int| actor_body(actors@[k], actor_ids[k]),
                    ),
                decreases actors.len() - i,
            {
                let a = resolve_bypass_actor(&actors[i], org, client)?;
                let ghost id = choose|id: u64|
                    json_view(a) == actor_body(actors@[i as int], id) && actor_id_ok(
                        actors@[i as int],
                        id,
                    );
                let ghost before = api_actors@;
                api_actors.push(a);
                proof {
                    assert(items_view(api_actors@) =~= items_view(before).push(json_view(a)));
                    actor_ids = actor_ids.push(id);
                    assert(items_view(api_actors@) =~= Seq::new(
                        (i + 1) as nat,
                        |k: int| actor_body(actors@[k], actor_ids[k]),
                    ));
                }
                i = i + 1;
            }
            push_entry(&mut es, "bypass_actors", array(api_actors));
        },
        None => {},
    }
    let ghost with_actors = entries_view(es@);
    match &rs.conditions {
        Some(c) => push_entry(&mut es, "conditions", conditions_json(c)),
        None => {},
    }
    let ghost with_conditions = entries_view(es@);
    let ghost mut ctx_ids: Seq<u64> = Seq::empty();
    match &rs.rules {
        Some(rules) => {
            let body = spec_rules_to_api(rules, client)?;
            proof {
                ctx_ids = choose|ids: Seq<u64>|
                    ids_fit(
                        match rules.required_status_checks {
                            Some(sc) => rule_contexts(sc),
                            None => Seq::empty(),
                        },
                        ids,
                    ) && json_view(body) == rules_body(*rules, ids);
            }
            push_entry(&mut es, "rules", body);
        },
        None => {},
    }
    let r = object(es);
    proof {
        let b = ruleset_body(*rs, actor_ids, ctx_ids);
        assert(b is Object);
        assert(b->Object_0 =~= entries_view(es@));
    }
    Ok(r)
}

// ---------------------------------------------------------------------------
// Sending the changes
// ---------------------------------------------------------------------------

/// No setting change is pending among the changes.
pub open spec fn no_field_change(cs: Seq<ChangeView>) -> bool {
    forall|i: int| 0 <= i < cs.len() ==> !(#[trigger] cs[i] is FieldChanged)
}

/// The change asks for nothing to be sent: the setting, label, ruleset or
/// branch protection is already as the spec has it.
pub open spec fn is_settled(c: SpecChange) -> bool {
    c is FieldOk || c is LabelOk || c is RulesetOk || c is BranchProtectionOk
}

/// The change asks for a label to be created, updated or deleted.
pub open spec fn sends_label(c: SpecChange) -> bool {
    c is LabelAdd || c is LabelUpdate || c is LabelDelete
}

/// The change asks for a ruleset to be created, updated or deleted.
pub open spec fn sends_ruleset(c: SpecChange) -> bool {
    c is RulesetAdd || c is RulesetUpdate || c is RulesetDelete
}

/// The change asks for a branch protection to be set or removed.
pub open spec fn sends_protection(c: SpecChange) -> bool {
    c is BranchProtectionAdd || c is BranchProtectionUpdate || c is BranchProtectionRemove
}

proof fn lemma_no_field_change(cs: Seq<ChangeView>)
    requires
        no_field_change(cs),
    ensures
        changed_settings(cs).len() == 0,
        !topics_changed(cs),
        release_updates(cs).len() == 0,
        forall|kind: spec_fn(Seq<char>) -> bool| !#[trigger] field_changed(cs, kind),
    decreases cs.len(),
{
    if cs.len() > 0 {
        let init = cs.drop_last();
        assert(no_field_change(init)) by {
            assert forall|i: int| 0 <= i < init.len() implies !(#[trigger] init[i] is FieldChanged) by {
                assert(init[i] == cs[i]);
            }
        }
        lemma_no_field_change(init);
        assert(!(cs[cs.len() - 1] is FieldChanged));
        assert(release_updates(cs) =~= release_updates(init));
        assert forall|kind: spec_fn(Seq<char>) -> bool| !#[trigger] field_changed(cs, kind) by {
            assert(!field_changed(init, kind));
        }
    }
}

proof fn lemma_settled_view(changes: Seq<SpecChange>)
    requires
        forall|i: int| 0 <= i < changes.len() ==> is_settled(#[trigger] changes[i]),
    ensures
        no_field_change(changes_view(changes)),
{
    let cv = changes_view(changes);
    assert forall|i: int| 0 <= i < cv.len() implies !(#[trigger] cv[i] is FieldChanged) by {
        assert(cv[i] == changes[i]@);
        assert(is_settled(changes[i]));
    }
}

/// The general settings need no request: the repository update is empty,
/// the topics are not to be replaced, and no release immutability value is
/// to be sent.
pub open spec fn core_sends_nothing(cs: Seq<ChangeView>, spec: Spec) -> bool {
    &&& core_patch_spec(cs, spec).len() == 0
    &&& !(topics_changed(cs) && spec.topics is Some)
    &&& release_updates(cs).len() == 0
}

/// The actions settings need no request.
pub open spec fn actions_send_nothing(cs: Seq<ChangeView>, spec: Spec) -> bool {
    let plan = actions_plan_spec(cs, spec);
    &&& plan.0 is None
    &&& plan.1 is None
    &&& plan.2 is None
    &&& plan.3 is None
    &&& plan.4 is None
}

/// Applying the changes asks the API nothing: no general setting, label,
/// actions setting, ruleset or branch protection request is to be sent.
pub open spec fn sends_nothing(changes: Seq<SpecChange>, spec: Spec) -> bool {
    &&& core_sends_nothing(changes_view(changes), spec)
    &&& forall|i: int| 0 <= i < changes.len() ==> !sends_label(#[trigger] changes[i])
    &&& actions_send_nothing(changes_view(changes), spec)
    &&& forall|i: int| 0 <= i < changes.len() ==> !sends_ruleset(#[trigger] changes[i])
    &&& forall|i: int| 0 <= i < changes.len() ==> !sends_protection(#[trigger] changes[i])
}

/// Send the general settings: the repository update of [`core_patch`] when
/// it is not empty, the topics when they changed, then each release
/// immutability value of [`release_values`].
pub fn apply_core_fields(
    changes: &[SpecChange],
    spec: &Spec,
    repo: &str,
    client: &dyn GhRepoClient,
) -> (r: anyhow::Result<()>)
    ensures
        core_sends_nothing(changes_view(changes@), *spec) ==> r is Ok,
        no_field_change(changes_view(changes@)) ==> r is Ok,
{
    let (patch, topics) = core_patch(changes, spec);
    proof {
        if no_field_change(changes_view(changes@)) {
            lemma_no_field_change(changes_view(changes@));
        }
    }
    if patch.len() > 0 {
        client.patch_repo(repo, &object(patch))?;
    }
    if topics {
        match &spec.topics {
            Some(t) => client.put_topics(repo, t.as_slice())?,
            None => {},
        }
    }
    let values = release_values(changes);
    let mut i: usize = 0;
    while i < values.len()
        invariant
            i <= values.len(),
            values@ == release_updates(changes_view(changes@)),
            no_field_change(changes_view(changes@)) ==> values@.len() == 0,
        decreases values.len() - i,
    {
        client.put_release_immutability(repo, values[i])?;
        i = i + 1;
    }
    Ok(())
}

/// Send the label changes in order: create the added, update the changed,
/// delete the removed.
pub fn apply_label_changes(
    changes: &[SpecChange],
    repo: &str,
    client: &dyn GhRepoClient,
) -> (r: anyhow::Result<()>)
    ensures
        (forall|i: int| 0 <= i < changes@.len() ==> !sends_label(#[trigger] changes@[i])) ==> r is Ok,
{
    let ghost none = forall|i: int| 0 <= i < changes@.len() ==> !sends_label(#[trigger] changes@[i]);
    let mut i: usize = 0;
    while i < changes.len()
        invariant
            i <= changes.len(),
            none == (forall|i: int| 0 <= i < changes@.len() ==> !sends_label(#[trigger] changes@[i])),
        decreases changes.len() - i,
    {
        match &changes[i] {
            SpecChange::LabelAdd { name, color, description } => {
                let d = match description {
                    Some(s) => Some(s.as_str()),
                    None => None,
                };
                client.create_label(repo, name.as_str(), color.as_str(), d)?;
            },
            SpecChange::LabelUpdate { name, new_color, new_description, .. } => {
                let d = match new_description {
                    Some(s) => Some(s.as_str()),
                    None => None,
                };
                client.update_label(repo, name.as_str(), new_color.as_str(), d)?;
            },
            SpecChange::LabelDelete { name } => {
                client.delete_label(repo, name.as_str())?;
            },
            _ => {},
        }
        i = i + 1;
    }
    Ok(())
}

/// Send the requests of [`actions_plan`] in order.
pub fn apply_actions_changes(
    changes: &[SpecChange],
    spec: &Spec,
    repo: &str,
    client: &dyn GhRepoClient,
) -> (r: anyhow::Result<()>)
    ensures
        actions_send_nothing(changes_view(changes@), *spec) ==> r is Ok,
        no_field_change(changes_view(changes@)) ==> r is Ok,
{
    let plan = actions_plan(changes, spec);
    proof {
        if no_field_change(changes_view(changes@)) {
            lemma_no_field_change(changes_view(changes@));
            assert(!field_changed(changes_view(changes@), kind_test(FieldKind::Permissions)));
            assert(!field_changed(changes_view(changes@), kind_test(FieldKind::Fork)));
            assert(!field_changed(changes_view(changes@), kind_test(FieldKind::Selected)));
            assert(!field_changed(changes_view(changes@), kind_test(FieldKind::Workflow)));
        }
    }
    match &plan.permissions {
        Some(body) => client.put_actions_permissions(repo, body)?,
        None => {},
    }
    match &plan.selected_with_permissions {
        Some(body) => client.put_selected_actions(repo, body)?,
        None => {},
    }
    match &plan.fork_policy {
        Some(policy) => client.put_fork_pr_approval(repo, policy.as_str())?,
        None => {},
    }
    match &plan.selected_alone {
        Some(body) => client.put_selected_actions(repo, body)?,
        None => {},
    }
    match &plan.workflow {
        Some(body) => client.put_workflow_permissions(repo, body)?,
        None => {},
    }
    Ok(())
}

/// Send the ruleset changes in order: create the added and update the
/// changed with the body of [`spec_ruleset_to_api_body`], delete the removed.
pub fn apply_ruleset_changes(
    changes: &[SpecChange],
    repo: &str,
    client: &dyn GhRepoClient,
) -> (r: anyhow::Result<()>)
    ensures
        (forall|i: int| 0 <= i < changes@.len() ==> !sends_ruleset(#[trigger] changes@[i])) ==> r is Ok,
{
    let org = org_from_repo(repo);
    let ghost none = forall|i: int| 0 <= i < changes@.len() ==> !sends_ruleset(#[trigger] changes@[i]);
    let mut i: usize = 0;
    while i < changes.len()
        invariant
            i <= changes.len(),
            none == (forall|i: int| 0 <= i < changes@.len() ==> !sends_ruleset(#[trigger] changes@[i])),
        decreases changes.len() - i,
    {
        match &changes[i] {
            SpecChange::RulesetAdd { spec: rs, .. } => {
                let body = spec_ruleset_to_api_body(rs, org, client)?;
                client.create_ruleset(repo, &body)?;
            },
            SpecChange::RulesetUpdate { id, spec: rs, .. } => {
                let body = spec_ruleset_to_api_body(rs, org, client)?;
                client.update_ruleset(repo, *id, &body)?;
            },
            SpecChange::RulesetDelete { id, .. } => {
                client.delete_ruleset(repo, *id)?;
            },
            _ => {},
        }
        i = i + 1;
    }
    Ok(())
}

/// Send the branch protection changes in order: set the added and changed
/// with the body of [`spec_protection_to_api_body`], remove the removed.
pub fn apply_branch_protection_changes(
    changes: &[SpecChange],
    repo: &str,
    client: &dyn GhRepoClient,
) -> (r: anyhow::Result<()>)
    ensures
        (forall|i: int| 0 <= i < changes@.len() ==> !sends_protection(#[trigger] changes@[i])) ==> r is Ok,
{
    let ghost none = forall|i: int| 0 <= i < changes@.len() ==> !sends_protection(#[trigger] changes@[i]);
    let mut i: usize = 0;
    while i < changes.len()
        invariant
            i <= changes.len(),
            none == (forall|i: int| 0 <= i < changes@.len() ==> !sends_protection(#[trigger] changes@[i])),
        decreases changes.len() - i,
    {
        match &changes[i] {
            SpecChange::BranchProtectionAdd { spec: bp } => {
                let body = spec_protection_to_api_body(bp);
                client.put_branch_protection(repo, bp.pattern.as_str(), &body)?;
            },
            SpecChange::BranchProtectionUpdate { spec: bp } => {
                let body = spec_protection_to_api_body(bp);
                client.put_branch_protection(repo, bp.pattern.as_str(), &body)?;
            },
            SpecChange::BranchProtectionRemove { pattern } => {
                client.delete_branch_protection(repo, pattern.as_str())?;
            },
            _ => {},
        }
        i = i + 1;
    }
    Ok(())
}

/// Apply all pending `changes` to the live repository via `client`: general
/// settings, labels, actions, rulesets, then branch protection.  Stops at
/// the first request that fails.  When every change is already settled,
/// nothing is sent and it succeeds.
pub fn apply_changes(
    changes: &[SpecChange],
    spec: &Spec,
    repo: &str,
    client: &dyn GhRepoClient,
) -> (r: anyhow::Result<()>)
    ensures
        sends_nothing(changes@, *spec) ==> r is Ok,
        (forall|i: int| 0 <= i < changes@.len() ==> is_settled(#[trigger] changes@[i])) ==> r is Ok,
{
    proof {
        if forall|i: int| 0 <= i < changes@.len() ==> is_settled(#[trigger] changes@[i]) {
            lemma_settled_view(changes@);
        }
    }
    apply_core_fields(changes, spec, repo, client)?;
    apply_label_changes(changes, repo, client)?;
    apply_actions_changes(changes, spec, repo, client)?;
    apply_ruleset_changes(changes, repo, client)?;
    apply_branch_protection_changes(changes, repo, client)?;
    Ok(())
}

} // verus!
