//! Human-readable preview of spec changes.
use vstd::prelude::*;
use vstd::string::StringSliceAdditionalSpecFns;

use super::matching::{context_texts, has_rule_type, inclusion_key, inclusion_key_text, rule_params};
use super::{opt_view, SpecChange};
use crate::external::{debug_quoted, debug_text};
use crate::json::{
    deref_opt, json_array, json_bool, json_get, json_str, json_u64, member, opt_array, opt_get,
    opt_str, texts_of, Json,
};
use crate::manifest::{PullRequestRule, RefNameCondition, RequiredStatusChecks, Ruleset};
use crate::output::spaces;
use crate::repo::compare::bool_text;
use crate::style::{colors_enabled, dim_code, red_code, styled_as, yellow_code};
use crate::text::{append_decimal, decimal, join, strings_view, text_eq, write_text};
use crate::text_order::{same_texts, same_texts_exec};

verus! {

/// The exit status of a preview.
#[derive(Debug, Clone, Copy, PartialEq, Eq, Structural)]
pub enum ExitStatus {
    /// The preview ran to its end.
    Success,
    /// Something went wrong.
    Failure,
}

// ---------------------------------------------------------------------------
// Tags
// ---------------------------------------------------------------------------

/// A label in brackets, padded with spaces to seven characters.
pub open spec fn label_box(label: Seq<char>) -> Seq<char> {
    "["@ + label + spaces(7 - label.len()) + "]"@
}

fn boxed_label(label: &str) -> (s: String)
    ensures
        s@ == label_box(label@),
{
    let mut s = String::from_str("[");
    s.append(label);
    let mut n = label.unicode_len();
    let ghost base = s@;
    assert(spaces(0) =~= Seq::<char>::empty());
    while n < 7
        invariant
            n <= 7 || n == label@.len(),
            label@.len() <= n,
            base == "["@ + label@,
            s@ == base + spaces(n - label@.len()),
        decreases 7 - n,
    {
        s.append(" ");
        assert(spaces(n + 1 - label@.len()) =~= spaces(n - label@.len()) + " "@) by {
            reveal_strlit(" ");
        }
        n = n + 1;
    }
    assert(spaces(n - label@.len()) =~= spaces(7 - label@.len()));
    s.append("]");
    s
}

/// The rendered tags of a preview: each label padded in brackets, styled
/// when terminal colors are on.
pub struct PreviewTags {
    pub ok: String,
    pub changed: String,
    pub add: String,
    pub delete: String,
}

/// `t` are the preview tags: the padded labels alone when colors are off;
/// when they are on, `OK` dim, `CHANGED` and `ADD` yellow, `DELETE` red.
pub open spec fn tags_for(colors: bool, t: PreviewTags) -> bool {
    if colors {
        &&& styled_as(t.ok@, dim_code(), label_box("OK"@))
        &&& styled_as(t.changed@, yellow_code(), label_box("CHANGED"@))
        &&& styled_as(t.add@, yellow_code(), label_box("ADD"@))
        &&& styled_as(t.delete@, red_code(), label_box("DELETE"@))
    } else {
        &&& t.ok@ == label_box("OK"@)
        &&& t.changed@ == label_box("CHANGED"@)
        &&& t.add@ == label_box("ADD"@)
        &&& t.delete@ == label_box("DELETE"@)
    }
}

/// Render the preview tags, styled when `colors` is on.
pub fn preview_tags_with(colors: bool) -> (t: PreviewTags)
    ensures
        tags_for(colors, t),
{
    let ok = boxed_label("OK");
    let changed = boxed_label("CHANGED");
    let add = boxed_label("ADD");
    let delete = boxed_label("DELETE");
    if !colors {
        return PreviewTags { ok, changed, add, delete };
    }
    PreviewTags {
        ok: crate::style::dim(ok.as_str()),
        changed: crate::style::yellow(changed.as_str()),
        add: crate::style::yellow(add.as_str()),
        delete: crate::style::red(delete.as_str()),
    }
}

/// Render the preview tags: `OK` dim, `CHANGED` and `ADD` yellow, `DELETE`
/// red when terminal colors are on, plain otherwise.
pub fn preview_tags() -> (t: PreviewTags)
    ensures
        exists|colors: bool| tags_for(colors, t),
{
    preview_tags_with(colors_enabled())
}

// ---------------------------------------------------------------------------
// Ruleset details
// ---------------------------------------------------------------------------

/// A list shown as `Debug` shows a `Vec<String>`: each item quoted, in
/// brackets, separated by `, `.
pub open spec fn debug_list(items: Seq<Seq<char>>) -> Seq<char> {
    "["@ + join(items.map_values(|s: Seq<char>| debug_quoted(s)), ", "@) + "]"@
}

fn debug_list_exec(items: &[String]) -> (s: String)
    ensures
        s@ == debug_list(strings_view(items@)),
{
    let ghost qs = strings_view(items@).map_values(|s: Seq<char>| debug_quoted(s));
    let mut inner = String::new();
    let mut i: usize = 0;
    assert(qs.take(0) =~= Seq::<Seq<char>>::empty());
    while i < items.len()
        invariant
            i <= items.len(),
            qs == strings_view(items@).map_values(|s: Seq<char>| debug_quoted(s)),
            inner@ == join(qs.take(i as int), ", "@),
        decreases items.len() - i,
    {
        if i > 0 {
            inner.append(", ");
        }
        let q = debug_text(items[i].as_str());
        inner.append(q.as_str());
        proof {
            let t = qs.take(i + 1);
            assert(t.drop_last() =~= qs.take(i as int));
            assert(t.last() == q@);
            if i == 0 {
                assert(qs.take(0) =~= Seq::<Seq<char>>::empty());
            }
        }
        i = i + 1;
    }
    assert(qs.take(i as int) =~= qs);
    let mut s = String::from_str("[");
    s.append(inner.as_str());
    s.append("]");
    s
}

/// One line of a ruleset field: tagged `OK` when it matches the live value,
/// `CHANGED` with the live value when it does not, untagged when there is
/// no live value to compare with.
#[verifier::opaque]
pub open spec fn field_line(
    tags: PreviewTags,
    indent: Seq<char>,
    name: Seq<char>,
    spec_d: Seq<char>,
    matches: Option<bool>,
    live_d: Option<Seq<char>>,
) -> Seq<char> {
    match matches {
        Some(true) => indent + tags.ok@ + "  "@ + name + ": "@ + spec_d + "\n"@,
        Some(false) => indent + tags.changed@ + "  "@ + name + ": "@ + spec_d + " (was: "@
            + match live_d {
            Some(l) => l,
            None => "?"@,
        } + ")\n"@,
        None => indent + name + ": "@ + spec_d + "\n"@,
    }
}

fn write_ruleset_field(
    out: &mut String,
    tags: &PreviewTags,
    indent: &str,
    name: &str,
    spec_display: &str,
    matches: Option<bool>,
    live_display: Option<&str>,
)
    ensures
        final(out)@ == old(out)@ + field_line(
            *tags,
            indent@,
            name@,
            spec_display@,
            matches,
            match live_display {
                Some(l) => Some(l@),
                None => None,
            },
        ),
{
    let ghost start = out@;
    proof {
        reveal(field_line);
    }
    out.append(indent);
    match matches {
        Some(true) => {
            out.append(tags.ok.as_str());
            out.append("  ");
        },
        Some(false) => {
            out.append(tags.changed.as_str());
            out.append("  ");
        },
        None => {},
    }
    out.append(name);
    out.append(": ");
    out.append(spec_display);
    match matches {
        Some(false) => {
            out.append(" (was: ");
            match live_display {
                Some(l) => out.append(l),
                None => out.append("?"),
            }
            out.append(")\n");
        },
        _ => out.append("\n"),
    }
    assert(out@ =~= start + field_line(
        *tags,
        indent@,
        name@,
        spec_display@,
        matches,
        match live_display {
            Some(l) => Some(l@),
            None => None,
        },
    ));
}

/// The texts of a list member of an optional object, when it is a list.
pub open spec fn opt_texts(v: Option<Json>, key: Seq<char>) -> Option<Seq<Seq<char>>> {
    match json_array(opt_get(v, key)) {
        Some(a) => Some(texts_of(a)),
        None => None,
    }
}

/// The line of one ref name condition list.
pub open spec fn condition_line(
    tags: PreviewTags,
    key: Seq<char>,
    list: Seq<Seq<char>>,
    live: Option<Json>,
) -> Seq<char> {
    let live_rn = opt_get(opt_get(live, "conditions"@), "ref_name"@);
    let live_vals = opt_texts(live_rn, key);
    field_line(
        tags,
        "      "@,
        "conditions.ref_name."@ + key,
        debug_list(list),
        match live {
            Some(_) => Some(
                match live_vals {
                    Some(lv) => same_texts(list, lv),
                    None => false,
                },
            ),
            None => None,
        },
        match live_vals {
            Some(lv) => Some(debug_list(lv)),
            None => None,
        },
    )
}

/// The lines of the ref name conditions: the inclusion list, then the
/// exclusion list, each when the spec names it.
pub open spec fn conditions_lines(tags: PreviewTags, rn: RefNameCondition, live: Option<Json>) -> Seq<char> {
    (match rn.includes {
        Some(l) => condition_line(tags, inclusion_key(), strings_view(l@), live),
        None => Seq::empty(),
    }) + match rn.exclude {
        Some(l) => condition_line(tags, "exclude"@, strings_view(l@), live),
        None => Seq::empty(),
    }
}

fn opt_texts_exec(v: Option<&Json>, key: &str) -> (r: Option<Vec<String>>)
    ensures
        match r {
            Some(x) => opt_texts(deref_opt(v), key@) == Some(strings_view(x@)),
            None => opt_texts(deref_opt(v), key@) is None,
        },
{
    match opt_array(member(v, key)) {
        Some(a) => Some(crate::json::collect_texts(a)),
        None => None,
    }
}

fn condition_line_exec(
    out: &mut String,
    tags: &PreviewTags,
    key: &str,
    list: &Vec<String>,
    live: Option<&Json>,
)
    ensures
        final(out)@ == old(out)@ + condition_line(*tags, key@, strings_view(list@), deref_opt(live)),
{
    let live_rn = member(member(live, "conditions"), "ref_name");
    let live_vals = opt_texts_exec(live_rn, key);
    let spec_d = debug_list_exec(list.as_slice());
    let matches = match live {
        Some(_) => Some(
            match &live_vals {
                Some(lv) => same_texts_exec(list.as_slice(), lv.as_slice()),
                None => false,
            },
        ),
        None => None,
    };
    let live_d = match &live_vals {
        Some(lv) => Some(debug_list_exec(lv.as_slice())),
        None => None,
    };
    let mut name = String::from_str("conditions.ref_name.");
    name.append(key);
    let ld = match &live_d {
        Some(s) => Some(s.as_str()),
        None => None,
    };
    write_ruleset_field(out, tags, "      ", name.as_str(), spec_d.as_str(), matches, ld);
}

fn print_ruleset_conditions(
    out: &mut String,
    tags: &PreviewTags,
    ref_name: &RefNameCondition,
    live: Option<&Json>,
)
    ensures
        final(out)@ == old(out)@ + conditions_lines(*tags, *ref_name, deref_opt(live)),
{
    let ghost start = out@;
    match &ref_name.includes {
        Some(l) => {
            let key = inclusion_key_text();
            condition_line_exec(out, tags, key.as_str(), l, live);
        },
        None => {},
    }
    let ghost mid = out@;
    match &ref_name.exclude {
        Some(l) => condition_line_exec(out, tags, "exclude", l, live),
        None => {},
    }
    assert(out@ =~= start + conditions_lines(*tags, *ref_name, deref_opt(live)));
}

/// The line of a boolean setting of a rule's parameters.
pub open spec fn flag_param_line(
    tags: PreviewTags,
    has_live: bool,
    params: Option<Json>,
    key: Seq<char>,
    v: bool,
) -> Seq<char> {
    let lv = json_bool(opt_get(params, key));
    field_line(
        tags,
        "        "@,
        key,
        bool_text(v),
        if has_live {
            Some(lv == Some(v))
        } else {
            None
        },
        match lv {
            Some(b) => Some(bool_text(b)),
            None => None,
        },
    )
}

/// The line of a boolean setting the spec may leave out.
pub open spec fn opt_flag_param_line(
    tags: PreviewTags,
    has_live: bool,
    params: Option<Json>,
    key: Seq<char>,
    v: Option<bool>,
) -> Seq<char> {
    match v {
        Some(b) => flag_param_line(tags, has_live, params, key, b),
        None => Seq::empty(),
    }
}

/// The lines of the pull request rule.
pub open spec fn pr_rule_lines(
    tags: PreviewTags,
    pr: PullRequestRule,
    has_live: bool,
    params: Option<Json>,
) -> Seq<char> {
    "      rules.pull_request:\n"@ + count_line(tags, pr, has_live, params) + pr_flag_lines(
        tags,
        pr,
        has_live,
        params,
    ) + methods_line(tags, pr, has_live, params)
}

/// The line of the required approval count.
pub open spec fn count_line(
    tags: PreviewTags,
    pr: PullRequestRule,
    has_live: bool,
    params: Option<Json>,
) -> Seq<char> {
    match pr.required_approving_review_count {
        Some(v) => {
            let lv = json_u64(opt_get(params, "required_approving_review_count"@));
            field_line(
                tags,
                "        "@,
                "required_approving_review_count"@,
                decimal(v as nat),
                if has_live {
                    Some(lv == Some(v as u64))
                } else {
                    None
                },
                match lv {
                    Some(n) => Some(decimal(n as nat)),
                    None => None,
                },
            )
        },
        None => Seq::empty(),
    }
}

/// The lines of the pull request flags.
pub open spec fn pr_flag_lines(
    tags: PreviewTags,
    pr: PullRequestRule,
    has_live: bool,
    params: Option<Json>,
) -> Seq<char> {
    opt_flag_param_line(
        tags,
        has_live,
        params,
        "dismiss_stale_reviews_on_push"@,
        pr.dismiss_stale_reviews_on_push,
    ) + opt_flag_param_line(
        tags,
        has_live,
        params,
        "require_code_owner_review"@,
        pr.require_code_owner_review,
    ) + opt_flag_param_line(
        tags,
        has_live,
        params,
        "require_last_push_approval"@,
        pr.require_last_push_approval,
    ) + opt_flag_param_line(
        tags,
        has_live,
        params,
        "required_review_thread_resolution"@,
        pr.required_review_thread_resolution,
    )
}

/// The line of the allowed merge methods.
pub open spec fn methods_line(
    tags: PreviewTags,
    pr: PullRequestRule,
    has_live: bool,
    params: Option<Json>,
) -> Seq<char> {
    match pr.allowed_merge_methods {
        Some(m) => {
            let live_methods = opt_texts(params, "allowed_merge_methods"@);
            field_line(
                tags,
                "        "@,
                "allowed_merge_methods"@,
                debug_list(strings_view(m@)),
                if has_live {
                    Some(
                        match live_methods {
                            Some(lm) => same_texts(strings_view(m@), lm),
                            None => false,
                        },
                    )
                } else {
                    None
                },
                match live_methods {
                    Some(lm) => Some(debug_list(lm)),
                    None => None,
                },
            )
        },
        None => Seq::empty(),
    }
}

fn flag_param_exec(
    out: &mut String,
    tags: &PreviewTags,
    has_live: bool,
    params: Option<&Json>,
    key: &str,
    v: Option<bool>,
)
    ensures
        final(out)@ == old(out)@ + opt_flag_param_line(*tags, has_live, deref_opt(params), key@, v),
{
    let ghost start = out@;
    match v {
        Some(b) => {
            let lv = match member(params, key) {
                Some(x) => x.as_bool(),
                None => None,
            };
            let matches = if has_live {
                Some(lv == Some(b))
            } else {
                None
            };
            let live_d = match lv {
                Some(x) => Some(crate::repo::compare::bool_string(x)),
                None => None,
            };
            let ld = match &live_d {
                Some(s) => Some(s.as_str()),
                None => None,
            };
            let sd = crate::repo::compare::bool_string(b);
            write_ruleset_field(out, tags, "        ", key, sd.as_str(), matches, ld);
        },
        None => {},
    }
    assert(out@ =~= start + opt_flag_param_line(*tags, has_live, deref_opt(params), key@, v));
}

fn decimal_of(n: u64) -> (s: String)
    ensures
        s@ == decimal(n as nat),
{
    let mut s = String::new();
    append_decimal(&mut s, n);
    s
}

fn count_line_exec(
    out: &mut String,
    tags: &PreviewTags,
    pr: &PullRequestRule,
    has_live: bool,
    live_params: Option<&Json>,
)
    ensures
        final(out)@ == old(out)@ + count_line(*tags, *pr, has_live, deref_opt(live_params)),
{
    let ghost start = out@;
    match pr.required_approving_review_count {
        Some(v) => {
            let lv = match member(live_params, "required_approving_review_count") {
                Some(x) => x.as_u64(),
                None => None,
            };
            let matches = if has_live {
                Some(lv == Some(v as u64))
            } else {
                None
            };
            let live_d = match lv {
                Some(n) => Some(decimal_of(n)),
                None => None,
            };
            let ld = match &live_d {
                Some(s) => Some(s.as_str()),
                None => None,
            };
            let sd = decimal_of(v as u64);
            write_ruleset_field(
                out,
                tags,
                "        ",
                "required_approving_review_count",
                sd.as_str(),
                matches,
                ld,
            );
        },
        None => {},
    }
    assert(out@ =~= start + count_line(*tags, *pr, has_live, deref_opt(live_params)));
}

fn pr_flags_exec(
    out: &mut String,
    tags: &PreviewTags,
    pr: &PullRequestRule,
    has_live: bool,
    live_params: Option<&Json>,
)
    ensures
        final(out)@ == old(out)@ + pr_flag_lines(*tags, *pr, has_live, deref_opt(live_params)),
{
    let ghost start = out@;
    let ghost p = deref_opt(live_params);
    flag_param_exec(
        out,
        tags,
        has_live,
        live_params,
        "dismiss_stale_reviews_on_push",
        pr.dismiss_stale_reviews_on_push,
    );
    let ghost a = out@;
    flag_param_exec(
        out,
        tags,
        has_live,
        live_params,
        "require_code_owner_review",
        pr.require_code_owner_review,
    );
    let ghost b = out@;
    flag_param_exec(
        out,
        tags,
        has_live,
        live_params,
        "require_last_push_approval",
        pr.require_last_push_approval,
    );
    let ghost c = out@;
    flag_param_exec(
        out,
        tags,
        has_live,
        live_params,
        "required_review_thread_resolution",
        pr.required_review_thread_resolution,
    );
    assert(out@ =~= start + pr_flag_lines(*tags, *pr, has_live, p));
}

fn methods_line_exec(
    out: &mut String,
    tags: &PreviewTags,
    pr: &PullRequestRule,
    has_live: bool,
    live_params: Option<&Json>,
)
    ensures
        final(out)@ == old(out)@ + methods_line(*tags, *pr, has_live, deref_opt(live_params)),
{
    let ghost start = out@;
    match &pr.allowed_merge_methods {
        Some(methods) => {
            let spec_d = debug_list_exec(methods.as_slice());
            let live_methods = opt_texts_exec(live_params, "allowed_merge_methods");
            let matches = if has_live {
                Some(
                    match &live_methods {
                        Some(lm) => same_texts_exec(methods.as_slice(), lm.as_slice()),
                        None => false,
                    },
                )
            } else {
                None
            };
            let live_d = match &live_methods {
                Some(lm) => Some(debug_list_exec(lm.as_slice())),
                None => None,
            };
            let ld = match &live_d {
                Some(s) => Some(s.as_str()),
                None => None,
            };
            write_ruleset_field(
                out,
                tags,
                "        ",
                "allowed_merge_methods",
                spec_d.as_str(),
                matches,
                ld,
            );
        },
        None => {},
    }
    assert(out@ =~= start + methods_line(*tags, *pr, has_live, deref_opt(live_params)));
}

fn print_ruleset_pr_rule(
    out: &mut String,
    tags: &PreviewTags,
    pr: &PullRequestRule,
    has_live: bool,
    live_params: Option<&Json>,
)
    ensures
        final(out)@ == old(out)@ + pr_rule_lines(*tags, *pr, has_live, deref_opt(live_params)),
{
    let ghost start = out@;
    out.append("      rules.pull_request:\n");
    count_line_exec(out, tags, pr, has_live, live_params);
    pr_flags_exec(out, tags, pr, has_live, live_params);
    methods_line_exec(out, tags, pr, has_live, live_params);
    assert(out@ =~= start + pr_rule_lines(*tags, *pr, has_live, deref_opt(live_params)));
}

/// The context names of the live status checks, when the list is there.
pub open spec fn live_context_names(params: Option<Json>) -> Option<Seq<Seq<char>>> {
    match json_array(opt_get(params, "required_status_checks"@)) {
        Some(a) => Some(context_texts(a)),
        None => None,
    }
}

/// The lines of the status check rule.
pub open spec fn sc_rule_lines(
    tags: PreviewTags,
    sc: RequiredStatusChecks,
    has_live: bool,
    params: Option<Json>,
) -> Seq<char> {
    "      rules.required_status_checks:\n"@ + opt_flag_param_line(
        tags,
        has_live,
        params,
        "strict_required_status_checks_policy"@,
        sc.strict_required_status_checks_policy,
    ) + match sc.contexts {
        Some(ctxs) => {
            let names = crate::repo::matching::spec_context_names(ctxs@);
            let live_names = live_context_names(params);
            field_line(
                tags,
                "        "@,
                "contexts"@,
                debug_list(names),
                if has_live {
                    Some(
                        match live_names {
                            Some(ln) => same_texts(names, ln),
                            None => false,
                        },
                    )
                } else {
                    None
                },
                match live_names {
                    Some(ln) => Some(debug_list(ln)),
                    None => None,
                },
            )
        },
        None => Seq::empty(),
    }
}

fn print_ruleset_sc_rule(
    out: &mut String,
    tags: &PreviewTags,
    sc: &RequiredStatusChecks,
    has_live: bool,
    live_params: Option<&Json>,
)
    ensures
        final(out)@ == old(out)@ + sc_rule_lines(*tags, *sc, has_live, deref_opt(live_params)),
{
    let ghost start = out@;
    out.append("      rules.required_status_checks:\n");
    flag_param_exec(
        out,
        tags,
        has_live,
        live_params,
        "strict_required_status_checks_policy",
        sc.strict_required_status_checks_policy,
    );
    let ghost m = out@;
    match &sc.contexts {
        Some(ctxs) => {
            let names = crate::repo::matching::spec_context_names_exec(ctxs);
            let spec_d = debug_list_exec(names.as_slice());
            let live_names = match opt_array(member(live_params, "required_status_checks")) {
                Some(a) => Some(crate::repo::matching::context_names_of(a)),
                None => None,
            };
            let matches = if has_live {
                Some(
                    match &live_names {
                        Some(ln) => same_texts_exec(names.as_slice(), ln.as_slice()),
                        None => false,
                    },
                )
            } else {
                None
            };
            let live_d = match &live_names {
                Some(ln) => Some(debug_list_exec(ln.as_slice())),
                None => None,
            };
            let ld = match &live_d {
                Some(s) => Some(s.as_str()),
                None => None,
            };
            write_ruleset_field(out, tags, "        ", "contexts", spec_d.as_str(), matches, ld);
        },
        None => {},
    }
    assert(out@ =~= start + sc_rule_lines(*tags, *sc, has_live, deref_opt(live_params)));
}

/// The line of one boolean rule.
pub open spec fn flag_rule_line(
    tags: PreviewTags,
    live: Option<Json>,
    live_rules: Seq<Json>,
    name: Seq<char>,
    v: Option<bool>,
) -> Seq<char> {
    match v {
        Some(b) => {
            let present = has_rule_type(live_rules, name);
            field_line(
                tags,
                "      "@,
                "rules."@ + name,
                bool_text(b),
                if live is Some {
                    Some(present == b)
                } else {
                    None
                },
                if live is Some {
                    Some(bool_text(present))
                } else {
                    None
                },
            )
        },
        None => Seq::empty(),
    }
}

/// The live rules of an optional live ruleset (none as empty).
pub open spec fn live_rule_list(live: Option<Json>) -> Seq<Json> {
    match json_array(opt_get(live, "rules"@)) {
        Some(a) => a,
        None => Seq::empty(),
    }
}

/// The lines of a ruleset's rules.
pub open spec fn rules_lines(tags: PreviewTags, rules: crate::manifest::RulesetRules, live: Option<Json>) -> Seq<char> {
    let lr = live_rule_list(live);
    rule_flag_lines(tags, rules, live) + match rules.pull_request {
        Some(pr) => pr_rule_lines(tags, pr, live is Some, rule_params(lr, "pull_request"@)),
        None => Seq::empty(),
    } + match rules.required_status_checks {
        Some(sc) => sc_rule_lines(
            tags,
            sc,
            live is Some,
            rule_params(lr, "required_status_checks"@),
        ),
        None => Seq::empty(),
    }
}

/// The lines of a ruleset's boolean rules.
pub open spec fn rule_flag_lines(tags: PreviewTags, rules: crate::manifest::RulesetRules, live: Option<Json>) -> Seq<char> {
    let lr = live_rule_list(live);
    flag_rule_line(tags, live, lr, "non_fast_forward"@, rules.non_fast_forward) + flag_rule_line(
        tags,
        live,
        lr,
        "deletion"@,
        rules.deletion,
    ) + flag_rule_line(tags, live, lr, "creation"@, rules.creation) + flag_rule_line(
        tags,
        live,
        lr,
        "required_linear_history"@,
        rules.required_linear_history,
    ) + flag_rule_line(tags, live, lr, "required_signatures"@, rules.required_signatures)
}

/// The line of the target or enforcement of a ruleset.
pub open spec fn text_field_line(
    tags: PreviewTags,
    live: Option<Json>,
    name: Seq<char>,
    v: Option<String>,
) -> Seq<char> {
    match v {
        Some(t) => {
            let lv = json_str(opt_get(live, name));
            field_line(
                tags,
                "      "@,
                name,
                t@,
                match lv {
                    Some(l) => Some(l == t@),
                    None => None,
                },
                lv,
            )
        },
        None => Seq::empty(),
    }
}

/// The indented detail lines under a ruleset change: target, enforcement,
/// conditions and rules as the spec declares them, each compared with the
/// live ruleset when its details are known.
pub open spec fn ruleset_detail(tags: PreviewTags, rs: Ruleset, live: Option<Json>) -> Seq<char> {
    text_field_line(tags, live, "target"@, rs.target) + text_field_line(
        tags,
        live,
        "enforcement"@,
        rs.enforcement,
    ) + match rs.conditions {
        Some(c) => match c.ref_name {
            Some(rn) => conditions_lines(tags, rn, live),
            None => Seq::empty(),
        },
        None => Seq::empty(),
    } + match rs.rules {
        Some(r) => rules_lines(tags, r, live),
        None => Seq::empty(),
    }
}

fn flag_rule_exec(
    out: &mut String,
    tags: &PreviewTags,
    live: Option<&Json>,
    live_rules: &Vec<Json>,
    name: &str,
    v: Option<bool>,
)
    ensures
        final(out)@ == old(out)@ + flag_rule_line(*tags, deref_opt(live), live_rules@, name@, v),
{
    let ghost start = out@;
    match v {
        Some(b) => {
            let present = crate::repo::matching::find_rule(live_rules, name).is_some();
            let has_live = live.is_some();
            let matches = if has_live {
                Some(present == b)
            } else {
                None
            };
            let live_d = if has_live {
                Some(crate::repo::compare::bool_string(present))
            } else {
                None
            };
            let ld = match &live_d {
                Some(s) => Some(s.as_str()),
                None => None,
            };
            let mut field = String::from_str("rules.");
            field.append(name);
            let sd = crate::repo::compare::bool_string(b);
            write_ruleset_field(out, tags, "      ", field.as_str(), sd.as_str(), matches, ld);
        },
        None => {},
    }
    assert(out@ =~= start + flag_rule_line(*tags, deref_opt(live), live_rules@, name@, v));
}

fn print_rule_flags(
    out: &mut String,
    tags: &PreviewTags,
    rules: &crate::manifest::RulesetRules,
    live: Option<&Json>,
    live_rules: &Vec<Json>,
)
    requires
        live_rules@ == live_rule_list(deref_opt(live)),
    ensures
        final(out)@ == old(out)@ + rule_flag_lines(*tags, *rules, deref_opt(live)),
{
    let ghost start = out@;
    flag_rule_exec(out, tags, live, live_rules, "non_fast_forward", rules.non_fast_forward);
    let ghost a = out@;
    flag_rule_exec(out, tags, live, live_rules, "deletion", rules.deletion);
    let ghost b = out@;
    flag_rule_exec(out, tags, live, live_rules, "creation", rules.creation);
    let ghost c = out@;
    flag_rule_exec(
        out,
        tags,
        live,
        live_rules,
        "required_linear_history",
        rules.required_linear_history,
    );
    let ghost d = out@;
    flag_rule_exec(out, tags, live, live_rules, "required_signatures", rules.required_signatures);
    assert(out@ =~= start + rule_flag_lines(*tags, *rules, deref_opt(live)));
}

fn print_rules(
    out: &mut String,
    tags: &PreviewTags,
    rules: &crate::manifest::RulesetRules,
    live: Option<&Json>,
)
    ensures
        final(out)@ == old(out)@ + rules_lines(*tags, *rules, deref_opt(live)),
{
    let ghost start = out@;
    let empty: Vec<Json> = Vec::new();
    let live_rules = match opt_array(member(live, "rules")) {
        Some(a) => a,
        None => &empty,
    };
    assert(live_rules@ == live_rule_list(deref_opt(live)));
    print_rule_flags(out, tags, rules, live, live_rules);
    let ghost m = out@;
    let has_live = live.is_some();
    match &rules.pull_request {
        Some(pr) => {
            let params = member(crate::repo::matching::find_rule(live_rules, "pull_request"), "parameters");
            print_ruleset_pr_rule(out, tags, pr, has_live, params);
        },
        None => {},
    }
    let ghost m2 = out@;
    match &rules.required_status_checks {
        Some(sc) => {
            let params = member(
                crate::repo::matching::find_rule(live_rules, "required_status_checks"),
                "parameters",
            );
            print_ruleset_sc_rule(out, tags, sc, has_live, params);
        },
        None => {},
    }
    assert(out@ =~= start + rules_lines(*tags, *rules, deref_opt(live)));
}

fn text_field_exec(
    out: &mut String,
    tags: &PreviewTags,
    live: Option<&Json>,
    name: &str,
    v: &Option<String>,
)
    ensures
        final(out)@ == old(out)@ + text_field_line(*tags, deref_opt(live), name@, *v),
{
    let ghost start = out@;
    match v {
        Some(t) => {
            let lv = opt_str(member(live, name));
            let matches = match lv {
                Some(l) => Some(text_eq(l, t.as_str())),
                None => None,
            };
            write_ruleset_field(out, tags, "      ", name, t.as_str(), matches, lv);
        },
        None => {},
    }
    assert(out@ =~= start + text_field_line(*tags, deref_opt(live), name@, *v));
}

/// Write the indented detail lines of a ruleset change.
fn print_ruleset_detail(out: &mut String, tags: &PreviewTags, rs: &Ruleset, live: Option<&Json>)
    ensures
        final(out)@ == old(out)@ + ruleset_detail(*tags, *rs, deref_opt(live)),
{
    let ghost start = out@;
    text_field_exec(out, tags, live, "target", &rs.target);
    text_field_exec(out, tags, live, "enforcement", &rs.enforcement);
    let ghost m = out@;
    match &rs.conditions {
        Some(cond) => match &cond.ref_name {
            Some(ref_name) => print_ruleset_conditions(out, tags, ref_name, live),
            None => {},
        },
        None => {},
    }
    let ghost m2 = out@;
    match &rs.rules {
        Some(rules) => print_rules(out, tags, rules, live),
        None => {},
    }
    assert(out@ =~= start + ruleset_detail(*tags, *rs, deref_opt(live)));
}


// ---------------------------------------------------------------------------
// The preview
// ---------------------------------------------------------------------------

/// Whether a change concerns a label.
pub open spec fn is_label(c: SpecChange) -> bool {
    ||| c is LabelAdd
    ||| c is LabelUpdate
    ||| c is LabelDelete
    ||| c is LabelOk
}

/// Whether a change counts as one to make.
pub open spec fn counts_changed(c: SpecChange) -> bool {
    !(c is FieldOk || c is LabelOk || c is RulesetOk || c is BranchProtectionOk)
}

/// The number of changes to make.
pub open spec fn changed_count(cs: Seq<SpecChange>) -> nat
    decreases cs.len(),
{
    if cs.len() == 0 {
        0
    } else {
        changed_count(cs.drop_last()) + if counts_changed(cs.last()) {
            1nat
        } else {
            0nat
        }
    }
}

/// The number of settings found up to date.
pub open spec fn ok_count(cs: Seq<SpecChange>) -> nat
    decreases cs.len(),
{
    if cs.len() == 0 {
        0
    } else {
        ok_count(cs.drop_last()) + if counts_changed(cs.last()) {
            0nat
        } else {
            1nat
        }
    }
}

/// Every change of a preview is counted once: as one to make or as a
/// setting up to date.
pub proof fn lemma_preview_counts_all(cs: Seq<SpecChange>)
    ensures
        changed_count(cs) + ok_count(cs) == cs.len(),
    decreases cs.len(),
{
    if cs.len() > 0 {
        lemma_preview_counts_all(cs.drop_last());
    }
}

/// An optional text, or nothing.
pub open spec fn text_or_empty(o: Option<String>) -> Seq<char> {
    match o {
        Some(s) => s@,
        None => Seq::empty(),
    }
}

/// ` (id=<id>)` after a ruleset's name.
pub open spec fn id_suffix(id: u64) -> Seq<char> {
    " (id="@ + decimal(id as nat) + ")\n"@
}

/// The lines of one change that is not about a label; nothing for a label.
pub open spec fn change_lines(tags: PreviewTags, c: SpecChange) -> Seq<char> {
    match c {
        SpecChange::FieldChanged { field, old, new } => tags.changed@ + "  "@ + field@ + ": "@
            + debug_quoted(old@) + " → "@ + debug_quoted(new@) + "\n"@,
        SpecChange::FieldOk { field, value } => tags.ok@ + "  "@ + field@ + ": "@ + value@
            + "\n"@,
        SpecChange::RulesetAdd { name, spec } => tags.add@ + "  rulesets/"@ + name@ + "\n"@
            + ruleset_detail(tags, *spec, None),
        SpecChange::RulesetUpdate { id, name, spec, live } => tags.changed@ + "  rulesets/"@
            + name@ + id_suffix(id) + ruleset_detail(tags, *spec, crate::repo::live_view(live)),
        SpecChange::RulesetOk { id, name } => tags.ok@ + "  rulesets/"@ + name@ + id_suffix(id),
        SpecChange::RulesetDelete { id, name } => tags.delete@ + "  rulesets/"@ + name@
            + id_suffix(id),
        SpecChange::BranchProtectionAdd { spec } => tags.add@ + "  branch_protection/"@
            + spec.pattern@ + "\n"@,
        SpecChange::BranchProtectionUpdate { spec } => tags.changed@ + "  branch_protection/"@
            + spec.pattern@ + "\n"@,
        SpecChange::BranchProtectionRemove { pattern } => tags.delete@ + "  branch_protection/"@
            + pattern@ + "\n"@,
        SpecChange::BranchProtectionOk { pattern } => tags.ok@ + "  branch_protection/"@
            + pattern@ + "\n"@,
        _ => Seq::empty(),
    }
}

/// The line of one label change; nothing for any other change.
pub open spec fn label_line(tags: PreviewTags, c: SpecChange) -> Seq<char> {
    match c {
        SpecChange::LabelAdd { name, color, description } => tags.add@ + "  "@ + name@ + " (#"@
            + color@ + ") "@ + text_or_empty(description) + "\n"@,
        SpecChange::LabelUpdate {
            name,
            old_color,
            old_description,
            new_color,
            new_description,
        } => tags.changed@ + "  "@ + name@ + ": #"@ + old_color@ + "/"@ + text_or_empty(
            old_description,
        ) + " → #"@ + new_color@ + "/"@ + text_or_empty(new_description) + "\n"@,
        SpecChange::LabelDelete { name } => tags.delete@ + "  "@ + name@ + "\n"@,
        SpecChange::LabelOk { name } => tags.ok@ + "  "@ + name@ + "\n"@,
        _ => Seq::empty(),
    }
}

/// The lines of the changes that are not about labels, in order.
pub open spec fn settings_lines(tags: PreviewTags, cs: Seq<SpecChange>) -> Seq<char>
    decreases cs.len(),
{
    if cs.len() == 0 {
        Seq::empty()
    } else {
        settings_lines(tags, cs.drop_last()) + change_lines(tags, cs.last())
    }
}

/// The lines of the label changes, in order.
pub open spec fn label_lines(tags: PreviewTags, cs: Seq<SpecChange>) -> Seq<char>
    decreases cs.len(),
{
    if cs.len() == 0 {
        Seq::empty()
    } else {
        label_lines(tags, cs.drop_last()) + label_line(tags, cs.last())
    }
}

/// Whether any change concerns a label.
pub open spec fn has_labels(cs: Seq<SpecChange>) -> bool {
    exists|i: int| 0 <= i < cs.len() && is_label(#[trigger] cs[i])
}

/// The last line: the counts, or that all is up to date.
pub open spec fn summary_line(cs: Seq<SpecChange>) -> Seq<char> {
    if changed_count(cs) > 0 {
        decimal(changed_count(cs)) + " changed, "@ + decimal(ok_count(cs)) + " up to date\n"@
    } else {
        "all settings up to date\n"@
    }
}

/// The whole preview: a header naming the repository, the settings, rulesets
/// and branch protections, then the labels in a section of their own, then
/// the counts.
pub open spec fn preview_text(tags: PreviewTags, cs: Seq<SpecChange>, repo: Seq<char>) -> Seq<
    char,
> {
    "=== repo: "@ + repo + " ===\n"@ + settings_lines(tags, cs) + (if has_labels(cs) {
        "--- labels ---\n"@ + label_lines(tags, cs)
    } else {
        Seq::empty()
    }) + "---\n"@ + summary_line(cs)
}

fn append_opt(out: &mut String, o: &Option<String>)
    ensures
        final(out)@ == old(out)@ + text_or_empty(*o),
{
    match o {
        Some(s) => out.append(s.as_str()),
        None => {},
    }
}

fn append_id_suffix(out: &mut String, id: u64)
    ensures
        final(out)@ == old(out)@ + id_suffix(id),
{
    let ghost start = out@;
    out.append(" (id=");
    append_decimal(out, id);
    out.append(")\n");
    assert(out@ =~= start + id_suffix(id));
}

fn write_change(out: &mut String, tags: &PreviewTags, c: &SpecChange)
    ensures
        final(out)@ == old(out)@ + change_lines(*tags, *c),
{
    let ghost start = out@;
    match c {
        SpecChange::FieldChanged { field, old, new } => {
            out.append(tags.changed.as_str());
            out.append("  ");
            out.append(field.as_str());
            out.append(": ");
            let o = debug_text(old.as_str());
            out.append(o.as_str());
            out.append(" → ");
            let n = debug_text(new.as_str());
            out.append(n.as_str());
            out.append("\n");
        },
        SpecChange::FieldOk { field, value } => {
            out.append(tags.ok.as_str());
            out.append("  ");
            out.append(field.as_str());
            out.append(": ");
            out.append(value.as_str());
            out.append("\n");
        },
        SpecChange::RulesetAdd { name, spec } => {
            out.append(tags.add.as_str());
            out.append("  rulesets/");
            out.append(name.as_str());
            out.append("\n");
            print_ruleset_detail(out, tags, &**spec, None);
        },
        SpecChange::RulesetUpdate { id, name, spec, live } => {
            out.append(tags.changed.as_str());
            out.append("  rulesets/");
            out.append(name.as_str());
            append_id_suffix(out, *id);
            let lv: Option<&Json> = match live {
                Some(b) => Some(&**b),
                None => None,
            };
            print_ruleset_detail(out, tags, &**spec, lv);
        },
        SpecChange::RulesetOk { id, name } => {
            out.append(tags.ok.as_str());
            out.append("  rulesets/");
            out.append(name.as_str());
            append_id_suffix(out, *id);
        },
        SpecChange::RulesetDelete { id, name } => {
            out.append(tags.delete.as_str());
            out.append("  rulesets/");
            out.append(name.as_str());
            append_id_suffix(out, *id);
        },
        SpecChange::BranchProtectionAdd { spec } => {
            out.append(tags.add.as_str());
            out.append("  branch_protection/");
            out.append(spec.pattern.as_str());
            out.append("\n");
        },
        SpecChange::BranchProtectionUpdate { spec } => {
            out.append(tags.changed.as_str());
            out.append("  branch_protection/");
            out.append(spec.pattern.as_str());
            out.append("\n");
        },
        SpecChange::BranchProtectionRemove { pattern } => {
            out.append(tags.delete.as_str());
            out.append("  branch_protection/");
            out.append(pattern.as_str());
            out.append("\n");
        },
        SpecChange::BranchProtectionOk { pattern } => {
            out.append(tags.ok.as_str());
            out.append("  branch_protection/");
            out.append(pattern.as_str());
            out.append("\n");
        },
        _ => {},
    }
    assert(out@ =~= start + change_lines(*tags, *c));
}

fn write_label(out: &mut String, tags: &PreviewTags, c: &SpecChange)
    ensures
        final(out)@ == old(out)@ + label_line(*tags, *c),
{
    let ghost start = out@;
    match c {
        SpecChange::LabelAdd { name, color, description } => {
            out.append(tags.add.as_str());
            out.append("  ");
            out.append(name.as_str());
            out.append(" (#");
            out.append(color.as_str());
            out.append(") ");
            append_opt(out, description);
            out.append("\n");
        },
        SpecChange::LabelUpdate {
            name,
            old_color,
            old_description,
            new_color,
            new_description,
        } => {
            out.append(tags.changed.as_str());
            out.append("  ");
            out.append(name.as_str());
            out.append(": #");
            out.append(old_color.as_str());
            out.append("/");
            append_opt(out, old_description);
            out.append(" → #");
            out.append(new_color.as_str());
            out.append("/");
            append_opt(out, new_description);
            out.append("\n");
        },
        SpecChange::LabelDelete { name } => {
            out.append(tags.delete.as_str());
            out.append("  ");
            out.append(name.as_str());
            out.append("\n");
        },
        SpecChange::LabelOk { name } => {
            out.append(tags.ok.as_str());
            out.append("  ");
            out.append(name.as_str());
            out.append("\n");
        },
        _ => {},
    }
    assert(out@ =~= start + label_line(*tags, *c));
}

fn is_label_exec(c: &SpecChange) -> (b: bool)
    ensures
        b == is_label(*c),
{
    match c {
        SpecChange::LabelAdd { .. } | SpecChange::LabelUpdate { .. } | SpecChange::LabelDelete {
            ..
        } | SpecChange::LabelOk { .. } => true,
        _ => false,
    }
}

fn counts_changed_exec(c: &SpecChange) -> (b: bool)
    ensures
        b == counts_changed(*c),
{
    match c {
        SpecChange::FieldOk { .. } | SpecChange::LabelOk { .. } | SpecChange::RulesetOk {
            ..
        } | SpecChange::BranchProtectionOk { .. } => false,
        _ => true,
    }
}

/// Render the preview of `changes` for `repo` with the given tags.
///
/// Returns the text and whether any change is to be made.
pub fn render_preview(tags: &PreviewTags, changes: &[SpecChange], repo: &str) -> (r: (
    String,
    bool,
))
    ensures
        r.0@ == preview_text(*tags, changes@, repo@),
        r.1 == (changed_count(changes@) > 0),
{
    let ghost cs = changes@;
    let mut out = String::from_str("=== repo: ");
    out.append(repo);
    out.append(" ===\n");
    let ghost head = out@;
    let mut changed: usize = 0;
    let mut ok: usize = 0;
    let mut labels = false;
    let mut i: usize = 0;
    assert(cs.take(0) =~= Seq::<SpecChange>::empty());
    while i < changes.len()
        invariant
            i <= changes.len(),
            cs == changes@,
            out@ == head + settings_lines(*tags, cs.take(i as int)),
            changed == changed_count(cs.take(i as int)),
            ok == ok_count(cs.take(i as int)),
            changed + ok == i,
            labels == (exists|k: int| 0 <= k < i && is_label(#[trigger] cs[k])),
        decreases changes.len() - i,
    {
        let c = &changes[i];
        write_change(&mut out, tags, c);
        if counts_changed_exec(c) {
            changed = changed + 1;
        } else {
            ok = ok + 1;
        }
        if is_label_exec(c) {
            labels = true;
        }
        proof {
            let t = cs.take(i + 1);
            assert(t.drop_last() =~= cs.take(i as int));
            assert(t.last() == cs[i as int]);
        }
        i = i + 1;
    }
    assert(cs.take(i as int) =~= cs);
    if labels {
        out.append("--- labels ---\n");
        let ghost mid = out@;
        let mut j: usize = 0;
        while j < changes.len()
            invariant
                j <= changes.len(),
                cs == changes@,
                out@ == mid + label_lines(*tags, cs.take(j as int)),
            decreases changes.len() - j,
        {
            write_label(&mut out, tags, &changes[j]);
            proof {
                let t = cs.take(j + 1);
                assert(t.drop_last() =~= cs.take(j as int));
                assert(t.last() == cs[j as int]);
            }
            j = j + 1;
        }
        assert(cs.take(j as int) =~= cs);
    }
    out.append("---\n");
    if changed > 0 {
        append_decimal(&mut out, changed as u64);
        out.append(" changed, ");
        append_decimal(&mut out, ok as u64);
        out.append(" up to date\n");
    } else {
        out.append("all settings up to date\n");
    }
    assert(out@ =~= preview_text(*tags, cs, repo@));
    (out, changed > 0)
}

/// Write a preview of `changes` for `repo` to `w`, tags styled when terminal
/// colors are on.
///
/// Returns the exit status and whether any change is to be made.
pub fn print_preview(w: &mut Vec<u8>, changes: &[SpecChange], repo: &str) -> (r: Result<
    (ExitStatus, bool),
    std::io::Error,
>)
    ensures
        r is Ok,
        r->Ok_0 == (ExitStatus::Success, changed_count(changes@) > 0),
        exists|colors: bool, t: PreviewTags|
            #[trigger] tags_for(colors, t) && final(w)@ == old(w)@ + crate::text::utf8(
                preview_text(t, changes@, repo@),
            ),
{
    let tags = preview_tags();
    let (text, has_actions) = render_preview(&tags, changes, repo);
    write_text(w, text.as_str());
    Ok((ExitStatus::Success, has_actions))
}

} // verus!
