//! `--ci-check` mode: drift detection for each rule.
use std::path::Path;

use vstd::prelude::*;

use crate::external::join_path;
use crate::manifest::{patch_path_spec, resolve_patch_path, Manifest, Rule, Strategy};
use crate::output::{diff_header, DriftOutcome, DriftSummary, StatusTag};
use crate::strategy::patch::{
    answer_view, patch_input, patch_spec, PatchOutput, PatchRunner, RunnerAnswer,
};
use crate::strategy::replace::{apply_with_markers, replace_markers_spec};
use crate::strategy::{bytes_eq, bytes_to_vec, opt_bytes, Outcome, StrategyResult};
use crate::text::starts_with;
use crate::upstream::{
    answer_of, fetch_file, fetch_view, FetchAnswer, FetchResult, UpstreamFetcher,
};

verus! {

/// Structured report of a ci-check run.
#[derive(Debug)]
pub struct CiCheckReport<'a> {
    /// Per-rule drift outcomes (borrows rules from the manifest).
    pub drift_outcomes: Vec<DriftOutcome<'a>>,
    /// Aggregated drift summary counts.
    pub summary: DriftSummary,
    /// `true` when at least one rule encountered a fetch / patch error.
    pub has_error: bool,
}

impl CiCheckReport<'_> {
    /// Returns `true` when there is any drift or error.
    pub fn has_any_drift(&self) -> (r: bool)
        ensures
            r == (self.summary.drifted > 0 || self.has_error),
    {
        self.summary.drifted > 0 || self.has_error
    }
}

// ---------------------------------------------------------------------------
// Drift evaluation
// ---------------------------------------------------------------------------

/// What drift evaluation decided for one rule.
#[derive(Debug)]
pub enum DriftCheck {
    /// The evaluation is complete: drifted, detail, diff text, failed.
    Settled(bool, String, String, bool),
    /// The local file differs from the expected content; what remains is to
    /// show the difference (see [`drift_with_diff`]).
    Differs(Vec<u8>),
}

/// A drift decision taken by value.
pub enum DriftView {
    Settled(bool, Seq<char>, Seq<char>, bool),
    Differs(Seq<u8>),
}

impl View for DriftCheck {
    type V = DriftView;

    open spec fn view(&self) -> DriftView {
        match self {
            DriftCheck::Settled(d, detail, diff, e) => DriftView::Settled(*d, detail@, diff@, *e),
            DriftCheck::Differs(b) => DriftView::Differs(b@),
        }
    }
}

/// A finished decision without a diff.
pub open spec fn settled(drifted: bool, detail: Seq<char>, failed: bool) -> DriftView {
    DriftView::Settled(drifted, detail, Seq::empty(), failed)
}

/// The upstream path that a rule reads: its `source` for `replace` rules
/// that name one, else its own path.
pub open spec fn drift_source(rule: Rule) -> Seq<char> {
    if rule.strategy == Strategy::Replace {
        match rule.source {
            Some(s) => s@,
            None => rule.path@,
        }
    } else {
        rule.path@
    }
}

/// The upstream path that a drift check of `rule` fetches (see
/// [`drift_source`]).
pub fn drift_source_path(rule: &Rule) -> (s: &str)
    ensures
        s@ == drift_source(*rule),
{
    if rule.strategy == Strategy::Replace {
        match &rule.source {
            Some(s) => s.as_str(),
            None => rule.path.as_str(),
        }
    } else {
        rule.path.as_str()
    }
}

/// Whether a rule keeps its marker blocks (the default).
pub open spec fn keeps_markers(rule: Rule) -> bool {
    match rule.preserve_markers {
        Some(b) => b,
        None => true,
    }
}

/// Compare the expected content with the local one.
pub open spec fn compare_expected(local: Option<Seq<u8>>, expected: Seq<u8>) -> DriftView {
    let local_content = match local {
        Some(l) => l,
        None => Seq::empty(),
    };
    if local_content == expected {
        settled(false, "up to date"@, false)
    } else {
        DriftView::Differs(expected)
    }
}

/// The drift decision for a `replace` or `patch` rule once upstream bytes are
/// in hand: the expected content is what the strategy would write (the
/// upstream bytes when it would write nothing), compared with the local one.
/// Marker, conflict and patch failures are reported as errors.
pub open spec fn drift_found(
    rule: Rule,
    local: Option<Seq<u8>>,
    upstream: Seq<u8>,
    answer: RunnerAnswer,
) -> DriftView {
    if rule.strategy == Strategy::Replace {
        if keeps_markers(rule) {
            match replace_markers_spec(upstream, local) {
                Outcome::Changed(c) => compare_expected(local, c),
                Outcome::Unchanged => compare_expected(
                    local,
                    match local {
                        Some(l) => l,
                        None => upstream,
                    },
                ),
                Outcome::Error(m) => settled(false, "marker error: "@ + m, true),
                _ => compare_expected(local, upstream),
            }
        } else {
            compare_expected(local, upstream)
        }
    } else {
        match patch_spec(upstream, local, keeps_markers(rule), answer) {
            Outcome::Changed(c) => compare_expected(local, c),
            Outcome::Conflict(m) => settled(false, "conflict: "@ + m, true),
            Outcome::Error(m) => settled(false, "patch error: "@ + m, true),
            _ => compare_expected(local, upstream),
        }
    }
}

/// The drift decision for a rule, given what the fetch of its upstream file
/// answered and what the patch runner answered (read for `patch` rules
/// only).  `delete` rules drift when the file exists, `create_only` rules
/// when it is missing; `replace` and `patch` rules see [`drift_found`].
pub open spec fn drift_spec(
    rule: Rule,
    local: Option<Seq<u8>>,
    fetched: FetchAnswer,
    answer: RunnerAnswer,
) -> DriftView {
    match rule.strategy {
        Strategy::Ignore => settled(false, "ignored"@, false),
        Strategy::Delete => if local is Some {
            settled(true, "file exists but should be deleted"@, false)
        } else {
            settled(false, "already absent"@, false)
        },
        Strategy::CreateOnly => if local is None {
            settled(true, "file not found"@, false)
        } else {
            settled(false, "file exists"@, false)
        },
        _ => match fetched {
            FetchAnswer::Failed(m) => settled(false, "fetch error: "@ + m, true),
            FetchAnswer::Missing => settled(false, "upstream not found: "@ + drift_source(rule), false),
            FetchAnswer::Found(up) => drift_found(rule, local, up, answer),
        },
    }
}

fn settle_drift(drifted: bool, detail: String, failed: bool) -> (r: DriftCheck)
    ensures
        r@ == settled(drifted, detail@, failed),
{
    DriftCheck::Settled(drifted, detail, String::new(), failed)
}

fn prefixed(prefix: &str, m: &str) -> (s: String)
    ensures
        s@ == prefix@ + m@,
{
    let mut s = String::from_str(prefix);
    s.append(m);
    s
}

fn compare_with_local(local: Option<&[u8]>, expected: Vec<u8>) -> (r: DriftCheck)
    ensures
        r@ == compare_expected(opt_bytes(local), expected@),
{
    let same = match local {
        Some(l) => bytes_eq(l, expected.as_slice()),
        None => expected.len() == 0,
    };
    assert(expected@.len() == 0 ==> expected@ =~= Seq::<u8>::empty());
    if same {
        settle_drift(false, String::from_str("up to date"), false)
    } else {
        DriftCheck::Differs(expected)
    }
}

/// The drift decision for a rule from the fetch result and the patch
/// runner's answer (read for `patch` rules only).
pub fn drift_from_answers(
    rule: &Rule,
    local: Option<&[u8]>,
    fetched: Result<FetchResult, String>,
    answer: Result<PatchOutput, String>,
) -> (r: DriftCheck)
    ensures
        r@ == drift_spec(*rule, opt_bytes(local), fetch_view(fetched), answer_view(answer)),
{
    match rule.strategy {
        Strategy::Ignore => settle_drift(false, String::from_str("ignored"), false),
        Strategy::Delete => {
            if local.is_some() {
                settle_drift(true, String::from_str("file exists but should be deleted"), false)
            } else {
                settle_drift(false, String::from_str("already absent"), false)
            }
        },
        Strategy::CreateOnly => {
            if local.is_none() {
                settle_drift(true, String::from_str("file not found"), false)
            } else {
                settle_drift(false, String::from_str("file exists"), false)
            }
        },
        _ => {
            let upstream = match fetched {
                Err(m) => {
                    return settle_drift(false, prefixed("fetch error: ", m.as_str()), true);
                },
                Ok(FetchResult::NotFound) => {
                    let source = drift_source_path(rule);
                    return settle_drift(false, prefixed("upstream not found: ", source), false);
                },
                Ok(FetchResult::Content(bytes)) => bytes,
            };
            let keep = match rule.preserve_markers {
                Some(b) => b,
                None => true,
            };
            if rule.strategy == Strategy::Replace {
                if keep {
                    match apply_with_markers(upstream.as_slice(), local) {
                        StrategyResult::Changed { content } => compare_with_local(local, content),
                        StrategyResult::Unchanged => {
                            let expected = match local {
                                Some(l) => bytes_to_vec(l),
                                None => upstream,
                            };
                            compare_with_local(local, expected)
                        },
                        StrategyResult::Error(m) => {
                            settle_drift(false, prefixed("marker error: ", m.as_str()), true)
                        },
                        _ => compare_with_local(local, upstream),
                    }
                } else {
                    compare_with_local(local, upstream)
                }
            } else {
                let ghost av = answer_view(answer);
                let r = crate::strategy::patch::finish_patch(
                    upstream.as_slice(),
                    local,
                    keep,
                    answer,
                );
                match r {
                    StrategyResult::Changed { content } => compare_with_local(local, content),
                    StrategyResult::Conflict { message } => {
                        settle_drift(false, prefixed("conflict: ", message.as_str()), true)
                    },
                    StrategyResult::Error(m) => {
                        settle_drift(false, prefixed("patch error: ", m.as_str()), true)
                    },
                    _ => compare_with_local(local, upstream),
                }
            }
        },
    }
}

/// Evaluate whether `rule` is drifted.
///
/// Fetches the upstream file (for `replace` and `patch` rules) and runs the
/// patch (for `patch` rules, with the patch file resolved from `repo_root`).
/// Whatever those answer, the decision is what [`drift_spec`] gives for the
/// answers.
pub fn evaluate_drift(
    rule: &Rule,
    manifest: &Manifest,
    repo_root: &Path,
    local_bytes: Option<&[u8]>,
    fetcher: &dyn UpstreamFetcher,
    patch_runner: &dyn PatchRunner,
) -> (r: DriftCheck)
    ensures
        exists|f: FetchAnswer, a: RunnerAnswer| r@ == drift_spec(*rule, opt_bytes(local_bytes), f, a),
        rule.strategy == Strategy::Replace || rule.strategy == Strategy::Patch ==> exists|
            raw: anyhow::Result<FetchResult>,
            f: FetchAnswer,
            a: RunnerAnswer,
        |
            #[trigger] fetcher.answers(
                manifest.upstream.repo@,
                manifest.upstream.ref_@,
                drift_source(*rule),
                raw,
            ) && #[trigger] answer_of(raw, f) && r@ == #[trigger] drift_spec(
                *rule,
                opt_bytes(local_bytes),
                f,
                a,
            ),
{
    let needs_fetch = rule.strategy == Strategy::Replace || rule.strategy == Strategy::Patch;
    if !needs_fetch {
        let r = drift_from_answers(
            rule,
            local_bytes,
            Ok(FetchResult::NotFound),
            Err(String::new()),
        );
        assert(r@ == drift_spec(
            *rule,
            opt_bytes(local_bytes),
            FetchAnswer::Missing,
            RunnerAnswer::Failed(Seq::empty()),
        ));
        return r;
    }
    let source = drift_source_path(rule);
    let fetched = fetch_file(
        fetcher,
        manifest.upstream.repo.as_str(),
        manifest.upstream.ref_.as_str(),
        source,
    );
    let ghost raw = choose|raw: anyhow::Result<FetchResult>|
        #[trigger] fetcher.answers(
            manifest.upstream.repo@,
            manifest.upstream.ref_@,
            source@,
            raw,
        ) && answer_of(raw, fetch_view(fetched));
    let answer = if rule.strategy == Strategy::Patch {
        match &fetched {
            Ok(FetchResult::Content(upstream)) => {
                let keep = match rule.preserve_markers {
                    Some(b) => b,
                    None => true,
                };
                match patch_input(upstream.as_slice(), keep) {
                    Ok(bytes) => {
                        let patch_path = resolve_patch_path(rule);
                        let full_patch = join_path(repo_root, patch_path.as_str());
                        match patch_runner.apply_patch(bytes.as_slice(), full_patch.as_path()) {
                            Ok(out) => Ok(out),
                            Err(e) => Err(e.to_string()),
                        }
                    },
                    Err(_) => Err(String::new()),
                }
            },
            _ => Err(String::new()),
        }
    } else {
        Err(String::new())
    };
    let ghost fv = fetch_view(fetched);
    let ghost av = answer_view(answer);
    let r = drift_from_answers(rule, local_bytes, fetched, answer);
    assert(r@ == drift_spec(*rule, opt_bytes(local_bytes), fv, av));
    r
}

/// The drift text for a rule whose local file differs from the expected
/// content: `body` is the unified diff of the two; the diff shown is the
/// context header and the body, or nothing when the body is empty.
pub open spec fn differs_view(repo: Seq<char>, ref_: Seq<char>, body: Seq<char>) -> DriftView {
    DriftView::Settled(
        true,
        "upstream has changes"@,
        if body.len() == 0 {
            Seq::empty()
        } else {
            diff_header(repo, ref_) + "\n"@ + body
        },
        false,
    )
}

/// Finish a [`DriftCheck::Differs`] decision once the diff `body` of the
/// local and expected contents is known.
pub fn drift_with_diff(manifest: &Manifest, body: &str) -> (r: DriftCheck)
    ensures
        r@ == differs_view(manifest.upstream.repo@, manifest.upstream.ref_@, body@),
{
    let diff = if body.unicode_len() == 0 {
        String::new()
    } else {
        let mut d = crate::output::build_diff_context_header(
            manifest.upstream.repo.as_str(),
            manifest.upstream.ref_.as_str(),
        );
        d.append("\n");
        d.append(body);
        d
    };
    DriftCheck::Settled(true, String::from_str("upstream has changes"), diff, false)
}

/// The status tag of a drift decision: `FAIL` when the evaluation failed,
/// `DRIFT` when the rule drifted, `OK` otherwise.
pub fn drift_tag(drifted: bool, failed: bool) -> (t: StatusTag)
    ensures
        t == (if failed {
            StatusTag::Fail
        } else if drifted {
            StatusTag::Drift
        } else {
            StatusTag::UpToDate
        }),
{
    if failed {
        StatusTag::Fail
    } else if drifted {
        StatusTag::Drift
    } else {
        StatusTag::UpToDate
    }
}

// ---------------------------------------------------------------------------
// Pull request number
// ---------------------------------------------------------------------------

/// The value of a decimal digit character.
pub open spec fn digit_value(c: char) -> nat {
    ((c as u32) - ('0' as u32)) as nat
}

/// Whether every character is an ASCII digit.
pub open spec fn all_digits(d: Seq<char>) -> bool {
    forall|i: int| 0 <= i < d.len() ==> '0' <= #[trigger] d[i] <= '9'
}

/// The value of a string of decimal digits.
pub open spec fn digits_value(d: Seq<char>) -> nat
    decreases d.len(),
{
    if d.len() == 0 {
        0
    } else {
        digits_value(d.drop_last()) * 10 + digit_value(d.last())
    }
}

/// What `u64::from_str` accepts: an optional `+`, then one or more ASCII
/// digits whose value fits in a `u64`.
pub open spec fn parse_u64_spec(t: Seq<char>) -> Option<u64> {
    let d = if t.len() > 0 && t[0] == '+' {
        t.skip(1)
    } else {
        t
    };
    if d.len() > 0 && all_digits(d) && digits_value(d) <= u64::MAX {
        Some(digits_value(d) as u64)
    } else {
        None
    }
}

proof fn lemma_digits_value_grows(d: Seq<char>, i: int)
    requires
        0 <= i <= d.len(),
    ensures
        digits_value(d.take(i)) <= digits_value(d),
    decreases d.len() - i,
{
    if i < d.len() {
        lemma_digits_value_grows(d, i + 1);
        assert(d.take(i + 1).drop_last() =~= d.take(i));
    } else {
        assert(d.take(i) =~= d);
    }
}

/// Parse a decimal `u64` as `u64::from_str` does.
fn parse_u64(t: &str) -> (r: Option<u64>)
    ensures
        r == parse_u64_spec(t@),
{
    let cs = crate::text::chars_of(t);
    let mut start: usize = 0;
    if cs.len() > 0 && cs[0] == '+' {
        start = 1;
    }
    let ghost d = if t@.len() > 0 && t@[0] == '+' {
        t@.skip(1)
    } else {
        t@
    };
    assert(d =~= cs@.skip(start as int));
    if start >= cs.len() {
        return None;
    }
    let mut value: u64 = 0;
    let mut i: usize = start;
    assert(d.take(0) =~= Seq::<char>::empty());
    while i < cs.len()
        invariant
            start <= i <= cs.len(),
            d == cs@.skip(start as int),
            d == (if t@.len() > 0 && t@[0] == '+' {
                t@.skip(1)
            } else {
                t@
            }),
            cs@ == t@,
            all_digits(d.take(i - start)),
            value == digits_value(d.take(i - start)),
        decreases cs.len() - i,
    {
        let c = cs[i];
        let ghost k = i - start;
        assert(d[k] == c);
        if c < '0' || c > '9' {
            assert(!all_digits(d));
            return None;
        }
        let dv = (c as u32 - '0' as u32) as u64;
        assert(d.take(k + 1).drop_last() =~= d.take(k));
        assert(all_digits(d.take(k + 1)));
        match value.checked_mul(10) {
            None => {
                proof {
                    lemma_digits_value_grows(d, k + 1);
                }
                return None;
            },
            Some(v) => match v.checked_add(dv) {
                None => {
                    proof {
                        lemma_digits_value_grows(d, k + 1);
                    }
                    return None;
                },
                Some(w) => {
                    value = w;
                },
            },
        }
        i = i + 1;
    }
    assert(d.take(i - start) =~= d);
    Some(value)
}

/// The pull request number named by a `refs/pull/<number>/merge` ref.
pub open spec fn pr_number_spec(r: Seq<char>) -> Option<u64> {
    let prefix = "refs/pull/"@;
    let suffix = "/merge"@;
    if starts_with(r, prefix) {
        let rest = r.skip(prefix.len() as int);
        if crate::text::ends_with(rest, suffix) {
            parse_u64_spec(rest.take(rest.len() - suffix.len()))
        } else {
            None
        }
    } else {
        None
    }
}

/// Extract the pull request number from a `refs/pull/<number>/merge` ref.
pub fn extract_pr_number(ref_: &str) -> (r: Option<u64>)
    ensures
        r == pr_number_spec(ref_@),
{
    proof {
        reveal_strlit("refs/pull/");
        reveal_strlit("/merge");
    }
    let cs = crate::text::chars_of(ref_);
    if !crate::text::starts_with_exec(&cs, "refs/pull/") {
        return None;
    }
    let rest = ref_.substring_char(10, ref_.unicode_len());
    assert(rest@ =~= ref_@.skip(10));
    let rc = crate::text::chars_of(rest);
    if !crate::text::ends_with_exec(&rc, "/merge") {
        return None;
    }
    let number = rest.substring_char(0, rest.unicode_len() - 6);
    assert(number@ =~= rest@.take(rest@.len() - 6));
    parse_u64(number)
}

} // verus!
