//! Default sync mode: the outcome of each rule and what is to be done about it.
use std::path::{Path, PathBuf};

use vstd::prelude::*;

use crate::external::join_path;
use crate::manifest::{resolve_patch_path, Manifest, Rule, Strategy};
use crate::mode::ci_check::keeps_markers;
use crate::output::{diff_header, StatusTag, Summary};
use crate::strategy::patch::{answer_view, patch_spec, PatchOutput, PatchRunner, RunnerAnswer};
use crate::strategy::replace::{replace_markers_spec, replace_spec};
use crate::strategy::{bytes_to_vec, opt_bytes, Outcome, StrategyResult};
use crate::upstream::{
    answer_of, fetch_file, fetch_view, FetchAnswer, FetchResult, UpstreamFetcher,
};

verus! {

/// A deferred filesystem write collected during the preview phase.
///
/// Only actionable outcomes (write or delete) produce an `ApplyAction`.
#[derive(Debug)]
pub enum ApplyAction {
    /// Write `content` to `local_path` (creating parent directories as needed).
    Write {
        /// Destination path on the local filesystem.
        local_path: PathBuf,
        /// Bytes to write to `local_path`.
        content: Vec<u8>,
    },
    /// Delete the file or directory at `local_path`.
    Delete {
        /// Path to remove from the local filesystem.
        local_path: PathBuf,
    },
}

/// The upstream path that a `replace` or `create_only` rule reads.
pub open spec fn sync_source(rule: Rule) -> Seq<char> {
    match rule.source {
        Some(s) => s@,
        None => rule.path@,
    }
}

/// The upstream path that sync mode fetches for a rule: its own path for a
/// `patch` rule, else [`sync_source`].
pub open spec fn sync_fetch_path(rule: Rule) -> Seq<char> {
    if rule.strategy == Strategy::Patch {
        rule.path@
    } else {
        sync_source(rule)
    }
}

/// The upstream path that sync mode fetches for `rule` (see
/// [`sync_fetch_path`]).
pub fn sync_fetch_path_of(rule: &Rule) -> (s: &str)
    ensures
        s@ == sync_fetch_path(*rule),
{
    if rule.strategy == Strategy::Patch {
        rule.path.as_str()
    } else {
        match &rule.source {
            Some(s) => s.as_str(),
            None => rule.path.as_str(),
        }
    }
}

/// The outcome of one rule in sync mode, given what the fetch of its
/// upstream file answered and what the patch runner answered (read for
/// `patch` rules only); `None` for `ignore` rules, which are skipped.
pub open spec fn sync_spec(
    rule: Rule,
    local: Option<Seq<u8>>,
    fetched: FetchAnswer,
    answer: RunnerAnswer,
) -> Option<Outcome> {
    match rule.strategy {
        Strategy::Ignore => None,
        Strategy::Delete => Some(
            if local is Some {
                Outcome::Deleted
            } else {
                Outcome::Skipped("file does not exist"@)
            },
        ),
        Strategy::Patch => Some(
            match fetched {
                FetchAnswer::Failed(m) => Outcome::Error("upstream fetch failed: "@ + m),
                FetchAnswer::Missing => Outcome::Error("upstream path not found: "@ + rule.path@),
                FetchAnswer::Found(up) => patch_spec(up, local, keeps_markers(rule), answer),
            },
        ),
        _ => Some(
            match fetched {
                FetchAnswer::Failed(m) => Outcome::Error("upstream fetch failed: "@ + m),
                FetchAnswer::Missing => Outcome::Skipped(
                    "upstream not found: "@ + sync_source(rule)
                        + " (use 'delete' strategy to remove local file)"@,
                ),
                FetchAnswer::Found(up) => if rule.strategy == Strategy::Replace {
                    if keeps_markers(rule) {
                        replace_markers_spec(up, local)
                    } else {
                        replace_spec(up, local)
                    }
                } else if local is Some {
                    Outcome::Skipped("file already exists"@)
                } else {
                    Outcome::Changed(up)
                },
            },
        ),
    }
}

/// A rule outcome taken by value.
pub open spec fn opt_outcome(r: Option<StrategyResult>) -> Option<Outcome> {
    match r {
        Some(x) => Some(x@),
        None => None,
    }
}

/// The outcome of one rule from the fetch result and the patch runner's
/// answer (read for `patch` rules only).
pub fn sync_from_answers(
    rule: &Rule,
    local: Option<&[u8]>,
    fetched: Result<FetchResult, String>,
    answer: Result<PatchOutput, String>,
) -> (r: Option<StrategyResult>)
    ensures
        opt_outcome(r) == sync_spec(*rule, opt_bytes(local), fetch_view(fetched), answer_view(answer)),
{
    match rule.strategy {
        Strategy::Ignore => None,
        Strategy::Delete => Some(crate::strategy::delete::apply(local.is_some())),
        _ => {
            let upstream = match fetched {
                Err(m) => {
                    let mut s = String::from_str("upstream fetch failed: ");
                    s.append(m.as_str());
                    return Some(StrategyResult::Error(s));
                },
                Ok(FetchResult::NotFound) => {
                    if rule.strategy == Strategy::Patch {
                        let mut s = String::from_str("upstream path not found: ");
                        s.append(rule.path.as_str());
                        return Some(StrategyResult::Error(s));
                    }
                    let source = sync_fetch_path_of(rule);
                    let mut s = String::from_str("upstream not found: ");
                    s.append(source);
                    s.append(" (use 'delete' strategy to remove local file)");
                    return Some(StrategyResult::Skipped { reason: s });
                },
                Ok(FetchResult::Content(bytes)) => bytes,
            };
            let keep = match rule.preserve_markers {
                Some(b) => b,
                None => true,
            };
            if rule.strategy == Strategy::Patch {
                Some(crate::strategy::patch::finish_patch(upstream.as_slice(), local, keep, answer))
            } else if rule.strategy == Strategy::Replace {
                if keep {
                    Some(crate::strategy::replace::apply_with_markers(upstream.as_slice(), local))
                } else {
                    Some(crate::strategy::replace::apply(upstream.as_slice(), local))
                }
            } else {
                Some(crate::strategy::create_only::apply(upstream.as_slice(), local.is_some()))
            }
        },
    }
}

/// Compute the outcome of one rule in sync mode: fetch its upstream file
/// and apply its strategy to the local bytes (`None` for `ignore` rules).
/// `patch` rules resolve their patch file from `repo_root`.  Whatever the
/// fetcher and the patch runner answer, the outcome is what [`sync_spec`]
/// gives for the answers.
pub fn sync_rule(
    rule: &Rule,
    manifest: &Manifest,
    repo_root: &Path,
    local_bytes: Option<&[u8]>,
    fetcher: &dyn UpstreamFetcher,
    patch_runner: &dyn PatchRunner,
) -> (r: Option<StrategyResult>)
    ensures
        exists|f: FetchAnswer, a: RunnerAnswer|
            opt_outcome(r) == sync_spec(*rule, opt_bytes(local_bytes), f, a),
        rule.strategy != Strategy::Ignore && rule.strategy != Strategy::Delete ==> exists|
            raw: anyhow::Result<FetchResult>,
            f: FetchAnswer,
            a: RunnerAnswer,
        |
            #[trigger] fetcher.answers(
                manifest.upstream.repo@,
                manifest.upstream.ref_@,
                sync_fetch_path(*rule),
                raw,
            ) && #[trigger] answer_of(raw, f) && opt_outcome(r) == #[trigger] sync_spec(
                *rule,
                opt_bytes(local_bytes),
                f,
                a,
            ),
{
    if rule.strategy == Strategy::Ignore || rule.strategy == Strategy::Delete {
        let r = sync_from_answers(rule, local_bytes, Ok(FetchResult::NotFound), Err(String::new()));
        assert(opt_outcome(r) == sync_spec(
            *rule,
            opt_bytes(local_bytes),
            FetchAnswer::Missing,
            RunnerAnswer::Failed(Seq::empty()),
        ));
        return r;
    }
    let source = sync_fetch_path_of(rule);
    let fetched = fetch_file(
        fetcher,
        manifest.upstream.repo.as_str(),
        manifest.upstream.ref_.as_str(),
        source,
    );
    assert(exists|raw: anyhow::Result<FetchResult>|
        #[trigger] fetcher.answers(
            manifest.upstream.repo@,
            manifest.upstream.ref_@,
            source@,
            raw,
        ) && answer_of(raw, fetch_view(fetched)));
    let ghost raw = choose|raw: anyhow::Result<FetchResult>|
        #[trigger] fetcher.answers(
            manifest.upstream.repo@,
            manifest.upstream.ref_@,
            source@,
            raw,
        ) && answer_of(raw, fetch_view(fetched));
    if rule.strategy == Strategy::Patch {
        match &fetched {
            Ok(FetchResult::Content(upstream)) => {
                let patch_path = resolve_patch_path(rule);
                let full_patch = join_path(repo_root, patch_path.as_str());
                let keep = match rule.preserve_markers {
                    Some(b) => b,
                    None => true,
                };
                let r = crate::strategy::patch::apply(
                    upstream.as_slice(),
                    local_bytes,
                    full_patch.as_path(),
                    patch_runner,
                    keep,
                );
                let ghost a = choose|a: RunnerAnswer|
                    r@ == patch_spec(upstream@, opt_bytes(local_bytes), keep, a);
                assert(opt_outcome(Some(r)) == sync_spec(
                    *rule,
                    opt_bytes(local_bytes),
                    FetchAnswer::Found(upstream@),
                    a,
                ));
                assert(fetch_view(fetched) == FetchAnswer::Found(upstream@));
                assert(fetcher.answers(
                    manifest.upstream.repo@,
                    manifest.upstream.ref_@,
                    sync_fetch_path(*rule),
                    raw,
                ) && answer_of(raw, FetchAnswer::Found(upstream@)));
                return Some(r);
            },
            _ => {},
        }
    }
    let ghost fv = fetch_view(fetched);
    let r = sync_from_answers(rule, local_bytes, fetched, Err(String::new()));
    assert(opt_outcome(r) == sync_spec(
        *rule,
        opt_bytes(local_bytes),
        fv,
        RunnerAnswer::Failed(Seq::empty()),
    ));
    assert(fetcher.answers(
        manifest.upstream.repo@,
        manifest.upstream.ref_@,
        sync_fetch_path(*rule),
        raw,
    ) && answer_of(raw, fv));
    r
}

/// The status tag and detail shown for an outcome.
pub open spec fn status_spec(o: Outcome) -> (StatusTag, Option<Seq<char>>) {
    match o {
        Outcome::Changed(_) => (StatusTag::Changed, None),
        Outcome::Unchanged => (StatusTag::UpToDate, None),
        Outcome::Skipped(r) => (StatusTag::Skipped, Some(r)),
        Outcome::Deleted => (StatusTag::Deleted, None),
        Outcome::Conflict(m) => (StatusTag::Warn, Some("conflict detected — "@ + m)),
        Outcome::Error(m) => (StatusTag::Fail, Some(m)),
    }
}

/// The status tag and optional detail printed for a strategy outcome.
pub fn status_for_result(result: &StrategyResult) -> (r: (StatusTag, Option<String>))
    ensures
        r.0 == status_spec(result@).0,
        match r.1 {
            Some(d) => status_spec(result@).1 == Some(d@),
            None => status_spec(result@).1 is None,
        },
{
    match result {
        StrategyResult::Changed { .. } => (StatusTag::Changed, None),
        StrategyResult::Unchanged => (StatusTag::UpToDate, None),
        StrategyResult::Skipped { reason } => (
            StatusTag::Skipped,
            Some(String::from_str(reason.as_str())),
        ),
        StrategyResult::Deleted => (StatusTag::Deleted, None),
        StrategyResult::Conflict { message } => {
            let mut s = String::from_str("conflict detected — ");
            s.append(message.as_str());
            (StatusTag::Warn, Some(s))
        },
        StrategyResult::Error(msg) => (StatusTag::Fail, Some(String::from_str(msg.as_str()))),
    }
}

/// The filesystem action an outcome calls for at `local_path`: a write of
/// the new content for a change, a removal for a deletion, nothing else.
pub fn action_for_result(result: &StrategyResult, local_path: PathBuf) -> (r: Option<ApplyAction>)
    ensures
        match r {
            Some(ApplyAction::Write { local_path: p, content }) => p == local_path
                && result@ == Outcome::Changed(content@),
            Some(ApplyAction::Delete { local_path: p }) => p == local_path && result@
                == Outcome::Deleted,
            None => !(result@ is Changed) && !(result@ is Deleted),
        },
{
    match result {
        StrategyResult::Changed { content } => Some(
            ApplyAction::Write { local_path, content: bytes_to_vec(content.as_slice()) },
        ),
        StrategyResult::Deleted => Some(ApplyAction::Delete { local_path }),
        _ => None,
    }
}

/// The diff shown for a change: the context header and the unified diff
/// `body`, or nothing when the body is empty.
pub open spec fn change_diff_spec(repo: Seq<char>, ref_: Seq<char>, body: Seq<char>) -> Seq<char> {
    if body.len() == 0 {
        Seq::empty()
    } else {
        diff_header(repo, ref_) + "\n"@ + body
    }
}

/// Build the diff shown for a change from its unified diff `body`.
pub fn change_diff(manifest: &Manifest, body: &str) -> (s: String)
    ensures
        s@ == change_diff_spec(manifest.upstream.repo@, manifest.upstream.ref_@, body@),
{
    if body.unicode_len() == 0 {
        return String::new();
    }
    let mut d = crate::output::build_diff_context_header(
        manifest.upstream.repo.as_str(),
        manifest.upstream.ref_.as_str(),
    );
    d.append("\n");
    d.append(body);
    d
}

/// Whether a sync run failed: some rule conflicted or failed.
pub fn sync_failed(summary: &Summary) -> (r: bool)
    ensures
        r == (summary.conflicts > 0 || summary.errors > 0),
{
    summary.conflicts > 0 || summary.errors > 0
}

} // verus!
