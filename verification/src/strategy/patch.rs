//! `patch` strategy: apply a unified diff on top of upstream content.
use std::path::Path;

use vstd::prelude::*;

use super::markers::{
    blocks_view, merge_marker_blocks, merge_spec, select_marker_blocks, select_spec,
    strip_marker_blocks, strip_spec, MarkerBlock, MarkerError,
};
use super::replace::{local_blocks, local_blocks_spec, marker_failure, marker_failure_message};
use super::{bytes_to_vec, local_is, opt_bytes, settle, Outcome, StrategyResult};

verus! {

/// Output of running the `patch` binary against upstream content.
#[derive(Debug)]
pub enum PatchOutput {
    /// Patch applied cleanly; the resulting bytes are returned.
    Patched(Vec<u8>),
    /// One or more hunks failed to apply — the file was NOT modified.
    Conflict(String),
}

/// Abstracts the `patch` CLI call so the strategy logic can be tested without
/// spawning an actual subprocess.
pub trait PatchRunner {
    /// Apply `patch_file` to `upstream` bytes and return the outcome; fails when
    /// the `patch` binary cannot be spawned or exits with an unexpected code.
    fn apply_patch(&self, upstream: &[u8], patch_file: &Path) -> anyhow::Result<PatchOutput>;
}

/// What the patch runner answered, taken by value.
pub enum RunnerAnswer {
    /// The patched bytes.
    Patched(Seq<u8>),
    /// A conflict with its message.
    Conflict(Seq<char>),
    /// A failure with its message.
    Failed(Seq<char>),
}

/// The runner's answer taken by value, its failure given as a message.
pub open spec fn answer_view(a: Result<PatchOutput, String>) -> RunnerAnswer {
    match a {
        Ok(PatchOutput::Patched(p)) => RunnerAnswer::Patched(p@),
        Ok(PatchOutput::Conflict(m)) => RunnerAnswer::Conflict(m@),
        Err(m) => RunnerAnswer::Failed(m@),
    }
}

/// What the `patch` strategy gives for a runner answer.  With marker
/// preservation the upstream blocks are stripped first (the runner is handed
/// the stripped bytes), and the patched bytes get the local blocks back (the
/// upstream ones when the local side has none).  A conflict or a failure of
/// the runner is passed on; the result is compared with the local bytes.
pub open spec fn patch_spec(
    upstream: Seq<u8>,
    local: Option<Seq<u8>>,
    preserve_markers: bool,
    answer: RunnerAnswer,
) -> Outcome {
    if preserve_markers {
        match strip_spec(upstream) {
            Err(e) => Outcome::Error(marker_failure("upstream"@, e)),
            Ok(up) => match answer {
                RunnerAnswer::Conflict(m) => Outcome::Conflict(m),
                RunnerAnswer::Failed(m) => Outcome::Error(m),
                RunnerAnswer::Patched(p) => match local_blocks_spec(local) {
                    Err(e) => Outcome::Error(marker_failure("local"@, e)),
                    Ok(lb) => settle(local, merge_spec(p, select_spec(up.1, lb))),
                },
            },
        }
    } else {
        match answer {
            RunnerAnswer::Conflict(m) => Outcome::Conflict(m),
            RunnerAnswer::Failed(m) => Outcome::Error(m),
            RunnerAnswer::Patched(p) => settle(local, p),
        }
    }
}

/// Finish the `patch` strategy from what the runner answered.
pub fn finish_patch(
    upstream: &[u8],
    local: Option<&[u8]>,
    preserve_markers: bool,
    answer: Result<PatchOutput, String>,
) -> (r: StrategyResult)
    ensures
        r@ == patch_spec(upstream@, opt_bytes(local), preserve_markers, answer_view(answer)),
{
    let ghost av = answer_view(answer);
    if preserve_markers {
        let upstream_blocks = match strip_marker_blocks(upstream) {
            Ok((_, b)) => b,
            Err(e) => {
                return StrategyResult::Error(marker_failure_message("upstream", e));
            },
        };
        let patched = match answer {
            Ok(PatchOutput::Patched(p)) => p,
            Ok(PatchOutput::Conflict(message)) => return StrategyResult::Conflict { message },
            Err(e) => return StrategyResult::Error(e),
        };
        let local_blocks = match local_blocks(local) {
            Ok(b) => b,
            Err(e) => {
                return StrategyResult::Error(marker_failure_message("local", e));
            },
        };
        let ghost ub = blocks_view(upstream_blocks@);
        let ghost lb = blocks_view(local_blocks@);
        let marker_blocks = select_marker_blocks(upstream_blocks, local_blocks);
        assert(blocks_view(marker_blocks@) == select_spec(ub, lb));
        let final_content = merge_marker_blocks(patched.as_slice(), marker_blocks.as_slice());
        if local_is(local, final_content.as_slice()) {
            StrategyResult::Unchanged
        } else {
            StrategyResult::Changed { content: final_content }
        }
    } else {
        let patched = match answer {
            Ok(PatchOutput::Patched(p)) => p,
            Ok(PatchOutput::Conflict(message)) => return StrategyResult::Conflict { message },
            Err(e) => return StrategyResult::Error(e),
        };
        if local_is(local, patched.as_slice()) {
            StrategyResult::Unchanged
        } else {
            StrategyResult::Changed { content: patched }
        }
    }
}

/// The bytes handed to the patch runner: the upstream bytes without their
/// marker blocks when markers are preserved, the upstream bytes as they are
/// otherwise; the marker error when the upstream blocks are broken.
pub open spec fn patch_input_spec(upstream: Seq<u8>, preserve_markers: bool) -> Result<
    Seq<u8>,
    MarkerError,
> {
    if preserve_markers {
        match strip_spec(upstream) {
            Ok(p) => Ok(p.0),
            Err(e) => Err(e),
        }
    } else {
        Ok(upstream)
    }
}

/// Build the bytes handed to the patch runner (see [`patch_input_spec`]).
pub fn patch_input(upstream: &[u8], preserve_markers: bool) -> (r: Result<Vec<u8>, MarkerError>)
    ensures
        match r {
            Ok(v) => patch_input_spec(upstream@, preserve_markers) == Ok::<Seq<u8>, MarkerError>(
                v@,
            ),
            Err(e) => patch_input_spec(upstream@, preserve_markers) == Err::<Seq<u8>, MarkerError>(
                e,
            ),
        },
{
    if preserve_markers {
        match strip_marker_blocks(upstream) {
            Ok((stripped, _)) => Ok(stripped),
            Err(e) => Err(e),
        }
    } else {
        Ok(bytes_to_vec(upstream))
    }
}

/// Apply the `patch` strategy.
///
/// Applies `patch_file` to `upstream` content through `runner`, then compares
/// the result with `local` to determine whether a write is needed.  When
/// `preserve_markers` is `true`, marker blocks are stripped from `upstream`
/// before the patch is applied and re-inserted afterwards (see
/// [`finish_patch`]).  Whatever the runner answers, the result is what
/// [`patch_spec`] gives for that answer.
pub fn apply(
    upstream: &[u8],
    local: Option<&[u8]>,
    patch_file: &Path,
    runner: &dyn PatchRunner,
    preserve_markers: bool,
) -> (r: StrategyResult)
    ensures
        exists|a: RunnerAnswer| r@ == patch_spec(upstream@, opt_bytes(local), preserve_markers, a),
{
    let input = match patch_input(upstream, preserve_markers) {
        Ok(bytes) => bytes,
        Err(e) => {
            let r = StrategyResult::Error(marker_failure_message("upstream", e));
            assert(r@ == patch_spec(
                upstream@,
                opt_bytes(local),
                preserve_markers,
                RunnerAnswer::Failed(Seq::empty()),
            ));
            return r;
        },
    };
    let answer = match runner.apply_patch(input.as_slice(), patch_file) {
        Ok(out) => Ok(out),
        Err(e) => Err(e.to_string()),
    };
    let r = finish_patch(upstream, local, preserve_markers, answer);
    assert(r@ == patch_spec(upstream@, opt_bytes(local), preserve_markers, answer_view(answer)));
    r
}

} // verus!
