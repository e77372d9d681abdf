//! `--patch-refresh` mode: what goes into a regenerated patch, and how each
//! rule is reported.
use vstd::prelude::*;

use crate::manifest::Rule;
use crate::output::StatusTag;
use crate::strategy::markers::{strip_marker_blocks, strip_spec, MarkerError};
use crate::strategy::replace::{marker_failure, marker_failure_message};
use crate::upstream::{fetch_view, FetchAnswer, FetchResult};

verus! {

/// The bytes left when the marker blocks are stripped, or the message of
/// the marker error found on `side`.
pub open spec fn strip_markers_spec(bytes: Seq<u8>, side: Seq<char>) -> Result<Seq<u8>, Seq<char>> {
    match strip_spec(bytes) {
        Ok(p) => Ok(p.0),
        Err(e) => Err(marker_failure(side, e)),
    }
}

/// A byte result taken by value.
pub open spec fn bytes_result(r: Result<Vec<u8>, String>) -> Result<Seq<u8>, Seq<char>> {
    match r {
        Ok(b) => Ok(b@),
        Err(m) => Err(m@),
    }
}

/// Strip marker blocks from `bytes`, discarding the extracted blocks.
///
/// `side` (`"upstream"` or `"local"`) is included in the error message so the
/// caller can tell which input failed validation.
pub fn strip_markers(bytes: &[u8], side: &str) -> (r: Result<Vec<u8>, String>)
    ensures
        bytes_result(r) == strip_markers_spec(bytes@, side@),
{
    match strip_marker_blocks(bytes) {
        Ok((s, _)) => Ok(s),
        Err(e) => Err(marker_failure_message(side, e)),
    }
}

/// The two sides to diff for a patch rule (upstream first, then local), or
/// the detail of the failure.  Marker blocks are stripped from both sides
/// unless the rule turns marker preservation off explicitly.
pub open spec fn refresh_spec(rule: Rule, local: Seq<u8>, fetched: FetchAnswer) -> Result<
    (Seq<u8>, Seq<u8>),
    Seq<char>,
> {
    match fetched {
        FetchAnswer::Failed(m) => Err("fetch error: "@ + m),
        FetchAnswer::Missing => Err("upstream path not found: "@ + rule.path@),
        FetchAnswer::Found(up) => if rule.preserve_markers == Some(false) {
            Ok((up, local))
        } else {
            match strip_markers_spec(up, "upstream"@) {
                Err(m) => Err(m),
                Ok(su) => match strip_markers_spec(local, "local"@) {
                    Err(m) => Err(m),
                    Ok(sl) => Ok((su, sl)),
                },
            }
        },
    }
}

/// A pair of byte vectors or a message, taken by value.
pub open spec fn pair_result(r: Result<(Vec<u8>, Vec<u8>), String>) -> Result<
    (Seq<u8>, Seq<u8>),
    Seq<char>,
> {
    match r {
        Ok((a, b)) => Ok((a@, b@)),
        Err(m) => Err(m@),
    }
}

/// The two sides to diff for a patch rule from what the fetch answered and
/// the local bytes (empty when the file is absent).
pub fn refresh_inputs(rule: &Rule, local: Vec<u8>, fetched: Result<FetchResult, String>) -> (r:
    Result<(Vec<u8>, Vec<u8>), String>)
    ensures
        pair_result(r) == refresh_spec(*rule, local@, fetch_view(fetched)),
{
    let upstream = match fetched {
        Err(m) => {
            let mut s = String::from_str("fetch error: ");
            s.append(m.as_str());
            return Err(s);
        },
        Ok(FetchResult::NotFound) => {
            let mut s = String::from_str("upstream path not found: ");
            s.append(rule.path.as_str());
            return Err(s);
        },
        Ok(FetchResult::Content(bytes)) => bytes,
    };
    if rule.preserve_markers == Some(false) {
        return Ok((upstream, local));
    }
    let up = match strip_markers(upstream.as_slice(), "upstream") {
        Ok(s) => s,
        Err(m) => return Err(m),
    };
    let lo = match strip_markers(local.as_slice(), "local") {
        Ok(s) => s,
        Err(m) => return Err(m),
    };
    Ok((up, lo))
}

/// The detail shown after a patch file was written.
pub open spec fn written_detail_spec(patch_path: Seq<char>, diff_empty: bool) -> Seq<char> {
    if diff_empty {
        "wrote "@ + patch_path + " (empty: local matches upstream)"@
    } else {
        "wrote "@ + patch_path
    }
}

/// Build the detail shown after the patch file at `patch_path` was written
/// with `diff`.
pub fn written_detail(patch_path: &str, diff: &str) -> (s: String)
    ensures
        s@ == written_detail_spec(patch_path@, diff@.len() == 0),
{
    let mut s = String::from_str("wrote ");
    s.append(patch_path);
    if diff.unicode_len() == 0 {
        s.append(" (empty: local matches upstream)");
    }
    s
}


/// The status reported once the patch file is settled: `OK` with "no
/// changes" when it already held the diff, else `CHANGED` with what was
/// written.
pub fn written_status(unchanged: bool, patch_path: &str, diff: &str) -> (r: (StatusTag, String))
    ensures
        r.0 == (if unchanged {
            StatusTag::UpToDate
        } else {
            StatusTag::Changed
        }),
        r.1@ == (if unchanged {
            "no changes"@
        } else {
            written_detail_spec(patch_path@, diff@.len() == 0)
        }),
{
    if unchanged {
        (StatusTag::UpToDate, String::from_str("no changes"))
    } else {
        (StatusTag::Changed, written_detail(patch_path, diff))
    }
}

} // verus!
