//! `replace` strategy: overwrite local file with upstream content.
use vstd::prelude::*;

use super::markers::{
    blocks_view, clamp_blocks, ends_with_nl, lemma_merge_clamped, lemma_merge_strip_roundtrip,
    lemma_strip_nl, marker_error_text, merge_marker_blocks, merge_spec, select_marker_blocks,
    select_spec, split_lines, strip_marker_blocks, strip_spec, MarkerBlock, MarkerError,
};
use super::{bytes_to_vec, local_is, opt_bytes, settle, Outcome, StrategyResult};

verus! {

/// What the `replace` strategy gives: `Unchanged` when the local bytes already
/// are the upstream bytes, else `Changed` with the upstream bytes.
pub open spec fn replace_spec(upstream: Seq<u8>, local: Option<Seq<u8>>) -> Outcome {
    settle(local, upstream)
}

/// Apply the `replace` strategy.
///
/// Writes `upstream` content to the local path, unless the local file already
/// has identical content.
pub fn apply(upstream: &[u8], local: Option<&[u8]>) -> (r: StrategyResult)
    ensures
        r@ == replace_spec(upstream@, opt_bytes(local)),
{
    if local_is(local, upstream) {
        StrategyResult::Unchanged
    } else {
        StrategyResult::Changed { content: bytes_to_vec(upstream) }
    }
}

/// The message for a marker error found on one side (`upstream` or `local`).
pub open spec fn marker_failure(side: Seq<char>, e: super::markers::MarkerError) -> Seq<char> {
    "invalid marker block ("@ + side + "): "@ + marker_error_text(e)
}

/// Build the message for a marker error found on one side.
pub fn marker_failure_message(side: &str, e: super::markers::MarkerError) -> (s: String)
    ensures
        s@ == marker_failure(side@, e),
{
    let mut s = String::from_str("invalid marker block (");
    s.append(side);
    s.append("): ");
    let m = e.message();
    s.append(m.as_str());
    s
}

/// The marker blocks of the local side: none when there is no local file,
/// an error when the local file's markers are broken.
pub open spec fn local_blocks_spec(local: Option<Seq<u8>>) -> Result<
    Seq<(int, Seq<u8>)>,
    super::markers::MarkerError,
> {
    match local {
        None => Ok(Seq::empty()),
        Some(l) => match strip_spec(l) {
            Ok(p) => Ok(p.1),
            Err(e) => Err(e),
        },
    }
}

/// What the `replace` strategy with marker preservation gives: the upstream
/// bytes without their blocks, with the local blocks put back (the upstream
/// blocks when the local side has none), compared with the local bytes.
pub open spec fn replace_markers_spec(upstream: Seq<u8>, local: Option<Seq<u8>>) -> Outcome {
    match strip_spec(upstream) {
        Err(e) => Outcome::Error(marker_failure("upstream"@, e)),
        Ok(up) => match local_blocks_spec(local) {
            Err(e) => Outcome::Error(marker_failure("local"@, e)),
            Ok(lb) => settle(local, merge_spec(up.0, select_spec(up.1, lb))),
        },
    }
}

/// Strip the local side, when there is one, for its blocks.
pub fn local_blocks(local: Option<&[u8]>) -> (r: Result<Vec<MarkerBlock>, super::markers::MarkerError>)
    ensures
        match r {
            Ok(bs) => local_blocks_spec(opt_bytes(local)) == Ok::<_, super::markers::MarkerError>(
                blocks_view(bs@),
            ),
            Err(e) => local_blocks_spec(opt_bytes(local)) == Err::<Seq<(int, Seq<u8>)>, _>(e),
        },
{
    match local {
        Some(b) => match strip_marker_blocks(b) {
            Ok((_, blocks)) => Ok(blocks),
            Err(e) => Err(e),
        },
        None => {
            let v: Vec<MarkerBlock> = Vec::new();
            assert(blocks_view(v@) =~= Seq::<(int, Seq<u8>)>::empty());
            Ok(v)
        },
    }
}

/// Apply the `replace` strategy with marker-block preservation.
///
/// Strips marker blocks from both sides, replaces non-marker content with
/// upstream, then re-inserts marker blocks into the result. When `local`
/// already contains marker blocks those are used; otherwise the upstream
/// marker blocks are propagated.
pub fn apply_with_markers(upstream: &[u8], local: Option<&[u8]>) -> (r: StrategyResult)
    ensures
        r@ == replace_markers_spec(upstream@, opt_bytes(local)),
{
    let (upstream_stripped, upstream_blocks) = match strip_marker_blocks(upstream) {
        Ok(pair) => pair,
        Err(e) => {
            return StrategyResult::Error(marker_failure_message("upstream", e));
        },
    };
    let local_blocks = match local_blocks(local) {
        Ok(b) => b,
        Err(e) => {
            return StrategyResult::Error(marker_failure_message("local", e));
        },
    };
    let ghost ub = blocks_view(upstream_blocks@);
    let ghost lb = blocks_view(local_blocks@);
    let blocks = select_marker_blocks(upstream_blocks, local_blocks);
    assert(blocks_view(blocks@) == select_spec(ub, lb));
    let merged = merge_marker_blocks(upstream_stripped.as_slice(), blocks.as_slice());
    if local_is(local, merged.as_slice()) {
        StrategyResult::Unchanged
    } else {
        StrategyResult::Changed { content: merged }
    }
}


/// Replacing is settled after one run: once `replace` has written its
/// content, replacing again from the same upstream leaves the file as it is.
pub proof fn lemma_replace_settles(upstream: Seq<u8>, local: Option<Seq<u8>>)
    ensures
        replace_spec(upstream, local) matches Outcome::Changed(c) ==> replace_spec(
            upstream,
            Some(c),
        ) == Outcome::Unchanged,
        replace_spec(upstream, Some(upstream)) == Outcome::Unchanged,
{
}


/// Replacing with marker preservation is settled after one run: when the
/// upstream text and the local text, if any, are empty or end with `\n`, and
/// the run writes new content, running it again with that content as the
/// local file leaves the file as it is.
pub proof fn lemma_replace_markers_settles(upstream: Seq<u8>, local: Option<Seq<u8>>)
    requires
        ends_with_nl(upstream),
        local matches Some(l) ==> ends_with_nl(l),
    ensures
        replace_markers_spec(upstream, local) matches Outcome::Changed(c) ==> replace_markers_spec(
            upstream,
            Some(c),
        ) == Outcome::Unchanged,
{
    if strip_spec(upstream) is Ok {
        let up = strip_spec(upstream)->Ok_0;
        lemma_strip_nl(upstream);
        if local_blocks_spec(local) is Ok {
            let lb = local_blocks_spec(local)->Ok_0;
            match local {
                Some(l) => lemma_strip_nl(l),
                None => {},
            }
            let bs = select_spec(up.1, lb);
            let c = merge_spec(up.0, bs);
            let n = split_lines(up.0).len() as int;
            lemma_merge_strip_roundtrip(up.0, bs);
            lemma_merge_clamped(up.0, bs);
            assert(local_blocks_spec(Some(c)) == Ok::<_, MarkerError>(clamp_blocks(bs, n)));
            if bs.len() == 0 {
                assert(clamp_blocks(bs, n) =~= Seq::<(int, Seq<u8>)>::empty());
                assert(select_spec(up.1, clamp_blocks(bs, n)) =~= bs);
            } else {
                assert(clamp_blocks(bs, n).len() > 0);
            }
        }
    }
}

} // verus!
