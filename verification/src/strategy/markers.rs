//! Marker-block stripping and restoration for `preserve_markers` mode.
//!
//! Lines containing `graft:keep-start` / `graft:keep-end` tokens delimit
//! protected blocks. The comment character (`#`, `//`, etc.) is irrelevant;
//! only the presence of the token in the line is checked.
//!
//! Legacy tokens `gh-sync:keep-start` / `gh-sync:keep-end` are also accepted.
use vstd::prelude::*;
use vstd::seq_lib::lemma_flatten_concat;
use vstd::string::StringSliceAdditionalSpecFns;

verus! {

/// Token that opens a preserved block (primary).
pub const MARKER_START: &'static str = "graft:keep-start";

/// Token that closes a preserved block (primary).
pub const MARKER_END: &'static str = "graft:keep-end";

/// Legacy token that opens a preserved block.
pub const LEGACY_MARKER_START: &'static str = "gh-sync:keep-start";

/// Legacy token that closes a preserved block.
pub const LEGACY_MARKER_END: &'static str = "gh-sync:keep-end";

// ---------------------------------------------------------------------------
// Lines
// ---------------------------------------------------------------------------

/// Index just past the end of the line that starts at `i`: one past the first
/// `\n` at or after `i`, or the length of `s` when there is none.
pub open spec fn line_end(s: Seq<u8>, i: int) -> int
    decreases s.len() - i,
{
    if i >= s.len() {
        s.len() as int
    } else if s[i] == 10u8 {
        i + 1
    } else {
        line_end(s, i + 1)
    }
}

/// `s` split after every `\n`; the last line has no `\n` when `s` does not end
/// with one.  The empty sequence has no lines.
pub open spec fn split_lines(s: Seq<u8>) -> Seq<Seq<u8>>
    decreases s.len(),
{
    if s.len() == 0 {
        Seq::empty()
    } else {
        let k = line_end(s, 0);
        proof {
            lemma_line_end(s, 0);
        }
        seq![s.take(k)] + split_lines(s.skip(k))
    }
}

/// A single line: non-empty, with `\n` at most as its last byte.
pub open spec fn line_ok(l: Seq<u8>) -> bool {
    &&& l.len() > 0
    &&& forall|j: int| 0 <= j < l.len() - 1 ==> l[j] != 10u8
}

/// The line ends with `\n`.
pub open spec fn ends_nl(l: Seq<u8>) -> bool {
    l.len() > 0 && l[l.len() - 1] == 10u8
}

/// A list of lines such as `split_lines` produces: every line is well formed and
/// every line but the last ends with `\n`.
pub open spec fn lines_ok(ls: Seq<Seq<u8>>) -> bool {
    &&& forall|k: int| 0 <= k < ls.len() ==> #[trigger] line_ok(ls[k])
    &&& forall|k: int| 0 <= k < ls.len() - 1 ==> #[trigger] ends_nl(ls[k])
}

/// The line that starts at `i` is not empty, ends within the bytes, holds
/// no `\n` before its last byte, and ends with `\n` unless it is the last.
pub proof fn lemma_line_end(s: Seq<u8>, i: int)
    requires
        0 <= i < s.len(),
    ensures
        i < line_end(s, i) <= s.len(),
        forall|j: int| i <= j < line_end(s, i) - 1 ==> s[j] != 10u8,
        s[line_end(s, i) - 1] == 10u8 || line_end(s, i) == s.len(),
    decreases s.len() - i,
{
    if s[i] != 10u8 {
        if i + 1 < s.len() {
            lemma_line_end(s, i + 1);
        } else {
            assert(line_end(s, i + 1) == s.len());
        }
        assert(line_end(s, i) == line_end(s, i + 1));
    }
}

/// `line_end` finds the first `\n` at or after `i`.
pub proof fn lemma_line_end_at(s: Seq<u8>, i: int, m: int)
    requires
        0 <= i <= m <= s.len(),
        forall|j: int| i <= j < m ==> s[j] != 10u8,
    ensures
        m < s.len() && s[m] == 10u8 ==> line_end(s, i) == m + 1,
        m == s.len() ==> line_end(s, i) == s.len(),
    decreases m - i,
{
    if i < m {
        lemma_line_end_at(s, i + 1, m);
    }
}

/// The lines of `s` concatenate back to `s`, and they are well formed.
pub proof fn lemma_split_lines(s: Seq<u8>)
    ensures
        split_lines(s).flatten() == s,
        lines_ok(split_lines(s)),
    decreases s.len(),
{
    if s.len() > 0 {
        let k = line_end(s, 0);
        lemma_line_end(s, 0);
        let rest = s.skip(k);
        lemma_split_lines(rest);
        let ls = split_lines(s);
        assert(ls == seq![s.take(k)] + split_lines(rest));
        assert(ls.drop_first() == split_lines(rest));
        assert(ls.flatten() == s.take(k) + split_lines(rest).flatten());
        assert(s.take(k) + rest == s);
        assert(line_ok(s.take(k)));
        assert forall|q: int| 0 <= q < ls.len() implies #[trigger] line_ok(ls[q]) by {
            if q > 0 {
                assert(ls[q] == split_lines(rest)[q - 1]);
            }
        }
        assert forall|q: int| 0 <= q < ls.len() - 1 implies #[trigger] ends_nl(ls[q]) by {
            if q > 0 {
                assert(ls[q] == split_lines(rest)[q - 1]);
            } else {
                assert(rest.len() > 0);
                assert(s.take(k)[k - 1] == s[k - 1]);
            }
        }
    }
}

/// Splitting well-formed lines after concatenating them gives them back.
pub proof fn lemma_split_flatten(ls: Seq<Seq<u8>>)
    requires
        lines_ok(ls),
    ensures
        split_lines(ls.flatten()) == ls,
    decreases ls.len(),
{
    if ls.len() > 0 {
        let s = ls.flatten();
        let first = ls[0];
        let rest = ls.drop_first();
        assert(line_ok(first));
        assert(s == first + rest.flatten());
        assert(lines_ok(rest)) by {
            assert forall|q: int| 0 <= q < rest.len() implies #[trigger] line_ok(rest[q]) by {
                assert(line_ok(ls[q + 1]));
            }
            assert forall|q: int| 0 <= q < rest.len() - 1 implies #[trigger] ends_nl(rest[q]) by {
                assert(ends_nl(ls[q + 1]));
            }
        }
        lemma_split_flatten(rest);
        let n0 = first.len() as int;
        if ends_nl(first) {
            lemma_line_end_at(s, 0, n0 - 1);
        } else {
            assert(ls.len() == 1) by {
                if ls.len() > 1 {
                    assert(ends_nl(ls[0]));
                }
            }
            assert(rest.flatten() == Seq::<u8>::empty());
            assert(s == first);
            lemma_line_end_at(s, 0, n0);
        }
        assert(line_end(s, 0) == n0);
        assert(s.take(n0) == first);
        assert(s.skip(n0) == rest.flatten());
        assert(split_lines(s) == seq![first] + split_lines(rest.flatten()));
        assert(ls == seq![first] + rest);
    }
}

/// The lines of `v`, each taken by its view.
pub open spec fn lines_view(v: Seq<Vec<u8>>) -> Seq<Seq<u8>> {
    v.map_values(|l: Vec<u8>| l@)
}

/// Append the bytes of `src` to `dst`.
fn append_bytes(dst: &mut Vec<u8>, src: &[u8])
    ensures
        final(dst)@ == old(dst)@ + src@,
{
    let ghost start = dst@;
    let mut i: usize = 0;
    while i < src.len()
        invariant
            i <= src.len(),
            dst@ == start + src@.take(i as int),
        decreases src.len() - i,
    {
        dst.push(src[i]);
        i = i + 1;
        assert(src@.take(i as int) == src@.take(i - 1) + seq![src@[i - 1]]);
    }
    assert(src@.take(i as int) == src@);
}

/// Split `bytes` into lines, each keeping its trailing `\n`.
fn split_lines_exec(bytes: &[u8]) -> (lines: Vec<Vec<u8>>)
    ensures
        lines_view(lines@) == split_lines(bytes@),
{
    let ghost s = bytes@;
    let mut lines: Vec<Vec<u8>> = Vec::new();
    let mut cur: Vec<u8> = Vec::new();
    let mut start: usize = 0;
    let mut i: usize = 0;
    proof {
        assert(s.skip(0) == s);
        assert(lines_view(lines@) =~= Seq::<Seq<u8>>::empty());
        assert(lines_view(lines@) + split_lines(s.skip(0)) =~= split_lines(s));
    }
    while i < bytes.len()
        invariant
            start <= i <= bytes.len(),
            s == bytes@,
            cur@ == s.subrange(start as int, i as int),
            forall|j: int| start <= j < i ==> s[j] != 10u8,
            lines_view(lines@) + split_lines(s.skip(start as int)) == split_lines(s),
        decreases bytes.len() - i,
    {
        let b = bytes[i];
        cur.push(b);
        assert(cur@ =~= s.subrange(start as int, i + 1));
        if b == 10u8 {
            proof {
                let t = s.skip(start as int);
                assert forall|j: int| 0 <= j < i - start implies t[j] != 10u8 by {
                    assert(t[j] == s[start + j]);
                }
                lemma_line_end_at(t, 0, i - start);
                let k = i - start + 1;
                assert(line_end(t, 0) == k);
                assert(t.take(k) == s.subrange(start as int, i + 1));
                assert(t.skip(k) == s.skip(i + 1));
                assert(split_lines(t) == seq![t.take(k)] + split_lines(t.skip(k)));
            }
            let ghost old_lines = lines@;
            lines.push(cur);
            proof {
                assert(lines_view(lines@) =~= lines_view(old_lines).push(
                    s.subrange(start as int, i + 1),
                ));
            }
            cur = Vec::new();
            start = i + 1;
        }
        i = i + 1;
    }
    if start < bytes.len() {
        proof {
            let t = s.skip(start as int);
            assert forall|j: int| 0 <= j < t.len() implies t[j] != 10u8 by {
                assert(t[j] == s[start + j]);
            }
            lemma_line_end_at(t, 0, t.len() as int);
            assert(t.take(t.len() as int) == t);
            assert(t.skip(t.len() as int) == Seq::<u8>::empty());
            assert(split_lines(t) == seq![t] + split_lines(Seq::<u8>::empty()));
            assert(t == s.subrange(start as int, i as int));
        }
        let ghost old_lines = lines@;
        lines.push(cur);
        proof {
            assert(lines_view(lines@) =~= lines_view(old_lines).push(
                s.subrange(start as int, i as int),
            ));
        }
    } else {
        proof {
            assert(s.skip(start as int) == Seq::<u8>::empty());
        }
    }
    lines
}

// ---------------------------------------------------------------------------
// Marker tokens
// ---------------------------------------------------------------------------

/// `tok` occurs in `line` at offset `i`.
pub open spec fn occurs_at(line: Seq<u8>, tok: Seq<u8>, i: int) -> bool {
    0 <= i && i + tok.len() <= line.len() && line.subrange(i, i + tok.len()) == tok
}

/// `tok` occurs somewhere in `line`.
pub open spec fn occurs_in(line: Seq<u8>, tok: Seq<u8>) -> bool {
    exists|i: int| occurs_at(line, tok, i)
}

/// The line opens a preserved block.
pub open spec fn is_start_line(line: Seq<u8>) -> bool {
    occurs_in(line, MARKER_START.spec_bytes()) || occurs_in(line, LEGACY_MARKER_START.spec_bytes())
}

/// The line closes a preserved block.
pub open spec fn is_end_line(line: Seq<u8>) -> bool {
    occurs_in(line, MARKER_END.spec_bytes()) || occurs_in(line, LEGACY_MARKER_END.spec_bytes())
}

fn line_contains(line: &[u8], token: &str) -> (r: bool)
    ensures
        r == occurs_in(line@, token.spec_bytes()),
{
    let tok = token.as_bytes();
    let n = line.len();
    let m = tok.len();
    if m > n {
        proof {
            assert forall|i: int| !occurs_at(line@, tok@, i) by {}
        }
        return false;
    }
    if m == 0 {
        assert(line@.subrange(0, 0) =~= tok@);
        assert(occurs_at(line@, tok@, 0));
        return true;
    }
    let mut i: usize = 0;
    while i <= n - m
        invariant
            1 <= m <= n,
            n == line@.len(),
            m == tok@.len(),
            tok@ == token.spec_bytes(),
            forall|k: int| 0 <= k < i ==> !occurs_at(line@, tok@, k),
        decreases n - m + 1 - i,
    {
        let mut j: usize = 0;
        let mut same = true;
        assert(line@.subrange(i as int, i as int) =~= tok@.take(0));
        while j < m
            invariant
                i + m <= n,
                n == line@.len(),
                m == tok@.len(),
                j <= m,
                same == (line@.subrange(i as int, i + j) == tok@.take(j as int)),
            decreases m - j,
        {
            let eq = line[i + j] == tok[j];
            proof {
                assert(line@.subrange(i as int, i + j + 1) == line@.subrange(i as int, i + j).push(
                    line@[i + j],
                ));
                assert(tok@.take(j + 1) == tok@.take(j as int).push(tok@[j as int]));
                if line@.subrange(i as int, i + j + 1) == tok@.take(j + 1) {
                    assert(line@.subrange(i as int, i + j + 1)[j as int] == tok@.take(j + 1)[j as int]);
                    assert(line@.subrange(i as int, i + j) =~= tok@.take(j as int));
                }
            }
            same = same && eq;
            j = j + 1;
        }
        assert(tok@.take(m as int) == tok@);
        if same {
            assert(occurs_at(line@, tok@, i as int));
            return true;
        }
        i = i + 1;
    }
    proof {
        assert forall|k: int| !occurs_at(line@, tok@, k) by {
            if occurs_at(line@, tok@, k) {
                assert(0 <= k <= n - m);
            }
        }
    }
    false
}

fn is_marker_start(line: &[u8]) -> (r: bool)
    ensures
        r == is_start_line(line@),
{
    line_contains(line, MARKER_START) || line_contains(line, LEGACY_MARKER_START)
}

fn is_marker_end(line: &[u8]) -> (r: bool)
    ensures
        r == is_end_line(line@),
{
    line_contains(line, MARKER_END) || line_contains(line, LEGACY_MARKER_END)
}

// ---------------------------------------------------------------------------
// Blocks and errors
// ---------------------------------------------------------------------------

/// A protected block extracted by [`strip_marker_blocks`].
#[derive(Debug, Clone, PartialEq, Eq)]
pub struct MarkerBlock {
    /// Number of non-marker lines in the stripped output that precede this block.
    pub position: usize,
    /// Raw bytes of the block, including the marker comment lines and their content.
    pub content: Vec<u8>,
}

/// Errors produced by marker parsing.
#[derive(Debug, Clone, Copy, PartialEq, Eq)]
pub enum MarkerError {
    /// A `keep-start` without a closing `keep-end`, or a `keep-end` without a preceding `keep-start`.
    Unbalanced,
    /// A `keep-start` encountered inside an already-open block.
    Nested,
}

impl MarkerError {
    /// Human-readable description of the error.
    pub fn message(&self) -> (s: String)
        ensures
            s@ == marker_error_text(*self),
    {
        match self {
            MarkerError::Unbalanced => String::from_str(
                "unbalanced graft marker (keep-start / keep-end mismatch)",
            ),
            MarkerError::Nested => String::from_str("nested graft markers are not allowed"),
        }
    }
}

/// The text of a marker error.
pub open spec fn marker_error_text(e: MarkerError) -> Seq<char> {
    match e {
        MarkerError::Unbalanced => "unbalanced graft marker (keep-start / keep-end mismatch)"@,
        MarkerError::Nested => "nested graft markers are not allowed"@,
    }
}

/// A block taken by value: its position and its bytes.
pub open spec fn block_view(b: MarkerBlock) -> (int, Seq<u8>) {
    (b.position as int, b.content@)
}

/// Blocks taken by value.
pub open spec fn blocks_view(bs: Seq<MarkerBlock>) -> Seq<(int, Seq<u8>)> {
    bs.map_values(|b: MarkerBlock| block_view(b))
}

// ---------------------------------------------------------------------------
// Stripping, as a state machine over lines
// ---------------------------------------------------------------------------

/// State of the stripping scan after some lines.
pub struct StripState {
    /// Inside an open block.
    pub in_block: bool,
    /// Output line count when the open block started.
    pub block_pos: int,
    /// Bytes of the open block so far.
    pub block: Seq<u8>,
    /// Lines kept in the output.
    pub out: Seq<Seq<u8>>,
    /// Closed blocks.
    pub blocks: Seq<(int, Seq<u8>)>,
}

pub open spec fn strip_init() -> StripState {
    StripState {
        in_block: false,
        block_pos: 0,
        block: Seq::empty(),
        out: Seq::empty(),
        blocks: Seq::empty(),
    }
}

/// One line of the scan: a start marker opens a block (none may be open), an
/// end marker closes the open block (one must be open), any other line joins
/// the open block or else the output.  A line holding both tokens is a start.
pub open spec fn strip_step(st: StripState, line: Seq<u8>) -> Result<StripState, MarkerError> {
    if is_start_line(line) {
        if st.in_block {
            Err(MarkerError::Nested)
        } else {
            Ok(
                StripState {
                    in_block: true,
                    block_pos: st.out.len() as int,
                    block: line,
                    out: st.out,
                    blocks: st.blocks,
                },
            )
        }
    } else if is_end_line(line) {
        if !st.in_block {
            Err(MarkerError::Unbalanced)
        } else {
            Ok(
                StripState {
                    in_block: false,
                    block_pos: st.block_pos,
                    block: Seq::empty(),
                    out: st.out,
                    blocks: st.blocks.push((st.block_pos, st.block + line)),
                },
            )
        }
    } else if st.in_block {
        Ok(
            StripState {
                in_block: true,
                block_pos: st.block_pos,
                block: st.block + line,
                out: st.out,
                blocks: st.blocks,
            },
        )
    } else {
        Ok(
            StripState {
                in_block: false,
                block_pos: st.block_pos,
                block: st.block,
                out: st.out.push(line),
                blocks: st.blocks,
            },
        )
    }
}

/// The scan after the first `n` lines; the first error stops it.
pub open spec fn strip_run(lines: Seq<Seq<u8>>, n: nat) -> Result<StripState, MarkerError>
    decreases n,
{
    if n == 0 {
        Ok(strip_init())
    } else {
        match strip_run(lines, (n - 1) as nat) {
            Ok(st) => strip_step(st, lines[n - 1]),
            Err(e) => Err(e),
        }
    }
}

/// What stripping `bytes` gives: the kept lines concatenated and the blocks,
/// or the first error; a block left open at the end is unbalanced.
pub open spec fn strip_spec(bytes: Seq<u8>) -> Result<(Seq<u8>, Seq<(int, Seq<u8>)>), MarkerError> {
    let lines = split_lines(bytes);
    match strip_run(lines, lines.len()) {
        Err(e) => Err(e),
        Ok(st) => if st.in_block {
            Err(MarkerError::Unbalanced)
        } else {
            Ok((st.out.flatten(), st.blocks))
        },
    }
}

proof fn lemma_strip_run_err(lines: Seq<Seq<u8>>, k: nat, n: nat)
    requires
        k <= n,
        strip_run(lines, k) is Err,
    ensures
        strip_run(lines, n) == strip_run(lines, k),
    decreases n - k,
{
    if k < n {
        lemma_strip_run_err(lines, k, (n - 1) as nat);
    }
}

/// Remove marker blocks from `bytes`.
///
/// Returns `(stripped, blocks)` where `stripped` is the content with all
/// marker lines and their enclosed content removed, and `blocks` carries
/// enough information to reconstruct the original via [`merge_marker_blocks`].
/// Fails with `Nested` when a `keep-start` is found inside an open block, and
/// with `Unbalanced` when a `keep-end` has no open block or a block is never
/// closed.
pub fn strip_marker_blocks(bytes: &[u8]) -> (res: Result<(Vec<u8>, Vec<MarkerBlock>), MarkerError>)
    ensures
        match res {
            Ok((s, bs)) => strip_spec(bytes@) == Ok::<_, MarkerError>((s@, blocks_view(bs@))),
            Err(e) => strip_spec(bytes@) == Err::<(Seq<u8>, Seq<(int, Seq<u8>)>), _>(e),
        },
{
    let lines = split_lines_exec(bytes);
    let ghost ls = split_lines(bytes@);
    let mut output: Vec<u8> = Vec::new();
    let mut blocks: Vec<MarkerBlock> = Vec::new();
    let mut stripped_line_count: usize = 0;
    let mut in_block = false;
    let mut block_position: usize = 0;
    let mut block_content: Vec<u8> = Vec::new();
    let ghost mut out_lines: Seq<Seq<u8>> = Seq::empty();
    let mut i: usize = 0;
    proof {
        assert(out_lines.flatten() =~= output@);
        assert(blocks_view(blocks@) =~= Seq::<(int, Seq<u8>)>::empty());
    }
    while i < lines.len()
        invariant
            i <= lines.len(),
            ls == split_lines(bytes@),
            lines_view(lines@) == ls,
            ls.len() == lines.len(),
            out_lines.len() <= i,
            stripped_line_count == out_lines.len(),
            output@ == out_lines.flatten(),
            block_position <= i,
            strip_run(ls, i as nat) == Ok::<_, MarkerError>(
                StripState {
                    in_block,
                    block_pos: block_position as int,
                    block: block_content@,
                    out: out_lines,
                    blocks: blocks_view(blocks@),
                },
            ),
        decreases lines.len() - i,
    {
        let line: &Vec<u8> = &lines[i];
        assert(line@ == ls[i as int]);
        if is_marker_start(line.as_slice()) {
            if in_block {
                proof {
                    assert(strip_run(ls, (i + 1) as nat) == Err::<StripState, _>(MarkerError::Nested));
                    lemma_strip_run_err(ls, (i + 1) as nat, ls.len());
                    assert(strip_run(ls, ls.len()) == Err::<StripState, _>(MarkerError::Nested));
                    assert(strip_spec(bytes@) == Err::<(Seq<u8>, Seq<(int, Seq<u8>)>), _>(MarkerError::Nested));
                }
                return Err(MarkerError::Nested);
            }
            in_block = true;
            block_position = stripped_line_count;
            block_content = Vec::new();
            append_bytes(&mut block_content, line.as_slice());
            assert(block_content@ =~= line@);
        } else if is_marker_end(line.as_slice()) {
            if !in_block {
                proof {
                    assert(strip_run(ls, (i + 1) as nat) == Err::<StripState, _>(MarkerError::Unbalanced));
                    lemma_strip_run_err(ls, (i + 1) as nat, ls.len());
                    assert(strip_run(ls, ls.len()) == Err::<StripState, _>(MarkerError::Unbalanced));
                    assert(strip_spec(bytes@) == Err::<(Seq<u8>, Seq<(int, Seq<u8>)>), _>(MarkerError::Unbalanced));
                }
                return Err(MarkerError::Unbalanced);
            }
            append_bytes(&mut block_content, line.as_slice());
            let ghost old_blocks = blocks@;
            let content = block_content;
            block_content = Vec::new();
            blocks.push(MarkerBlock { position: block_position, content });
            in_block = false;
            proof {
                assert(blocks_view(blocks@) =~= blocks_view(old_blocks).push(
                    (block_position as int, content@),
                ));
                assert(block_content@ =~= Seq::<u8>::empty());
            }
        } else if in_block {
            append_bytes(&mut block_content, line.as_slice());
        } else {
            append_bytes(&mut output, line.as_slice());
            proof {
                out_lines.lemma_flatten_push(line@);
                out_lines = out_lines.push(line@);
            }
            stripped_line_count = stripped_line_count + 1;
        }
        i = i + 1;
    }
    if in_block {
        return Err(MarkerError::Unbalanced);
    }
    Ok((output, blocks))
}

/// Choose which marker blocks to use when merging.
///
/// Returns `local_blocks` when it is non-empty (downstream has its own
/// customisations), otherwise falls back to `upstream_blocks`.
pub fn select_marker_blocks(
    upstream_blocks: Vec<MarkerBlock>,
    local_blocks: Vec<MarkerBlock>,
) -> (r: Vec<MarkerBlock>)
    ensures
        r@ == select_spec(upstream_blocks@, local_blocks@),
{
    if local_blocks.len() == 0 {
        upstream_blocks
    } else {
        local_blocks
    }
}

/// The local blocks when there are any, else the upstream ones.
pub open spec fn select_spec<T>(upstream: Seq<T>, local: Seq<T>) -> Seq<T> {
    if local.len() == 0 {
        upstream
    } else {
        local
    }
}

// ---------------------------------------------------------------------------
// Merging
// ---------------------------------------------------------------------------

/// Output and line cursor after inserting the first `n` blocks into `ls`: each
/// block first emits the lines from the cursor up to its position (clamped to
/// the line count; nothing when the position lies behind the cursor), then its
/// own bytes, and moves the cursor to that clamped position.
pub open spec fn merge_acc(ls: Seq<Seq<u8>>, bs: Seq<(int, Seq<u8>)>, n: nat) -> (Seq<u8>, int)
    decreases n,
{
    if n == 0 {
        (Seq::empty(), 0)
    } else {
        let prev = merge_acc(ls, bs, (n - 1) as nat);
        let pos = bs[n - 1].0;
        let until = if pos < ls.len() {
            pos
        } else {
            ls.len() as int
        };
        let upto = if until > prev.1 {
            until
        } else {
            prev.1
        };
        (prev.0 + ls.subrange(prev.1, upto).flatten() + bs[n - 1].1, until)
    }
}

/// All blocks inserted into the lines `ls`, followed by the lines after the
/// last cursor.
pub open spec fn merge_lines(ls: Seq<Seq<u8>>, bs: Seq<(int, Seq<u8>)>) -> Seq<u8> {
    let acc = merge_acc(ls, bs, bs.len());
    acc.0 + ls.skip(acc.1).flatten()
}

/// What merging the blocks `bs` into `stripped` gives.
pub open spec fn merge_spec(stripped: Seq<u8>, bs: Seq<(int, Seq<u8>)>) -> Seq<u8> {
    if bs.len() == 0 {
        stripped
    } else {
        merge_lines(split_lines(stripped), bs)
    }
}

proof fn lemma_merge_acc_cursor(ls: Seq<Seq<u8>>, bs: Seq<(int, Seq<u8>)>, n: nat)
    requires
        n <= bs.len(),
        forall|j: int| 0 <= j < bs.len() ==> 0 <= #[trigger] bs[j].0,
    ensures
        0 <= merge_acc(ls, bs, n).1 <= ls.len(),
    decreases n,
{
    if n > 0 {
        lemma_merge_acc_cursor(ls, bs, (n - 1) as nat);
    }
}

/// Reinsert extracted marker blocks into stripped bytes.
///
/// This is the inverse of [`strip_marker_blocks`]: given the stripped content
/// and the blocks it returned, this function reconstructs the original bytes.
pub fn merge_marker_blocks(stripped: &[u8], blocks: &[MarkerBlock]) -> (out: Vec<u8>)
    ensures
        out@ == merge_spec(stripped@, blocks_view(blocks@)),
{
    let ghost bv = blocks_view(blocks@);
    if blocks.len() == 0 {
        let mut r: Vec<u8> = Vec::new();
        append_bytes(&mut r, stripped);
        return r;
    }
    let lines = split_lines_exec(stripped);
    let ghost ls = split_lines(stripped@);
    let nl = lines.len();
    let mut result: Vec<u8> = Vec::new();
    let mut cursor: usize = 0;
    let mut k: usize = 0;
    assert(result@ =~= merge_acc(ls, bv, 0).0);
    while k < blocks.len()
        invariant
            k <= blocks.len(),
            bv == blocks_view(blocks@),
            bv.len() == blocks.len(),
            lines_view(lines@) == ls,
            nl == lines.len() == ls.len(),
            result@ == merge_acc(ls, bv, k as nat).0,
            cursor == merge_acc(ls, bv, k as nat).1,
            cursor <= nl,
        decreases blocks.len() - k,
    {
        let block = &blocks[k];
        assert(bv[k as int] == block_view(*block));
        let until = if block.position < nl {
            block.position
        } else {
            nl
        };
        let upto = if until > cursor {
            until
        } else {
            cursor
        };
        let ghost base = result@;
        let mut j: usize = cursor;
        assert(ls.subrange(cursor as int, cursor as int) =~= Seq::<Seq<u8>>::empty());
        while j < upto
            invariant
                cursor <= j <= upto <= nl,
                nl == lines.len() == ls.len(),
                lines_view(lines@) == ls,
                result@ == base + ls.subrange(cursor as int, j as int).flatten(),
            decreases upto - j,
        {
            assert(lines@[j as int]@ == ls[j as int]);
            append_bytes(&mut result, lines[j].as_slice());
            proof {
                let sub = ls.subrange(cursor as int, j as int);
                sub.lemma_flatten_push(ls[j as int]);
                assert(ls.subrange(cursor as int, j + 1) =~= sub.push(ls[j as int]));
            }
            j = j + 1;
        }
        append_bytes(&mut result, block.content.as_slice());
        cursor = until;
        k = k + 1;
    }
    let ghost base = result@;
    let mut j: usize = cursor;
    assert(ls.subrange(cursor as int, cursor as int) =~= Seq::<Seq<u8>>::empty());
    while j < nl
        invariant
            cursor <= j <= nl,
            nl == lines.len() == ls.len(),
            lines_view(lines@) == ls,
            result@ == base + ls.subrange(cursor as int, j as int).flatten(),
        decreases nl - j,
    {
        assert(lines@[j as int]@ == ls[j as int]);
        append_bytes(&mut result, lines[j].as_slice());
        proof {
            let sub = ls.subrange(cursor as int, j as int);
            sub.lemma_flatten_push(ls[j as int]);
            assert(ls.subrange(cursor as int, j + 1) =~= sub.push(ls[j as int]));
        }
        j = j + 1;
    }
    assert(ls.subrange(cursor as int, nl as int) =~= ls.skip(cursor as int));
    result
}

// ---------------------------------------------------------------------------
// Round trip
// ---------------------------------------------------------------------------

/// The bytes a scan state stands for: the kept lines with the closed blocks put
/// back, followed by the open block.
pub open spec fn rebuild(st: StripState) -> Seq<u8> {
    merge_lines(st.out, st.blocks) + if st.in_block {
        st.block
    } else {
        Seq::<u8>::empty()
    }
}

/// What holds of the scan state after the first `n` of the lines `ls`.
pub open spec fn strip_inv(ls: Seq<Seq<u8>>, n: nat, st: StripState) -> bool {
    &&& st.out.len() <= n
    &&& forall|k: int| 0 <= k < st.out.len() ==> #[trigger] line_ok(st.out[k])
    &&& forall|k: int| 0 <= k < st.out.len() - 1 ==> #[trigger] ends_nl(st.out[k])
    &&& forall|k: int| 0 <= k < st.out.len() ==> #[trigger] ends_nl(st.out[k]) || n == ls.len()
    &&& forall|j: int| 0 <= j < st.blocks.len() ==> 0 <= #[trigger] st.blocks[j].0 <= st.out.len()
    &&& st.in_block ==> st.block_pos == st.out.len()
    &&& ls.take(n as int).flatten() == rebuild(st)
}

proof fn lemma_merge_acc_push_line(
    ls: Seq<Seq<u8>>,
    l: Seq<u8>,
    bs: Seq<(int, Seq<u8>)>,
    m: nat,
)
    requires
        m <= bs.len(),
        forall|j: int| 0 <= j < bs.len() ==> 0 <= #[trigger] bs[j].0 <= ls.len(),
    ensures
        merge_acc(ls.push(l), bs, m) == merge_acc(ls, bs, m),
    decreases m,
{
    if m > 0 {
        lemma_merge_acc_push_line(ls, l, bs, (m - 1) as nat);
        lemma_merge_acc_cursor(ls, bs, (m - 1) as nat);
        let prev = merge_acc(ls, bs, (m - 1) as nat);
        let pos = bs[m - 1].0;
        let upto = if pos > prev.1 {
            pos
        } else {
            prev.1
        };
        assert(ls.push(l).subrange(prev.1, upto) =~= ls.subrange(prev.1, upto));
    }
}

proof fn lemma_merge_acc_push_block(
    ls: Seq<Seq<u8>>,
    bs: Seq<(int, Seq<u8>)>,
    b: (int, Seq<u8>),
    m: nat,
)
    requires
        m <= bs.len(),
    ensures
        merge_acc(ls, bs.push(b), m) == merge_acc(ls, bs, m),
    decreases m,
{
    if m > 0 {
        lemma_merge_acc_push_block(ls, bs, b, (m - 1) as nat);
        assert(bs.push(b)[m - 1] == bs[m - 1]);
    }
}

proof fn lemma_merge_lines_push_line(ls: Seq<Seq<u8>>, l: Seq<u8>, bs: Seq<(int, Seq<u8>)>)
    requires
        forall|j: int| 0 <= j < bs.len() ==> 0 <= #[trigger] bs[j].0 <= ls.len(),
    ensures
        merge_lines(ls.push(l), bs) == merge_lines(ls, bs) + l,
{
    lemma_merge_acc_push_line(ls, l, bs, bs.len());
    lemma_merge_acc_cursor(ls, bs, bs.len());
    let c = merge_acc(ls, bs, bs.len()).1;
    assert(ls.push(l).skip(c) =~= ls.skip(c).push(l));
    ls.skip(c).lemma_flatten_push(l);
}

proof fn lemma_merge_lines_push_block(ls: Seq<Seq<u8>>, bs: Seq<(int, Seq<u8>)>, content: Seq<u8>)
    requires
        forall|j: int| 0 <= j < bs.len() ==> 0 <= #[trigger] bs[j].0,
    ensures
        merge_lines(ls, bs.push((ls.len() as int, content))) == merge_lines(ls, bs) + content,
{
    let b = (ls.len() as int, content);
    let bs2 = bs.push(b);
    lemma_merge_acc_push_block(ls, bs, b, bs.len());
    lemma_merge_acc_cursor(ls, bs, bs.len());
    let prev = merge_acc(ls, bs, bs.len());
    assert(bs2[bs.len() as int] == b);
    assert(merge_acc(ls, bs2, bs2.len()) == (
        prev.0 + ls.subrange(prev.1, ls.len() as int).flatten() + content,
        ls.len() as int,
    ));
    assert(ls.skip(ls.len() as int) =~= Seq::<Seq<u8>>::empty());
    assert(ls.subrange(prev.1, ls.len() as int) =~= ls.skip(prev.1));
    assert(Seq::<Seq<u8>>::empty().flatten() =~= Seq::<u8>::empty());
}

proof fn lemma_strip_step_inv(ls: Seq<Seq<u8>>, n: nat, st: StripState)
    requires
        lines_ok(ls),
        n < ls.len(),
        strip_inv(ls, n, st),
        strip_step(st, ls[n as int]) is Ok,
    ensures
        strip_inv(ls, (n + 1) as nat, strip_step(st, ls[n as int])->Ok_0),
{
    let line = ls[n as int];
    let st2 = strip_step(st, line)->Ok_0;
    assert(ls.take(n + 1 as int) =~= ls.take(n as int).push(line));
    ls.take(n as int).lemma_flatten_push(line);
    assert(line_ok(line));
    if is_start_line(line) {
        assert(rebuild(st2) =~= rebuild(st) + line);
    } else if is_end_line(line) {
        lemma_merge_lines_push_block(st.out, st.blocks, st.block + line);
        assert(st2.blocks == st.blocks.push((st.out.len() as int, st.block + line)));
        assert(rebuild(st2) =~= rebuild(st) + line);
        assert forall|j: int| 0 <= j < st2.blocks.len() implies 0 <= #[trigger] st2.blocks[j].0
            <= st2.out.len() by {
            if j < st.blocks.len() {
                assert(st2.blocks[j] == st.blocks[j]);
            }
        }
    } else if st.in_block {
        assert(rebuild(st2) =~= rebuild(st) + line);
    } else {
        lemma_merge_lines_push_line(st.out, line, st.blocks);
        assert(rebuild(st2) =~= rebuild(st) + line);
        assert forall|k: int| 0 <= k < st2.out.len() implies #[trigger] line_ok(st2.out[k]) by {
            if k < st.out.len() {
                assert(st2.out[k] == st.out[k]);
            }
        }
        assert forall|k: int| 0 <= k < st2.out.len() implies #[trigger] ends_nl(st2.out[k]) || n
            + 1 == ls.len() by {
            if k < st.out.len() {
                assert(st2.out[k] == st.out[k]);
                assert(ends_nl(st.out[k]) || n == ls.len());
            } else {
                if n + 1 < ls.len() {
                    assert(ends_nl(ls[n as int]));
                }
            }
        }
        assert forall|k: int| 0 <= k < st2.out.len() - 1 implies #[trigger] ends_nl(st2.out[k]) by {
            assert(st2.out[k] == st.out[k]);
            assert(ends_nl(st.out[k]) || n == ls.len());
        }
    }
}

proof fn lemma_strip_run_inv(ls: Seq<Seq<u8>>, n: nat)
    requires
        lines_ok(ls),
        n <= ls.len(),
        strip_run(ls, n) is Ok,
    ensures
        strip_inv(ls, n, strip_run(ls, n)->Ok_0),
    decreases n,
{
    if n == 0 {
        let st = strip_init();
        assert(ls.take(0) =~= Seq::<Seq<u8>>::empty());
        assert(Seq::<Seq<u8>>::empty().flatten() =~= Seq::<u8>::empty());
        assert(merge_acc(st.out, st.blocks, 0) == (Seq::<u8>::empty(), 0int));
        assert(st.out.skip(0) =~= Seq::<Seq<u8>>::empty());
        assert(rebuild(st) =~= Seq::<u8>::empty());
    } else {
        let m = (n - 1) as nat;
        assert(strip_run(ls, m) is Ok);
        lemma_strip_run_inv(ls, m);
        lemma_strip_step_inv(ls, m, strip_run(ls, m)->Ok_0);
    }
}

/// Stripping loses nothing: whenever stripping `bytes` succeeds, merging the
/// blocks back into the stripped bytes gives `bytes` again.
pub proof fn lemma_strip_merge_roundtrip(bytes: Seq<u8>)
    requires
        strip_spec(bytes) is Ok,
    ensures
        merge_spec(strip_spec(bytes)->Ok_0.0, strip_spec(bytes)->Ok_0.1) == bytes,
{
    let ls = split_lines(bytes);
    lemma_split_lines(bytes);
    let st = strip_run(ls, ls.len())->Ok_0;
    lemma_strip_run_inv(ls, ls.len());
    assert(ls.take(ls.len() as int) =~= ls);
    assert(!st.in_block);
    assert(rebuild(st) =~= merge_lines(st.out, st.blocks));
    assert(lines_ok(st.out));
    lemma_split_flatten(st.out);
    if st.blocks.len() == 0 {
        assert(merge_acc(st.out, st.blocks, 0) == (Seq::<u8>::empty(), 0int));
        assert(st.out.skip(0) =~= st.out);
        assert(merge_lines(st.out, st.blocks) =~= st.out.flatten());
    }
}


/// No line of `bytes` holds a start or end token.
pub open spec fn no_marker_lines(bytes: Seq<u8>) -> bool {
    forall|k: int|
        0 <= k < split_lines(bytes).len() ==> !is_start_line(#[trigger] split_lines(bytes)[k])
            && !is_end_line(split_lines(bytes)[k])
}

proof fn lemma_strip_run_plain(ls: Seq<Seq<u8>>, n: nat)
    requires
        n <= ls.len(),
        forall|k: int| 0 <= k < ls.len() ==> !is_start_line(#[trigger] ls[k]) && !is_end_line(
            ls[k],
        ),
    ensures
        strip_run(ls, n) == Ok::<StripState, MarkerError>(
            StripState {
                in_block: false,
                block_pos: 0,
                block: Seq::empty(),
                out: ls.take(n as int),
                blocks: Seq::empty(),
            },
        ),
    decreases n,
{
    if n == 0 {
        assert(ls.take(0) =~= Seq::<Seq<u8>>::empty());
    } else {
        lemma_strip_run_plain(ls, (n - 1) as nat);
        assert(!is_start_line(ls[n - 1]) && !is_end_line(ls[n - 1]));
        assert(ls.take((n - 1) as int).push(ls[n - 1]) =~= ls.take(n as int));
    }
}

/// Text without marker lines strips to itself with no blocks.
pub proof fn lemma_strip_without_markers(bytes: Seq<u8>)
    requires
        no_marker_lines(bytes),
    ensures
        strip_spec(bytes) == Ok::<(Seq<u8>, Seq<(int, Seq<u8>)>), MarkerError>(
            (bytes, Seq::empty()),
        ),
{
    let ls = split_lines(bytes);
    lemma_split_lines(bytes);
    assert forall|k: int| 0 <= k < ls.len() implies !is_start_line(#[trigger] ls[k])
        && !is_end_line(ls[k]) by {
        assert(!is_start_line(split_lines(bytes)[k]) && !is_end_line(split_lines(bytes)[k]));
    }
    lemma_strip_run_plain(ls, ls.len());
    assert(ls.take(ls.len() as int) =~= ls);
}

/// Merging no blocks gives the stripped bytes back unchanged.
pub proof fn lemma_merge_without_blocks(stripped: Seq<u8>)
    ensures
        merge_spec(stripped, Seq::empty()) == stripped,
{
}


// ---------------------------------------------------------------------------
// Stripping what a merge produced
// ---------------------------------------------------------------------------

/// The line holds neither token.
pub open spec fn plain_line(l: Seq<u8>) -> bool {
    !is_start_line(l) && !is_end_line(l)
}

/// Well-formed lines that all end with `\n`.
pub open spec fn nl_lines(ls: Seq<Seq<u8>>) -> bool {
    forall|k: int| 0 <= k < ls.len() ==> line_ok(#[trigger] ls[k]) && ends_nl(ls[k])
}

/// Lines without tokens.
pub open spec fn plain_lines(ls: Seq<Seq<u8>>) -> bool {
    forall|k: int| 0 <= k < ls.len() ==> plain_line(#[trigger] ls[k])
}

/// The lines of a block: a start line, lines without tokens, and an end line
/// that is no start line.
pub open spec fn block_lines(bl: Seq<Seq<u8>>) -> bool {
    &&& bl.len() >= 2
    &&& is_start_line(bl[0])
    &&& forall|k: int| 0 < k < bl.len() - 1 ==> plain_line(#[trigger] bl[k])
    &&& is_end_line(bl.last()) && !is_start_line(bl.last())
}

/// Bytes of a block whose every line ends with `\n`.
pub open spec fn nl_block(content: Seq<u8>) -> bool {
    nl_lines(split_lines(content)) && block_lines(split_lines(content))
}

/// Blocks as stripping text that ends with `\n` leaves them: each is a
/// well-formed block, and their positions do not decrease.
pub open spec fn nl_blocks(bs: Seq<(int, Seq<u8>)>) -> bool {
    &&& forall|j: int| 0 <= j < bs.len() ==> 0 <= #[trigger] bs[j].0 && nl_block(bs[j].1)
    &&& forall|i: int, j: int| 0 <= i <= j < bs.len() ==> #[trigger] bs[i].0 <= #[trigger] bs[j].0
}

/// Text as stripping leaves it: lines without tokens, each ending with `\n`.
pub open spec fn nl_stripped(s: Seq<u8>) -> bool {
    nl_lines(split_lines(s)) && plain_lines(split_lines(s))
}

/// Text that is empty or ends with `\n`.
pub open spec fn ends_with_nl(s: Seq<u8>) -> bool {
    s.len() == 0 || s.last() == 10u8
}

/// The scan over `ls` from the state `st`; the first error stops it.
pub open spec fn strip_from(st: StripState, ls: Seq<Seq<u8>>) -> Result<StripState, MarkerError>
    decreases ls.len(),
{
    if ls.len() == 0 {
        Ok(st)
    } else {
        match strip_from(st, ls.drop_last()) {
            Ok(s2) => strip_step(s2, ls.last()),
            Err(e) => Err(e),
        }
    }
}

proof fn lemma_strip_run_from(ls: Seq<Seq<u8>>, n: nat)
    requires
        n <= ls.len(),
    ensures
        strip_run(ls, n) == strip_from(strip_init(), ls.take(n as int)),
    decreases n,
{
    if n > 0 {
        lemma_strip_run_from(ls, (n - 1) as nat);
        assert(ls.take(n as int).drop_last() =~= ls.take(n - 1));
        assert(ls.take(n as int).last() == ls[n - 1]);
    }
}

proof fn lemma_strip_from_concat(st: StripState, a: Seq<Seq<u8>>, b: Seq<Seq<u8>>)
    ensures
        strip_from(st, a + b) == match strip_from(st, a) {
            Ok(s2) => strip_from(s2, b),
            Err(e) => Err(e),
        },
    decreases b.len(),
{
    if b.len() == 0 {
        assert(a + b =~= a);
    } else {
        lemma_strip_from_concat(st, a, b.drop_last());
        assert((a + b).drop_last() =~= a + b.drop_last());
        assert((a + b).last() == b.last());
    }
}

/// The scan is between blocks, with these kept lines and closed blocks.
pub open spec fn idle(st: StripState, out: Seq<Seq<u8>>, blocks: Seq<(int, Seq<u8>)>) -> bool {
    !st.in_block && st.block == Seq::<u8>::empty() && st.out == out && st.blocks == blocks
}

proof fn lemma_strip_from_plain(st: StripState, ls: Seq<Seq<u8>>)
    requires
        !st.in_block,
        st.block == Seq::<u8>::empty(),
        plain_lines(ls),
    ensures
        strip_from(st, ls) is Ok,
        idle(strip_from(st, ls)->Ok_0, st.out + ls, st.blocks),
    decreases ls.len(),
{
    if ls.len() == 0 {
        assert(st.out + ls =~= st.out);
    } else {
        let init = ls.drop_last();
        assert(plain_lines(init)) by {
            assert forall|k: int| 0 <= k < init.len() implies plain_line(#[trigger] init[k]) by {
                assert(plain_line(ls[k]));
            }
        }
        lemma_strip_from_plain(st, init);
        assert(plain_line(ls[ls.len() - 1]));
        assert(st.out + init + seq![ls.last()] =~= st.out + ls);
        assert((st.out + init).push(ls.last()) =~= st.out + ls);
    }
}


proof fn lemma_strip_from_block_prefix(st: StripState, bl: Seq<Seq<u8>>, k: nat)
    requires
        !st.in_block,
        st.block == Seq::<u8>::empty(),
        block_lines(bl),
        1 <= k < bl.len(),
    ensures
        strip_from(st, bl.take(k as int)) == Ok::<StripState, MarkerError>(
            StripState {
                in_block: true,
                block_pos: st.out.len() as int,
                block: bl.take(k as int).flatten(),
                out: st.out,
                blocks: st.blocks,
            },
        ),
    decreases k,
{
    let t = bl.take(k as int);
    assert(t.drop_last() =~= bl.take(k - 1));
    assert(t.last() == bl[k - 1]);
    t.drop_last().lemma_flatten_push(t.last());
    assert(t.drop_last().push(t.last()) =~= t);
    if k == 1 {
        assert(bl.take(0) =~= Seq::<Seq<u8>>::empty());
        assert(Seq::<Seq<u8>>::empty().flatten() =~= Seq::<u8>::empty());
        assert(Seq::<u8>::empty() + bl[0] =~= bl[0]);
    } else {
        lemma_strip_from_block_prefix(st, bl, (k - 1) as nat);
        assert(plain_line(bl[k - 1]));
    }
}

proof fn lemma_strip_from_block(st: StripState, bl: Seq<Seq<u8>>)
    requires
        !st.in_block,
        st.block == Seq::<u8>::empty(),
        block_lines(bl),
    ensures
        strip_from(st, bl) is Ok,
        idle(
            strip_from(st, bl)->Ok_0,
            st.out,
            st.blocks.push((st.out.len() as int, bl.flatten())),
        ),
{
    let n = bl.len();
    lemma_strip_from_block_prefix(st, bl, (n - 1) as nat);
    assert(bl.drop_last() =~= bl.take(n - 1));
    bl.drop_last().lemma_flatten_push(bl.last());
    assert(bl.drop_last().push(bl.last()) =~= bl);
}


/// A block position as a merge into `n` lines uses it: at most `n`.
pub open spec fn clamp_pos(pos: int, n: int) -> int {
    if pos < n {
        pos
    } else {
        n
    }
}

/// The blocks with their positions clamped to `n` lines.
pub open spec fn clamp_blocks(bs: Seq<(int, Seq<u8>)>, n: int) -> Seq<(int, Seq<u8>)> {
    bs.map_values(|b: (int, Seq<u8>)| (clamp_pos(b.0, n), b.1))
}

/// `merge_acc` with the output kept as lines: the kept lines up to each
/// block's position, then the block's own lines.
pub open spec fn merge_line_acc(ls: Seq<Seq<u8>>, bs: Seq<(int, Seq<u8>)>, n: nat) -> (
    Seq<Seq<u8>>,
    int,
)
    decreases n,
{
    if n == 0 {
        (Seq::empty(), 0)
    } else {
        let prev = merge_line_acc(ls, bs, (n - 1) as nat);
        let until = clamp_pos(bs[n - 1].0, ls.len() as int);
        let upto = if until > prev.1 {
            until
        } else {
            prev.1
        };
        (prev.0 + ls.subrange(prev.1, upto) + split_lines(bs[n - 1].1), until)
    }
}

proof fn lemma_merge_line_acc(ls: Seq<Seq<u8>>, bs: Seq<(int, Seq<u8>)>, n: nat)
    requires
        n <= bs.len(),
        forall|j: int| 0 <= j < bs.len() ==> 0 <= #[trigger] bs[j].0,
    ensures
        merge_line_acc(ls, bs, n).1 == merge_acc(ls, bs, n).1,
        merge_line_acc(ls, bs, n).0.flatten() == merge_acc(ls, bs, n).0,
        0 <= merge_line_acc(ls, bs, n).1 <= ls.len(),
    decreases n,
{
    if n > 0 {
        lemma_merge_line_acc(ls, bs, (n - 1) as nat);
        let prev = merge_line_acc(ls, bs, (n - 1) as nat);
        let until = clamp_pos(bs[n - 1].0, ls.len() as int);
        let upto = if until > prev.1 {
            until
        } else {
            prev.1
        };
        let sub = ls.subrange(prev.1, upto);
        let bl = split_lines(bs[n - 1].1);
        lemma_split_lines(bs[n - 1].1);
        lemma_flatten_concat(prev.0 + sub, bl);
        lemma_flatten_concat(prev.0, sub);
    }
}

proof fn lemma_merge_line_acc_nl(ls: Seq<Seq<u8>>, bs: Seq<(int, Seq<u8>)>, n: nat)
    requires
        n <= bs.len(),
        nl_lines(ls),
        nl_blocks(bs),
    ensures
        nl_lines(merge_line_acc(ls, bs, n).0),
    decreases n,
{
    if n > 0 {
        lemma_merge_line_acc_nl(ls, bs, (n - 1) as nat);
        lemma_merge_line_acc(ls, bs, (n - 1) as nat);
        let prev = merge_line_acc(ls, bs, (n - 1) as nat);
        let until = clamp_pos(bs[n - 1].0, ls.len() as int);
        let upto = if until > prev.1 {
            until
        } else {
            prev.1
        };
        let sub = ls.subrange(prev.1, upto);
        let bl = split_lines(bs[n - 1].1);
        assert(nl_block(bs[n - 1].1));
        let all = prev.0 + sub + bl;
        assert forall|k: int| 0 <= k < all.len() implies line_ok(#[trigger] all[k]) && ends_nl(
            all[k],
        ) by {
            if k < prev.0.len() {
                assert(all[k] == prev.0[k]);
            } else if k < prev.0.len() + sub.len() {
                assert(all[k] == ls[prev.1 + k - prev.0.len()]);
            } else {
                assert(all[k] == bl[k - prev.0.len() - sub.len()]);
            }
        }
    }
}

proof fn lemma_strip_merge_line_acc(ls: Seq<Seq<u8>>, bs: Seq<(int, Seq<u8>)>, n: nat)
    requires
        n <= bs.len(),
        plain_lines(ls),
        nl_blocks(bs),
    ensures
        strip_from(strip_init(), merge_line_acc(ls, bs, n).0) is Ok,
        idle(
            strip_from(strip_init(), merge_line_acc(ls, bs, n).0)->Ok_0,
            ls.take(merge_line_acc(ls, bs, n).1),
            clamp_blocks(bs.take(n as int), ls.len() as int),
        ),
        n > 0 ==> merge_line_acc(ls, bs, n).1 == clamp_pos(bs[n - 1].0, ls.len() as int),
    decreases n,
{
    if n == 0 {
        assert(ls.take(0) =~= Seq::<Seq<u8>>::empty());
        assert(clamp_blocks(bs.take(0), ls.len() as int) =~= Seq::<(int, Seq<u8>)>::empty());
    } else {
        lemma_strip_merge_line_acc(ls, bs, (n - 1) as nat);
        lemma_merge_line_acc(ls, bs, (n - 1) as nat);
        let len = ls.len() as int;
        let prev = merge_line_acc(ls, bs, (n - 1) as nat);
        let until = clamp_pos(bs[n - 1].0, len);
        assert(prev.1 <= until) by {
            if n >= 2 {
                assert(bs[n - 2].0 <= bs[n - 1].0);
            }
        }
        let sub = ls.subrange(prev.1, until);
        let bl = split_lines(bs[n - 1].1);
        assert(nl_block(bs[n - 1].1));
        lemma_split_lines(bs[n - 1].1);
        let st0 = strip_from(strip_init(), prev.0)->Ok_0;
        assert(plain_lines(sub)) by {
            assert forall|k: int| 0 <= k < sub.len() implies plain_line(#[trigger] sub[k]) by {
                assert(sub[k] == ls[prev.1 + k]);
            }
        }
        lemma_strip_from_plain(st0, sub);
        let st1 = strip_from(st0, sub)->Ok_0;
        lemma_strip_from_block(st1, bl);
        lemma_strip_from_concat(strip_init(), prev.0, sub);
        lemma_strip_from_concat(strip_init(), prev.0 + sub, bl);
        assert(ls.take(prev.1) + sub =~= ls.take(until));
        let cb = clamp_blocks(bs.take(n as int), len);
        assert(cb =~= clamp_blocks(bs.take(n - 1), len).push((until, bl.flatten())));
    }
}

/// Stripping what merging produced gives the stripped text back, with the
/// block positions clamped to its line count, when the stripped text and
/// the blocks are as stripping text that ends with `\n` leaves them.
pub proof fn lemma_merge_strip_roundtrip(s: Seq<u8>, bs: Seq<(int, Seq<u8>)>)
    requires
        nl_stripped(s),
        nl_blocks(bs),
    ensures
        strip_spec(merge_spec(s, bs)) == Ok::<(Seq<u8>, Seq<(int, Seq<u8>)>), MarkerError>(
            (s, clamp_blocks(bs, split_lines(s).len() as int)),
        ),
{
    let ls = split_lines(s);
    lemma_split_lines(s);
    let len = ls.len() as int;
    if bs.len() == 0 {
        assert(no_marker_lines(s)) by {
            assert forall|k: int| 0 <= k < split_lines(s).len() implies !is_start_line(
                #[trigger] split_lines(s)[k],
            ) && !is_end_line(split_lines(s)[k]) by {
                assert(plain_line(ls[k]));
            }
        }
        lemma_strip_without_markers(s);
        assert(clamp_blocks(bs, len) =~= Seq::<(int, Seq<u8>)>::empty());
    } else {
        let n = bs.len();
        let acc = merge_line_acc(ls, bs, n);
        lemma_merge_line_acc(ls, bs, n);
        lemma_merge_line_acc_nl(ls, bs, n);
        lemma_strip_merge_line_acc(ls, bs, n);
        let rest = ls.skip(acc.1);
        let ml = acc.0 + rest;
        lemma_flatten_concat(acc.0, rest);
        assert(merge_spec(s, bs) == ml.flatten());
        assert(lines_ok(ml)) by {
            assert forall|k: int| 0 <= k < ml.len() implies #[trigger] line_ok(ml[k]) && ends_nl(
                ml[k],
            ) by {
                if k < acc.0.len() {
                    assert(ml[k] == acc.0[k]);
                } else {
                    assert(ml[k] == ls[acc.1 + k - acc.0.len()]);
                }
            }
        }
        lemma_split_flatten(ml);
        lemma_strip_run_from(ml, ml.len());
        assert(ml.take(ml.len() as int) =~= ml);
        let st0 = strip_from(strip_init(), acc.0)->Ok_0;
        assert(plain_lines(rest)) by {
            assert forall|k: int| 0 <= k < rest.len() implies plain_line(#[trigger] rest[k]) by {
                assert(rest[k] == ls[acc.1 + k]);
            }
        }
        lemma_strip_from_plain(st0, rest);
        lemma_strip_from_concat(strip_init(), acc.0, rest);
        assert(ls.take(acc.1) + rest =~= ls);
        assert(bs.take(n as int) =~= bs);
    }
}

proof fn lemma_merge_acc_clamped(ls: Seq<Seq<u8>>, bs: Seq<(int, Seq<u8>)>, n: nat)
    requires
        n <= bs.len(),
    ensures
        merge_acc(ls, clamp_blocks(bs, ls.len() as int), n) == merge_acc(ls, bs, n),
    decreases n,
{
    if n > 0 {
        lemma_merge_acc_clamped(ls, bs, (n - 1) as nat);
    }
}

/// Merging blocks with clamped positions gives what merging them as they
/// were gives.
pub proof fn lemma_merge_clamped(s: Seq<u8>, bs: Seq<(int, Seq<u8>)>)
    ensures
        merge_spec(s, clamp_blocks(bs, split_lines(s).len() as int)) == merge_spec(s, bs),
{
    lemma_merge_acc_clamped(split_lines(s), bs, bs.len());
}


/// The bytes of a block still open: a start line and lines without tokens,
/// each ending with `\n`.
pub open spec fn open_block(b: Seq<u8>) -> bool {
    let bl = split_lines(b);
    &&& nl_lines(bl)
    &&& bl.len() >= 1
    &&& is_start_line(bl[0])
    &&& forall|k: int| 0 < k < bl.len() ==> plain_line(#[trigger] bl[k])
}

/// What holds of the scan state over lines that all end with `\n`.
pub open spec fn nl_state(st: StripState) -> bool {
    &&& nl_lines(st.out)
    &&& plain_lines(st.out)
    &&& nl_blocks(st.blocks)
    &&& forall|j: int| 0 <= j < st.blocks.len() ==> #[trigger] st.blocks[j].0 <= st.out.len()
    &&& st.in_block ==> st.block_pos == st.out.len() && open_block(st.block)
}

proof fn lemma_nl_lines_of(x: Seq<u8>)
    requires
        ends_with_nl(x),
    ensures
        nl_lines(split_lines(x)),
{
    let ls = split_lines(x);
    lemma_split_lines(x);
    if ls.len() > 0 {
        assert(ls.drop_last().push(ls.last()) =~= ls);
        ls.drop_last().lemma_flatten_push(ls.last());
        assert(line_ok(ls[ls.len() - 1]));
        assert(x.len() > 0);
        assert(x.last() == ls.last().last());
        assert forall|k: int| 0 <= k < ls.len() implies line_ok(#[trigger] ls[k]) && ends_nl(
            ls[k],
        ) by {
            if k < ls.len() - 1 {
                assert(ends_nl(ls[k]));
            }
        }
    }
}

proof fn lemma_split_push_line(b: Seq<u8>, l: Seq<u8>)
    requires
        nl_lines(split_lines(b)),
        line_ok(l),
        ends_nl(l),
    ensures
        split_lines(b + l) == split_lines(b).push(l),
        nl_lines(split_lines(b + l)),
{
    let bl = split_lines(b);
    lemma_split_lines(b);
    let bl2 = bl.push(l);
    bl.lemma_flatten_push(l);
    assert(lines_ok(bl2)) by {
        assert forall|k: int| 0 <= k < bl2.len() implies #[trigger] line_ok(bl2[k]) && ends_nl(
            bl2[k],
        ) by {
            if k < bl.len() {
                assert(bl2[k] == bl[k]);
            }
        }
    }
    lemma_split_flatten(bl2);
    assert forall|k: int| 0 <= k < bl2.len() implies line_ok(#[trigger] bl2[k]) && ends_nl(
        bl2[k],
    ) by {
        if k < bl.len() {
            assert(bl2[k] == bl[k]);
        }
    }
}

proof fn lemma_nl_step(st: StripState, l: Seq<u8>)
    requires
        nl_state(st),
        line_ok(l),
        ends_nl(l),
        strip_step(st, l) is Ok,
    ensures
        nl_state(strip_step(st, l)->Ok_0),
{
    let st2 = strip_step(st, l)->Ok_0;
    if is_start_line(l) {
        assert(split_lines(Seq::<u8>::empty()) =~= Seq::<Seq<u8>>::empty());
        lemma_split_push_line(Seq::<u8>::empty(), l);
        assert(Seq::<u8>::empty() + l =~= l);
    } else if is_end_line(l) {
        let bl = split_lines(st.block);
        lemma_split_push_line(st.block, l);
        let nbl = split_lines(st.block + l);
        assert(nbl == bl.push(l));
        assert(block_lines(nbl)) by {
            assert(nbl[0] == bl[0]);
            assert forall|k: int| 0 < k < nbl.len() - 1 implies plain_line(#[trigger] nbl[k]) by {
                assert(nbl[k] == bl[k]);
            }
        }
        let nb = (st.block_pos, st.block + l);
        assert(st2.blocks == st.blocks.push(nb));
        assert forall|j: int| 0 <= j < st2.blocks.len() implies 0 <= #[trigger] st2.blocks[j].0
            && nl_block(st2.blocks[j].1) by {
            if j < st.blocks.len() {
                assert(st2.blocks[j] == st.blocks[j]);
            }
        }
        assert forall|i: int, j: int| 0 <= i <= j < st2.blocks.len() implies #[trigger] st2.blocks[i].0
            <= #[trigger] st2.blocks[j].0 by {
            if j < st.blocks.len() {
                assert(st2.blocks[j] == st.blocks[j]);
                assert(st2.blocks[i] == st.blocks[i]);
            } else if i < st.blocks.len() {
                assert(st2.blocks[i] == st.blocks[i]);
            }
        }
        assert forall|j: int| 0 <= j < st2.blocks.len() implies #[trigger] st2.blocks[j].0
            <= st2.out.len() by {
            if j < st.blocks.len() {
                assert(st2.blocks[j] == st.blocks[j]);
            }
        }
    } else if st.in_block {
        let bl = split_lines(st.block);
        lemma_split_push_line(st.block, l);
        let nbl = split_lines(st.block + l);
        assert(nbl[0] == bl[0]);
        assert forall|k: int| 0 < k < nbl.len() implies plain_line(#[trigger] nbl[k]) by {
            if k < bl.len() {
                assert(nbl[k] == bl[k]);
            }
        }
    } else {
        assert forall|k: int| 0 <= k < st2.out.len() implies line_ok(#[trigger] st2.out[k])
            && ends_nl(st2.out[k]) && plain_line(st2.out[k]) by {
            if k < st.out.len() {
                assert(st2.out[k] == st.out[k]);
            }
        }
    }
}

proof fn lemma_nl_run(ls: Seq<Seq<u8>>, n: nat)
    requires
        n <= ls.len(),
        nl_lines(ls),
        strip_run(ls, n) is Ok,
    ensures
        nl_state(strip_run(ls, n)->Ok_0),
    decreases n,
{
    if n == 0 {
        let st = strip_init();
        assert(nl_state(st));
    } else {
        assert(strip_run(ls, (n - 1) as nat) is Ok);
        lemma_nl_run(ls, (n - 1) as nat);
        assert(line_ok(ls[n - 1]) && ends_nl(ls[n - 1]));
        lemma_nl_step(strip_run(ls, (n - 1) as nat)->Ok_0, ls[n - 1]);
    }
}

/// Stripping text that ends with `\n` leaves text of lines without tokens,
/// each ending with `\n`, and well-formed blocks in order of position.
pub proof fn lemma_strip_nl(x: Seq<u8>)
    requires
        ends_with_nl(x),
        strip_spec(x) is Ok,
    ensures
        nl_stripped(strip_spec(x)->Ok_0.0),
        nl_blocks(strip_spec(x)->Ok_0.1),
{
    let ls = split_lines(x);
    lemma_nl_lines_of(x);
    lemma_nl_run(ls, ls.len());
    let st = strip_run(ls, ls.len())->Ok_0;
    assert(lines_ok(st.out)) by {
        assert forall|k: int| 0 <= k < st.out.len() implies #[trigger] line_ok(st.out[k])
            && ends_nl(st.out[k]) by {
            assert(line_ok(st.out[k]) && ends_nl(st.out[k]));
        }
    }
    lemma_split_flatten(st.out);
}

} // verus!
