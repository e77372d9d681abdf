//! Formatted output for the sync operations: status lines, diffs, summaries,
//! GitHub Actions annotations and the pull request comment.
//!
//! Writers are byte buffers; the caller sends them where they belong.
use vstd::prelude::*;
use vstd::string::StringSliceAdditionalSpecFns;

use crate::manifest::{strategy_name, Rule, Strategy};
use crate::strategy::{Outcome, StrategyResult};
use crate::style::{
    bold_code, colors_enabled, cyan_code, dim_code, green_code, red_bold_code, red_code, styled_as,
    yellow_code,
};
use crate::text::{append_decimal, decimal, join, line_spans, starts_with, text_lines, write_text};

verus! {

/// `std::io::Error`, the error type of the writers' results.
#[verifier::external_type_specification]
#[verifier::external_body]
pub struct ExIoError(std::io::Error);

// ---------------------------------------------------------------------------
// RuleOutcome
// ---------------------------------------------------------------------------

/// Paired result of applying one sync rule.
pub struct RuleOutcome<'a> {
    /// The rule that was evaluated.
    pub rule: &'a Rule,
    /// The outcome of applying the rule's strategy.
    pub result: StrategyResult,
    /// Unified diff text (non-empty only when relevant to the mode).
    pub diff: String,
}

// ---------------------------------------------------------------------------
// StatusTag
// ---------------------------------------------------------------------------

/// Human-readable status tag printed at the start of each rule line.
#[derive(Debug, Clone, Copy, PartialEq, Eq, Structural)]
pub enum StatusTag {
    /// File content changed (or would change in dry-run / ci-check).
    Changed,
    /// File is already in the expected state.
    UpToDate,
    /// Rule was intentionally skipped.
    Skipped,
    /// File was deleted (or would be deleted).
    Deleted,
    /// Detected drift between local and expected state (`--ci-check`).
    Drift,
    /// Patch application conflicted.
    Warn,
    /// Rule application failed.
    Fail,
}

/// The word of a tag.
pub open spec fn tag_label(t: StatusTag) -> Seq<char> {
    match t {
        StatusTag::Changed => "CHANGED"@,
        StatusTag::UpToDate => "OK"@,
        StatusTag::Skipped => "SKIPPED"@,
        StatusTag::Deleted => "DELETED"@,
        StatusTag::Drift => "DRIFT"@,
        StatusTag::Warn => "WARN"@,
        StatusTag::Fail => "FAIL"@,
    }
}

/// `n` spaces.
pub open spec fn spaces(n: int) -> Seq<char> {
    Seq::new(if n > 0 { n as nat } else { 0 }, |i: int| ' ')
}

/// The tag in brackets, its word padded with spaces to seven characters.
pub open spec fn tag_box(t: StatusTag) -> Seq<char> {
    "["@ + tag_label(t) + spaces(7 - tag_label(t).len()) + "]"@
}

impl StatusTag {
    fn label(self) -> (s: &'static str)
        ensures
            s@ == tag_label(self),
    {
        match self {
            StatusTag::Changed => "CHANGED",
            StatusTag::UpToDate => "OK",
            StatusTag::Skipped => "SKIPPED",
            StatusTag::Deleted => "DELETED",
            StatusTag::Drift => "DRIFT",
            StatusTag::Warn => "WARN",
            StatusTag::Fail => "FAIL",
        }
    }

    /// The tag in brackets, padded to a fixed width.
    pub fn boxed(self) -> (s: String)
        ensures
            s@ == tag_box(self),
    {
        let label = self.label();
        let mut s = String::from_str("[");
        s.append(label);
        let mut n = label.unicode_len();
        let ghost base = s@;
        assert(spaces(0) =~= Seq::<char>::empty());
        while n < 7
            invariant
                n <= 7 || n == label@.len(),
                label@.len() <= n,
                base == "["@ + label@,
                s@ == base + spaces(n - label@.len()),
            decreases 7 - n,
        {
            s.append(" ");
            assert(spaces(n + 1 - label@.len()) =~= spaces(n - label@.len()) + " "@) by {
                reveal_strlit(" ");
            }
            n = n + 1;
        }
        assert(spaces(n - label@.len()) =~= spaces(7 - label@.len()));
        s.append("]");
        s
    }

    /// The padded tag, in its style when `colors` is on (see [`tag_shown`]).
    pub fn styled_with(self, colors: bool) -> (s: String)
        ensures
            tag_shown(self, colors, s@),
    {
        let b = self.boxed();
        if !colors {
            return b;
        }
        match self {
            StatusTag::UpToDate | StatusTag::Skipped => crate::style::dim(b.as_str()),
            StatusTag::Changed | StatusTag::Drift | StatusTag::Warn => crate::style::yellow(
                b.as_str(),
            ),
            StatusTag::Deleted | StatusTag::Fail => crate::style::red_bold(b.as_str()),
        }
    }

    /// The padded tag, styled with terminal colors when they are enabled.
    pub fn styled(self) -> (s: String)
        ensures
            exists|colors: bool| tag_shown(self, colors, s@),
    {
        self.styled_with(colors_enabled())
    }
}

/// The escape code of a tag's style: dim for `OK` and `SKIPPED`, yellow for
/// `CHANGED`, `DRIFT` and `WARN`, red and bold for `DELETED` and `FAIL`.
pub open spec fn tag_code(t: StatusTag) -> Seq<char> {
    match t {
        StatusTag::UpToDate | StatusTag::Skipped => dim_code(),
        StatusTag::Changed | StatusTag::Drift | StatusTag::Warn => yellow_code(),
        StatusTag::Deleted | StatusTag::Fail => red_bold_code(),
    }
}

/// `s` is how the tag is shown: the padded tag alone when colors are off,
/// the padded tag in the tag's style when they are on.
pub open spec fn tag_shown(t: StatusTag, colors: bool, s: Seq<char>) -> bool {
    if colors {
        styled_as(s, tag_code(t), tag_box(t))
    } else {
        s == tag_box(t)
    }
}

// ---------------------------------------------------------------------------
// Status lines and diffs
// ---------------------------------------------------------------------------

/// An optional string slice taken by value.
pub open spec fn opt_text(o: Option<&str>) -> Option<Seq<char>> {
    match o {
        Some(s) => Some(s@),
        None => None,
    }
}

/// The line `<tag>  <path> (<strategy>)[: <detail>]`.
pub open spec fn status_line(
    tag: Seq<char>,
    path: Seq<char>,
    strategy: Strategy,
    detail: Option<Seq<char>>,
) -> Seq<char> {
    tag + "  "@ + path + " ("@ + strategy_name(strategy) + ")"@ + match detail {
        Some(d) => ": "@ + d,
        None => Seq::empty(),
    } + "\n"@
}

/// Build a single `[TAG]  path (strategy)[: detail]` line, newline included,
/// around an already styled tag.
pub fn status_text(tag: &str, path: &str, strategy: Strategy, detail: Option<&str>) -> (s: String)
    ensures
        s@ == status_line(tag@, path@, strategy, opt_text(detail)),
{
    let mut s = String::from_str(tag);
    s.append("  ");
    s.append(path);
    s.append(" (");
    let name = strategy.to_string();
    s.append(name.as_str());
    s.append(")");
    match detail {
        Some(d) => {
            s.append(": ");
            s.append(d);
        },
        None => {},
    }
    s.append("\n");
    s
}

/// Write a single `[TAG]  path (strategy)[: detail]` line, the tag in its
/// style when `colors` is on.
pub fn emit_status_with(
    w: &mut Vec<u8>,
    tag: StatusTag,
    path: &str,
    strategy: Strategy,
    detail: Option<&str>,
    colors: bool,
) -> (r: Result<(), std::io::Error>)
    ensures
        r is Ok,
        exists|t: Seq<char>|
            tag_shown(tag, colors, t) && final(w)@ == old(w)@ + crate::text::utf8(
                #[trigger] status_line(t, path@, strategy, opt_text(detail)),
            ),
        !colors ==> final(w)@ == old(w)@ + crate::text::utf8(
            status_line(tag_box(tag), path@, strategy, opt_text(detail)),
        ),
{
    let styled = tag.styled_with(colors);
    let line = status_text(styled.as_str(), path, strategy, detail);
    write_text(w, line.as_str());
    Ok(())
}

/// Write a single `[TAG]  path (strategy)[: detail]` line, the tag styled
/// when terminal colors are enabled.
pub fn emit_status(
    w: &mut Vec<u8>,
    tag: StatusTag,
    path: &str,
    strategy: Strategy,
    detail: Option<&str>,
) -> (r: Result<(), std::io::Error>)
    ensures
        r is Ok,
        exists|colors: bool, t: Seq<char>|
            #[trigger] tag_shown(tag, colors, t) && final(w)@ == old(w)@ + crate::text::utf8(
                status_line(t, path@, strategy, opt_text(detail)),
            ),
{
    emit_status_with(w, tag, path, strategy, detail, colors_enabled())
}

/// The style of a diff line: dim for an annotation (`#`), bold for a file
/// header (`---`, `+++`), cyan for a hunk header (`@@`), green for an
/// addition (`+`), red for a deletion (`-`), none for any other line.
pub open spec fn diff_line_code(line: Seq<char>) -> Option<Seq<char>> {
    if starts_with(line, "#"@) {
        Some(dim_code())
    } else if starts_with(line, "---"@) || starts_with(line, "+++"@) {
        Some(bold_code())
    } else if starts_with(line, "@@"@) {
        Some(cyan_code())
    } else if starts_with(line, "+"@) {
        Some(green_code())
    } else if starts_with(line, "-"@) {
        Some(red_code())
    } else {
        None
    }
}

/// `part` is `line` in the style of its kind, ended with `\n`.
pub open spec fn styled_line(part: Seq<char>, line: Seq<char>) -> bool {
    exists|t: Seq<char>|
        part == t + "\n"@ && match diff_line_code(line) {
            Some(code) => styled_as(t, code, line),
            None => t == line,
        }
}

/// Each line in the style of its kind and ended with `\n`.
pub open spec fn colorized(out: Seq<char>, lines: Seq<Seq<char>>) -> bool {
    exists|parts: Seq<Seq<char>>|
        parts.len() == lines.len() && out == parts.flatten() && forall|i: int|
            0 <= i < parts.len() ==> #[trigger] styled_line(parts[i], lines[i])
}

/// `out` is how a diff is shown: the diff itself when colors are off, each
/// line in the style of its kind when they are on.
pub open spec fn diff_shown(diff: Seq<char>, colors: bool, out: Seq<char>) -> bool {
    if colors {
        colorized(out, text_lines(diff))
    } else {
        out == diff
    }
}

/// Apply ANSI color codes to a unified diff string.
///
/// Returns the original string unchanged when colors are disabled (non-TTY,
/// `NO_COLOR`, or `TERM=dumb`); otherwise each line is styled by its kind
/// (annotation, file header, hunk header, addition, deletion) and ended with
/// a newline.
pub fn colorize_diff(diff: &str) -> (r: String)
    ensures
        exists|colors: bool| diff_shown(diff@, colors, r@),
{
    colorize_diff_with(diff, colors_enabled())
}

/// Apply ANSI color codes to a unified diff string when `colors` is on; the
/// diff unchanged otherwise.
pub fn colorize_diff_with(diff: &str, colors: bool) -> (r: String)
    ensures
        diff_shown(diff@, colors, r@),
{
    if !colors {
        return String::from_str(diff);
    }
    let cs = crate::text::chars_of(diff);
    let spans = line_spans(&cs);
    let ghost lines = text_lines(diff@);
    let mut out = String::new();
    let ghost mut parts: Seq<Seq<char>> = Seq::empty();
    let mut k: usize = 0;
    assert(parts.flatten() =~= out@);
    let ghost sp = spans@;
    let ghost cv = cs@;
    assert(cv == diff@);
    while k < spans.len()
        invariant
            k <= spans.len(),
            cv == diff@,
            sp == spans@,
            lines == text_lines(diff@),
            sp.len() == lines.len(),
            forall|q: int|
                #![trigger sp[q]]
                0 <= q < sp.len() ==> sp[q].0 <= sp[q].1 <= cv.len() && cv.subrange(
                    sp[q].0 as int,
                    sp[q].1 as int,
                ) == lines[q],
            parts.len() == k,
            out@ == parts.flatten(),
            forall|i: int| 0 <= i < parts.len() ==> #[trigger] styled_line(parts[i], lines[i]),
        decreases spans.len() - k,
    {
        let (from, to) = spans[k];
        assert(cv.subrange(from as int, to as int) == lines[k as int]);
        let line = diff.substring_char(from, to);
        let lc = crate::text::chars_of(line);
        let styled = if crate::text::starts_with_exec(&lc, "#") {
            crate::style::dim(line)
        } else if crate::text::starts_with_exec(&lc, "---") || crate::text::starts_with_exec(
            &lc,
            "+++",
        ) {
            crate::style::bold(line)
        } else if crate::text::starts_with_exec(&lc, "@@") {
            crate::style::cyan(line)
        } else if crate::text::starts_with_exec(&lc, "+") {
            crate::style::green(line)
        } else if crate::text::starts_with_exec(&lc, "-") {
            crate::style::red(line)
        } else {
            String::from_str(line)
        };
        let ghost old_parts = parts;
        let ghost piece = styled@ + "\n"@;
        assert(line@ == lines[k as int]);
        assert(lc@ == line@);
        assert(styled_line(piece, lines[k as int]));
        out.append(styled.as_str());
        out.append("\n");
        proof {
            old_parts.lemma_flatten_push(piece);
            parts = parts.push(piece);
            assert forall|i: int| 0 <= i < parts.len() implies #[trigger] styled_line(
                parts[i],
                lines[i],
            ) by {
                if i < old_parts.len() {
                    assert(parts[i] == old_parts[i]);
                } else {
                    assert(parts[i] == styled@ + "\n"@);
                }
            }
        }
        k = k + 1;
    }
    out
}

/// Write a diff block, highlighted when `colors` is on, followed by a blank
/// line.  Does nothing when `diff` is empty.
pub fn emit_diff_with(w: &mut Vec<u8>, diff: &str, colors: bool) -> (r: Result<(), std::io::Error>)
    ensures
        r is Ok,
        diff@.len() == 0 ==> final(w)@ == old(w)@,
        diff@.len() > 0 ==> exists|c: Seq<char>|
            diff_shown(diff@, colors, c) && final(w)@ == old(w)@ + #[trigger] crate::text::utf8(c)
                + crate::text::utf8("\n"@),
        diff@.len() > 0 && !colors ==> final(w)@ == old(w)@ + crate::text::utf8(diff@)
            + crate::text::utf8("\n"@),
{
    if diff.unicode_len() == 0 {
        return Ok(());
    }
    let colored = colorize_diff_with(diff, colors);
    let ghost start = w@;
    write_text(w, colored.as_str());
    write_text(w, "\n");
    assert(w@ == start + crate::text::utf8(colored@) + crate::text::utf8("\n"@));
    Ok(())
}

/// Write a diff block with ANSI syntax highlighting when terminal colors are
/// enabled, followed by a blank line.
///
/// Does nothing when `diff` is empty.
pub fn emit_diff(w: &mut Vec<u8>, diff: &str) -> (r: Result<(), std::io::Error>)
    ensures
        r is Ok,
        diff@.len() == 0 ==> final(w)@ == old(w)@,
        diff@.len() > 0 ==> exists|colors: bool, c: Seq<char>|
            #[trigger] diff_shown(diff@, colors, c) && final(w)@ == old(w)@ + crate::text::utf8(c)
                + crate::text::utf8("\n"@),
{
    emit_diff_with(w, diff, colors_enabled())
}

/// The one-line annotation prepended to diff output to identify each side.
pub open spec fn diff_header(repo: Seq<char>, ref_: Seq<char>) -> Seq<char> {
    "# a/ = local, b/ = upstream ("@ + repo + "@"@ + ref_ + ")"@
}

/// Build the one-line annotation prepended to diff output to identify each side.
///
/// Returns `# a/ = local, b/ = upstream ({repo}@{ref})` without a trailing
/// newline.
pub fn build_diff_context_header(upstream_repo: &str, upstream_ref: &str) -> (s: String)
    ensures
        s@ == diff_header(upstream_repo@, upstream_ref@),
{
    let mut s = String::from_str("# a/ = local, b/ = upstream (");
    s.append(upstream_repo);
    s.append("@");
    s.append(upstream_ref);
    s.append(")");
    s
}

// ---------------------------------------------------------------------------
// Summary
// ---------------------------------------------------------------------------

/// Summary counters collected across all outcomes.
#[derive(Debug)]
pub struct Summary {
    /// Rules that produced a file change.
    pub changed: usize,
    /// Rules that left the file unchanged.
    pub unchanged: usize,
    /// Rules that were intentionally skipped.
    pub skipped: usize,
    /// Rules that deleted a file.
    pub deleted: usize,
    /// Rules that conflicted (patch strategy).
    pub conflicts: usize,
    /// Rules that returned an error.
    pub errors: usize,
}

impl Default for Summary {
    fn default() -> (s: Summary)
        ensures
            s.changed == 0 && s.unchanged == 0 && s.skipped == 0,
            s.deleted == 0 && s.conflicts == 0 && s.errors == 0,
    {
        Summary { changed: 0, unchanged: 0, skipped: 0, deleted: 0, conflicts: 0, errors: 0 }
    }
}

/// The kinds of strategy outcome, one per variant.
pub enum OutcomeKind {
    Changed,
    Unchanged,
    Skipped,
    Deleted,
    Conflict,
    Error,
}

/// The kind of an outcome.
pub open spec fn kind_of(o: Outcome) -> OutcomeKind {
    match o {
        Outcome::Changed(_) => OutcomeKind::Changed,
        Outcome::Unchanged => OutcomeKind::Unchanged,
        Outcome::Skipped(_) => OutcomeKind::Skipped,
        Outcome::Deleted => OutcomeKind::Deleted,
        Outcome::Conflict(_) => OutcomeKind::Conflict,
        Outcome::Error(_) => OutcomeKind::Error,
    }
}

/// How many of the rule outcomes have a result of kind `k`.
pub open spec fn count_kind(s: Seq<RuleOutcome>, k: OutcomeKind) -> nat
    decreases s.len(),
{
    if s.len() == 0 {
        0
    } else {
        count_kind(s.drop_last(), k) + if kind_of(s.last().result@) == k {
            1nat
        } else {
            0nat
        }
    }
}

/// How many of the drift outcomes drifted (`d`) or did not (`!d`).
pub open spec fn count_drift(s: Seq<DriftOutcome>, d: bool) -> nat
    decreases s.len(),
{
    if s.len() == 0 {
        0
    } else {
        count_drift(s.drop_last(), d) + if s.last().drifted == d {
            1nat
        } else {
            0nat
        }
    }
}

/// Every rule outcome is counted under exactly one kind: the six counts add
/// up to the number of outcomes.
pub proof fn lemma_every_outcome_counted(s: Seq<RuleOutcome>)
    ensures
        count_kind(s, OutcomeKind::Changed) + count_kind(s, OutcomeKind::Unchanged) + count_kind(
            s,
            OutcomeKind::Skipped,
        ) + count_kind(s, OutcomeKind::Deleted) + count_kind(s, OutcomeKind::Conflict)
            + count_kind(s, OutcomeKind::Error) == s.len(),
    decreases s.len(),
{
    if s.len() > 0 {
        lemma_every_outcome_counted(s.drop_last());
    }
}

/// Every drift outcome is counted once: as drifted or as up to date.
pub proof fn lemma_every_drift_counted(s: Seq<DriftOutcome>)
    ensures
        count_drift(s, true) + count_drift(s, false) == s.len(),
    decreases s.len(),
{
    if s.len() > 0 {
        lemma_every_drift_counted(s.drop_last());
    }
}

proof fn lemma_count_kind_bound(s: Seq<RuleOutcome>, k: OutcomeKind)
    ensures
        count_kind(s, k) <= s.len(),
    decreases s.len(),
{
    if s.len() > 0 {
        lemma_count_kind_bound(s.drop_last(), k);
    }
}

proof fn lemma_count_drift_bound(s: Seq<DriftOutcome>, d: bool)
    ensures
        count_drift(s, d) <= s.len(),
    decreases s.len(),
{
    if s.len() > 0 {
        lemma_count_drift_bound(s.drop_last(), d);
    }
}

impl Summary {
    /// Build a `Summary` by counting outcomes in `outcomes`.
    pub fn from_outcomes(outcomes: &[RuleOutcome<'_>]) -> (s: Summary)
        ensures
            s.changed == count_kind(outcomes@, OutcomeKind::Changed),
            s.unchanged == count_kind(outcomes@, OutcomeKind::Unchanged),
            s.skipped == count_kind(outcomes@, OutcomeKind::Skipped),
            s.deleted == count_kind(outcomes@, OutcomeKind::Deleted),
            s.conflicts == count_kind(outcomes@, OutcomeKind::Conflict),
            s.errors == count_kind(outcomes@, OutcomeKind::Error),
    {
        let mut s = Summary::default();
        let ghost all = outcomes@;
        let mut i: usize = 0;
        assert(all.take(0) =~= Seq::<RuleOutcome>::empty());
        while i < outcomes.len()
            invariant
                i <= outcomes.len(),
                all == outcomes@,
                s.changed == count_kind(all.take(i as int), OutcomeKind::Changed),
                s.unchanged == count_kind(all.take(i as int), OutcomeKind::Unchanged),
                s.skipped == count_kind(all.take(i as int), OutcomeKind::Skipped),
                s.deleted == count_kind(all.take(i as int), OutcomeKind::Deleted),
                s.conflicts == count_kind(all.take(i as int), OutcomeKind::Conflict),
                s.errors == count_kind(all.take(i as int), OutcomeKind::Error),
            decreases outcomes.len() - i,
        {
            let ghost t = all.take(i + 1);
            proof {
                assert(t.drop_last() =~= all.take(i as int));
                lemma_count_kind_bound(all.take(i as int), OutcomeKind::Changed);
                lemma_count_kind_bound(all.take(i as int), OutcomeKind::Unchanged);
                lemma_count_kind_bound(all.take(i as int), OutcomeKind::Skipped);
                lemma_count_kind_bound(all.take(i as int), OutcomeKind::Deleted);
                lemma_count_kind_bound(all.take(i as int), OutcomeKind::Conflict);
                lemma_count_kind_bound(all.take(i as int), OutcomeKind::Error);
            }
            match &outcomes[i].result {
                StrategyResult::Changed { .. } => s.changed = s.changed + 1,
                StrategyResult::Unchanged => s.unchanged = s.unchanged + 1,
                StrategyResult::Skipped { .. } => s.skipped = s.skipped + 1,
                StrategyResult::Deleted => s.deleted = s.deleted + 1,
                StrategyResult::Conflict { .. } => s.conflicts = s.conflicts + 1,
                StrategyResult::Error(_) => s.errors = s.errors + 1,
            }
            i = i + 1;
        }
        assert(all.take(i as int) =~= all);
        s
    }

    /// Build a `Summary` for ci-check drift outcomes.
    ///
    /// `drift` counts outcomes where the local state differs from expected.
    pub fn from_drift_outcomes(outcomes: &[DriftOutcome<'_>]) -> (s: DriftSummary)
        ensures
            s.drifted == count_drift(outcomes@, true),
            s.up_to_date == count_drift(outcomes@, false),
    {
        let mut drifted: usize = 0;
        let mut up_to_date: usize = 0;
        let ghost all = outcomes@;
        let mut i: usize = 0;
        assert(all.take(0) =~= Seq::<DriftOutcome>::empty());
        while i < outcomes.len()
            invariant
                i <= outcomes.len(),
                all == outcomes@,
                drifted == count_drift(all.take(i as int), true),
                up_to_date == count_drift(all.take(i as int), false),
            decreases outcomes.len() - i,
        {
            proof {
                assert(all.take(i + 1).drop_last() =~= all.take(i as int));
                lemma_count_drift_bound(all.take(i as int), true);
                lemma_count_drift_bound(all.take(i as int), false);
            }
            if outcomes[i].drifted {
                drifted = drifted + 1;
            } else {
                up_to_date = up_to_date + 1;
            }
            i = i + 1;
        }
        assert(all.take(i as int) =~= all);
        DriftSummary { drifted, up_to_date }
    }
}

/// `"<n><label>"` when `n > 0`, else nothing.
pub open spec fn count_part(n: usize, label: Seq<char>) -> Seq<Seq<char>> {
    if n > 0 {
        seq![decimal(n as nat) + label]
    } else {
        Seq::empty()
    }
}

/// The non-zero counters of a summary, in print order.
pub open spec fn summary_parts(s: Summary) -> Seq<Seq<char>> {
    count_part(s.changed, " changed"@) + count_part(s.deleted, " deleted"@) + count_part(
        s.unchanged,
        " up to date"@,
    ) + count_part(s.skipped, " skipped"@) + count_part(s.conflicts, " conflict(s)"@)
        + count_part(s.errors, " error(s)"@)
}

/// The summary footer: a `---` rule, then the counters joined by `, `, or
/// `no files processed` when all are zero.
pub open spec fn summary_text(s: Summary) -> Seq<char> {
    "---\n"@ + (if summary_parts(s).len() == 0 {
        "no files processed"@
    } else {
        join(summary_parts(s), ", "@)
    }) + "\n"@
}

fn push_count(parts: &mut Vec<String>, n: usize, label: &str)
    ensures
        crate::text::strings_view(final(parts)@) == crate::text::strings_view(old(parts)@)
            + count_part(n, label@),
{
    let ghost before = crate::text::strings_view(parts@);
    if n > 0 {
        let mut t = String::new();
        append_decimal(&mut t, n as u64);
        t.append(label);
        parts.push(t);
        assert(crate::text::strings_view(parts@) =~= before + count_part(n, label@));
    } else {
        assert(crate::text::strings_view(parts@) =~= before + count_part(n, label@));
    }
}

/// Write the summary footer line (e.g. `2 changed, 1 up to date`).
pub fn emit_summary(w: &mut Vec<u8>, summary: &Summary) -> (r: Result<(), std::io::Error>)
    ensures
        r is Ok,
        final(w)@ == old(w)@ + crate::text::utf8(summary_text(*summary)),
{
    let mut parts: Vec<String> = Vec::new();
    assert(crate::text::strings_view(parts@) =~= Seq::<Seq<char>>::empty());
    push_count(&mut parts, summary.changed, " changed");
    push_count(&mut parts, summary.deleted, " deleted");
    push_count(&mut parts, summary.unchanged, " up to date");
    push_count(&mut parts, summary.skipped, " skipped");
    push_count(&mut parts, summary.conflicts, " conflict(s)");
    push_count(&mut parts, summary.errors, " error(s)");
    assert(crate::text::strings_view(parts@) =~= summary_parts(*summary));
    let mut text = String::from_str("---\n");
    if parts.len() == 0 {
        text.append("no files processed");
    } else {
        let joined = crate::text::join_strings(&parts, ", ");
        text.append(joined.as_str());
    }
    text.append("\n");
    write_text(w, text.as_str());
    Ok(())
}

// ---------------------------------------------------------------------------
// Drift output (--ci-check)
// ---------------------------------------------------------------------------

/// A single rule evaluation result for `--ci-check` mode.
#[derive(Debug)]
pub struct DriftOutcome<'a> {
    /// The evaluated rule.
    pub rule: &'a Rule,
    /// `true` when local state diverges from the expected state.
    pub drifted: bool,
    /// Human-readable detail (e.g. "upstream has changes").
    pub detail: String,
    /// Unified diff of local vs expected (empty when `drifted = false`).
    pub diff: String,
}

/// Summary for drift detection.
#[derive(Debug)]
pub struct DriftSummary {
    /// Number of files that drifted.
    pub drifted: usize,
    /// Number of files that are up to date.
    pub up_to_date: usize,
}

impl Default for DriftSummary {
    fn default() -> (s: DriftSummary)
        ensures
            s.drifted == 0 && s.up_to_date == 0,
    {
        DriftSummary { drifted: 0, up_to_date: 0 }
    }
}

/// The drift summary footer.
pub open spec fn drift_summary_text(s: DriftSummary) -> Seq<char> {
    "---\n"@ + (if s.drifted == 0 {
        "all files up to date"@
    } else {
        decimal(s.drifted as nat) + " file(s) drifted, "@ + decimal(s.up_to_date as nat)
            + " up to date"@
    }) + "\n"@
}

/// Write the drift summary footer.
pub fn emit_drift_summary(w: &mut Vec<u8>, summary: &DriftSummary) -> (r: Result<
    (),
    std::io::Error,
>)
    ensures
        r is Ok,
        final(w)@ == old(w)@ + crate::text::utf8(drift_summary_text(*summary)),
{
    let mut text = String::from_str("---\n");
    if summary.drifted == 0 {
        text.append("all files up to date");
    } else {
        append_decimal(&mut text, summary.drifted as u64);
        text.append(" file(s) drifted, ");
        append_decimal(&mut text, summary.up_to_date as u64);
        text.append(" up to date");
        assert(text@ == "---\n"@ + decimal(summary.drifted as nat) + " file(s) drifted, "@ + decimal(
            summary.up_to_date as nat,
        ) + " up to date"@);
    }
    text.append("\n");
    assert(text@ =~= drift_summary_text(*summary));
    write_text(w, text.as_str());
    Ok(())
}

// ---------------------------------------------------------------------------
// GHA annotations
// ---------------------------------------------------------------------------

/// The workflow command that flags one drifted file.
pub open spec fn gha_annotation(path: Seq<char>) -> Seq<char> {
    "::error file="@ + path + ",title=graft drift::"@ + path + " is out of sync with upstream\n"@
}

/// One annotation per drifted outcome, in order.
pub open spec fn gha_text(s: Seq<DriftOutcome>) -> Seq<char>
    decreases s.len(),
{
    if s.len() == 0 {
        Seq::empty()
    } else {
        gha_text(s.drop_last()) + if s.last().drifted {
            gha_annotation(s.last().rule.path@)
        } else {
            Seq::empty()
        }
    }
}

/// Emit GitHub Actions workflow command annotations for each drifted file.
pub fn emit_gha_annotations(w: &mut Vec<u8>, outcomes: &[DriftOutcome<'_>]) -> (r: Result<
    (),
    std::io::Error,
>)
    ensures
        r is Ok,
        final(w)@ == old(w)@ + crate::text::utf8(gha_text(outcomes@)),
{
    let mut text = String::new();
    let ghost all = outcomes@;
    let mut i: usize = 0;
    assert(all.take(0) =~= Seq::<DriftOutcome>::empty());
    while i < outcomes.len()
        invariant
            i <= outcomes.len(),
            all == outcomes@,
            text@ == gha_text(all.take(i as int)),
        decreases outcomes.len() - i,
    {
        assert(all.take(i + 1).drop_last() =~= all.take(i as int));
        let o = &outcomes[i];
        if o.drifted {
            text.append("::error file=");
            text.append(o.rule.path.as_str());
            text.append(",title=graft drift::");
            text.append(o.rule.path.as_str());
            text.append(" is out of sync with upstream\n");
        }
        i = i + 1;
    }
    assert(all.take(i as int) =~= all);
    write_text(w, text.as_str());
    Ok(())
}

// ---------------------------------------------------------------------------
// PR comment
// ---------------------------------------------------------------------------

/// The table row of one drifted file.
pub open spec fn pr_row(o: DriftOutcome) -> Seq<char> {
    "| `"@ + o.rule.path@ + "` | "@ + strategy_name(o.rule.strategy) + " | DRIFT |\n"@
}

/// The collapsible diff block of one drifted file.
pub open spec fn pr_detail(o: DriftOutcome) -> Seq<char> {
    "\n<details>\n<summary>"@ + o.rule.path@ + " diff</summary>\n\n```diff\n"@ + o.diff@
        + "```\n\n</details>\n"@
}

/// The table rows of the drifted outcomes, in order.
pub open spec fn pr_rows(s: Seq<DriftOutcome>) -> Seq<char>
    decreases s.len(),
{
    if s.len() == 0 {
        Seq::empty()
    } else {
        pr_rows(s.drop_last()) + if s.last().drifted {
            pr_row(s.last())
        } else {
            Seq::empty()
        }
    }
}

/// The diff blocks of the drifted outcomes with a non-empty diff, in order.
pub open spec fn pr_details(s: Seq<DriftOutcome>) -> Seq<char>
    decreases s.len(),
{
    if s.len() == 0 {
        Seq::empty()
    } else {
        pr_details(s.drop_last()) + if s.last().drifted && s.last().diff@.len() > 0 {
            pr_detail(s.last())
        } else {
            Seq::empty()
        }
    }
}

/// Whether any outcome drifted.
pub open spec fn any_drifted(s: Seq<DriftOutcome>) -> bool {
    exists|i: int| 0 <= i < s.len() && #[trigger] s[i].drifted
}

/// The whole pull request comment.
pub open spec fn pr_comment(s: Seq<DriftOutcome>) -> Seq<char> {
    "## graft drift detected\n\n"@ + "| file | strategy | status |\n"@
        + "| ---- | -------- | ------ |\n"@ + pr_rows(s) + pr_details(s)
        + "\nRun `graft sync` locally to apply upstream changes.\n"@
}

/// Build the PR comment body for drifted files.
///
/// Returns `None` when no files drifted.
pub fn build_pr_comment(outcomes: &[DriftOutcome<'_>]) -> (r: Option<String>)
    ensures
        match r {
            Some(body) => any_drifted(outcomes@) && body@ == pr_comment(outcomes@),
            None => !any_drifted(outcomes@),
        },
{
    let ghost all = outcomes@;
    let mut rows = String::new();
    let mut details = String::new();
    let mut found = false;
    let mut i: usize = 0;
    assert(all.take(0) =~= Seq::<DriftOutcome>::empty());
    while i < outcomes.len()
        invariant
            i <= outcomes.len(),
            all == outcomes@,
            rows@ == pr_rows(all.take(i as int)),
            details@ == pr_details(all.take(i as int)),
            found == exists|j: int| 0 <= j < i && #[trigger] all[j].drifted,
        decreases outcomes.len() - i,
    {
        assert(all.take(i + 1).drop_last() =~= all.take(i as int));
        let o = &outcomes[i];
        if o.drifted {
            found = true;
            rows.append("| `");
            rows.append(o.rule.path.as_str());
            rows.append("` | ");
            let name = o.rule.strategy.to_string();
            rows.append(name.as_str());
            rows.append(" | DRIFT |\n");
            if o.diff.unicode_len() > 0 {
                details.append("\n<details>\n<summary>");
                details.append(o.rule.path.as_str());
                details.append(" diff</summary>\n\n```diff\n");
                details.append(o.diff.as_str());
                details.append("```\n\n</details>\n");
            }
        }
        i = i + 1;
    }
    assert(all.take(i as int) =~= all);
    if !found {
        return None;
    }
    let mut body = String::from_str("## graft drift detected\n\n");
    body.append("| file | strategy | status |\n");
    body.append("| ---- | -------- | ------ |\n");
    body.append(rows.as_str());
    body.append(details.as_str());
    body.append("\nRun `graft sync` locally to apply upstream changes.\n");
    Some(body)
}

} // verus!
