//! File sync strategies and their common result type.
use vstd::prelude::*;

pub mod create_only;
pub mod delete;
pub mod markers;
pub mod patch;
pub mod replace;

verus! {

/// Outcome of applying a synchronisation strategy to a single rule.
#[derive(Debug)]
pub enum StrategyResult {
    /// File content changed; `content` is the new bytes to write.
    Changed {
        /// New file contents to write to disk.
        content: Vec<u8>,
    },
    /// Local file already matches the expected state — no write needed.
    Unchanged,
    /// Rule was intentionally not applied (e.g. `create_only` with existing file).
    Skipped {
        /// Human-readable explanation of why the rule was skipped.
        reason: String,
    },
    /// File should be deleted (returned by the `delete` strategy).
    Deleted,
    /// Patch application conflicted; the file was NOT modified.
    Conflict {
        /// Human-readable description of the conflict.
        message: String,
    },
    /// Rule application failed (non-recoverable).
    Error(String),
}

/// A strategy outcome taken by value.
pub enum Outcome {
    Changed(Seq<u8>),
    Unchanged,
    Skipped(Seq<char>),
    Deleted,
    Conflict(Seq<char>),
    Error(Seq<char>),
}

impl View for StrategyResult {
    type V = Outcome;

    open spec fn view(&self) -> Outcome {
        match self {
            StrategyResult::Changed { content } => Outcome::Changed(content@),
            StrategyResult::Unchanged => Outcome::Unchanged,
            StrategyResult::Skipped { reason } => Outcome::Skipped(reason@),
            StrategyResult::Deleted => Outcome::Deleted,
            StrategyResult::Conflict { message } => Outcome::Conflict(message@),
            StrategyResult::Error(m) => Outcome::Error(m@),
        }
    }
}

/// An optional byte slice taken by value.
pub open spec fn opt_bytes(o: Option<&[u8]>) -> Option<Seq<u8>> {
    match o {
        Some(b) => Some(b@),
        None => None,
    }
}

/// `Unchanged` when the local bytes are exactly `expected`, else `Changed`
/// with `expected`.
pub open spec fn settle(local: Option<Seq<u8>>, expected: Seq<u8>) -> Outcome {
    if local == Some(expected) {
        Outcome::Unchanged
    } else {
        Outcome::Changed(expected)
    }
}

/// Copy a byte slice into a new vector.
pub fn bytes_to_vec(b: &[u8]) -> (v: Vec<u8>)
    ensures
        v@ == b@,
{
    let mut v: Vec<u8> = Vec::new();
    let mut i: usize = 0;
    while i < b.len()
        invariant
            i <= b.len(),
            v@ == b@.take(i as int),
        decreases b.len() - i,
    {
        v.push(b[i]);
        i = i + 1;
        assert(b@.take(i as int) == b@.take(i - 1) + seq![b@[i - 1]]);
    }
    assert(b@.take(i as int) == b@);
    v
}

/// Whether two byte slices hold the same bytes.
pub fn bytes_eq(a: &[u8], b: &[u8]) -> (r: bool)
    ensures
        r == (a@ == b@),
{
    if a.len() != b.len() {
        return false;
    }
    let mut i: usize = 0;
    while i < a.len()
        invariant
            i <= a.len() == b.len(),
            forall|j: int| 0 <= j < i ==> a@[j] == b@[j],
        decreases a.len() - i,
    {
        if a[i] != b[i] {
            return false;
        }
        i = i + 1;
    }
    assert(a@ =~= b@);
    true
}

/// Whether the optional local bytes are exactly `expected`.
pub fn local_is(local: Option<&[u8]>, expected: &[u8]) -> (r: bool)
    ensures
        r == (opt_bytes(local) == Some(expected@)),
{
    match local {
        Some(l) => bytes_eq(l, expected),
        None => false,
    }
}

} // verus!
