//! Error types for manifest validation and sync operations.
use std::path::PathBuf;

use vstd::prelude::*;

use crate::external::path_text;
use crate::text::{append_decimal, decimal};

verus! {

/// A single schema or reference validation failure.
#[derive(Debug, PartialEq, Eq)]
pub struct ValidationError {
    /// Zero-based index of the rule that failed, or `None` for top-level errors.
    pub rule_index: Option<usize>,
    /// The field name that violated a constraint (e.g. `"path"`, `"strategy"`).
    pub field: String,
    /// Human-readable description of the violation.
    pub message: String,
}

/// A validation error taken by value: rule index, field, message.
pub type ErrorView = (Option<usize>, Seq<char>, Seq<char>);

impl View for ValidationError {
    type V = ErrorView;

    open spec fn view(&self) -> ErrorView {
        (self.rule_index, self.field@, self.message@)
    }
}

/// Validation errors taken by value.
pub open spec fn errors_view(v: Seq<ValidationError>) -> Seq<ErrorView> {
    v.map_values(|e: ValidationError| e@)
}

/// A top-level error by value.
pub open spec fn top(field: Seq<char>, message: Seq<char>) -> ErrorView {
    (None, field, message)
}

/// An error of rule `i` by value.
pub open spec fn at_rule(i: usize, field: Seq<char>, message: Seq<char>) -> ErrorView {
    (Some(i), field, message)
}

impl ValidationError {
    /// Create a top-level (non-rule) validation error.
    pub fn top_level(field: &str, message: &str) -> (e: Self)
        ensures
            e@ == top(field@, message@),
    {
        ValidationError {
            rule_index: None,
            field: String::from_str(field),
            message: String::from_str(message),
        }
    }

    /// Create a rule-level validation error for the rule at `index`.
    pub fn rule(index: usize, field: &str, message: &str) -> (e: Self)
        ensures
            e@ == at_rule(index, field@, message@),
    {
        ValidationError {
            rule_index: Some(index),
            field: String::from_str(field),
            message: String::from_str(message),
        }
    }

    /// The error as shown to users: `field: message` for a top-level error,
    /// `files[i].field: message` for a rule error.
    pub fn to_string(&self) -> (s: String)
        ensures
            s@ == error_text(self@),
    {
        let mut s = String::new();
        match self.rule_index {
            None => {},
            Some(i) => {
                s.append("files[");
                append_decimal(&mut s, i as u64);
                s.append("].");
            },
        }
        s.append(self.field.as_str());
        s.append(": ");
        s.append(self.message.as_str());
        s
    }
}

/// How a validation error is shown.
pub open spec fn error_text(e: ErrorView) -> Seq<char> {
    match e.0 {
        None => e.1 + ": "@ + e.2,
        Some(i) => "files["@ + decimal(i as nat) + "]."@ + e.1 + ": "@ + e.2,
    }
}

/// Top-level error type for the `sync` subcommand.
#[derive(Debug)]
pub enum SyncError {
    /// The manifest file could not be read or parsed.
    ManifestLoad {
        /// Path to the manifest file.
        path: PathBuf,
        /// Underlying I/O or parse error.
        source: anyhow::Error,
    },
    /// One or more validation errors were found.
    Validation(Vec<ValidationError>),
}

/// The header for `n` errors followed by the lines of the errors in `es`.
pub open spec fn validation_text_lines(n: nat, es: Seq<ErrorView>) -> Seq<char>
    decreases es.len(),
{
    if es.len() == 0 {
        decimal(n) + " validation error(s):"@
    } else {
        validation_text_lines(n, es.drop_last()) + "\n  - "@ + error_text(es.last())
    }
}

impl SyncError {
    /// The error as shown to users.  For a validation failure: the count of
    /// errors, then each error on its own line.  For a load failure: the path
    /// and the cause.
    pub fn to_string(&self) -> (s: String)
        ensures
            match self {
                SyncError::Validation(es) => s@ == validation_text_lines(
                    es.len() as nat,
                    errors_view(es@),
                ),
                SyncError::ManifestLoad { .. } => starts_with_load(s@),
            },
    {
        match self {
            SyncError::ManifestLoad { path, source } => {
                let mut s = String::from_str("failed to load manifest ");
                let ghost pre = s@;
                let p = path_text(path);
                s.append(p.as_str());
                s.append(": ");
                let cause = source.to_string();
                s.append(cause.as_str());
                assert(s@.take(pre.len() as int) =~= pre);
                s
            },
            SyncError::Validation(errors) => {
                let mut s = String::new();
                append_decimal(&mut s, errors.len() as u64);
                s.append(" validation error(s):");
                let ghost ev = errors_view(errors@);
                let mut i: usize = 0;
                assert(ev.take(0) =~= Seq::<ErrorView>::empty());
                while i < errors.len()
                    invariant
                        i <= errors.len(),
                        ev == errors_view(errors@),
                        s@ == validation_text_lines(errors.len() as nat, ev.take(i as int)),
                    decreases errors.len() - i,
                {
                    s.append("\n  - ");
                    let line = errors[i].to_string();
                    s.append(line.as_str());
                    assert(ev.take(i + 1).drop_last() =~= ev.take(i as int));
                    i = i + 1;
                }
                assert(ev.take(i as int) =~= ev);
                s
            },
        }
    }

    /// The message of the underlying cause of a load failure, when that cause
    /// has one; a validation failure has none.
    pub fn source(&self) -> (r: Option<String>)
        ensures
            self is Validation ==> r is None,
    {
        match self {
            SyncError::ManifestLoad { source, .. } => crate::external::anyhow_source_text(source),
            SyncError::Validation(_) => None,
        }
    }
}

/// The text of a load failure starts with its fixed prefix.
pub open spec fn starts_with_load(s: Seq<char>) -> bool {
    crate::text::starts_with(s, "failed to load manifest "@)
}

} // verus!
