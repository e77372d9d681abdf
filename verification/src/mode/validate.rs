//! `--validate` mode: the text reported for each rule and the closing
//! summary.
use vstd::prelude::*;

use crate::manifest::{patch_path_spec, resolve_patch_path, strategy_name, Rule, Strategy};
use crate::text::{append_decimal, decimal};

verus! {

/// What is reported of a rule: its strategy, and for a `patch` rule the
/// patch file it reads and whether that file exists.
pub open spec fn rule_detail_spec(rule: Rule, patch_exists: bool) -> Seq<char> {
    if rule.strategy == Strategy::Patch {
        strategy_name(rule.strategy) + " -> "@ + patch_path_spec(rule) + " ("@ + (if patch_exists {
            "exists"@
        } else {
            "not found"@
        }) + ")"@
    } else {
        strategy_name(rule.strategy)
    }
}

/// Build the detail reported for `rule`; `patch_exists` tells whether its
/// patch file exists (read for `patch` rules only).
pub fn rule_detail(rule: &Rule, patch_exists: bool) -> (s: String)
    ensures
        s@ == rule_detail_spec(*rule, patch_exists),
{
    let mut s = rule.strategy.to_string();
    if rule.strategy == Strategy::Patch {
        s.append(" -> ");
        let p = resolve_patch_path(rule);
        s.append(p.as_str());
        if patch_exists {
            s.append(" (exists)");
        } else {
            s.append(" (not found)");
        }
        proof {
            reveal_strlit(" (exists)");
            reveal_strlit(" (not found)");
            reveal_strlit(" (");
            reveal_strlit("exists");
            reveal_strlit("not found");
            reveal_strlit(")");
        }
    }
    assert(s@ =~= rule_detail_spec(*rule, patch_exists));
    s
}

/// The closing line of a validation: how many files were checked, and
/// whether all was well.
pub open spec fn validation_summary_spec(n_files: nat, ok: bool) -> Seq<char> {
    if ok {
        decimal(n_files) + " files OK"@
    } else {
        decimal(n_files) + " files checked, errors found"@
    }
}

/// Build the closing line of a validation of `n_files` rules.
pub fn validation_summary(n_files: usize, ok: bool) -> (s: String)
    ensures
        s@ == validation_summary_spec(n_files as nat, ok),
{
    let mut s = String::new();
    append_decimal(&mut s, n_files as u64);
    if ok {
        s.append(" files OK");
    } else {
        s.append(" files checked, errors found");
    }
    s
}

} // verus!
