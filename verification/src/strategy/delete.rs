//! `delete` strategy: explicitly remove a local file or directory.
use vstd::prelude::*;

use super::{Outcome, StrategyResult};

verus! {

/// Apply the `delete` strategy.
///
/// Marks the local file for deletion when it exists.  If the file is already
/// absent the rule is skipped without error.
pub fn apply(local_exists: bool) -> (r: StrategyResult)
    ensures
        r@ == (if local_exists {
            Outcome::Deleted
        } else {
            Outcome::Skipped("file does not exist"@)
        }),
{
    if local_exists {
        StrategyResult::Deleted
    } else {
        StrategyResult::Skipped { reason: String::from_str("file does not exist") }
    }
}

} // verus!
