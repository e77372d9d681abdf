//! `create_only` strategy: create file only if it does not exist locally.
use vstd::prelude::*;

use super::{bytes_to_vec, Outcome, StrategyResult};

verus! {

/// Apply the `create_only` strategy.
///
/// Writes `upstream` content to the local path only when the file does not yet
/// exist.  If the file already exists, the rule is skipped without modification.
pub fn apply(upstream: &[u8], local_exists: bool) -> (r: StrategyResult)
    ensures
        r@ == (if local_exists {
            Outcome::Skipped("file already exists"@)
        } else {
            Outcome::Changed(upstream@)
        }),
{
    if local_exists {
        StrategyResult::Skipped { reason: String::from_str("file already exists") }
    } else {
        StrategyResult::Changed { content: bytes_to_vec(upstream) }
    }
}

} // verus!
