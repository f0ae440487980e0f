//! Account statistics.

use vstd::prelude::*;

verus! {

/// Counts the service reports for the current account.
#[derive(Default, Debug, Clone, Copy, PartialEq, Eq, Structural)]
pub struct AccountStats {
    pub user_count: usize,
    pub recipe_count: usize,
    pub pantry_item_count: usize,
    pub label_count: usize,
}

} // verus!
