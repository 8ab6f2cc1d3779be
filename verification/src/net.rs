//! Network security helpers.

use vstd::prelude::*;
use std::collections::HashSet;

verus! {

broadcast use vstd::std_specs::hash::group_hash_axioms;

/// How to interpret a list of restrictions for security.
#[derive(Debug, Clone, Copy, PartialEq, Eq, Structural)]
pub enum ControlListMode {
    /// Everything else, except for what is in the list, is allowed.
    Denylist,
    /// Only what is in the list is allowed.
    Allowlist,
}

/// Whether a value passes a control list: with a deny list, when the list
/// does not hold it; with an allow list, when it does.
pub fn check_list(mode: ControlListMode, list: &HashSet<u64>, value: &u64) -> (r: bool)
    ensures
        r == match mode {
            ControlListMode::Denylist => !list@.contains(*value),
            ControlListMode::Allowlist => list@.contains(*value),
        },
{
    match mode {
        ControlListMode::Denylist => !list.contains(value),
        ControlListMode::Allowlist => list.contains(value),
    }
}

} // verus!
