//! Comparison of scored assets: by score alone.

use core::cmp::Ordering;
use vstd::prelude::*;
use vstd::std_specs::cmp::{PartialEqSpecImpl, PartialOrdSpecImpl};
use crate::asset::AssetInfo;

verus! {

/// How two scores stand to each other.
pub open spec fn score_order(left: nat, right: nat) -> Ordering {
    if left < right {
        Ordering::Less
    } else if left == right {
        Ordering::Equal
    } else {
        Ordering::Greater
    }
}

impl AssetInfo {
    /// Compares two assets by their scores.
    pub fn cmp(&self, other: &Self) -> (order: Ordering)
        ensures
            order == score_order(self@.matches, other@.matches),
    {
        let left: u8 = self.matches();
        let right: u8 = other.matches();
        if left < right {
            Ordering::Less
        } else if left == right {
            Ordering::Equal
        } else {
            Ordering::Greater
        }
    }
}

impl PartialEq for AssetInfo {
    /// Two assets are equal when their scores are, whatever else they hold.
    fn eq(&self, other: &Self) -> (same: bool) {
        self.matches() == other.matches()
    }
}

impl PartialEqSpecImpl for AssetInfo {
    open spec fn obeys_eq_spec() -> bool {
        true
    }

    open spec fn eq_spec(&self, other: &Self) -> bool {
        self@.matches == other@.matches
    }
}

impl Eq for AssetInfo {

}

impl PartialOrd for AssetInfo {
    /// Assets are ordered by their scores.
    fn partial_cmp(&self, other: &Self) -> (order: Option<Ordering>) {
        Some(self.cmp(other))
    }
}

impl PartialOrdSpecImpl for AssetInfo {
    open spec fn obeys_partial_cmp_spec() -> bool {
        true
    }

    open spec fn partial_cmp_spec(&self, other: &Self) -> Option<Ordering> {
        Some(score_order(self@.matches, other@.matches))
    }
}

} // verus!
