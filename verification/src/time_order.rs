//! The order of instants: by their total number of nanoseconds.
//!
//! Equality of instants is equality of their fields. The two agree on
//! instants whose nanoseconds stay below one second, as those of the system
//! clock and of `checked_add` do; two instants that write the same total
//! in different ways compare `Equal` here and are still not equal.

use crate::time::Timestamp;
use core::cmp::Ordering;
use vstd::prelude::*;
use vstd::std_specs::cmp::PartialOrdSpecImpl;

verus! {

impl PartialOrd for Timestamp {
    fn partial_cmp(&self, other: &Self) -> (order: Option<Ordering>) {
        let a = self.to_nanos();
        let b = other.to_nanos();
        if a < b {
            Some(Ordering::Less)
        } else if a > b {
            Some(Ordering::Greater)
        } else {
            Some(Ordering::Equal)
        }
    }
}

impl PartialOrdSpecImpl for Timestamp {
    open spec fn obeys_partial_cmp_spec() -> bool {
        true
    }

    open spec fn partial_cmp_spec(&self, other: &Self) -> Option<Ordering> {
        if self.as_nanos() < other.as_nanos() {
            Some(Ordering::Less)
        } else if self.as_nanos() > other.as_nanos() {
            Some(Ordering::Greater)
        } else {
            Some(Ordering::Equal)
        }
    }
}

} // verus!
