//! The time of the system clock.

use crate::trusted::{nanos_of, since_epoch};
use vstd::prelude::*;

verus! {

/// The nanoseconds since the Unix epoch on the system clock, or `None`
/// when the clock stands before the epoch.
pub fn now() -> (nanos: Option<u128>) {
    match since_epoch() {
        Some(elapsed) => Some(nanos_of(&elapsed)),
        None => None,
    }
}

} // verus!
