//! Marker types of asynchronous runtimes.

use vstd::prelude::*;

verus! {

/// Timeout marker: an operation did not complete within its time.
#[derive(Debug, Clone, Copy, PartialEq, Eq, Structural)]
pub struct TimedOut;

} // verus!
