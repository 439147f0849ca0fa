use vstd::prelude::*;

verus! {

/// Nanoseconds in one second.
pub const NANOS_PER_SEC: u64 = 1_000_000_000;

/// A reading of a monotonic clock, counted in nanoseconds from an arbitrary
/// process-local origin. A reading carries no calendar meaning: only the
/// difference between two readings taken in order is significant.
#[derive(Clone, Copy, Debug, PartialEq, Eq, Structural)]
pub struct Timestamp {
    pub nanos: u64,
}

/// Nanoseconds elapsed from `first` to `last`, two readings taken in that
/// order from the same monotonic clock.
pub fn elapsed_nanos(first: Timestamp, last: Timestamp) -> (d: u64)
    requires
        first.nanos <= last.nanos,
    ensures
        d == last.nanos - first.nanos,
{
    last.nanos - first.nanos
}

} // verus!
