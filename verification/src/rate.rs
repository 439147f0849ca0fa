use vstd::prelude::*;

verus! {

/// A scalar rate: a quantity per second, held in fixed point with nine
/// fractional digits (`nanos_per_sec` is the magnitude in billionths of a
/// unit per second).
///
/// `Infinite` is the defined sentinel for every rate computed over zero
/// elapsed time (a single line, or two observations within the same
/// captured instant); it is rendered as an explicit token instead of
/// letting a platform infinity or a fault propagate.
#[derive(Clone, Copy, Debug, PartialEq, Eq, Structural)]
pub enum Rate {
    Infinite,
    Finite { negative: bool, nanos_per_sec: u128 },
}

impl Rate {
    /// A rate is canonical when a zero magnitude is never marked negative.
    pub open spec fn wf(self) -> bool {
        match self {
            Rate::Infinite => true,
            Rate::Finite { negative, nanos_per_sec } => nanos_per_sec == 0 ==> !negative,
        }
    }
}

/// The aggregate line rate: `count` lines over `dur_nanos` nanoseconds,
/// in billionths of a line per second, rounded toward zero.
pub open spec fn spec_line_rate(count: nat, dur_nanos: int) -> Rate {
    if dur_nanos <= 0 {
        Rate::Infinite
    } else {
        Rate::Finite {
            negative: false,
            nanos_per_sec: ((count * 1_000_000_000_000_000_000) / dur_nanos as nat) as u128,
        }
    }
}

/// Computes the aggregate rate of `count` lines observed over `dur_nanos`
/// nanoseconds. Zero elapsed time yields the `Infinite` sentinel.
pub fn line_rate(count: u64, dur_nanos: u64) -> (r: Rate)
    ensures
        r == spec_line_rate(count as nat, dur_nanos as int),
        r.wf(),
{
    if dur_nanos == 0 {
        Rate::Infinite
    } else {
        let scaled: u128 = (count as u128) * 1_000_000_000 * 1_000_000_000;
        Rate::Finite { negative: false, nanos_per_sec: scaled / (dur_nanos as u128) }
    }
}

} // verus!
