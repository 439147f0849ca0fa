use vstd::prelude::*;

use vstd::slice::{slice_index_get, slice_subrange};

use crate::rate::Rate;
use crate::timing::Timestamp;
use crate::value::{parse_value, spec_parses, spec_value_of, Value};

verus! {

/// The instantaneous rate between two readings: the value delta over the
/// elapsed time `dt_nanos`, in billionths of a unit per second, rounded
/// toward zero. Zero elapsed time yields the `Infinite` sentinel.
pub open spec fn spec_delta_rate(prev: Value, cur: Value, dt_nanos: int) -> Rate {
    if dt_nanos <= 0 {
        Rate::Infinite
    } else {
        let d = cur.val() - prev.val();
        let a = if d < 0 {
            -d
        } else {
            d
        };
        let m = (a * 1_000_000_000) / dt_nanos;
        Rate::Finite { negative: d < 0 && m != 0, nanos_per_sec: m as u128 }
    }
}

/// Computes the instantaneous rate from the previous reading to the
/// current one over `dt_nanos` nanoseconds.
pub fn delta_rate(prev: &Value, cur: &Value, dt_nanos: u64) -> (r: Rate)
    requires
        prev.wf(),
        cur.wf(),
    ensures
        r == spec_delta_rate(*prev, *cur, dt_nanos as int),
        r.wf(),
{
    if dt_nanos == 0 {
        Rate::Infinite
    } else {
        let (neg, mag) = if prev.negative == cur.negative {
            if cur.mag_nanos >= prev.mag_nanos {
                (cur.negative, cur.mag_nanos - prev.mag_nanos)
            } else {
                (!cur.negative, prev.mag_nanos - cur.mag_nanos)
            }
        } else {
            (cur.negative, cur.mag_nanos + prev.mag_nanos)
        };
        let m = mag * 1_000_000_000 / (dt_nanos as u128);
        Rate::Finite { negative: neg && m != 0, nanos_per_sec: m }
    }
}

/// The state of the value-rate differentiator: the most recent
/// successfully parsed value and the instant it was captured at. The two
/// fields are set together or not at all, and only a line that parses
/// updates them.
#[derive(Clone, Copy, Debug)]
pub struct Differentiator {
    pub previous_value: Option<Value>,
    pub previous_timestamp: Option<Timestamp>,
}

/// What one line did to the differentiator.
#[derive(Clone, Copy, Debug, PartialEq, Eq, Structural)]
pub enum LineOutcome {
    /// The line did not parse as a number: reported to diagnostics,
    /// state untouched.
    NotNumeric,
    /// The first valid value: stored, nothing to compare against yet.
    Primed,
    /// A valid value with a predecessor: the rate between them.
    Measured(Rate),
}

/// The line with a single trailing newline stripped, if one is there.
pub open spec fn line_content(line: Seq<u8>) -> Seq<u8> {
    if line.len() > 0 && line.last() == 10 {
        line.drop_last()
    } else {
        line
    }
}

impl Differentiator {
    /// Both fields are set together, and a stored value is well formed.
    pub open spec fn wf(self) -> bool {
        &&& self.previous_value is Some <==> self.previous_timestamp is Some
        &&& self.previous_value matches Some(v) ==> v.wf()
    }

    /// A fresh differentiator: no reading stored yet.
    pub fn new() -> (d: Differentiator)
        ensures
            d == (Differentiator { previous_value: None, previous_timestamp: None }),
            d.wf(),
    {
        Differentiator { previous_value: None, previous_timestamp: None }
    }

    /// Feeds one successfully parsed value `v`, captured at monotonic
    /// instant `ts`: returns the rate against the stored reading if there
    /// is one, and stores `v` and `ts` in either case.
    pub fn step(&mut self, v: Value, ts: Timestamp) -> (r: Option<Rate>)
        requires
            old(self).wf(),
            v.wf(),
            old(self).previous_timestamp matches Some(pt) ==> pt.nanos <= ts.nanos,
        ensures
            final(self).wf(),
            final(self).previous_value == Some(v),
            final(self).previous_timestamp == Some(ts),
            match old(self).previous_timestamp {
                None => r is None,
                Some(pt) => r == Some(
                    spec_delta_rate(old(self).previous_value->0, v, ts.nanos - pt.nanos),
                ),
            },
            r matches Some(rate) ==> rate.wf(),
    {
        let r = match (&self.previous_value, &self.previous_timestamp) {
            (Some(pv), Some(pt)) => Some(delta_rate(pv, &v, ts.nanos - pt.nanos)),
            _ => None,
        };
        self.previous_value = Some(v);
        self.previous_timestamp = Some(ts);
        r
    }

    /// Feeds one raw input line, captured at monotonic instant `ts`: a
    /// single trailing newline is stripped, the rest must parse as a
    /// decimal value. A line that does not parse is skipped without
    /// touching the state; the first parsed value only primes the state;
    /// every later parsed value yields the rate since its predecessor.
    pub fn observe_line(&mut self, line: &[u8], ts: Timestamp) -> (out: LineOutcome)
        requires
            old(self).wf(),
            old(self).previous_timestamp matches Some(pt) ==> pt.nanos <= ts.nanos,
        ensures
            final(self).wf(),
            match out {
                LineOutcome::NotNumeric => !spec_parses(line_content(line@)) && *final(self)
                    == *old(self),
                LineOutcome::Primed => {
                    &&& spec_parses(line_content(line@))
                    &&& old(self).previous_timestamp is None
                    &&& final(self).previous_value == Some(spec_value_of(line_content(line@)))
                    &&& final(self).previous_timestamp == Some(ts)
                },
                LineOutcome::Measured(rate) => {
                    &&& spec_parses(line_content(line@))
                    &&& old(self).previous_timestamp matches Some(pt) && rate == spec_delta_rate(
                        old(self).previous_value->0,
                        spec_value_of(line_content(line@)),
                        ts.nanos - pt.nanos,
                    )
                    &&& final(self).previous_value == Some(spec_value_of(line_content(line@)))
                    &&& final(self).previous_timestamp == Some(ts)
                    &&& rate.wf()
                },
            },
    {
        let n = line.len();
        let content: &[u8] = if n > 0 && *slice_index_get(line, n - 1) == 10 {
            slice_subrange(line, 0, n - 1)
        } else {
            line
        };
        proof {
            assert(content@ =~= line_content(line@));
        }
        match parse_value(content) {
            None => LineOutcome::NotNumeric,
            Some(v) => {
                match self.step(v, ts) {
                    None => LineOutcome::Primed,
                    Some(rate) => LineOutcome::Measured(rate),
                }
            },
        }
    }
}

} // verus!
