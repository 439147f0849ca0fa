use vstd::prelude::*;

use crate::rate::{line_rate, spec_line_rate, Rate};
use crate::timing::{elapsed_nanos, Timestamp};

verus! {

/// The state of the line-rate counter: the monotonic instants of the first
/// and the last successfully read line, and how many lines were read.
/// Lines that fail to read never reach `observe`, so they advance neither
/// the count nor the timestamps.
#[derive(Clone, Copy, Debug)]
pub struct LineCounter {
    pub first_seen: Option<Timestamp>,
    pub last_seen: Option<Timestamp>,
    pub count: u64,
}

impl LineCounter {
    /// Both instants are set exactly when at least one line was observed,
    /// and they are then in monotonic order.
    pub open spec fn wf(self) -> bool {
        &&& self.first_seen is Some <==> self.last_seen is Some
        &&& self.first_seen is Some <==> self.count > 0
        &&& self.first_seen matches Some(f) ==> (self.last_seen matches Some(l) && f.nanos
            <= l.nanos)
    }

    /// The counter as one observation leaves it: the first instant is set
    /// once, the last is overwritten, the count grows by one.
    pub open spec fn observed(self, ts: Timestamp) -> LineCounter {
        LineCounter {
            first_seen: if self.first_seen is None {
                Some(ts)
            } else {
                self.first_seen
            },
            last_seen: Some(ts),
            count: (self.count + 1) as u64,
        }
    }

    /// The end-of-stream report: nothing if no line was ever observed,
    /// otherwise the aggregate rate of `count` lines over the elapsed time
    /// from the first to the last observation.
    pub open spec fn spec_finish(self) -> Option<Rate> {
        match (self.first_seen, self.last_seen) {
            (Some(f), Some(l)) => if self.count > 0 {
                Some(spec_line_rate(self.count as nat, l.nanos - f.nanos))
            } else {
                None
            },
            _ => None,
        }
    }

    /// A fresh counter: no observations yet.
    pub fn new() -> (c: LineCounter)
        ensures
            c == (LineCounter { first_seen: None, last_seen: None, count: 0 }),
            c.wf(),
    {
        LineCounter { first_seen: None, last_seen: None, count: 0 }
    }

    /// Records one successfully read line at monotonic instant `ts`.
    pub fn observe(&mut self, ts: Timestamp)
        requires
            old(self).wf(),
            old(self).last_seen matches Some(l) ==> l.nanos <= ts.nanos,
            old(self).count < u64::MAX,
        ensures
            *final(self) == old(self).observed(ts),
            final(self).wf(),
    {
        if self.first_seen.is_none() {
            self.first_seen = Some(ts);
        }
        self.last_seen = Some(ts);
        self.count = self.count + 1;
    }

    /// Consumes the state at end of stream: `None` when no line was ever
    /// observed (nothing is printed), otherwise the aggregate rate, with
    /// the `Infinite` sentinel when every line arrived within one instant.
    pub fn finish(&self) -> (r: Option<Rate>)
        requires
            self.wf(),
        ensures
            r == self.spec_finish(),
            r is Some <==> self.count > 0,
            r matches Some(rate) ==> rate.wf(),
    {
        match (self.first_seen, self.last_seen) {
            (Some(f), Some(l)) => {
                let d = elapsed_nanos(f, l);
                Some(line_rate(self.count, d))
            },
            _ => None,
        }
    }
}

/// The counter state after observing the instants `ts` in order, starting
/// from a fresh counter.
pub open spec fn counter_after(ts: Seq<Timestamp>) -> LineCounter
    decreases ts.len(),
{
    if ts.len() == 0 {
        LineCounter { first_seen: None, last_seen: None, count: 0 }
    } else {
        counter_after(ts.drop_last()).observed(ts.last())
    }
}

/// A run over at least one line keeps exactly its length as the count, the
/// first instant as `first_seen` and the last instant as `last_seen`.
pub proof fn lemma_counter_run(ts: Seq<Timestamp>)
    requires
        1 <= ts.len() <= u64::MAX,
    ensures
        counter_after(ts).count == ts.len(),
        counter_after(ts).first_seen == Some(ts[0]),
        counter_after(ts).last_seen == Some(ts.last()),
    decreases ts.len(),
{
    if ts.len() == 1 {
        assert(ts.drop_last().len() == 0);
        assert(counter_after(ts.drop_last()) == (LineCounter {
            first_seen: None,
            last_seen: None,
            count: 0,
        }));
    } else {
        lemma_counter_run(ts.drop_last());
        assert(ts.drop_last()[0] == ts[0]);
    }
}

/// The rate the counter reports for a run over the instants `ts`: the
/// number of lines divided by the time elapsed from the first to the last
/// of them — `Infinite` when that time is zero. Lines whose read fails are
/// never observed, so they are absent from `ts`.
pub proof fn lemma_lines_rate(ts: Seq<Timestamp>)
    requires
        1 <= ts.len() <= u64::MAX,
    ensures
        counter_after(ts).spec_finish() == Some(
            spec_line_rate(ts.len(), ts.last().nanos - ts[0].nanos),
        ),
{
    lemma_counter_run(ts);
}

/// The instants `ts`, each moved later by the same `shift`.
pub open spec fn shifted(ts: Seq<Timestamp>, shift: u64) -> Seq<Timestamp> {
    Seq::new(ts.len(), |i: int| Timestamp { nanos: (ts[i].nanos + shift) as u64 })
}

/// Re-running the same finite input produces the same report: the rate
/// depends only on the gaps between the observation instants, so moving
/// the whole run by a constant clock offset changes nothing.
pub proof fn lemma_rerun_shift_invariant(ts: Seq<Timestamp>, shift: u64)
    requires
        1 <= ts.len() <= u64::MAX,
        forall|i: int| 0 <= i < ts.len() ==> ts[i].nanos + shift <= u64::MAX,
    ensures
        counter_after(shifted(ts, shift)).spec_finish() == counter_after(ts).spec_finish(),
{
    lemma_counter_run(ts);
    lemma_counter_run(shifted(ts, shift));
    assert(shifted(ts, shift)[0] == Timestamp { nanos: (ts[0].nanos + shift) as u64 });
    assert(shifted(ts, shift).last() == Timestamp {
        nanos: (ts[ts.len() - 1].nanos + shift) as u64,
    });
    assert(ts[0].nanos + shift <= u64::MAX);
    assert(ts[ts.len() - 1].nanos + shift <= u64::MAX);
}

} // verus!
