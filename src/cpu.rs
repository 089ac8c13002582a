use vstd::prelude::*;
use crate::history::{latest, BoundedHistory, ConfigError};
use crate::metrics::{Sample, FULL_PERCENT};
use crate::series::{
    clamp_percent, lemma_valid_after_append, next_stamp, stamp_after, valid_series,
};

verus! {

/// What the CPU chart shows after one tick.
#[derive(Clone, Debug, PartialEq, Eq)]
pub struct CpuChart {
    /// The utilization just sampled, for the header.
    pub current: u64,
    /// The series, oldest first.
    pub points: Vec<Sample>,
    /// Left end of the time axis: `axis_to` less the history's capacity.
    pub axis_from: i128,
    /// Right end of the time axis: the time of the newest sample.
    pub axis_to: u64,
}

/// The utilization recorded for a reading: clamped to 100%, and `0` when the
/// OS reported none.
pub open spec fn cpu_value(reading: Option<u64>) -> u64 {
    match reading {
        Some(v) => clamp_percent(v),
        None => 0,
    }
}

/// Tracks global CPU utilization over the last `capacity` ticks.
///
/// The first reading after start may be `0` or meaningless: the OS needs two
/// snapshots to compute a utilization.
pub struct CPUTracker {
    history: BoundedHistory<Sample>,
}

impl View for CPUTracker {
    type V = Seq<Sample>;

    closed spec fn view(&self) -> Seq<Sample> {
        self.history@
    }
}

impl CPUTracker {
    pub closed spec fn wf(&self) -> bool {
        self.history.wf() && valid_series(self.history@)
    }

    pub closed spec fn cap(&self) -> nat {
        self.history.cap()
    }

    /// The sample that a tick at `elapsed` with `reading` adds.
    pub open spec fn next_sample(&self, elapsed: u64, reading: Option<u64>) -> Sample {
        Sample { elapsed: stamp_after(self@, elapsed), value: cpu_value(reading) }
    }

    /// A tracker that keeps the last `size` samples.
    pub fn new(size: usize) -> (r: Result<CPUTracker, ConfigError>)
        ensures
            size == 0 <==> r is Err,
            r matches Ok(t) ==> t.wf() && t@ == Seq::<Sample>::empty() && t.cap() == size,
            r matches Err(e) ==> e == ConfigError::ZeroCapacity,
    {
        match BoundedHistory::new(size) {
            Ok(history) => Ok(CPUTracker { history }),
            Err(e) => Err(e),
        }
    }

    /// Records the utilization read at `elapsed` seconds (in hundredths of a
    /// percent; `None` where the OS reported nothing) and returns the chart.
    ///
    /// A reading over 100% counts as 100%. A time earlier than the newest
    /// sample's is recorded at the newest sample's time.
    pub fn chart(&mut self, elapsed: u64, reading: Option<u64>) -> (r: CpuChart)
        requires
            old(self).wf(),
        ensures
            final(self).wf(),
            final(self).cap() == old(self).cap(),
            final(self)@ == latest(
                old(self)@.push(old(self).next_sample(elapsed, reading)),
                old(self).cap(),
            ),
            r.current == cpu_value(reading),
            r.current <= FULL_PERCENT,
            r.points@ == final(self)@,
            r.axis_to == stamp_after(old(self)@, elapsed),
            r.axis_from == r.axis_to - old(self).cap(),
    {
        let value: u64 = match reading {
            Some(v) => if v <= FULL_PERCENT {
                v
            } else {
                FULL_PERCENT
            },
            None => 0,
        };
        let t = next_stamp(&self.history, elapsed);
        let s = Sample { elapsed: t, value };
        proof {
            lemma_valid_after_append(self.history@, s, self.history.cap());
        }
        self.history.append(s);
        let points = self.history.entries();
        let axis_from: i128 = t as i128 - self.history.capacity() as i128;
        CpuChart { current: value, points, axis_from, axis_to: t }
    }

    /// The samples held, oldest first.
    pub fn history(&self) -> (r: Vec<Sample>)
        requires
            self.wf(),
        ensures
            r@ == self@,
    {
        self.history.entries()
    }

    /// The most samples the tracker keeps.
    pub fn capacity(&self) -> (r: usize)
        ensures
            r == self.cap(),
    {
        self.history.capacity()
    }
}

} // verus!
