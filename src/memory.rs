use vstd::prelude::*;
use crate::history::{latest, BoundedHistory, ConfigError};
use crate::metrics::{usage_of, usage_percent, Sample, FULL_PERCENT};
use crate::series::{
    lemma_paired_after_append, lemma_valid_after_append, next_stamp, paired, stamp_after,
    valid_series,
};

verus! {

/// One memory reading from the OS, in bytes.
#[derive(Clone, Copy, Debug, PartialEq, Eq, Structural)]
pub struct MemReading {
    pub used_memory: u64,
    pub total_memory: u64,
    pub used_swap: u64,
    pub total_swap: u64,
}

/// What the memory chart shows after one tick.
#[derive(Clone, Debug, PartialEq, Eq)]
pub struct MemChart {
    /// RAM usage just sampled, for the header.
    pub ram: u64,
    /// Swap usage just sampled, for the header.
    pub swap: u64,
    /// The RAM series, oldest first.
    pub ram_points: Vec<Sample>,
    /// The swap series, oldest first, at the same times as the RAM series.
    pub swap_points: Vec<Sample>,
    /// Left end of the time axis: `axis_to` less the histories' capacity.
    pub axis_from: i128,
    /// Right end of the time axis: the time of the newest samples.
    pub axis_to: u64,
}

/// Tracks RAM and swap usage over the last `capacity` ticks, as two series
/// that are always appended together.
pub struct MemTracker {
    ram: BoundedHistory<Sample>,
    swap: BoundedHistory<Sample>,
}

impl MemTracker {
    pub closed spec fn wf(&self) -> bool {
        &&& self.ram.wf()
        &&& self.swap.wf()
        &&& self.ram.cap() == self.swap.cap()
        &&& valid_series(self.ram@)
        &&& valid_series(self.swap@)
        &&& paired(self.ram@, self.swap@)
    }

    /// The RAM series, oldest first.
    pub closed spec fn ram_view(&self) -> Seq<Sample> {
        self.ram@
    }

    /// The swap series, oldest first.
    pub closed spec fn swap_view(&self) -> Seq<Sample> {
        self.swap@
    }

    pub closed spec fn cap(&self) -> nat {
        self.ram.cap()
    }

    /// A tracker that keeps the last `size` samples of each series.
    pub fn new(size: usize) -> (r: Result<MemTracker, ConfigError>)
        ensures
            size == 0 <==> r is Err,
            r matches Ok(t) ==> {
                &&& t.wf()
                &&& t.ram_view() == Seq::<Sample>::empty()
                &&& t.swap_view() == Seq::<Sample>::empty()
                &&& t.cap() == size
            },
            r matches Err(e) ==> e == ConfigError::ZeroCapacity,
    {
        let ram = match BoundedHistory::new(size) {
            Ok(h) => h,
            Err(e) => return Err(e),
        };
        let swap = match BoundedHistory::new(size) {
            Ok(h) => h,
            Err(e) => return Err(e),
        };
        Ok(MemTracker { ram, swap })
    }

    /// Records RAM and swap usage read at `elapsed` seconds and returns the
    /// chart. Both series get a sample, at the same time.
    ///
    /// A total of zero gives `0` (no swap configured). A time earlier than
    /// the newest samples' is recorded at their time.
    pub fn chart(&mut self, elapsed: u64, reading: MemReading) -> (r: MemChart)
        requires
            old(self).wf(),
        ensures
            final(self).wf(),
            final(self).cap() == old(self).cap(),
            final(self).ram_view().len() == final(self).swap_view().len(),
            r.ram == usage_of(reading.used_memory, reading.total_memory),
            r.swap == usage_of(reading.used_swap, reading.total_swap),
            r.ram <= FULL_PERCENT && r.swap <= FULL_PERCENT,
            r.axis_to == stamp_after(old(self).ram_view(), elapsed),
            r.axis_from == r.axis_to - old(self).cap(),
            final(self).ram_view() == latest(
                old(self).ram_view().push((Sample { elapsed: r.axis_to, value: r.ram })),
                old(self).cap(),
            ),
            final(self).swap_view() == latest(
                old(self).swap_view().push((Sample { elapsed: r.axis_to, value: r.swap })),
                old(self).cap(),
            ),
            r.ram_points@ == final(self).ram_view(),
            r.swap_points@ == final(self).swap_view(),
    {
        let ram_pct = usage_percent(reading.used_memory, reading.total_memory);
        let swap_pct = usage_percent(reading.used_swap, reading.total_swap);
        let t = next_stamp(&self.ram, elapsed);
        let a = Sample { elapsed: t, value: ram_pct };
        let b = Sample { elapsed: t, value: swap_pct };
        proof {
            let cap = self.ram.cap();
            if self.swap@.len() > 0 {
                assert(self.swap@.last().elapsed == self.ram@.last().elapsed);
            }
            lemma_valid_after_append(self.ram@, a, cap);
            lemma_valid_after_append(self.swap@, b, cap);
            lemma_paired_after_append(self.ram@, self.swap@, a, b, cap);
        }
        self.ram.append(a);
        self.swap.append(b);
        let ram_points = self.ram.entries();
        let swap_points = self.swap.entries();
        let axis_from: i128 = t as i128 - self.ram.capacity() as i128;
        MemChart { ram: ram_pct, swap: swap_pct, ram_points, swap_points, axis_from, axis_to: t }
    }

    /// The RAM samples held, oldest first.
    pub fn ram_history(&self) -> (r: Vec<Sample>)
        requires
            self.wf(),
        ensures
            r@ == self.ram_view(),
    {
        self.ram.entries()
    }

    /// The swap samples held, oldest first.
    pub fn swap_history(&self) -> (r: Vec<Sample>)
        requires
            self.wf(),
        ensures
            r@ == self.swap_view(),
    {
        self.swap.entries()
    }

    /// The most samples each series keeps.
    pub fn capacity(&self) -> (r: usize)
        ensures
            r == self.cap(),
    {
        self.ram.capacity()
    }
}

/// Any number of ticks leaves the RAM and swap series of a tracker with the
/// same length and the same times: what holds of a new tracker and is kept
/// by each `chart` call.
pub proof fn lemma_series_stay_paired(t: MemTracker)
    requires
        t.wf(),
    ensures
        t.ram_view().len() == t.swap_view().len(),
        forall|i: int|
            0 <= i < t.ram_view().len() ==> #[trigger] t.ram_view()[i].elapsed
                == t.swap_view()[i].elapsed,
{
}

} // verus!
