use vstd::prelude::*;
use crate::metrics::{usage_of, usage_percent, FULL_PERCENT};

verus! {

/// One disk or mount entry as the OS lists it, sizes in bytes. A disk whose
/// name cannot be read is named by the empty string.
#[derive(Clone, Debug, PartialEq, Eq)]
pub struct DiskReading {
    pub name: String,
    pub total_space: u64,
    pub available_space: u64,
}

/// The gauge shown for one disk: sizes in bytes, usage in hundredths of a
/// percent.
#[derive(Clone, Debug, PartialEq, Eq)]
pub struct DiskGauge {
    pub name: String,
    pub used: u64,
    pub total: u64,
    pub percent: u64,
}

/// Bytes in use on a disk: its total less what is available, or `0` where
/// the OS reports more available than there is.
pub open spec fn used_space(d: DiskReading) -> u64 {
    if d.available_space <= d.total_space {
        (d.total_space - d.available_space) as u64
    } else {
        0
    }
}

/// `g` is the gauge for the entry `d`.
pub open spec fn gauge_of(g: DiskGauge, d: DiskReading) -> bool {
    &&& g.name@ == d.name@
    &&& g.used == used_space(d)
    &&& g.total == d.total_space
    &&& g.percent == usage_of(used_space(d), d.total_space)
}

/// Some entry of `s` before position `k` has the name `name`.
pub open spec fn named_before(s: Seq<DiskReading>, k: int, name: Seq<char>) -> bool {
    exists|i: int| 0 <= i < k && (#[trigger] s[i]).name@ == name
}

/// The entries of `s` that are the first with their name, in order.
pub open spec fn first_of_each_name(s: Seq<DiskReading>) -> Seq<DiskReading>
    decreases s.len(),
{
    if s.len() == 0 {
        Seq::empty()
    } else {
        let rest = first_of_each_name(s.drop_last());
        if named_before(s, s.len() - 1, s.last().name@) {
            rest
        } else {
            rest.push(s.last())
        }
    }
}

/// `gauges` holds one gauge for each entry of `disks` that is the first with
/// its name, in the order of the entries.
pub open spec fn gauges_for(gauges: Seq<DiskGauge>, disks: Seq<DiskReading>) -> bool {
    let firsts = first_of_each_name(disks);
    &&& gauges.len() == firsts.len()
    &&& forall|i: int| 0 <= i < gauges.len() ==> gauge_of(#[trigger] gauges[i], firsts[i])
}

/// The names of `gauges` are pairwise distinct.
pub open spec fn names_distinct(gauges: Seq<DiskGauge>) -> bool {
    forall|i: int, j: int|
        0 <= i < j < gauges.len() ==> #[trigger] gauges[i].name@ != #[trigger] gauges[j].name@
}

/// Every entry of `disks` has a gauge of its name.
pub open spec fn names_covered(gauges: Seq<DiskGauge>, disks: Seq<DiskReading>) -> bool {
    forall|k: int|
        0 <= k < disks.len() ==> exists|i: int|
            0 <= i < gauges.len() && (#[trigger] gauges[i]).name@ == (#[trigger] disks[k]).name@
}

proof fn lemma_firsts_come_from(s: Seq<DiskReading>)
    ensures
        forall|i: int|
            0 <= i < first_of_each_name(s).len() ==> exists|k: int|
                0 <= k < s.len() && #[trigger] first_of_each_name(s)[i] == s[k],
    decreases s.len(),
{
    if s.len() > 0 {
        let front = s.drop_last();
        lemma_firsts_come_from(front);
        let f = first_of_each_name(s);
        assert forall|i: int| 0 <= i < f.len() implies exists|k: int|
            0 <= k < s.len() && #[trigger] f[i] == s[k] by {
            if i < first_of_each_name(front).len() {
                let k = choose|k: int|
                    0 <= k < front.len() && first_of_each_name(front)[i] == front[k];
                assert(f[i] == s[k]);
            } else {
                assert(f[i] == s[s.len() - 1]);
            }
        }
    }
}

/// The gauges of a tick have one entry per disk name: no name twice, and
/// every name that the OS listed, whatever number of mounts it had.
pub proof fn lemma_one_gauge_per_name(gauges: Seq<DiskGauge>, disks: Seq<DiskReading>)
    requires
        gauges_for(gauges, disks),
    ensures
        names_distinct(gauges),
        names_covered(gauges, disks),
    decreases disks.len(),
{
    if disks.len() > 0 {
        let front = disks.drop_last();
        let ff = first_of_each_name(front);
        let f = first_of_each_name(disks);
        let gs = Seq::new(ff.len(), |i: int| gauges[i]);
        assert(gauges_for(gs, front)) by {
            assert forall|i: int| 0 <= i < gs.len() implies gauge_of(#[trigger] gs[i], ff[i]) by {
                assert(gauge_of(gauges[i], f[i]));
            }
        }
        lemma_one_gauge_per_name(gs, front);
        let last = disks.last();
        if named_before(disks, disks.len() - 1, last.name@) {
            assert(gauges =~= gs);
            assert forall|k: int| 0 <= k < disks.len() implies exists|i: int|
                0 <= i < gauges.len() && (#[trigger] gauges[i]).name@
                    == (#[trigger] disks[k]).name@ by {
                if k < front.len() {
                    assert(disks[k] == front[k]);
                } else {
                    let k0 = choose|k0: int|
                        0 <= k0 < disks.len() - 1 && (#[trigger] disks[k0]).name@ == last.name@;
                    assert(disks[k0] == front[k0]);
                }
            }
        } else {
            let n = ff.len() as int;
            assert(gauge_of(gauges[n], last));
            lemma_firsts_come_from(front);
            assert forall|i: int, j: int| 0 <= i < j < gauges.len() implies #[trigger] gauges[i].name@
                != #[trigger] gauges[j].name@ by {
                if j == n {
                    assert(gauge_of(gauges[i], ff[i]));
                    let k = choose|k: int| 0 <= k < front.len() && ff[i] == front[k];
                    assert(disks[k] == front[k]);
                } else {
                    assert(gauges[i] == gs[i] && gauges[j] == gs[j]);
                }
            }
            assert forall|k: int| 0 <= k < disks.len() implies exists|i: int|
                0 <= i < gauges.len() && (#[trigger] gauges[i]).name@
                    == (#[trigger] disks[k]).name@ by {
                if k < front.len() {
                    assert(disks[k] == front[k]);
                    let i = choose|i: int|
                        0 <= i < gs.len() && (#[trigger] gs[i]).name@ == front[k].name@;
                    assert(gauges[i] == gs[i]);
                } else {
                    assert(gauges[n].name@ == disks[k].name@);
                }
            }
        }
    }
}

/// Tracks the current usage of each disk: a set of gauges, rebuilt from
/// scratch at every tick, with no history.
pub struct StorageTracker {
    gauges: Vec<DiskGauge>,
}

impl View for StorageTracker {
    type V = Seq<DiskGauge>;

    closed spec fn view(&self) -> Seq<DiskGauge> {
        self.gauges@
    }
}

impl StorageTracker {
    /// A tracker that shows no disk yet.
    pub fn new() -> (r: StorageTracker)
        ensures
            r@ == Seq::<DiskGauge>::empty(),
    {
        StorageTracker { gauges: Vec::new() }
    }

    /// Rebuilds the gauges from the entries that the OS listed: one per disk
    /// name, from the first entry with that name, in the
    /// order of the entries. Later entries with a name already seen (the
    /// same disk under another mount) are left out.
    /// The new gauges are then read with `current`.
    pub fn gauges(&mut self, disks: &Vec<DiskReading>)
        ensures
            gauges_for(final(self)@, disks@),
            names_distinct(final(self)@),
            names_covered(final(self)@, disks@),
    {
        let mut out: Vec<DiskGauge> = Vec::new();
        let mut k: usize = 0;
        while k < disks.len()
            invariant
                k <= disks@.len(),
                gauges_for(out@, disks@.subrange(0, k as int)),
            decreases disks@.len() - k,
        {
            let d = &disks[k];
            let mut seen = false;
            let mut j: usize = 0;
            while j < k
                invariant
                    j <= k < disks@.len(),
                    d == disks@[k as int],
                    seen <==> named_before(disks@, j as int, d.name@),
                decreases k - j,
            {
                if disks[j].name == d.name {
                    seen = true;
                }
                j = j + 1;
            }
            let ghost pre = disks@.subrange(0, k as int);
            let ghost next = disks@.subrange(0, k + 1);
            assert(next.drop_last() =~= pre);
            assert(named_before(disks@, k as int, d.name@) == named_before(next, k as int, d.name@))
                by {
                if named_before(disks@, k as int, d.name@) {
                    let i = choose|i: int| 0 <= i < k && (#[trigger] disks@[i]).name@ == d.name@;
                    assert(next[i] == disks@[i]);
                }
                if named_before(next, k as int, d.name@) {
                    let i = choose|i: int| 0 <= i < k && (#[trigger] next[i]).name@ == d.name@;
                    assert(next[i] == disks@[i]);
                }
            }
            if !seen {
                let used: u64 = if d.available_space <= d.total_space {
                    d.total_space - d.available_space
                } else {
                    0
                };
                let percent = usage_percent(used, d.total_space);
                let g = DiskGauge { name: d.name.clone(), used, total: d.total_space, percent };
                let ghost before = out@;
                out.push(g);
                assert forall|i: int| 0 <= i < out@.len() implies gauge_of(
                    #[trigger] out@[i],
                    first_of_each_name(next)[i],
                ) by {
                    if i < before.len() {
                        assert(out@[i] == before[i]);
                    }
                }
            }
            k = k + 1;
        }
        assert(disks@.subrange(0, disks@.len() as int) =~= disks@);
        proof {
            lemma_one_gauge_per_name(out@, disks@);
        }
        self.gauges = out;
    }

    /// The gauges of the last tick.
    pub fn current(&self) -> (r: &Vec<DiskGauge>)
        ensures
            r@ == self@,
    {
        &self.gauges
    }
}

/// The share of the disk panel's height, in percent, that each of `count`
/// gauges gets: an equal share, rounded down; `0` when there is no disk.
pub fn gauge_share(count: usize) -> (r: u16)
    ensures
        count == 0 ==> r == 0,
        count > 0 ==> r as int == 100int / (count as int),
{
    if count == 0 {
        0
    } else {
        (100 / count) as u16
    }
}

} // verus!
