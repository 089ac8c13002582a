use vstd::prelude::*;
use crate::history::{latest, BoundedHistory};
use crate::metrics::{Sample, FULL_PERCENT};

verus! {

/// Times never go backwards along the series.
pub open spec fn times_ordered(s: Seq<Sample>) -> bool {
    forall|i: int, j: int| 0 <= i <= j < s.len() ==> #[trigger] s[i].elapsed <= #[trigger] s[j].elapsed
}

/// Every value is a percentage of at most 100%.
pub open spec fn values_in_range(s: Seq<Sample>) -> bool {
    forall|i: int| 0 <= i < s.len() ==> #[trigger] s[i].value <= FULL_PERCENT
}

/// A well-formed series: ordered in time, every value a percentage.
pub open spec fn valid_series(s: Seq<Sample>) -> bool {
    times_ordered(s) && values_in_range(s)
}

/// Two series sampled together: same length, same time at each position.
pub open spec fn paired(a: Seq<Sample>, b: Seq<Sample>) -> bool {
    &&& a.len() == b.len()
    &&& forall|i: int| 0 <= i < a.len() ==> #[trigger] a[i].elapsed == b[i].elapsed
}

/// The time at which a sample taken at `elapsed` is recorded after `s`:
/// `elapsed`, or the newest recorded time if that is later, so that the
/// series stays ordered.
pub open spec fn stamp_after(s: Seq<Sample>, elapsed: u64) -> u64 {
    if s.len() > 0 && elapsed < s.last().elapsed {
        s.last().elapsed
    } else {
        elapsed
    }
}

/// A percentage reading clamped to at most 100%.
pub open spec fn clamp_percent(v: u64) -> u64 {
    if v <= FULL_PERCENT {
        v
    } else {
        FULL_PERCENT
    }
}

pub(crate) fn next_stamp(h: &BoundedHistory<Sample>, elapsed: u64) -> (r: u64)
    requires
        h.wf(),
    ensures
        r == stamp_after(h@, elapsed),
{
    match h.newest() {
        Some(last) => if elapsed < last.elapsed {
            last.elapsed
        } else {
            elapsed
        },
        None => elapsed,
    }
}

pub(crate) proof fn lemma_valid_after_append(s: Seq<Sample>, x: Sample, cap: nat)
    requires
        valid_series(s),
        x.value <= FULL_PERCENT,
        s.len() > 0 ==> s.last().elapsed <= x.elapsed,
    ensures
        valid_series(latest(s.push(x), cap)),
{
    let p = s.push(x);
    assert forall|i: int, j: int| 0 <= i <= j < p.len() implies #[trigger] p[i].elapsed
        <= #[trigger] p[j].elapsed by {
        if j == s.len() && i < s.len() {
            assert(s[i].elapsed <= s[s.len() - 1].elapsed);
        }
    }
    assert(values_in_range(p));
    if p.len() > cap {
        let q = latest(p, cap);
        let off = p.len() - cap;
        assert forall|i: int, j: int| 0 <= i <= j < q.len() implies #[trigger] q[i].elapsed
            <= #[trigger] q[j].elapsed by {
            assert(q[i] == p[i + off] && q[j] == p[j + off]);
        }
        assert forall|i: int| 0 <= i < q.len() implies #[trigger] q[i].value <= FULL_PERCENT by {
            assert(q[i] == p[i + off]);
        }
    }
}

pub(crate) proof fn lemma_paired_after_append(
    a: Seq<Sample>,
    b: Seq<Sample>,
    x: Sample,
    y: Sample,
    cap: nat,
)
    requires
        paired(a, b),
        x.elapsed == y.elapsed,
    ensures
        paired(latest(a.push(x), cap), latest(b.push(y), cap)),
{
    let p = a.push(x);
    let q = b.push(y);
    assert(paired(p, q)) by {
        assert forall|i: int| 0 <= i < p.len() implies #[trigger] p[i].elapsed == q[i].elapsed by {
            if i < a.len() {
                assert(a[i].elapsed == b[i].elapsed);
            }
        }
    }
    if p.len() > cap {
        let off = p.len() - cap;
        let lp = latest(p, cap);
        let lq = latest(q, cap);
        assert forall|i: int| 0 <= i < lp.len() implies #[trigger] lp[i].elapsed
            == lq[i].elapsed by {
            assert(lp[i] == p[i + off] && lq[i] == q[i + off]);
        }
    }
}

} // verus!
