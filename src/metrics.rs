use vstd::prelude::*;

verus! {

/// 100%, in hundredths of a percent.
pub const FULL_PERCENT: u64 = 10000;

/// One point of a time series: seconds since start, and a percentage in
/// hundredths of a percent.
#[derive(Clone, Copy, Debug, PartialEq, Eq, Structural)]
pub struct Sample {
    pub elapsed: u64,
    pub value: u64,
}

/// What `usage_percent` returns: `used / total` in hundredths of a percent,
/// rounded down, with `used` taken as at most `total`, and `0` when `total`
/// is `0`.
pub open spec fn usage_of(used: u64, total: u64) -> u64 {
    if total == 0 {
        0
    } else {
        let u: int = if used <= total { used as int } else { total as int };
        ((u * FULL_PERCENT) / (total as int)) as u64
    }
}

/// Share of `total` that `used` takes, in hundredths of a percent.
///
/// A total of zero (no swap configured, an unreadable disk) gives `0`; a
/// reading with `used` over `total` counts as full.
pub fn usage_percent(used: u64, total: u64) -> (r: u64)
    ensures
        r == usage_of(used, total),
        r <= FULL_PERCENT,
        total == 0 ==> r == 0,
{
    if total == 0 {
        return 0;
    }
    let u: u64 = if used <= total { used } else { total };
    assert((u as u128) * 10000u128 <= 0xffff_ffff_ffff_ffffu128 * 10000u128) by (nonlinear_arith)
        requires
            u <= 0xffff_ffff_ffff_ffffu64,
    ;
    let wide: u128 = (u as u128) * 10000u128;
    let q: u128 = wide / (total as u128);
    proof {
        assert(q <= 10000) by (nonlinear_arith)
            requires
                wide as int == (u as int) * 10000,
                q as int == (wide as int) / (total as int),
                u <= total,
                total > 0,
        ;
    }
    q as u64
}

} // verus!
