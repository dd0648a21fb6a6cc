//! The delta engine: what two consecutive samples of one cumulative counter
//! say about the interval between them.

use vstd::prelude::*;

verus! {

/// One sample of a pair of cumulative time counters: the time spent busy and
/// the time that has passed, in the same unit.
#[derive(Clone, Copy, Debug, PartialEq, Eq, Structural)]
pub struct CpuTimes {
    pub busy: u64,
    pub total: u64,
}

/// A rate over one interval, kept exact: `busy` units out of `total`. A rate
/// whose `total` is zero is the zero state, which reads as 0 percent.
#[derive(Clone, Copy, Debug, PartialEq, Eq, Structural)]
pub struct Usage {
    pub busy: u64,
    pub total: u64,
}

/// The growth of a cumulative counter between two samples. A counter that went
/// down was reset, and counts as no growth.
pub open spec fn delta_of(previous: u64, current: u64) -> u64 {
    if current >= previous {
        (current - previous) as u64
    } else {
        0
    }
}

/// The rate between two samples. Without a previous sample, or when the clock
/// went backwards, it is the zero state; when no time has passed it is the rate
/// reported last; otherwise it is the growth of `busy` over the growth of
/// `total`, the former capped by the latter.
pub open spec fn usage_of(previous: Option<CpuTimes>, current: CpuTimes, last: Usage) -> Usage {
    match previous {
        None => Usage { busy: 0, total: 0 },
        Some(p) => if current.total < p.total {
            Usage { busy: 0, total: 0 }
        } else if current.total == p.total {
            last
        } else {
            let total = (current.total - p.total) as u64;
            let busy = delta_of(p.busy, current.busy);
            Usage { busy: if busy > total { total } else { busy }, total }
        },
    }
}

/// Computes `delta_of`.
pub fn counter_delta(previous: u64, current: u64) -> (delta: u64)
    ensures
        delta == delta_of(previous, current),
        delta <= current,
{
    if current >= previous {
        current - previous
    } else {
        0
    }
}

/// Computes `usage_of`.
pub fn usage_between(previous: Option<CpuTimes>, current: CpuTimes, last: Usage) -> (usage: Usage)
    ensures
        usage == usage_of(previous, current, last),
        previous is None ==> usage.percent_value() == 0,
{
    match previous {
        None => Usage::zero(),
        Some(p) => {
            if current.total < p.total {
                Usage::zero()
            } else if current.total == p.total {
                last
            } else {
                let total: u64 = current.total - p.total;
                let busy: u64 = counter_delta(p.busy, current.busy);
                Usage { busy: if busy > total { total } else { busy }, total }
            }
        },
    }
}

impl Usage {
    /// The rate in whole percent, rounded down and never above 100.
    pub open spec fn percent_value(self) -> nat {
        if self.total == 0 {
            0
        } else if self.busy >= self.total {
            100
        } else {
            (100 * self.busy / (self.total as int)) as nat
        }
    }

    /// The zero state.
    pub fn zero() -> (usage: Usage)
        ensures
            usage == (Usage { busy: 0, total: 0 }),
            usage.percent_value() == 0,
    {
        Usage { busy: 0, total: 0 }
    }

    /// Computes `percent_value`.
    pub fn percent(&self) -> (p: u8)
        ensures
            p == self.percent_value(),
            p <= 100,
    {
        if self.total == 0 {
            0
        } else if self.busy >= self.total {
            100
        } else {
            let scaled: u128 = 100u128 * (self.busy as u128) / (self.total as u128);
            assert(scaled < 100) by (nonlinear_arith)
                requires
                    scaled == 100 * self.busy / (self.total as int),
                    self.busy < self.total,
                    self.total > 0,
            ;
            scaled as u8
        }
    }
}

/// Every rate reads as a percentage between 0 and 100, and the rate of a
/// first sample as 0.
pub proof fn lemma_percent_bounded(usage: Usage, first: CpuTimes, last: Usage)
    ensures
        0 <= usage.percent_value() <= 100,
        usage_of(None, first, last).percent_value() == 0,
{
    if usage.total != 0 && usage.busy < usage.total {
        let busy: int = usage.busy as int;
        let total: int = usage.total as int;
        assert(100 * busy / total < 100) by (nonlinear_arith)
            requires
                0 <= busy < total,
        ;
    }
}

/// The rate between any two samples is well-formed whenever the last one was:
/// its busy part never exceeds its total.
pub proof fn lemma_usage_capped(previous: Option<CpuTimes>, current: CpuTimes, last: Usage)
    requires
        last.busy <= last.total,
    ensures
        usage_of(previous, current, last).busy <= usage_of(previous, current, last).total,
{
}

} // verus!
