//! The plain records of a snapshot: memory, load, sensors and users.

use vstd::prelude::*;

verus! {

/// Memory and swap, in KB.
#[derive(Clone, Copy, Debug, PartialEq, Eq, Structural)]
pub struct MemorySample {
    pub total_memory: u64,
    pub used_memory: u64,
    pub total_swap: u64,
    pub used_swap: u64,
}

/// The load averages over one, five and fifteen minutes, in hundredths.
#[derive(Clone, Copy, Debug, PartialEq, Eq, Structural)]
pub struct LoadAvg {
    pub one: u32,
    pub five: u32,
    pub fifteen: u32,
}

/// One sensor. Temperatures are in thousandths of a degree Celsius; the
/// thresholds are there where the platform reports them.
#[derive(Clone, Debug, PartialEq, Eq)]
pub struct Component {
    pub label: String,
    pub temperature: i32,
    pub max: Option<i32>,
    pub critical: Option<i32>,
}

/// One user and the groups the user belongs to.
#[derive(Clone, Debug, PartialEq, Eq)]
pub struct User {
    pub name: String,
    pub groups: Vec<String>,
}

/// What is left of `total` when `used` is taken: nothing where more is
/// reported used than there is.
pub open spec fn free_of(total: u64, used: u64) -> u64 {
    if used <= total {
        (total - used) as u64
    } else {
        0
    }
}

impl MemorySample {
    /// A sample in which nothing was read yet.
    pub fn empty() -> (sample: MemorySample)
        ensures
            sample == (MemorySample {
                total_memory: 0,
                used_memory: 0,
                total_swap: 0,
                used_swap: 0,
            }),
    {
        MemorySample { total_memory: 0, used_memory: 0, total_swap: 0, used_swap: 0 }
    }

    /// Memory not in use, in KB.
    pub fn free_memory(&self) -> (kb: u64)
        ensures
            kb == free_of(self.total_memory, self.used_memory),
    {
        if self.used_memory <= self.total_memory {
            self.total_memory - self.used_memory
        } else {
            0
        }
    }

    /// Swap not in use, in KB.
    pub fn free_swap(&self) -> (kb: u64)
        ensures
            kb == free_of(self.total_swap, self.used_swap),
    {
        if self.used_swap <= self.total_swap {
            self.total_swap - self.used_swap
        } else {
            0
        }
    }
}

impl Component {
    /// Whether the sensor reads at or above its critical threshold. A sensor
    /// without such a threshold never does.
    pub fn is_critical(&self) -> (critical: bool)
        ensures
            critical == (self.critical matches Some(limit) && self.temperature >= limit),
    {
        match self.critical {
            Some(limit) => self.temperature >= limit,
            None => false,
        }
    }
}

} // verus!
