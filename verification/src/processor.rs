//! Processor readings.

use vstd::prelude::*;
use crate::delta::{usage_between, usage_of, CpuTimes, Usage};

verus! {

/// One processor: what identifies it, and its load over the interval between
/// the two most recent samples.
pub struct Processor {
    pub name: String,
    pub vendor_id: String,
    pub brand: String,
    /// Nominal frequency in MHz.
    pub frequency: u64,
    /// The most recent sample of the cumulative counters, once there is one.
    pub times: Option<CpuTimes>,
    /// The load between the two most recent samples.
    pub usage: Usage,
}

impl Processor {
    /// A processor that has not been sampled yet: its load is the zero state.
    pub fn new_with_values(name: String, vendor_id: String, brand: String, frequency: u64) -> (p:
        Processor)
        ensures
            p.name == name,
            p.vendor_id == vendor_id,
            p.brand == brand,
            p.frequency == frequency,
            p.times is None,
            p.usage == (Usage { busy: 0, total: 0 }),
    {
        Processor { name, vendor_id, brand, frequency, times: None, usage: Usage::zero() }
    }

    /// The processor after the sample `current` was taken.
    pub open spec fn refreshed(self, current: CpuTimes) -> Processor {
        Processor {
            times: Some(current),
            usage: usage_of(self.times, current, self.usage),
            ..self
        }
    }

    /// Takes in a new sample: the load becomes the rate since the previous
    /// sample, and the new sample replaces the previous one.
    pub fn refresh(&mut self, current: CpuTimes)
        ensures
            *final(self) == old(self).refreshed(current),
    {
        self.usage = usage_between(self.times, current, self.usage);
        self.times = Some(current);
    }

    /// The load in whole percent, between 0 and 100.
    pub fn cpu_usage(&self) -> (p: u8)
        ensures
            p == self.usage.percent_value(),
            p <= 100,
    {
        self.usage.percent()
    }

    pub fn name(&self) -> (s: &str)
        ensures
            s@ == self.name@,
    {
        self.name.as_str()
    }

    pub fn vendor_id(&self) -> (s: &str)
        ensures
            s@ == self.vendor_id@,
    {
        self.vendor_id.as_str()
    }

    pub fn brand(&self) -> (s: &str)
        ensures
            s@ == self.brand@,
    {
        self.brand.as_str()
    }

    pub fn frequency(&self) -> (f: u64)
        ensures
            f == self.frequency,
    {
        self.frequency
    }
}

} // verus!
