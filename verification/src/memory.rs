//! The memory sampler: total and free memory in a unit chosen once.

use vstd::prelude::*;
use crate::error::Error;
use crate::linux_parser::{get_mem_utilization, mem_sample};
use crate::ratio::Ratio;

verus! {

/// The unit in which memory is held.
#[derive(Debug, Clone, Copy, PartialEq, Eq, Structural)]
pub enum MemScale {
    AsKiloBytes,
    AsMegaBytes,
    AsGibaBytes,
}

impl MemScale {
    /// The number of kilobytes in one unit.
    pub open spec fn divisor_spec(&self) -> u64 {
        match *self {
            MemScale::AsKiloBytes => 1,
            MemScale::AsMegaBytes => 1000,
            MemScale::AsGibaBytes => 1000000,
        }
    }

    /// The name of the unit.
    pub open spec fn unit_text(&self) -> Seq<char> {
        match *self {
            MemScale::AsKiloBytes => "KB"@,
            MemScale::AsMegaBytes => "MB"@,
            MemScale::AsGibaBytes => "GB"@,
        }
    }

    /// The number of kilobytes in one unit.
    pub fn divisor(&self) -> (r: u64)
        ensures
            r == self.divisor_spec(),
            r > 0,
    {
        match *self {
            MemScale::AsKiloBytes => 1,
            MemScale::AsMegaBytes => 1000,
            MemScale::AsGibaBytes => 1000000,
        }
    }

    /// The name of the unit.
    pub fn unit(&self) -> (r: String)
        ensures
            r@ == self.unit_text(),
    {
        match *self {
            MemScale::AsKiloBytes => String::from_str("KB"),
            MemScale::AsMegaBytes => String::from_str("MB"),
            MemScale::AsGibaBytes => String::from_str("GB"),
        }
    }
}

/// The memory sampler: total and free memory, both already divided by the
/// divisor of the unit.
#[derive(Debug, Clone, Copy)]
pub struct MemInfo {
    total_mem: u64,
    free_mem: u64,
    scaling: MemScale,
}

impl MemInfo {
    /// The total memory, in the unit held.
    pub closed spec fn total(&self) -> u64 {
        self.total_mem
    }

    /// The free memory, in the unit held.
    pub closed spec fn free(&self) -> u64 {
        self.free_mem
    }

    /// The unit held.
    pub closed spec fn scale(&self) -> MemScale {
        self.scaling
    }

    /// Whether the sampler holds the reading `sample` of free and total
    /// kilobytes, in its unit.
    pub open spec fn holds(&self, sample: (nat, nat)) -> bool {
        self.free() == sample.0 / (self.scale().divisor_spec() as nat) && self.total() == sample.1
            / (self.scale().divisor_spec() as nat)
    }

    /// The sampler in the unit `scaling`, on the reading of the aggregate
    /// memory file `contents`.
    pub fn with_scale(contents: &str, scaling: MemScale) -> (r: Result<MemInfo, Error>)
        ensures
            match r {
                Ok(m) => m.scale() == scaling && match mem_sample(contents@) {
                    Some(s) => m.holds(s),
                    None => false,
                },
                Err(e) => e == Error::Parse && mem_sample(contents@) is None,
            },
    {
        let (free_mem, total_mem) = match get_mem_utilization(contents) {
            Ok(s) => s,
            Err(e) => {
                return Err(e);
            },
        };
        let free_mem = free_mem / scaling.divisor();
        let total_mem = total_mem / scaling.divisor();
        Ok(MemInfo { total_mem, free_mem, scaling })
    }

    /// The sampler in kilobytes, on the reading of the aggregate memory file
    /// `contents`.
    pub fn new(contents: &str) -> (r: Result<MemInfo, Error>)
        ensures
            match r {
                Ok(m) => m.scale() == MemScale::AsKiloBytes && mem_sample(contents@) == Some(
                    (m.free() as nat, m.total() as nat),
                ),
                Err(e) => e == Error::Parse && mem_sample(contents@) is None,
            },
    {
        MemInfo::with_scale(contents, MemScale::AsKiloBytes)
    }

    /// The numerator of the utilization: the memory in use.
    pub open spec fn utilization_numer(&self) -> int {
        self.total() - self.free()
    }

    /// The share of the memory that is in use, `1 - free / total`, as the
    /// fraction `(total - free) / total`.
    pub fn utilization(&self) -> (r: Ratio)
        requires
            self.total() > 0,
        ensures
            r.wf(),
            r.numer() == self.utilization_numer(),
            r.denom() == self.total(),
    {
        if self.free_mem <= self.total_mem {
            Ratio::new(self.total_mem - self.free_mem, self.total_mem as u128)
        } else {
            Ratio::negative(self.free_mem - self.total_mem, self.total_mem as u128)
        }
    }

    /// Takes the reading of the aggregate memory file `contents`: total and
    /// free memory are both replaced, the unit stays. A file that cannot be
    /// read changes nothing.
    pub fn refresh(&mut self, contents: &str) -> (r: Result<(), Error>)
        ensures
            final(self).scale() == old(self).scale(),
            match r {
                Ok(_) => match mem_sample(contents@) {
                    Some(s) => final(self).holds(s),
                    None => false,
                },
                Err(e) => e == Error::Parse && mem_sample(contents@) is None && *final(self)
                    == *old(self),
            },
    {
        let (free_mem, total_mem) = match get_mem_utilization(contents) {
            Ok(s) => s,
            Err(e) => {
                return Err(e);
            },
        };
        self.free_mem = free_mem / self.scaling.divisor();
        self.total_mem = total_mem / self.scaling.divisor();
        Ok(())
    }

    /// The total memory, in the unit held.
    pub fn total_mem(&self) -> (r: u64)
        ensures
            r == self.total(),
    {
        self.total_mem
    }

    /// The free memory, in the unit held.
    pub fn free_mem(&self) -> (r: u64)
        ensures
            r == self.free(),
    {
        self.free_mem
    }

    /// The unit held.
    pub fn scaling(&self) -> (r: MemScale)
        ensures
            r == self.scale(),
    {
        self.scaling
    }
}

} // verus!
