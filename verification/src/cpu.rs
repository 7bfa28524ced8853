//! The processor sampler: two successive readings of the cumulative jiffy
//! counters, and the utilization between them.

use vstd::prelude::*;
use crate::error::Error;
use crate::linux_parser::{core_count, cpu_sample, get_cpu_cnt, get_cpu_utilization};
use crate::ratio::Ratio;

verus! {

/// The processor sampler. It holds the reading taken last and the one before
/// it, each as active and idle jiffies; the total of a reading is the sum of
/// the two. Until the first refresh there is one real reading only, and the
/// sampler is unseeded. Every refresh moves the window on by one reading,
/// whatever the reading holds.
#[derive(Debug, Clone, Copy)]
pub struct Cpu {
    n_cores: u32,
    prev_jif: (u64, u64),
    current_jif: (u64, u64),
    seeded: bool,
}

/// Whether the total of the reading `sample` fits in 64 bits.
pub open spec fn sample_fits(sample: (u64, u64)) -> bool {
    sample.0 + sample.1 <= u64::MAX
}

/// The reading that the aggregate stat file `contents` gives, when it holds
/// one whose total fits in 64 bits.
pub open spec fn readable_sample(contents: Seq<char>) -> Option<(u64, u64)> {
    match cpu_sample(contents) {
        Some(s) => if s.0 + s.1 <= u64::MAX {
            Some((s.0 as u64, s.1 as u64))
        } else {
            None
        },
        None => None,
    }
}

/// The number of cores that the aggregate stat file `contents` gives, when it
/// fits in 32 bits.
pub open spec fn readable_cores(contents: Seq<char>) -> Option<u32> {
    if core_count(contents) <= u32::MAX {
        Some(core_count(contents) as u32)
    } else {
        None
    }
}

/// Whether neither counter of the reading `next` is below that of `last`.
pub open spec fn follows(next: (u64, u64), last: (u64, u64)) -> bool {
    last.0 <= next.0 && last.1 <= next.1
}

impl Cpu {
    /// The total of the current reading fits in 64 bits.
    #[verifier::type_invariant]
    pub closed spec fn wf(&self) -> bool {
        sample_fits(self.current_jif)
    }

    /// The number of cores.
    pub closed spec fn cores(&self) -> u32 {
        self.n_cores
    }

    /// The reading before the last, as active and idle jiffies.
    pub closed spec fn previous(&self) -> (u64, u64) {
        self.prev_jif
    }

    /// The last reading, as active and idle jiffies.
    pub closed spec fn current(&self) -> (u64, u64) {
        self.current_jif
    }

    /// Whether a refresh has taken place, so that two real readings are held.
    pub closed spec fn is_seeded(&self) -> bool {
        self.seeded
    }

    /// The active jiffies between the two readings.
    pub open spec fn delta_active(&self) -> int {
        self.current().0 - self.previous().0
    }

    /// The jiffies between the two readings, active and idle together.
    pub open spec fn delta_total(&self) -> int {
        (self.current().0 + self.current().1) - (self.previous().0 + self.previous().1)
    }

    /// Whether the utilization is zero by rule: before the first refresh,
    /// whenever no jiffy has passed between the two readings, and whenever a
    /// counter of the current reading is below that of the previous one.
    pub open spec fn at_rest(&self) -> bool {
        !self.is_seeded() || self.delta_total() == 0 || !follows(
            self.current(),
            self.previous(),
        )
    }

    /// The numerator of the utilization: the active jiffies between the two
    /// readings, and zero at rest.
    pub open spec fn utilization_numer(&self) -> int {
        if self.at_rest() {
            0
        } else {
            self.delta_active()
        }
    }

    /// The denominator of the utilization: the jiffies between the two
    /// readings, and one at rest.
    pub open spec fn utilization_denom(&self) -> int {
        if self.at_rest() {
            1
        } else {
            self.delta_total()
        }
    }

    /// A reading stamped on `n_cores` cores: the sampler is unseeded, its
    /// previous reading is zero.
    pub fn from_sample(n_cores: u32, sample: (u64, u64)) -> (r: Result<Cpu, Error>)
        ensures
            match r {
                Ok(cpu) => sample_fits(sample) && cpu.wf() && cpu.cores() == n_cores
                    && cpu.previous() == (0u64, 0u64) && cpu.current() == sample
                    && !cpu.is_seeded(),
                Err(e) => e == Error::Parse && !sample_fits(sample),
            },
    {
        match sample.0.checked_add(sample.1) {
            Some(_) => Ok(Cpu { n_cores, prev_jif: (0, 0), current_jif: sample, seeded: false }),
            None => Err(Error::Parse),
        }
    }

    /// The sampler on the first reading of the aggregate stat file
    /// `contents`.
    pub fn new(contents: &str) -> (r: Result<Cpu, Error>)
        ensures
            match r {
                Ok(cpu) => cpu.wf() && readable_cores(contents@) == Some(cpu.cores())
                    && readable_sample(contents@) == Some(cpu.current()) && cpu.previous() == (
                    0u64,
                    0u64,
                ) && !cpu.is_seeded(),
                Err(e) => e == Error::Parse && (readable_cores(contents@) is None
                    || readable_sample(contents@) is None),
            },
    {
        let n_cores = match get_cpu_cnt(contents) {
            Ok(n) => n,
            Err(e) => {
                return Err(e);
            },
        };
        let current_jif = match get_cpu_utilization(contents) {
            Ok(s) => s,
            Err(e) => {
                return Err(e);
            },
        };
        Cpu::from_sample(n_cores, current_jif)
    }

    /// The share of the jiffies between the two readings that were active:
    /// `delta_active / delta_total`, and zero at rest.
    pub fn utilization(&self) -> (r: Ratio)
        ensures
            r.wf(),
            r.numer() == self.utilization_numer(),
            r.denom() == self.utilization_denom(),
            r.in_unit_interval(),
    {
        proof {
            use_type_invariant(self);
        }
        if !self.seeded || self.current_jif.0 < self.prev_jif.0 || self.current_jif.1
            < self.prev_jif.1 {
            return Ratio::zero();
        }
        let change_active = self.current_jif.0 - self.prev_jif.0;
        let change_total = change_active + (self.current_jif.1 - self.prev_jif.1);
        // don't divide by zero
        if change_total == 0 {
            return Ratio::zero();
        }
        Ratio::new(change_active, change_total as u128)
    }

    /// Takes `sample` as the new reading: the current reading becomes the
    /// previous one, and the sampler is seeded. Only a reading whose total
    /// does not fit in 64 bits is refused, and changes nothing.
    pub fn advance(&mut self, sample: (u64, u64)) -> (r: Result<(), Error>)
        ensures
            final(self).wf(),
            final(self).cores() == old(self).cores(),
            match r {
                Ok(_) => sample_fits(sample) && final(self).previous() == old(self).current()
                    && final(self).current() == sample && final(self).is_seeded(),
                Err(e) => e == Error::Parse && !sample_fits(sample) && *final(self) == *old(self),
            },
    {
        proof {
            use_type_invariant(&*self);
        }
        if sample.0.checked_add(sample.1).is_none() {
            return Err(Error::Parse);
        }
        self.prev_jif = self.current_jif;
        self.current_jif = sample;
        self.seeded = true;
        Ok(())
    }

    /// Takes the reading of the aggregate stat file `contents` as the new
    /// reading: the current reading becomes the previous one, the number of
    /// cores stays. A file that gives no reading changes nothing.
    pub fn refresh(&mut self, contents: &str) -> (r: Result<(), Error>)
        ensures
            final(self).wf(),
            final(self).cores() == old(self).cores(),
            match r {
                Ok(_) => readable_sample(contents@) == Some(final(self).current())
                    && final(self).previous() == old(self).current() && final(self).is_seeded(),
                Err(e) => e == Error::Parse && *final(self) == *old(self) && readable_sample(
                    contents@,
                ) is None,
            },
    {
        match get_cpu_utilization(contents) {
            Ok(sample) => self.advance(sample),
            Err(e) => {
                proof {
                    use_type_invariant(&*self);
                }
                Err(e)
            },
        }
    }

    /// The number of cores.
    pub fn get_cpu_count(&self) -> (r: u32)
        ensures
            r == self.cores(),
    {
        self.n_cores
    }

    /// The total of the current reading: its active and idle jiffies.
    pub fn total_jif(&self) -> (r: u64)
        ensures
            r == self.current().0 + self.current().1,
    {
        proof {
            use_type_invariant(self);
        }
        self.current_jif.0 + self.current_jif.1
    }
}

/// The utilization lies between 0 and 1 in every state of the sampler, and
/// is exactly 0 when the totals of its two readings are equal.
pub proof fn lemma_utilization_in_unit_interval(cpu: Cpu)
    ensures
        0 <= cpu.utilization_numer() <= cpu.utilization_denom(),
        cpu.current().0 + cpu.current().1 == cpu.previous().0 + cpu.previous().1
            ==> cpu.utilization_numer() == 0,
{
}

/// The first reading of the utilization, before any refresh, is 0.
pub proof fn lemma_first_utilization_is_zero(cpu: Cpu)
    requires
        !cpu.is_seeded(),
    ensures
        cpu.utilization_numer() == 0,
{
}

} // verus!
