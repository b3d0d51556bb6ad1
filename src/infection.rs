//! The course of one infection, counted in whole days.
use vstd::prelude::*;
use crate::strain::{InfectionSerotype, InfectionStrain};

verus! {

/// Whole days of shedding given to an infection whose strain has no
/// shed-duration parameters.
pub const DEFAULT_SHED_DAYS: u32 = 30;

/// Shed duration of a new infection: the sampled one, or the default when
/// none could be sampled.
pub open spec fn prognosis_days(sampled_shed_days: Option<u32>) -> u32 {
    match sampled_shed_days {
        Some(d) => d,
        None => DEFAULT_SHED_DAYS,
    }
}

/// A current infection. `shed_days` is the shed duration in whole days,
/// rounded down: for a whole number of days `d`, `d` exceeds the sampled
/// duration exactly when it exceeds `shed_days`.
#[derive(Debug, Clone, Copy, PartialEq, Eq, Structural)]
pub struct Infection {
    pub shed_days: u32,
    pub strain: InfectionStrain,
    pub serotype: InfectionSerotype,
}

impl Infection {
    /// An infection of the given strain whose prognosis is not set yet.
    pub fn from(strain: InfectionStrain, serotype: InfectionSerotype) -> (r: Infection)
        ensures
            r == (Infection { shed_days: 0, strain, serotype }),
    {
        Infection { shed_days: 0, strain, serotype }
    }

    pub fn new(shed_days: u32, strain: InfectionStrain, serotype: InfectionSerotype) -> (r:
        Infection)
        ensures
            r == (Infection { shed_days, strain, serotype }),
    {
        Infection { shed_days, strain, serotype }
    }

    /// The infection is over once the days since onset exceed the shed
    /// duration; on the boundary day itself the host still sheds.
    pub fn should_clear_infection(&self, days_since_infection: u32) -> (r: bool)
        ensures
            r == (days_since_infection > self.shed_days),
    {
        days_since_infection > self.shed_days
    }

    /// Fixes the shed duration at onset: the sampled duration, or
    /// `DEFAULT_SHED_DAYS` when the strain has no duration parameters.
    pub fn set_prognoses(&mut self, sampled_shed_days: Option<u32>)
        ensures
            *final(self) == (Infection { shed_days: prognosis_days(sampled_shed_days), ..*old(self) }),
    {
        self.shed_days = match sampled_shed_days {
            Some(d) => d,
            None => DEFAULT_SHED_DAYS,
        };
    }
}

} // verus!
