//! Within-host poliovirus infection dynamics for a population of simulated
//! hosts: the discrete part of the model (strain identifiers, the strain
//! parameter table, the infection lifecycle over whole days and the daily
//! step), with the quantitative titres left to the caller.

pub mod strain;
pub mod table;
pub mod infection;
pub mod population;
pub mod lifecycle;

pub use infection::{Infection, DEFAULT_SHED_DAYS};
pub use population::{
    Host, HostState, InfectError, Population, SimulationTime, StepAction, WANING_ONSET_DAYS,
};
pub use strain::{parse_infection_type, InfectionSerotype, InfectionStrain};
pub use table::{MissingStrainParameters, StrainTable};
