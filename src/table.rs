//! A table of values keyed by (strain, serotype), holding what each strain
//! needs beyond the global parameter groups.
use vstd::prelude::*;
use crate::strain::{InfectionSerotype, InfectionStrain};

verus! {

/// The key under which a strain's values are kept.
pub type StrainKey = (InfectionStrain, InfectionSerotype);

/// The slot of a key: wild-type serotypes first, then vaccine-type ones.
pub open spec fn key_slot(strain: InfectionStrain, serotype: InfectionSerotype) -> int {
    let base: int = match strain {
        InfectionStrain::WPV => 0,
        InfectionStrain::OPV => 3,
    };
    let offset: int = match serotype {
        InfectionSerotype::Type1 => 0,
        InfectionSerotype::Type2 => 1,
        InfectionSerotype::Type3 => 2,
    };
    base + offset
}

fn slot_of(strain: InfectionStrain, serotype: InfectionSerotype) -> (r: usize)
    ensures
        r == key_slot(strain, serotype),
        r < 6,
{
    let base: usize = match strain {
        InfectionStrain::WPV => 0,
        InfectionStrain::OPV => 3,
    };
    let offset: usize = match serotype {
        InfectionSerotype::Type1 => 0,
        InfectionSerotype::Type2 => 1,
        InfectionSerotype::Type3 => 2,
    };
    base + offset
}

/// Two keys share a slot only if they are the same key.
proof fn lemma_key_slot_injective(a: StrainKey, b: StrainKey)
    ensures
        key_slot(a.0, a.1) == key_slot(b.0, b.1) ==> a == b,
{
}

/// The lookup of a (strain, serotype) pair for which the table holds nothing.
#[derive(Debug, Clone, Copy, PartialEq, Eq, Structural)]
pub struct MissingStrainParameters {
    pub strain: InfectionStrain,
    pub serotype: InfectionSerotype,
}

/// Values of type `P` for some of the (strain, serotype) pairs.
pub struct StrainTable<P> {
    slots: [Option<P>; 6],
}

impl<P> View for StrainTable<P> {
    type V = Map<StrainKey, P>;

    closed spec fn view(&self) -> Map<StrainKey, P> {
        Map::new(
            |k: StrainKey| self.slots@[key_slot(k.0, k.1)] is Some,
            |k: StrainKey| self.slots@[key_slot(k.0, k.1)]->Some_0,
        )
    }
}

impl<P> StrainTable<P> {
    /// A table that holds nothing.
    pub fn new() -> (t: Self)
        ensures
            t@ == Map::<StrainKey, P>::empty(),
    {
        let t = StrainTable { slots: [None, None, None, None, None, None] };
        assert(t@ =~= Map::<StrainKey, P>::empty());
        t
    }

    /// Sets the values of (`strain`, `serotype`), replacing any held before.
    pub fn insert(&mut self, strain: InfectionStrain, serotype: InfectionSerotype, value: P)
        ensures
            final(self)@ == old(self)@.insert((strain, serotype), value),
    {
        let i = slot_of(strain, serotype);
        self.slots[i] = Some(value);
        proof {
            assert forall|k: StrainKey| #![auto] key_slot(k.0, k.1) == i implies k == (strain, serotype) by {
                lemma_key_slot_injective(k, (strain, serotype));
            }
            assert(self@ =~= old(self)@.insert((strain, serotype), value));
        }
    }

    /// The values of (`strain`, `serotype`), or the error that names the
    /// pair when the table holds none for it.
    pub fn lookup(&self, strain: InfectionStrain, serotype: InfectionSerotype) -> (r: Result<
        &P,
        MissingStrainParameters,
    >)
        ensures
            match r {
                Ok(v) => self@.contains_key((strain, serotype)) && *v == self@[(strain, serotype)],
                Err(e) => !self@.contains_key((strain, serotype)) && e == (MissingStrainParameters {
                    strain,
                    serotype,
                }),
            },
    {
        let i = slot_of(strain, serotype);
        match &self.slots[i] {
            Some(v) => Ok(v),
            None => Err(MissingStrainParameters { strain, serotype }),
        }
    }
}

} // verus!
