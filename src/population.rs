//! The hosts of a simulation and the daily step that moves each of them
//! between the susceptible and the infected state.
use vstd::prelude::*;
use crate::infection::Infection;

verus! {

/// Days after the last infection onset before immunity starts to wane.
pub const WANING_ONSET_DAYS: u32 = 30;

/// A simulated host, born on a simulated day.
#[derive(Debug, Clone, Copy, PartialEq, Eq, Structural)]
pub struct Host {
    pub birth_sim_day: u32,
}

impl Host {
    pub fn new(birth_sim_day: u32) -> (h: Host)
        ensures
            h == (Host { birth_sim_day }),
    {
        Host { birth_sim_day }
    }
}

/// The simulated day.
#[derive(Debug, Clone, Copy, PartialEq, Eq, Structural)]
pub struct SimulationTime {
    pub day: u32,
}

impl Default for SimulationTime {
    fn default() -> (t: SimulationTime)
        ensures
            t.day == 0,
    {
        SimulationTime { day: 0 }
    }
}

/// What the population knows of one host: who it is, the day of its most
/// recent infection onset, and its current infection, if any.
#[derive(Debug, Clone, Copy, PartialEq, Eq, Structural)]
pub struct HostState {
    pub host: Host,
    pub ti_infected: Option<u32>,
    pub infection: Option<Infection>,
}

/// The work that one day's step hands to the titre model, host by host.
#[derive(Debug, Clone, Copy, PartialEq, Eq, Structural)]
pub enum StepAction {
    /// Immunity wanes: the last onset was at least `WANING_ONSET_DAYS` ago.
    Wane { host: usize, days_since_exposure: u32 },
    /// The infection of `host` has ended and its record was removed.
    Clear { host: usize },
    /// The infection of `host` goes on: its viral shedding is to be
    /// recomputed for this many days since onset.
    UpdateShedding { host: usize, days_since_onset: u32 },
}

/// Why an infection could not be started.
#[derive(Debug, Clone, Copy, PartialEq, Eq, Structural)]
pub enum InfectError {
    NoSuchHost,
    AlreadyInfected,
}

/// A population's state: the current day and every host, by index.
pub struct PopulationView {
    pub day: int,
    pub hosts: Seq<HostState>,
}

/// The hosts of one simulation, indexed from 0 in the order they were added,
/// with the simulated day they have reached.
pub struct Population {
    time: SimulationTime,
    hosts: Vec<HostState>,
}

impl View for Population {
    type V = PopulationView;

    closed spec fn view(&self) -> PopulationView {
        PopulationView { day: self.time.day as int, hosts: self.hosts@ }
    }
}

/// A host is infected only after an onset, and no onset lies in the future.
pub open spec fn host_consistent(h: HostState, day: int) -> bool {
    &&& (h.infection is Some ==> h.ti_infected is Some)
    &&& (h.ti_infected matches Some(t) ==> t <= day)
}

/// Every host of `v` is consistent with its day.
pub open spec fn population_wf(v: PopulationView) -> bool {
    &&& 0 <= v.day <= u32::MAX
    &&& forall|i: int| 0 <= i < v.hosts.len() ==> host_consistent(#[trigger] v.hosts[i], v.day)
}

/// What the step of `day` hands on for host `i`: waning once the last onset
/// is `WANING_ONSET_DAYS` or more days back, then, for an infected host,
/// clearance when the days since onset exceed the shed duration and a
/// shedding update otherwise.
pub open spec fn host_actions(i: int, h: HostState, day: int) -> Seq<StepAction> {
    match h.ti_infected {
        None => seq![],
        Some(t) => {
            let d = day - t;
            let wane = if d >= WANING_ONSET_DAYS {
                seq![StepAction::Wane { host: i as usize, days_since_exposure: d as u32 }]
            } else {
                seq![]
            };
            let course = match h.infection {
                None => seq![],
                Some(inf) => if d > inf.shed_days {
                    seq![StepAction::Clear { host: i as usize }]
                } else {
                    seq![StepAction::UpdateShedding { host: i as usize, days_since_onset: d as u32 }]
                },
            };
            wane + course
        },
    }
}

/// The actions of the step of `day`, host by host in index order.
pub open spec fn step_actions(hosts: Seq<HostState>, day: int) -> Seq<StepAction>
    decreases hosts.len(),
{
    if hosts.len() == 0 {
        seq![]
    } else {
        step_actions(hosts.drop_last(), day) + host_actions(hosts.len() - 1, hosts.last(), day)
    }
}

/// A host after the step of `day`: its infection is removed once the days
/// since onset exceed the shed duration; nothing else changes.
pub open spec fn stepped_host(h: HostState, day: int) -> HostState {
    match (h.ti_infected, h.infection) {
        (Some(t), Some(inf)) => if day - t > inf.shed_days {
            HostState { host: h.host, ti_infected: h.ti_infected, infection: None }
        } else {
            h
        },
        _ => h,
    }
}

/// Indices of the hosts that have no infection, in increasing order.
pub open spec fn susceptible_indices(hosts: Seq<HostState>) -> Seq<usize>
    decreases hosts.len(),
{
    if hosts.len() == 0 {
        seq![]
    } else if hosts.last().infection is None {
        susceptible_indices(hosts.drop_last()).push((hosts.len() - 1) as usize)
    } else {
        susceptible_indices(hosts.drop_last())
    }
}

impl Population {
    /// Every host is consistent with the day reached.
    pub open spec fn wf(&self) -> bool {
        population_wf(self@)
    }

    /// An empty population on day 0.
    pub fn new() -> (p: Population)
        ensures
            p.wf(),
            p@.day == 0,
            p@.hosts == Seq::<HostState>::empty(),
    {
        let p = Population { time: SimulationTime::default(), hosts: Vec::new() };
        assert(p@.hosts =~= Seq::<HostState>::empty());
        p
    }

    /// Moves to the next day and applies that day's step to every host.
    /// Each host's update reads and writes that host alone; a host whose
    /// days since onset exceed its shed duration loses its infection. The
    /// returned actions tell the titre model what else to recompute.
    pub fn advance_day(&mut self) -> (actions: Vec<StepAction>)
        requires
            old(self).wf(),
            old(self)@.day < u32::MAX,
        ensures
            final(self).wf(),
            final(self)@.day == old(self)@.day + 1,
            final(self)@.hosts.len() == old(self)@.hosts.len(),
            forall|i: int|
                0 <= i < old(self)@.hosts.len() ==> #[trigger] final(self)@.hosts[i] == stepped_host(
                    old(self)@.hosts[i],
                    final(self)@.day,
                ),
            actions@ == step_actions(old(self)@.hosts, final(self)@.day),
    {
        let day: u32 = self.time.day + 1;
        self.time = SimulationTime { day };
        let ghost before = old(self)@.hosts;
        let mut actions: Vec<StepAction> = Vec::new();
        let n = self.hosts.len();
        let mut i: usize = 0;
        while i < n
            invariant
                0 <= i <= n,
                n == before.len(),
                before == old(self)@.hosts,
                self.time.day == day,
                day == old(self)@.day + 1,
                population_wf(old(self)@),
                self.hosts@.len() == n,
                forall|j: int| 0 <= j < i ==> #[trigger] self.hosts@[j] == stepped_host(before[j], day as int),
                forall|j: int| i <= j < n ==> #[trigger] self.hosts@[j] == before[j],
                actions@ == step_actions(before.take(i as int), day as int),
            decreases n - i,
        {
            let h = self.hosts[i];
            assert(host_consistent(before[i as int], old(self)@.day));
            if let Some(t) = h.ti_infected {
                let d: u32 = day - t;
                if d >= WANING_ONSET_DAYS {
                    actions.push(StepAction::Wane { host: i, days_since_exposure: d });
                }
                if let Some(inf) = h.infection {
                    if inf.should_clear_infection(d) {
                        self.hosts.set(i, HostState { host: h.host, ti_infected: h.ti_infected, infection: None });
                        actions.push(StepAction::Clear { host: i });
                    } else {
                        actions.push(StepAction::UpdateShedding { host: i, days_since_onset: d });
                    }
                }
            }
            proof {
                assert(before.take(i + 1).drop_last() =~= before.take(i as int));
                assert(actions@ =~= step_actions(before.take(i as int), day as int) + host_actions(i as int, before[i as int], day as int));
            }
            i = i + 1;
        }
        assert(before.take(n as int) =~= before);
        actions
    }

    /// Indices of the hosts that a challenge may reach: those with no
    /// current infection, in increasing order.
    pub fn susceptible_hosts(&self) -> (r: Vec<usize>)
        ensures
            r@ == susceptible_indices(self@.hosts),
    {
        let ghost all = self@.hosts;
        let mut r: Vec<usize> = Vec::new();
        let n = self.hosts.len();
        let mut i: usize = 0;
        while i < n
            invariant
                0 <= i <= n,
                n == all.len(),
                all == self@.hosts,
                r@ == susceptible_indices(all.take(i as int)),
            decreases n - i,
        {
            assert(all.take(i + 1).drop_last() =~= all.take(i as int));
            if self.hosts[i].infection.is_none() {
                r.push(i);
            }
            i = i + 1;
        }
        assert(all.take(n as int) =~= all);
        r
    }

    /// Starts `infection` in `host` on the current day, which becomes the
    /// host's latest onset. A host that is already infected is left as it
    /// is: re-exposure never replaces a running infection.
    pub fn infect(&mut self, host: usize, infection: Infection) -> (r: Result<(), InfectError>)
        requires
            old(self).wf(),
        ensures
            final(self).wf(),
            final(self)@.day == old(self)@.day,
            host >= old(self)@.hosts.len() ==> r == Err::<(), InfectError>(InfectError::NoSuchHost)
                && final(self)@.hosts == old(self)@.hosts,
            host < old(self)@.hosts.len() && old(self)@.hosts[host as int].infection is Some ==> r
                == Err::<(), InfectError>(InfectError::AlreadyInfected) && final(self)@.hosts == old(
                self,
            )@.hosts,
            host < old(self)@.hosts.len() && old(self)@.hosts[host as int].infection is None ==> r
                == Ok::<(), InfectError>(()) && final(self)@.hosts == old(self)@.hosts.update(
                host as int,
                HostState {
                    host: old(self)@.hosts[host as int].host,
                    ti_infected: Some(old(self)@.day as u32),
                    infection: Some(infection),
                },
            ),
    {
        if host >= self.hosts.len() {
            return Err(InfectError::NoSuchHost);
        }
        let h = self.hosts[host];
        if h.infection.is_some() {
            return Err(InfectError::AlreadyInfected);
        }
        let day = self.time.day;
        self.hosts.set(host, HostState { host: h.host, ti_infected: Some(day), infection: Some(infection) });
        proof {
            assert forall|i: int| 0 <= i < self@.hosts.len() implies host_consistent(
                #[trigger] self@.hosts[i],
                self@.day,
            ) by {
                if i != host {
                    assert(self@.hosts[i] == old(self)@.hosts[i]);
                }
            }
        }
        Ok(())
    }

    /// Adds a host with no infection and no onset yet; its index is returned.
    pub fn add_host(&mut self, host: Host) -> (id: usize)
        requires
            old(self).wf(),
            old(self)@.hosts.len() < usize::MAX,
        ensures
            final(self).wf(),
            final(self)@.day == old(self)@.day,
            id == old(self)@.hosts.len(),
            final(self)@.hosts == old(self)@.hosts.push(
                HostState { host, ti_infected: None, infection: None },
            ),
    {
        let id = self.hosts.len();
        self.hosts.push(HostState { host, ti_infected: None, infection: None });
        proof {
            assert forall|i: int| 0 <= i < self@.hosts.len() implies host_consistent(
                #[trigger] self@.hosts[i],
                self@.day,
            ) by {
                if i < id {
                    assert(self@.hosts[i] == old(self)@.hosts[i]);
                }
            }
        }
        id
    }

    /// The simulated day reached.
    pub fn day(&self) -> (r: u32)
        ensures
            r == self@.day,
    {
        self.time.day
    }

    /// The number of hosts.
    pub fn len(&self) -> (r: usize)
        ensures
            r == self@.hosts.len(),
    {
        self.hosts.len()
    }

    /// What is known of host `i`.
    pub fn host_state(&self, i: usize) -> (r: HostState)
        requires
            i < self@.hosts.len(),
        ensures
            r == self@.hosts[i as int],
    {
        self.hosts[i]
    }
}

} // verus!
