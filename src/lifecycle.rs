//! Facts about the daily step and about who a challenge can reach.
use vstd::prelude::*;
use crate::population::{
    host_actions, host_consistent, stepped_host, step_actions, susceptible_indices, HostState,
    StepAction, WANING_ONSET_DAYS,
};

verus! {

/// An infection ends exactly when the days since onset exceed its shed
/// duration: on the boundary day and before it, the host is still infected.
pub proof fn lemma_clearance_exact(i: usize, h: HostState, day: int)
    requires
        host_consistent(h, day),
        h.infection is Some,
    ensures
        stepped_host(h, day).infection is None <==> day - h.ti_infected->Some_0
            > h.infection->Some_0.shed_days,
        stepped_host(h, day).infection is None <==> host_actions(i as int, h, day).contains(
            StepAction::Clear { host: i },
        ),
{
    let acts = host_actions(i as int, h, day);
    if day - h.ti_infected->Some_0 > h.infection->Some_0.shed_days {
        assert(acts[acts.len() - 1] == StepAction::Clear { host: i });
    }
}

/// `a`, if it is a waning action, names a host of `hosts` whose last onset
/// lies `WANING_ONSET_DAYS` or more days before `day`, and that number of days.
pub open spec fn waning_justified(a: StepAction, hosts: Seq<HostState>, day: int) -> bool {
    match a {
        StepAction::Wane { host, days_since_exposure } => {
            &&& host < hosts.len()
            &&& hosts[host as int].ti_infected is Some
            &&& days_since_exposure == day - hosts[host as int].ti_infected->Some_0
            &&& days_since_exposure >= WANING_ONSET_DAYS
        },
        _ => true,
    }
}

/// Waning is handed on only for a host whose last onset lies
/// `WANING_ONSET_DAYS` or more days back, with that exact number of days;
/// below that the step leaves immunity alone.
pub proof fn lemma_waning_only_after_window(hosts: Seq<HostState>, day: int)
    requires
        forall|i: int| 0 <= i < hosts.len() ==> host_consistent(#[trigger] hosts[i], day),
        day <= u32::MAX,
        hosts.len() <= usize::MAX,
    ensures
        forall|k: int|
            0 <= k < step_actions(hosts, day).len() ==> waning_justified(
                #[trigger] step_actions(hosts, day)[k],
                hosts,
                day,
            ),
    decreases hosts.len(),
{
    if hosts.len() > 0 {
        let rest = hosts.drop_last();
        assert forall|i: int| 0 <= i < rest.len() implies host_consistent(#[trigger] rest[i], day) by {
            assert(rest[i] == hosts[i]);
        }
        lemma_waning_only_after_window(rest, day);
        let prev = step_actions(rest, day);
        let last = host_actions(hosts.len() - 1, hosts.last(), day);
        assert(step_actions(hosts, day) == prev + last);
        assert forall|k: int| 0 <= k < step_actions(hosts, day).len() implies waning_justified(
            #[trigger] step_actions(hosts, day)[k],
            hosts,
            day,
        ) by {
            if k < prev.len() {
                assert(step_actions(hosts, day)[k] == prev[k]);
                assert(waning_justified(prev[k], rest, day));
                if let StepAction::Wane { host, days_since_exposure } = prev[k] {
                    assert(hosts[host as int] == rest[host as int]);
                }
            } else {
                assert(step_actions(hosts, day)[k] == last[k - prev.len()]);
                assert(host_consistent(hosts[hosts.len() - 1], day));
                assert(hosts.last() == hosts[hosts.len() - 1]);
            }
        }
    }
}

/// A shedding update always comes at least one day after onset, when every
/// onset lies before the day stepped to: the kinetics are never asked for
/// the onset day itself.
pub proof fn lemma_shedding_follows_onset(hosts: Seq<HostState>, day: int)
    requires
        forall|i: int|
            0 <= i < hosts.len() && (#[trigger] hosts[i]).ti_infected is Some ==> hosts[i].ti_infected->Some_0
                < day,
        day <= u32::MAX,
    ensures
        forall|k: int|
            0 <= k < step_actions(hosts, day).len() ==> match #[trigger] step_actions(hosts, day)[k] {
                StepAction::UpdateShedding { host, days_since_onset } => days_since_onset >= 1,
                _ => true,
            },
    decreases hosts.len(),
{
    if hosts.len() > 0 {
        let rest = hosts.drop_last();
        assert forall|i: int| 0 <= i < rest.len() && (#[trigger] rest[i]).ti_infected is Some implies rest[i].ti_infected->Some_0 < day by {
            assert(rest[i] == hosts[i]);
        }
        lemma_shedding_follows_onset(rest, day);
        let prev = step_actions(rest, day);
        let last = host_actions(hosts.len() - 1, hosts.last(), day);
        assert(step_actions(hosts, day) == prev + last);
        assert forall|k: int| 0 <= k < step_actions(hosts, day).len() implies match #[trigger] step_actions(hosts, day)[k] {
                StepAction::UpdateShedding { host, days_since_onset } => days_since_onset >= 1,
                _ => true,
            } by {
            if k < prev.len() {
                assert(step_actions(hosts, day)[k] == prev[k]);
                match prev[k] {
                    _ => {},
                }
            } else {
                assert(step_actions(hosts, day)[k] == last[k - prev.len()]);
                assert(hosts[hosts.len() - 1] == hosts.last());
            }
        }
    }
}

/// Every host that a challenge may reach is uninfected, so a challenge
/// never infects a host twice.
pub proof fn lemma_challenge_reaches_susceptible_only(hosts: Seq<HostState>)
    requires
        hosts.len() <= usize::MAX,
    ensures
        forall|k: int|
            0 <= k < susceptible_indices(hosts).len() ==> {
                let i = #[trigger] susceptible_indices(hosts)[k];
                i < hosts.len() && hosts[i as int].infection is None
            },
    decreases hosts.len(),
{
    if hosts.len() > 0 {
        let rest = hosts.drop_last();
        lemma_challenge_reaches_susceptible_only(rest);
        assert forall|k: int| 0 <= k < susceptible_indices(hosts).len() implies {
                let i = #[trigger] susceptible_indices(hosts)[k];
                i < hosts.len() && hosts[i as int].infection is None
            } by {
            let prev = susceptible_indices(rest);
            if k < prev.len() {
                let i = prev[k];
                assert(susceptible_indices(hosts)[k] == i);
                assert(i < rest.len() && rest[i as int].infection is None);
                assert(hosts[i as int] == rest[i as int]);
            } else {
                assert(hosts.last().infection is None);
                assert(susceptible_indices(hosts) == prev.push((hosts.len() - 1) as usize));
                assert(susceptible_indices(hosts)[k] == (hosts.len() - 1) as usize);
                assert(hosts.last() == hosts[hosts.len() - 1]);
            }
        }
    }
}

/// A population in which no host has ever been infected is left exactly as
/// it was by a step, and nothing is handed on: there are no spontaneous
/// transitions.
pub proof fn lemma_quiet_step(hosts: Seq<HostState>, day: int)
    requires
        forall|i: int| 0 <= i < hosts.len() ==> (#[trigger] hosts[i]).ti_infected is None,
    ensures
        step_actions(hosts, day) == Seq::<StepAction>::empty(),
        forall|i: int| 0 <= i < hosts.len() ==> stepped_host(#[trigger] hosts[i], day) == hosts[i],
    decreases hosts.len(),
{
    if hosts.len() > 0 {
        let rest = hosts.drop_last();
        assert forall|i: int| 0 <= i < rest.len() implies (#[trigger] rest[i]).ti_infected is None by {
            assert(rest[i] == hosts[i]);
        }
        lemma_quiet_step(rest, day);
        assert(hosts.last() == hosts[hosts.len() - 1]);
        assert(step_actions(hosts, day) =~= Seq::<StepAction>::empty());
    }
}

} // verus!
