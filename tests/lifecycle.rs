use polio_model::{
    Host, HostState, InfectError, Infection, InfectionSerotype, InfectionStrain, Population,
    StepAction, DEFAULT_SHED_DAYS,
};

fn wpv2(shed_days: u32) -> Infection {
    Infection::new(shed_days, InfectionStrain::WPV, InfectionSerotype::Type2)
}

fn population_of(n: usize) -> Population {
    let mut p = Population::new();
    for _ in 0..n {
        p.add_host(Host::new(0));
    }
    p
}

#[test]
fn clearance_is_strictly_after_shed_duration() {
    let inf = wpv2(12);
    assert!(!inf.should_clear_infection(0));
    assert!(!inf.should_clear_infection(12));
    assert!(inf.should_clear_infection(13));
}

#[test]
fn prognosis_falls_back_to_default_duration() {
    let mut inf = Infection::from(InfectionStrain::OPV, InfectionSerotype::Type1);
    assert_eq!(inf.shed_days, 0);
    inf.set_prognoses(None);
    assert_eq!(inf.shed_days, DEFAULT_SHED_DAYS);
    assert_eq!(inf.shed_days, 30);
    inf.set_prognoses(Some(17));
    assert_eq!(inf.shed_days, 17);
    assert_eq!(inf.strain, InfectionStrain::OPV);
    assert_eq!(inf.serotype, InfectionSerotype::Type1);
}

#[test]
fn infected_host_returns_to_susceptible_after_shed_duration() {
    let mut p = population_of(1);
    assert_eq!(p.day(), 0);
    assert_eq!(p.infect(0, wpv2(12)), Ok(()));
    assert_eq!(p.host_state(0).ti_infected, Some(0));
    for day in 1..=12u32 {
        let actions = p.advance_day();
        assert_eq!(p.day(), day);
        assert_eq!(
            actions,
            vec![StepAction::UpdateShedding { host: 0, days_since_onset: day }]
        );
        assert!(p.host_state(0).infection.is_some());
    }
    let actions = p.advance_day();
    assert_eq!(p.day(), 13);
    assert_eq!(actions, vec![StepAction::Clear { host: 0 }]);
    assert_eq!(p.host_state(0).infection, None);
    assert_eq!(p.host_state(0).ti_infected, Some(0));
    assert_eq!(p.susceptible_hosts(), vec![0]);
}

#[test]
fn ten_quiet_days_change_nothing() {
    let mut p = population_of(4);
    let before: Vec<HostState> = (0..4).map(|i| p.host_state(i)).collect();
    for _ in 0..10 {
        assert!(p.advance_day().is_empty());
    }
    assert_eq!(p.day(), 10);
    let after: Vec<HostState> = (0..4).map(|i| p.host_state(i)).collect();
    assert_eq!(before, after);
}

#[test]
fn infected_host_cannot_be_infected_again() {
    let mut p = population_of(2);
    assert_eq!(p.infect(1, wpv2(5)), Ok(()));
    p.advance_day();
    let before = p.host_state(1);
    assert_eq!(p.infect(1, wpv2(40)), Err(InfectError::AlreadyInfected));
    assert_eq!(p.host_state(1), before);
    assert_eq!(p.host_state(1).infection.unwrap().shed_days, 5);
    assert_eq!(p.susceptible_hosts(), vec![0]);
}

#[test]
fn infecting_unknown_host_fails() {
    let mut p = population_of(2);
    assert_eq!(p.infect(2, wpv2(5)), Err(InfectError::NoSuchHost));
    assert_eq!(p.susceptible_hosts(), vec![0, 1]);
}

#[test]
fn susceptible_hosts_are_listed_in_order() {
    let mut p = population_of(5);
    p.infect(1, wpv2(3)).unwrap();
    p.infect(3, wpv2(3)).unwrap();
    assert_eq!(p.susceptible_hosts(), vec![0, 2, 4]);
    assert_eq!(p.len(), 5);
}

#[test]
fn waning_starts_thirty_days_after_onset() {
    let mut p = population_of(1);
    p.infect(0, wpv2(2)).unwrap();
    let mut last = Vec::new();
    for _ in 0..29 {
        last = p.advance_day();
        assert!(!last.iter().any(|a| matches!(a, StepAction::Wane { .. })));
    }
    assert!(last.is_empty());
    assert_eq!(
        p.advance_day(),
        vec![StepAction::Wane { host: 0, days_since_exposure: 30 }]
    );
    assert_eq!(
        p.advance_day(),
        vec![StepAction::Wane { host: 0, days_since_exposure: 31 }]
    );
}

#[test]
fn step_reports_each_host_in_index_order() {
    let mut p = population_of(3);
    p.infect(2, wpv2(1)).unwrap();
    p.advance_day();
    p.infect(0, wpv2(0)).unwrap();
    let actions = p.advance_day();
    assert_eq!(
        actions,
        vec![
            StepAction::Clear { host: 0 },
            StepAction::Clear { host: 2 },
        ]
    );
    assert_eq!(p.susceptible_hosts(), vec![0, 1, 2]);
}

#[test]
fn reinfection_after_clearance_resets_onset() {
    let mut p = population_of(1);
    p.infect(0, wpv2(1)).unwrap();
    p.advance_day();
    p.advance_day();
    assert_eq!(p.host_state(0).infection, None);
    p.infect(0, wpv2(4)).unwrap();
    assert_eq!(p.host_state(0).ti_infected, Some(2));
    assert_eq!(
        p.advance_day(),
        vec![StepAction::UpdateShedding { host: 0, days_since_onset: 1 }]
    );
}

#[test]
fn host_keeps_birth_day() {
    let mut p = Population::new();
    let id = p.add_host(Host::new(7));
    assert_eq!(id, 0);
    assert_eq!(p.host_state(0).host.birth_sim_day, 7);
    assert_eq!(p.host_state(0).ti_infected, None);
}
