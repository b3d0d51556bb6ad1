use polio_model::{InfectionSerotype, InfectionStrain, MissingStrainParameters, StrainTable};

#[test]
fn empty_table_reports_missing_parameters() {
    let t: StrainTable<u32> = StrainTable::new();
    assert_eq!(
        t.lookup(InfectionStrain::OPV, InfectionSerotype::Type2),
        Err(MissingStrainParameters {
            strain: InfectionStrain::OPV,
            serotype: InfectionSerotype::Type2,
        })
    );
}

#[test]
fn lookup_finds_each_inserted_pair() {
    let mut t: StrainTable<u32> = StrainTable::new();
    t.insert(InfectionStrain::WPV, InfectionSerotype::Type1, 11);
    t.insert(InfectionStrain::WPV, InfectionSerotype::Type3, 13);
    t.insert(InfectionStrain::OPV, InfectionSerotype::Type2, 22);
    assert_eq!(t.lookup(InfectionStrain::WPV, InfectionSerotype::Type1), Ok(&11));
    assert_eq!(t.lookup(InfectionStrain::WPV, InfectionSerotype::Type3), Ok(&13));
    assert_eq!(t.lookup(InfectionStrain::OPV, InfectionSerotype::Type2), Ok(&22));
    assert!(t.lookup(InfectionStrain::WPV, InfectionSerotype::Type2).is_err());
    assert!(t.lookup(InfectionStrain::OPV, InfectionSerotype::Type1).is_err());
    assert!(t.lookup(InfectionStrain::OPV, InfectionSerotype::Type3).is_err());
}

#[test]
fn insert_replaces_the_earlier_value() {
    let mut t: StrainTable<&str> = StrainTable::new();
    t.insert(InfectionStrain::OPV, InfectionSerotype::Type3, "first");
    t.insert(InfectionStrain::OPV, InfectionSerotype::Type3, "second");
    assert_eq!(t.lookup(InfectionStrain::OPV, InfectionSerotype::Type3), Ok(&"second"));
}
