use rand::rngs::StdRng;
use rand::SeedableRng;

use spc_core::area_info::get_info_per_msoa;
use spc_core::commuting::{assign_commuting, finalize, pick_destination};
use spc_core::lockdown::{calculate_lockdown_per_day, multiplier_pct};
use spc_core::population::create_population;
use spc_core::{
    AreaInfo, BuildError, Demographics, DiaryTemplate, FinalizedPopulation, HouseholdRecord, Input,
    MobilitySeries, Msoa, RawDatasetBundle, StudyAreaCache, VenueDirectory,
};

fn area(code: &str) -> Msoa {
    Msoa::parse(code).expect("valid code")
}

fn adult() -> Demographics {
    Demographics { age_band: 3, sex: 1, nssec: 2 }
}

fn child() -> Demographics {
    Demographics { age_band: 0, sex: 2, nssec: 0 }
}

fn templates() -> Vec<DiaryTemplate> {
    vec![
        DiaryTemplate { strata: adult(), durations: [600, 480, 60, 0] },
        DiaryTemplate { strata: child(), durations: [700, 0, 40, 360] },
    ]
}

fn household(code: &str, members: Vec<Demographics>) -> HouseholdRecord {
    HouseholdRecord { msoa: area(code), members }
}

fn directory(codes: &[&str], attractiveness: [u32; 4], x: u32, y: u32) -> VenueDirectory {
    VenueDirectory {
        covers: codes.iter().map(|c| area(c)).collect(),
        venue_counts: [1, 2, 3, 4],
        attractiveness,
        x,
        y,
    }
}

fn one_area_bundle(mobility: Vec<MobilitySeries>) -> RawDatasetBundle {
    RawDatasetBundle {
        diary_records: vec![
            household("E02000001", vec![adult(), adult(), child()]),
            household("E02000002", vec![adult()]),
            household("E02000001", vec![adult()]),
        ],
        templates: templates(),
        venue_directories: vec![directory(&["E02000001"], [0, 10, 10, 10], 0, 0)],
        mobility_records: mobility,
    }
}

fn one_area_input(enable_commuting: bool, cases: u64) -> Input {
    Input {
        enable_commuting,
        msoas: vec![area("E02000001")],
        initial_cases_per_msoa: vec![(area("E02000001"), cases)],
    }
}

fn two_area_bundle() -> RawDatasetBundle {
    RawDatasetBundle {
        diary_records: vec![
            household("E02000001", vec![adult(), child()]),
            household("E02000002", vec![adult(), adult()]),
            household("E02000001", vec![adult()]),
        ],
        templates: templates(),
        venue_directories: vec![
            directory(&["E02000001", "E02000002"], [0, 1, 1, 1], 0, 0),
            directory(&["E02000001"], [0, 50, 20, 5], 0, 0),
            directory(&["E02000002"], [0, 70, 30, 9], 3, 4),
        ],
        mobility_records: vec![MobilitySeries {
            msoa: area("E02000002"),
            changes: vec![[0, -20, 10, 0], [5, -150, 150, -100]],
        }],
    }
}

fn two_area_input(enable_commuting: bool) -> Input {
    Input {
        enable_commuting,
        msoas: vec![area("E02000001"), area("E02000002")],
        initial_cases_per_msoa: vec![(area("E02000002"), 1)],
    }
}

#[test]
fn parses_well_formed_codes_only() {
    assert!(Msoa::parse("E02000001").is_some());
    assert_eq!(Msoa::parse("W02000123").unwrap().as_string(), "W02000123");
    assert!(Msoa::parse("e02000001").is_none());
    assert!(Msoa::parse("E0200001").is_none());
    assert!(Msoa::parse("E020000011").is_none());
    assert!(Msoa::parse("E02A00001").is_none());
    assert!(Msoa::parse("").is_none());
}

#[test]
fn multiplier_is_clamped_percentage() {
    assert_eq!(multiplier_pct(0), 100);
    assert_eq!(multiplier_pct(-50), 50);
    assert_eq!(multiplier_pct(30), 130);
    assert_eq!(multiplier_pct(-100), 0);
    assert_eq!(multiplier_pct(-250), 0);
    assert_eq!(multiplier_pct(100), 200);
    assert_eq!(multiplier_pct(400), 200);
    assert_eq!(multiplier_pct(i64::MIN), 0);
    assert_eq!(multiplier_pct(i64::MAX), 200);
}

#[test]
fn end_to_end_single_area_without_commuting() {
    let raw = one_area_bundle(vec![]);
    let mut rng = StdRng::seed_from_u64(42);
    let f = FinalizedPopulation::create(one_area_input(false, 2), &raw, &mut rng).unwrap();
    assert_eq!(f.population.msoas.len(), 1);
    assert_eq!(f.population.msoas[0].as_string(), "E02000001");
    assert_eq!(f.population.households.len(), 2);
    assert_eq!(f.population.people.len(), 4);
    let infected: Vec<usize> =
        f.population.people.iter().filter(|p| p.infected).map(|p| p.id).collect();
    assert_eq!(infected, vec![0, 1]);
    assert_eq!(f.assignments.len(), 4);
    for a in &f.assignments {
        assert_eq!(a.destinations, [0, 0, 0, 0]);
    }
}

#[test]
fn workplace_drop_halves_day_zero_workplace_duration() {
    let raw = one_area_bundle(vec![MobilitySeries {
        msoa: area("E02000001"),
        changes: vec![[0, -50, 0, 0]],
    }]);
    let mut rng = StdRng::seed_from_u64(42);
    let f = FinalizedPopulation::create(one_area_input(false, 2), &raw, &mut rng).unwrap();
    for (p, a) in f.population.people.iter().zip(f.assignments.iter()) {
        assert_eq!(a.daily_durations.len(), 1);
        let day = a.daily_durations[0];
        assert_eq!(day[1], p.durations[1] as u64 * 50);
        assert_eq!(day[1] * 2, p.durations[1] as u64 * 100);
        assert_eq!(day[0], p.durations[0] as u64 * 100);
        assert_eq!(day[2], p.durations[2] as u64 * 100);
        assert_eq!(day[3], p.durations[3] as u64 * 100);
    }
    assert_eq!(f.assignments[0].daily_durations[0], [60000, 24000, 6000, 0]);
}

#[test]
fn cache_tables_cover_exactly_the_household_areas() {
    let c = StudyAreaCache::create(two_area_input(true), &two_area_bundle()).unwrap();
    let n = c.population.msoas.len();
    assert_eq!(n, 2);
    assert_eq!(c.info_per_msoa.len(), n);
    assert_eq!(c.lockdown_per_day.len(), n);
    let mut seen = vec![false; n];
    for h in &c.population.households {
        assert!(h.msoa < n);
        seen[h.msoa] = true;
    }
    assert!(seen.iter().all(|s| *s));
}

#[test]
fn population_follows_record_order_and_templates() {
    let c = StudyAreaCache::create(two_area_input(false), &two_area_bundle()).unwrap();
    let pop = &c.population;
    let areas: Vec<usize> = pop.households.iter().map(|h| h.msoa).collect();
    assert_eq!(areas, vec![0, 1, 0]);
    let members: Vec<Vec<usize>> = pop.households.iter().map(|h| h.members.clone()).collect();
    assert_eq!(members, vec![vec![0, 1], vec![2, 3], vec![4]]);
    assert_eq!(pop.people[1].durations, [700, 0, 40, 360]);
    assert_eq!(pop.people[1].household, 0);
    assert_eq!(pop.people[4].household, 2);
    let infected: Vec<usize> = pop.people.iter().filter(|p| p.infected).map(|p| p.id).collect();
    assert_eq!(infected, vec![2]);
}

#[test]
fn seed_count_above_population_marks_everyone_once() {
    let raw = one_area_bundle(vec![]);
    let c = StudyAreaCache::create(one_area_input(false, 100), &raw).unwrap();
    assert_eq!(c.population.people.len(), 4);
    assert!(c.population.people.iter().all(|p| p.infected));
}

#[test]
fn seed_count_zero_infects_nobody() {
    let raw = one_area_bundle(vec![]);
    let c = StudyAreaCache::create(one_area_input(false, 0), &raw).unwrap();
    assert!(c.population.people.iter().all(|p| !p.infected));
}

#[test]
fn seed_area_must_be_requested() {
    let raw = one_area_bundle(vec![]);
    let input = Input {
        enable_commuting: false,
        msoas: vec![area("E02000001")],
        initial_cases_per_msoa: vec![(area("E02000009"), 1)],
    };
    match StudyAreaCache::create(input, &raw) {
        Err(BuildError::UnknownArea(m)) => assert_eq!(m.as_string(), "E02000009"),
        other => panic!("unexpected {:?}", other.map(|_| ())),
    }
}

#[test]
fn stratum_without_template_fails() {
    let mut raw = one_area_bundle(vec![]);
    raw.templates = vec![DiaryTemplate { strata: adult(), durations: [1, 2, 3, 4] }];
    match StudyAreaCache::create(one_area_input(false, 0), &raw) {
        Err(BuildError::InsufficientDiaryCoverage(m)) => assert_eq!(m.as_string(), "E02000001"),
        other => panic!("unexpected {:?}", other.map(|_| ())),
    }
}

#[test]
fn area_without_households_fails() {
    let raw = one_area_bundle(vec![]);
    let input = Input {
        enable_commuting: false,
        msoas: vec![area("E02000001"), area("E02000005")],
        initial_cases_per_msoa: vec![],
    };
    match create_population(&raw.diary_records, &raw.templates, input.msoas, &vec![]) {
        Err(BuildError::InsufficientDiaryCoverage(m)) => assert_eq!(m.as_string(), "E02000005"),
        other => panic!("unexpected {:?}", other.map(|_| ())),
    }
}

#[test]
fn area_without_directory_fails() {
    let mut raw = one_area_bundle(vec![]);
    raw.venue_directories = vec![directory(&["E02000002"], [0, 1, 1, 1], 0, 0)];
    match StudyAreaCache::create(one_area_input(false, 0), &raw) {
        Err(BuildError::MissingAreaInfo(m)) => assert_eq!(m.as_string(), "E02000001"),
        other => panic!("unexpected {:?}", other.map(|_| ())),
    }
}

#[test]
fn smallest_covering_directory_wins() {
    let raw = two_area_bundle();
    let areas = vec![area("E02000001"), area("E02000002"), area("E02000003")];
    let info = get_info_per_msoa(&areas[..2].to_vec(), &raw.venue_directories).unwrap();
    assert_eq!(info[0].directory, 1);
    assert_eq!(info[0].attractiveness, [0, 50, 20, 5]);
    assert_eq!(info[1].directory, 2);
    assert_eq!((info[1].x, info[1].y), (3, 4));
    assert!(matches!(
        get_info_per_msoa(&areas, &raw.venue_directories),
        Err(BuildError::MissingAreaInfo(_))
    ));
}

#[test]
fn empty_mobility_series_fails() {
    let raw = one_area_bundle(vec![MobilitySeries { msoa: area("E02000001"), changes: vec![] }]);
    match StudyAreaCache::create(one_area_input(false, 0), &raw) {
        Err(BuildError::EmptyMobilitySeries(m)) => assert_eq!(m.as_string(), "E02000001"),
        other => panic!("unexpected {:?}", other.map(|_| ())),
    }
}

#[test]
fn area_without_mobility_data_is_neutral_over_the_whole_range() {
    let c = StudyAreaCache::create(two_area_input(false), &two_area_bundle()).unwrap();
    let first = &c.lockdown_per_day[0];
    assert_eq!(first.len(), 2);
    for (d, day) in first.iter().enumerate() {
        assert_eq!(day.day, d as u64);
        assert_eq!(day.multiplier_pct, [100, 100, 100, 100]);
    }
    let second = &c.lockdown_per_day[1];
    assert_eq!(second[0].multiplier_pct, [100, 80, 110, 100]);
    assert_eq!(second[1].multiplier_pct, [105, 0, 200, 0]);
}

#[test]
fn mismatched_tables_are_inconsistent() {
    let c = StudyAreaCache::create(two_area_input(false), &two_area_bundle()).unwrap();
    let short: Vec<AreaInfo> = vec![c.info_per_msoa[0]];
    assert!(matches!(
        calculate_lockdown_per_day(&vec![], &short, &c.population),
        Err(BuildError::CacheInconsistency)
    ));
}

#[test]
fn durations_stay_within_twice_nominal() {
    let c = StudyAreaCache::create(two_area_input(false), &two_area_bundle()).unwrap();
    let f = finalize(c, false, &vec![]);
    for (p, a) in f.population.people.iter().zip(f.assignments.iter()) {
        for day in &a.daily_durations {
            for k in 0..4 {
                assert!(day[k] <= 2 * 100 * p.durations[k] as u64);
            }
        }
    }
    // Person 2 lives in the second area: retail doubles and work drops to zero on day 1.
    assert_eq!(f.assignments[2].daily_durations[1], [63000, 0, 12000, 0]);
}

#[test]
fn destination_follows_cumulative_weights() {
    let raw = two_area_bundle();
    let areas = vec![area("E02000001"), area("E02000002")];
    let info = get_info_per_msoa(&areas, &raw.venue_directories).unwrap();
    // From area 0, work weights: 50 * 10^6 / 1 and 70 * 10^6 / 64.
    let w0: u64 = 50_000_000;
    let w1: u64 = 70_000_000 / 64;
    assert_eq!(pick_destination(&info, 0, 1, 0), 0);
    assert_eq!(pick_destination(&info, 0, 1, w0 - 1), 0);
    assert_eq!(pick_destination(&info, 0, 1, w0), 1);
    assert_eq!(pick_destination(&info, 0, 1, w0 + w1 - 1), 1);
    assert_eq!(pick_destination(&info, 0, 1, w0 + w1), 0);
    // No attractiveness anywhere for the home category: the person stays home.
    let flat: Vec<AreaInfo> = info
        .iter()
        .map(|i| AreaInfo { attractiveness: [0, 0, 0, 0], ..*i })
        .collect();
    assert_eq!(pick_destination(&flat, 1, 2, 12345), 1);
}

#[test]
fn commuting_draws_pick_destinations_in_person_order() {
    let c = StudyAreaCache::create(two_area_input(true), &two_area_bundle()).unwrap();
    let n = c.population.people.len();
    let mut draws = vec![0u64; 3 * n];
    // Retail weights from area 0: 20 * 10^6 for itself, 30 * 10^6 / 64 for area 1.
    draws[1] = 20_000_000;
    let f = finalize(c, true, &draws);
    assert_eq!(f.assignments[0].destinations, [0, 0, 1, 0]);
    assert_eq!(f.assignments[2].destinations[0], 1);
}

#[test]
fn same_seed_gives_same_assignment() {
    let run = |seed: u64| {
        let c = StudyAreaCache::create(two_area_input(true), &two_area_bundle()).unwrap();
        let mut rng = StdRng::seed_from_u64(seed);
        let f = assign_commuting(c, true, &mut rng);
        f.assignments
            .iter()
            .map(|a| (a.destinations, a.daily_durations.clone()))
            .collect::<Vec<_>>()
    };
    assert_eq!(run(7), run(7));
    assert_eq!(run(42), run(42));
}

#[test]
fn without_commuting_everyone_stays_home_for_any_seed() {
    for seed in [1u64, 2, 99] {
        let c = StudyAreaCache::create(two_area_input(false), &two_area_bundle()).unwrap();
        let homes: Vec<usize> = c.population.people.iter().map(|p| p.msoa).collect();
        let mut rng = StdRng::seed_from_u64(seed);
        let f = assign_commuting(c, false, &mut rng);
        for (a, h) in f.assignments.iter().zip(homes.iter()) {
            assert_eq!(a.destinations, [*h; 4]);
        }
    }
}
