use vstd::prelude::*;

use crate::area::Msoa;

verus! {

// Every per-category array below holds four activity categories, in this order: home
// (residential), work, retail and school. Every category but home is a place a person
// travels to.

/// Demographic stratum of a person: age band, sex and socio-economic class.
#[derive(Clone, Copy, Debug, PartialEq, Eq, Structural)]
pub struct Demographics {
    pub age_band: u8,
    pub sex: u8,
    pub nssec: u8,
}

/// One household of the census microdata: its area and its members' strata.
#[derive(Debug)]
pub struct HouseholdRecord {
    pub msoa: Msoa,
    pub members: Vec<Demographics>,
}

/// A travel-diary template: the nominal minutes per activity category for one stratum.
#[derive(Clone, Copy, Debug)]
pub struct DiaryTemplate {
    pub strata: Demographics,
    pub durations: [u32; 4],
}

/// A geographic directory of venues, covering one or more areas.
#[derive(Debug)]
pub struct VenueDirectory {
    pub covers: Vec<Msoa>,
    pub venue_counts: [u32; 4],
    pub attractiveness: [u32; 4],
    pub x: u32,
    pub y: u32,
}

/// Day-by-day percentage changes of visits per activity category for one area. Day `d` of
/// the series is day `d` after the shared epoch.
#[derive(Debug)]
pub struct MobilitySeries {
    pub msoa: Msoa,
    pub changes: Vec<[i64; 4]>,
}

/// Everything read from the raw datasets.
#[derive(Debug)]
pub struct RawDatasetBundle {
    pub diary_records: Vec<HouseholdRecord>,
    pub templates: Vec<DiaryTemplate>,
    pub venue_directories: Vec<VenueDirectory>,
    pub mobility_records: Vec<MobilitySeries>,
}

/// What a run is asked to build.
#[derive(Debug)]
pub struct Input {
    pub enable_commuting: bool,
    pub msoas: Vec<Msoa>,
    pub initial_cases_per_msoa: Vec<(Msoa, u64)>,
}

/// A household: its area (an index into the population's areas) and its members (indices
/// into the population's people).
#[derive(Debug)]
pub struct Household {
    pub id: usize,
    pub msoa: usize,
    pub members: Vec<usize>,
}

/// A person. `household` and `msoa` are indices, never owning references.
#[derive(Clone, Copy, Debug)]
pub struct Person {
    pub id: usize,
    pub household: usize,
    pub msoa: usize,
    pub demographics: Demographics,
    pub infected: bool,
    pub durations: [u32; 4],
}

/// The synthesised population before any commuting is assigned.
#[derive(Debug)]
pub struct Population {
    pub msoas: Vec<Msoa>,
    pub households: Vec<Household>,
    pub people: Vec<Person>,
}

/// Static, commuting-relevant facts about one area.
#[derive(Clone, Copy, Debug)]
pub struct AreaInfo {
    pub directory: usize,
    pub venue_counts: [u32; 4],
    pub attractiveness: [u32; 4],
    pub x: u32,
    pub y: u32,
}

/// Multipliers for one day, in per cent of the nominal duration, per activity category.
#[derive(Clone, Copy, Debug)]
pub struct LockdownDay {
    pub day: u64,
    pub multiplier_pct: [u64; 4],
}

/// The reusable, seed-independent result of the deterministic stages.
#[derive(Debug)]
pub struct StudyAreaCache {
    pub population: Population,
    pub info_per_msoa: Vec<AreaInfo>,
    pub lockdown_per_day: Vec<Vec<LockdownDay>>,
}

/// Where a person goes for each category (area indices) and, per day, the adjusted
/// duration of each category in hundredths of a minute.
#[derive(Debug)]
pub struct CommutingAssignment {
    pub destinations: [usize; 4],
    pub daily_durations: Vec<[u64; 4]>,
}

/// The cache's contents with one assignment per person, in the order of the people.
#[derive(Debug)]
pub struct FinalizedPopulation {
    pub population: Population,
    pub info_per_msoa: Vec<AreaInfo>,
    pub lockdown_per_day: Vec<Vec<LockdownDay>>,
    pub assignments: Vec<CommutingAssignment>,
}

/// Why a build failed.
#[derive(Debug)]
pub enum BuildError {
    AcquisitionFailure(String),
    MissingAreaInfo(Msoa),
    UnknownArea(Msoa),
    InsufficientDiaryCoverage(Msoa),
    EmptyMobilitySeries(Msoa),
    CacheInconsistency,
    SerializationFailure(String),
}

} // verus!
