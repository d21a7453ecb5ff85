pub mod area;
pub mod area_info;
pub mod cache;
pub mod commuting;
pub mod lockdown;
pub mod model;
pub mod population;
pub mod random;

pub use area::Msoa;
pub use model::{
    AreaInfo, BuildError, CommutingAssignment, Demographics, DiaryTemplate, FinalizedPopulation,
    Household, HouseholdRecord, Input, LockdownDay, MobilitySeries, Person, Population,
    RawDatasetBundle, StudyAreaCache, VenueDirectory,
};
