use vstd::prelude::*;

use crate::area::{index_of, Msoa};
use crate::area_info::{chosen_directory, get_info_per_msoa, info_from};
use crate::commuting::cache_wf;
use crate::lockdown::{
    calculate_lockdown_per_day, has_empty_series, lemma_schedule_bounded, schedule_matches,
};
use crate::model::{
    AreaInfo, BuildError, HouseholdRecord, Input, LockdownDay, Population, RawDatasetBundle,
    StudyAreaCache,
};
use crate::population::{
    areas_covered, built_from, cases_requested, create_population, kept, members_covered,
};

verus! {

/// The areas that some household lives in.
pub open spec fn referenced_areas(pop: Population) -> Set<int> {
    Set::new(
        |a: int| exists|h: int| 0 <= h < pop.households@.len() && #[trigger] pop.households@[h].msoa == a,
    )
}

/// The indices `0..n`: the keys of a table held as a sequence of `n` entries.
pub open spec fn keys_below(n: int) -> Set<int> {
    Set::new(|a: int| 0 <= a < n)
}

/// Whether a population of these areas can be built from the raw data.
pub open spec fn population_buildable(input: Input, raw: RawDatasetBundle) -> bool {
    let k = kept(raw.diary_records@, input.msoas@);
    &&& cases_requested(input.initial_cases_per_msoa@, input.msoas@)
    &&& members_covered(k, raw.templates@)
    &&& areas_covered(k, input.msoas@)
}

/// Whether a directory describes every area.
pub open spec fn info_available(areas: Seq<Msoa>, raw: RawDatasetBundle) -> bool {
    forall|a: int| 0 <= a < areas.len() ==> chosen_directory(raw.venue_directories@, #[trigger] areas[a]@) >= 0
}

/// Whether no area has a mobility series without any day.
pub open spec fn mobility_usable(areas: Seq<Msoa>, raw: RawDatasetBundle) -> bool {
    forall|a: int| 0 <= a < areas.len() ==> !has_empty_series(raw.mobility_records@, #[trigger] areas[a]@)
}

/// The cache holds exactly what the three stages compute from this input and data.
pub open spec fn cache_built(input: Input, raw: RawDatasetBundle, c: StudyAreaCache) -> bool {
    let areas = input.msoas@;
    &&& c.population.msoas@ == areas
    &&& built_from(
        c.population,
        kept(raw.diary_records@, areas),
        raw.templates@,
        input.initial_cases_per_msoa@,
    )
    &&& c.info_per_msoa@.len() == areas.len()
    &&& forall|a: int|
        0 <= a < areas.len() ==> info_from(
            #[trigger] c.info_per_msoa@[a],
            raw.venue_directories@,
            chosen_directory(raw.venue_directories@, areas[a]@),
        )
    &&& schedule_matches(raw.mobility_records@, areas, c.lockdown_per_day@)
}

proof fn lemma_kept_requested(recs: Seq<HouseholdRecord>, areas: Seq<Msoa>)
    ensures
        forall|h: int|
            0 <= h < kept(recs, areas).len() ==> index_of(areas, (#[trigger] kept(recs, areas)[h]).msoa@)
                >= 0,
    decreases recs.len(),
{
    if recs.len() > 0 {
        let p = kept(recs.drop_last(), areas);
        lemma_kept_requested(recs.drop_last(), areas);
        assert forall|h: int| 0 <= h < p.len() implies kept(recs, areas)[h] == p[h] by {}
    }
}

proof fn lemma_index_of_below(areas: Seq<Msoa>, code: Seq<char>)
    ensures
        index_of(areas, code) < areas.len(),
    decreases areas.len(),
{
    if areas.len() > 0 {
        lemma_index_of_below(areas.drop_last(), code);
    }
}

/// In a cache built from an input, the areas of the population's households are exactly the
/// keys of the area facts and of the lockdown schedules: none missing, none extra.
pub proof fn lemma_cache_areas_agree(input: Input, raw: RawDatasetBundle, c: StudyAreaCache)
    requires
        population_buildable(input, raw),
        cache_built(input, raw, c),
    ensures
        referenced_areas(c.population) == keys_below(c.info_per_msoa@.len() as int),
        referenced_areas(c.population) == keys_below(c.lockdown_per_day@.len() as int),
{
    let areas = input.msoas@;
    let k = kept(raw.diary_records@, areas);
    let pop = c.population;
    lemma_kept_requested(raw.diary_records@, areas);
    assert forall|a: int| #[trigger] referenced_areas(pop).contains(a) implies keys_below(
        areas.len() as int,
    ).contains(a) by {
        let h = choose|h: int| 0 <= h < pop.households@.len() && #[trigger] pop.households@[h].msoa == a;
        assert(household_index_ok(pop, h, k[h]));
        lemma_index_of_below(areas, k[h].msoa@);
    }
    assert forall|a: int| #[trigger] keys_below(areas.len() as int).contains(a) implies referenced_areas(
        pop,
    ).contains(a) by {
        assert(crate::population::area_has_household(k, areas, a));
        let h = choose|h: int| 0 <= h < k.len() && index_of(areas, (#[trigger] k[h]).msoa@) == a;
        assert(household_index_ok(pop, h, k[h]));
    }
    assert(referenced_areas(pop) == keys_below(areas.len() as int));
}

spec fn household_index_ok(pop: Population, h: int, rec: HouseholdRecord) -> bool {
    pop.households@[h].msoa == index_of(pop.msoas@, rec.msoa@)
}

impl StudyAreaCache {
    /// Builds the cache from the raw data: synthesises the population, resolves the facts of
    /// each area, then computes the lockdown schedules, stopping at the first stage that
    /// fails with that stage's error.
    pub fn create(input: Input, raw: &RawDatasetBundle) -> (r: Result<StudyAreaCache, BuildError>)
        ensures
            r is Ok <==> population_buildable(input, *raw) && info_available(input.msoas@, *raw)
                && mobility_usable(input.msoas@, *raw),
            r matches Ok(c) ==> cache_built(input, *raw, c) && cache_wf(c),
            r matches Ok(c) ==> referenced_areas(c.population) == keys_below(
                c.info_per_msoa@.len() as int,
            ) && referenced_areas(c.population) == keys_below(c.lockdown_per_day@.len() as int),
            r matches Err(BuildError::UnknownArea(m)) ==> !population_buildable(input, *raw),
            r matches Err(BuildError::InsufficientDiaryCoverage(m)) ==> !population_buildable(
                input,
                *raw,
            ),
            r matches Err(BuildError::MissingAreaInfo(m)) ==> population_buildable(input, *raw)
                && !info_available(input.msoas@, *raw),
            r matches Err(BuildError::EmptyMobilitySeries(m)) ==> population_buildable(input, *raw)
                && info_available(input.msoas@, *raw) && !mobility_usable(input.msoas@, *raw),
            r matches Err(e) ==> !(e is CacheInconsistency || e is AcquisitionFailure
                || e is SerializationFailure),
    {
        let ghost areas = input.msoas@;
        let population = match create_population(
            &raw.diary_records,
            &raw.templates,
            input.msoas,
            &input.initial_cases_per_msoa,
        ) {
            Ok(p) => p,
            Err(e) => {
                return Err(e);
            },
        };
        let info_per_msoa = match get_info_per_msoa(&population.msoas, &raw.venue_directories) {
            Ok(i) => i,
            Err(e) => {
                return Err(e);
            },
        };
        let lockdown_per_day = match calculate_lockdown_per_day(
            &raw.mobility_records,
            &info_per_msoa,
            &population,
        ) {
            Ok(l) => l,
            Err(e) => {
                return Err(e);
            },
        };
        let c = StudyAreaCache { population, info_per_msoa, lockdown_per_day };
        proof {
            lemma_cache_areas_agree(input, *raw, c);
            lemma_schedule_bounded(raw.mobility_records@, c.population.msoas@, c.lockdown_per_day@);
        }
        Ok(c)
    }
}

} // verus!
