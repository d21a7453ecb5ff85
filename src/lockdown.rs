use vstd::prelude::*;

use crate::area::Msoa;
use crate::model::{AreaInfo, BuildError, LockdownDay, MobilitySeries, Population};

verus! {

/// The multiplier, in per cent, for a percentage change of visits: `100 + change`, kept
/// within 0 and 200.
pub open spec fn multiplier_of(change: int) -> int {
    if change < -100 {
        0
    } else if change > 100 {
        200
    } else {
        100 + change
    }
}

/// Position of the first series for this area, or -1.
pub open spec fn series_index(mob: Seq<MobilitySeries>, code: Seq<char>) -> int
    decreases mob.len(),
{
    if mob.len() == 0 {
        -1
    } else {
        let r = series_index(mob.drop_last(), code);
        if r >= 0 {
            r
        } else if mob.last().msoa@ == code {
            mob.len() - 1
        } else {
            -1
        }
    }
}

/// Number of days in the schedule: the length of the longest series.
pub open spec fn num_days(mob: Seq<MobilitySeries>) -> int
    decreases mob.len(),
{
    if mob.len() == 0 {
        0
    } else {
        let r = num_days(mob.drop_last());
        let l = mob.last().changes@.len() as int;
        if r >= l {
            r
        } else {
            l
        }
    }
}

/// Whether the data has a series for this area, and it holds no day.
pub open spec fn has_empty_series(mob: Seq<MobilitySeries>, code: Seq<char>) -> bool {
    let s = series_index(mob, code);
    s >= 0 && mob[s].changes@.len() == 0
}

/// Multiplier of category `c` on day `d` for an area: from its first series where that
/// series covers the day, else neutral.
pub open spec fn day_multiplier(mob: Seq<MobilitySeries>, code: Seq<char>, d: int, c: int) -> int {
    let s = series_index(mob, code);
    if s >= 0 && d < mob[s].changes@.len() {
        multiplier_of(mob[s].changes@[d][c] as int)
    } else {
        100
    }
}

/// The schedule of one area, day by day.
pub open spec fn area_schedule_matches(
    mob: Seq<MobilitySeries>,
    code: Seq<char>,
    days: Seq<LockdownDay>,
) -> bool {
    &&& days.len() == num_days(mob)
    &&& forall|d: int|
        0 <= d < days.len() ==> (#[trigger] days[d]).day == d && forall|c: int|
            0 <= c < 4 ==> days[d].multiplier_pct[c] == day_multiplier(mob, code, d, c)
}

/// The schedules of all areas, one per area in order.
pub open spec fn schedule_matches(
    mob: Seq<MobilitySeries>,
    areas: Seq<Msoa>,
    sched: Seq<Vec<LockdownDay>>,
) -> bool {
    &&& sched.len() == areas.len()
    &&& forall|a: int|
        0 <= a < areas.len() ==> area_schedule_matches(mob, areas[a]@, #[trigger] sched[a]@)
}

/// A duration scaled by a per-cent multiplier.
pub open spec fn scaled(n: int, pct: int) -> int {
    n * pct / 100
}

/// Whether a schedule holds only neutral multipliers.
pub open spec fn is_neutral(days: Seq<LockdownDay>) -> bool {
    forall|d: int, c: int|
        0 <= d < days.len() && 0 <= c < 4 ==> #[trigger] days[d].multiplier_pct[c] == 100
}

/// Per-cent multiplier for a percentage change of visits, clamped to `[0, 200]`.
pub fn multiplier_pct(change: i64) -> (r: u64)
    ensures
        r as int == multiplier_of(change as int),
{
    if change < -100 {
        0
    } else if change > 100 {
        200
    } else {
        (100 + change) as u64
    }
}

proof fn lemma_series_step(mob: Seq<MobilitySeries>, i: int)
    requires
        0 <= i < mob.len(),
    ensures
        mob.take(i + 1).drop_last() == mob.take(i),
        mob.take(i + 1).last() == mob[i],
{
    assert(mob.take(i + 1).drop_last() == mob.take(i));
}

/// Finds the first series for an area.
fn find_series(mob: &Vec<MobilitySeries>, m: &Msoa) -> (r: Option<usize>)
    ensures
        r matches Some(i) ==> i as int == series_index(mob@, m@) && i < mob@.len(),
        r is None <==> series_index(mob@, m@) < 0,
{
    let mut found: Option<usize> = None;
    let mut i: usize = 0;
    while i < mob.len()
        invariant
            i <= mob@.len(),
            found matches Some(k) ==> k as int == series_index(mob@.take(i as int), m@) && k < i,
            found is None <==> series_index(mob@.take(i as int), m@) < 0,
        decreases mob.len() - i,
    {
        proof {
            lemma_series_step(mob@, i as int);
        }
        if found.is_none() && mob[i].msoa.same_as(m) {
            found = Some(i);
        }
        i = i + 1;
    }
    assert(mob@.take(i as int) == mob@);
    found
}

/// Length of the longest series.
fn count_days(mob: &Vec<MobilitySeries>) -> (r: usize)
    ensures
        r as int == num_days(mob@),
{
    let mut n: usize = 0;
    let mut i: usize = 0;
    while i < mob.len()
        invariant
            i <= mob@.len(),
            n as int == num_days(mob@.take(i as int)),
        decreases mob.len() - i,
    {
        proof {
            lemma_series_step(mob@, i as int);
        }
        let l = mob[i].changes.len();
        if l > n {
            n = l;
        }
        i = i + 1;
    }
    assert(mob@.take(i as int) == mob@);
    n
}

/// Builds the schedule of one area from its series, if it has one.
fn area_schedule(mob: &Vec<MobilitySeries>, found: Option<usize>, m: &Msoa, days: usize) -> (r: Vec<
    LockdownDay,
>)
    requires
        days as int == num_days(mob@),
        found matches Some(i) ==> i as int == series_index(mob@, m@) && i < mob@.len(),
        found is None <==> series_index(mob@, m@) < 0,
    ensures
        area_schedule_matches(mob@, m@, r@),
{
    let mut out: Vec<LockdownDay> = Vec::new();
    let mut d: usize = 0;
    while d < days
        invariant
            d <= days,
            days as int == num_days(mob@),
            found matches Some(i) ==> i as int == series_index(mob@, m@) && i < mob@.len(),
            found is None <==> series_index(mob@, m@) < 0,
            out@.len() == d,
            forall|e: int|
                0 <= e < d ==> (#[trigger] out@[e]).day == e && forall|c: int|
                    0 <= c < 4 ==> out@[e].multiplier_pct[c] == day_multiplier(mob@, m@, e, c),
        decreases days - d,
    {
        let mut mult: [u64; 4] = [100, 100, 100, 100];
        match found {
            Some(i) => {
                if d < mob[i].changes.len() {
                    let ch = mob[i].changes[d];
                    mult = [
                        multiplier_pct(ch[0]),
                        multiplier_pct(ch[1]),
                        multiplier_pct(ch[2]),
                        multiplier_pct(ch[3]),
                    ];
                }
            },
            None => {},
        }
        out.push(LockdownDay { day: d as u64, multiplier_pct: mult });
        d = d + 1;
    }
    out
}

/// Computes, for every area of the population, its multiplier for every day and activity
/// category. All areas share the day range of the longest series; an area without a
/// series, or past the end of its own, gets the neutral multiplier of 100 per cent.
pub fn calculate_lockdown_per_day(
    mobility: &Vec<MobilitySeries>,
    info_per_msoa: &Vec<AreaInfo>,
    population: &Population,
) -> (r: Result<Vec<Vec<LockdownDay>>, BuildError>)
    ensures
        info_per_msoa@.len() != population.msoas@.len() ==> r matches Err(
            BuildError::CacheInconsistency,
        ),
        info_per_msoa@.len() == population.msoas@.len() ==> (r is Ok <==> forall|a: int|
            0 <= a < population.msoas@.len() ==> !has_empty_series(
                mobility@,
                #[trigger] population.msoas@[a]@,
            )),
        r matches Ok(s) ==> schedule_matches(mobility@, population.msoas@, s@),
        r matches Err(BuildError::EmptyMobilitySeries(m)) ==> exists|a: int|
            0 <= a < population.msoas@.len() && #[trigger] population.msoas@[a]@ == m@
                && has_empty_series(mobility@, m@),
        r matches Err(e) ==> e is CacheInconsistency || e is EmptyMobilitySeries,
        r matches Err(BuildError::CacheInconsistency) ==> info_per_msoa@.len()
            != population.msoas@.len(),
{
    let areas = &population.msoas;
    assert(areas@ == population.msoas@);
    if info_per_msoa.len() != areas.len() {
        return Err(BuildError::CacheInconsistency);
    }
    let days = count_days(mobility);
    let mut out: Vec<Vec<LockdownDay>> = Vec::new();
    let mut a: usize = 0;
    while a < areas.len()
        invariant
            a <= areas@.len(),
            info_per_msoa@.len() == areas@.len(),
            areas@ == population.msoas@,
            days as int == num_days(mobility@),
            out@.len() == a,
            forall|b: int|
                0 <= b < a ==> area_schedule_matches(mobility@, areas@[b]@, #[trigger] out@[b]@),
            forall|b: int| 0 <= b < a ==> !has_empty_series(mobility@, #[trigger] areas@[b]@),
        decreases areas.len() - a,
    {
        let found = find_series(mobility, &areas[a]);
        match found {
            Some(i) => {
                if mobility[i].changes.len() == 0 {
                    assert(has_empty_series(mobility@, areas@[a as int]@));
                    return Err(BuildError::EmptyMobilitySeries(areas[a].copied()));
                }
            },
            None => {},
        }
        let sched = area_schedule(mobility, found, &areas[a], days);
        out.push(sched);
        a = a + 1;
    }
    Ok(out)
}

proof fn lemma_series_absent(mob: Seq<MobilitySeries>, code: Seq<char>)
    requires
        forall|i: int| 0 <= i < mob.len() ==> (#[trigger] mob[i]).msoa@ != code,
    ensures
        series_index(mob, code) < 0,
    decreases mob.len(),
{
    if mob.len() > 0 {
        let d = mob.drop_last();
        assert forall|i: int| 0 <= i < d.len() implies (#[trigger] d[i]).msoa@ != code by {
            assert(d[i] == mob[i]);
        }
        lemma_series_absent(d, code);
    }
}

/// An area that no mobility series names gets, on every day of the range and in every
/// category, the neutral multiplier of 100 per cent; scaling a duration by it returns the
/// same duration, so applying the schedule again changes nothing.
pub proof fn lemma_absent_area_is_neutral(
    mob: Seq<MobilitySeries>,
    areas: Seq<Msoa>,
    sched: Seq<Vec<LockdownDay>>,
    a: int,
)
    requires
        schedule_matches(mob, areas, sched),
        0 <= a < areas.len(),
        forall|i: int| 0 <= i < mob.len() ==> (#[trigger] mob[i]).msoa@ != areas[a]@,
    ensures
        sched[a]@.len() == num_days(mob),
        is_neutral(sched[a]@),
        forall|n: int, d: int, c: int|
            0 <= d < sched[a]@.len() && 0 <= c < 4 ==> #[trigger] scaled(
                n,
                sched[a]@[d].multiplier_pct[c] as int,
            ) == n,
{
    lemma_series_absent(mob, areas[a]@);
    let days = sched[a]@;
    assert(area_schedule_matches(mob, areas[a]@, days));
    assert forall|d: int, c: int| 0 <= d < days.len() && 0 <= c < 4 implies #[trigger] days[d].multiplier_pct[c]
        == 100 by {
        assert(days[d].day == d);
        assert(days[d].multiplier_pct[c] == day_multiplier(mob, areas[a]@, d, c));
    }
    assert forall|n: int, d: int, c: int|
        0 <= d < sched[a]@.len() && 0 <= c < 4 implies #[trigger] scaled(
            n,
            sched[a]@[d].multiplier_pct[c] as int,
        ) == n by {
        assert(days[d].multiplier_pct[c] == 100);
        assert(n * 100 / 100 == n) by (nonlinear_arith);
    }
}

/// Every multiplier of a computed schedule lies within 0 and 200 per cent.
pub proof fn lemma_schedule_bounded(mob: Seq<MobilitySeries>, areas: Seq<Msoa>, sched: Seq<Vec<LockdownDay>>)
    requires
        schedule_matches(mob, areas, sched),
    ensures
        forall|a: int, d: int, c: int|
            0 <= a < sched.len() && 0 <= d < sched[a]@.len() && 0 <= c < 4
                ==> #[trigger] sched[a]@[d].multiplier_pct[c] <= 200,
{
    assert forall|a: int, d: int, c: int|
        0 <= a < sched.len() && 0 <= d < sched[a]@.len() && 0 <= c < 4
            implies #[trigger] sched[a]@[d].multiplier_pct[c] <= 200 by {
        let days = sched[a]@;
        assert(area_schedule_matches(mob, areas[a]@, days));
        assert(days[d].day == d);
        assert(days[d].multiplier_pct[c] == day_multiplier(mob, areas[a]@, d, c));
    }
}

} // verus!
