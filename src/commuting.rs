use vstd::prelude::*;

use rand::rngs::StdRng;

use crate::random::next_draw;
use crate::cache::{cache_built, info_available, mobility_usable, population_buildable};
use crate::model::{
    AreaInfo, BuildError, CommutingAssignment, FinalizedPopulation, Input, LockdownDay,
    RawDatasetBundle, StudyAreaCache,
};

verus! {

/// Scale of the attractiveness in a flow weight, so that integer division keeps precision.
pub const WEIGHT_SCALE: u64 = 1000000;

/// Grid distance between two areas.
pub open spec fn distance(o: AreaInfo, d: AreaInfo) -> int {
    let dx = if o.x >= d.x { o.x - d.x } else { d.x - o.x };
    let dy = if o.y >= d.y { o.y - d.y } else { d.y - o.y };
    dx + dy
}

/// Gravity flow weight from `o` to `d` for category `c`: the destination's attractiveness
/// divided by the square of one plus the distance.
pub open spec fn flow_weight(o: AreaInfo, d: AreaInfo, c: int) -> int {
    (d.attractiveness[c] * WEIGHT_SCALE) as int / ((1 + distance(o, d)) * (1 + distance(o, d)))
}

/// Sum of the flow weights from area `o` to the first `n` areas.
pub open spec fn prefix_weight(infos: Seq<AreaInfo>, o: int, c: int, n: int) -> int
    decreases n,
{
    if n <= 0 {
        0
    } else {
        prefix_weight(infos, o, c, n - 1) + flow_weight(infos[o], infos[n - 1], c)
    }
}

/// Whether `r` is the destination that a draw picks from area `o` for category `c`: the
/// area whose share of the cumulative weights holds the draw modulo the total weight. With
/// no weight anywhere, the person stays in their own area.
pub open spec fn destination_ok(infos: Seq<AreaInfo>, o: int, c: int, draw: int, r: int) -> bool {
    let total = prefix_weight(infos, o, c, infos.len() as int);
    if total == 0 {
        r == o
    } else {
        0 <= r < infos.len() && prefix_weight(infos, o, c, r) <= draw % total < prefix_weight(
            infos,
            o,
            c,
            r + 1,
        )
    }
}

/// The cache is consistent: one entry per area in each table, every person living in one of
/// the areas, and every multiplier at most 200 per cent.
pub open spec fn cache_wf(c: StudyAreaCache) -> bool {
    let n = c.population.msoas@.len();
    &&& c.info_per_msoa@.len() == n
    &&& c.lockdown_per_day@.len() == n
    &&& forall|j: int|
        0 <= j < c.population.people@.len() ==> (#[trigger] c.population.people@[j]).msoa < n
    &&& forall|a: int, d: int, k: int|
        0 <= a < n && 0 <= d < c.lockdown_per_day@[a]@.len() && 0 <= k < 4
            ==> #[trigger] c.lockdown_per_day@[a]@[d].multiplier_pct[k] <= 200
}

/// The assignment of person `p`: their own area for home, a drawn destination for every
/// other category (or their own area when commuting is off), and each day's duration in
/// hundredths of a minute, the nominal minutes times the home area's per-cent multiplier.
pub open spec fn assignment_matches(
    c: StudyAreaCache,
    enable: bool,
    draws: Seq<u64>,
    p: int,
    asg: CommutingAssignment,
) -> bool {
    let person = c.population.people@[p];
    let home = person.msoa as int;
    let days = c.lockdown_per_day@[home]@;
    &&& asg.destinations[0] == home
    &&& forall|k: int|
        1 <= k < 4 ==> if enable {
            destination_ok(
                c.info_per_msoa@,
                home,
                k,
                draws[3 * p + k - 1] as int,
                #[trigger] asg.destinations[k] as int,
            )
        } else {
            asg.destinations[k] == home
        }
    &&& asg.daily_durations@.len() == days.len()
    &&& forall|d: int, k: int|
        0 <= d < days.len() && 0 <= k < 4 ==> #[trigger] asg.daily_durations@[d][k] == person.durations[k]
            * days[d].multiplier_pct[k]
}

/// The finalised population is the cache with one matching assignment per person.
pub open spec fn finalized_by(
    c: StudyAreaCache,
    enable: bool,
    draws: Seq<u64>,
    f: FinalizedPopulation,
) -> bool {
    &&& f.population == c.population
    &&& f.info_per_msoa == c.info_per_msoa
    &&& f.lockdown_per_day == c.lockdown_per_day
    &&& f.assignments@.len() == c.population.people@.len()
    &&& forall|p: int|
        0 <= p < f.assignments@.len() ==> assignment_matches(
            c,
            enable,
            draws,
            p,
            #[trigger] f.assignments@[p],
        )
}

proof fn lemma_weight_bounds(o: AreaInfo, d: AreaInfo, c: int)
    requires
        0 <= c < 4,
    ensures
        0 <= flow_weight(o, d, c) <= 0x10000000000000,
{
    let num = (d.attractiveness[c] * WEIGHT_SCALE) as int;
    let den = (1 + distance(o, d)) * (1 + distance(o, d));
    assert(num <= 0xffffffff * 1000000);
    assert(den >= 1) by (nonlinear_arith)
        requires
            distance(o, d) >= 0,
            den == (1 + distance(o, d)) * (1 + distance(o, d)),
    ;
    assert(0 <= num / den <= num) by (nonlinear_arith)
        requires
            num >= 0,
            den >= 1,
    ;
}

proof fn lemma_prefix_bounds(infos: Seq<AreaInfo>, o: int, c: int, n: int)
    requires
        0 <= o < infos.len(),
        0 <= c < 4,
        0 <= n <= infos.len(),
    ensures
        0 <= prefix_weight(infos, o, c, n) <= n * 0x10000000000000,
        forall|m: int| 0 <= m <= n ==> prefix_weight(infos, o, c, m) <= prefix_weight(infos, o, c, n),
    decreases n,
{
    if n > 0 {
        lemma_prefix_bounds(infos, o, c, n - 1);
        lemma_weight_bounds(infos[o], infos[n - 1], c);
    }
}

/// Flow weight from `o` to `d` for category `c`.
fn weight(o: &AreaInfo, d: &AreaInfo, c: usize) -> (r: u128)
    requires
        c < 4,
    ensures
        r as int == flow_weight(*o, *d, c as int),
{
    let dx: u64 = if o.x >= d.x { (o.x - d.x) as u64 } else { (d.x - o.x) as u64 };
    let dy: u64 = if o.y >= d.y { (o.y - d.y) as u64 } else { (d.y - o.y) as u64 };
    let dist: u128 = dx as u128 + dy as u128;
    assert(dist == distance(*o, *d));
    assert(1 <= (1 + dist) * (1 + dist) <= 0x200000000 * 0x200000000) by (nonlinear_arith)
        requires
            0 <= dist <= 0x1fffffffe,
    ;
    let den: u128 = (1 + dist) * (1 + dist);
    let num: u128 = d.attractiveness[c] as u128 * WEIGHT_SCALE as u128;
    num / den
}

/// Nominal minutes scaled by a per-cent multiplier, in hundredths of a minute.
fn scale(n: u32, m: u64) -> (r: u64)
    requires
        m <= 200,
    ensures
        r == n * m,
{
    assert(n * m <= 0xffffffff * 200) by (nonlinear_arith)
        requires
            n <= 0xffffffff,
            m <= 200,
    ;
    n as u64 * m
}

/// Picks the destination of one draw for category `c` from area `o`.
pub fn pick_destination(infos: &Vec<AreaInfo>, o: usize, c: usize, draw: u64) -> (r: usize)
    requires
        o < infos@.len(),
        1 <= c < 4,
    ensures
        destination_ok(infos@, o as int, c as int, draw as int, r as int),
{
    let n = infos.len();
    let mut total: u128 = 0;
    let mut i: usize = 0;
    while i < n
        invariant
            n == infos@.len(),
            o < n,
            1 <= c < 4,
            i <= n,
            total as int == prefix_weight(infos@, o as int, c as int, i as int),
        decreases n - i,
    {
        proof {
            lemma_prefix_bounds(infos@, o as int, c as int, i as int + 1);
            assert((i as int + 1) * 0x10000000000000 <= 0x10000000000000000 * 0x10000000000000)
                by (nonlinear_arith)
                requires
                    i < 0x10000000000000000,
            ;
        }
        total = total + weight(&infos[o], &infos[i], c);
        i = i + 1;
    }
    if total == 0 {
        return o;
    }
    let t: u128 = draw as u128 % total;
    let mut acc: u128 = 0;
    let mut j: usize = 0;
    while j < n
        invariant
            n == infos@.len(),
            o < n,
            1 <= c < 4,
            j <= n,
            total as int == prefix_weight(infos@, o as int, c as int, n as int),
            t < total,
            t as int == draw as int % total as int,
            acc as int == prefix_weight(infos@, o as int, c as int, j as int),
            acc <= t,
        decreases n - j,
    {
        proof {
            lemma_prefix_bounds(infos@, o as int, c as int, n as int);
            assert(n as int * 0x10000000000000 <= 0x10000000000000000 * 0x10000000000000)
                by (nonlinear_arith)
                requires
                    n < 0x10000000000000000,
            ;
            assert(prefix_weight(infos@, o as int, c as int, j as int + 1) <= total);
        }
        let w = weight(&infos[o], &infos[j], c);
        assert(acc + w == prefix_weight(infos@, o as int, c as int, j as int + 1));
        if t < acc + w {
            return j;
        }
        acc = acc + w;
        j = j + 1;
    }
    proof {
        assert(acc == total);
    }
    j
}

/// Assigns every person, in order, a destination per category from the draws (three per
/// person, one for each category away from home, in category order) and scales their
/// nominal durations by their home area's lockdown schedule, day by day.
pub fn finalize(cache: StudyAreaCache, enable_commuting: bool, draws: &Vec<u64>) -> (r: FinalizedPopulation)
    requires
        cache_wf(cache),
        enable_commuting ==> draws@.len() >= 3 * cache.population.people@.len(),
    ensures
        finalized_by(cache, enable_commuting, draws@, r),
{
    let ghost c0 = cache;
    let StudyAreaCache { population, info_per_msoa, lockdown_per_day } = cache;
    let mut assignments: Vec<CommutingAssignment> = Vec::new();
    let mut p: usize = 0;
    while p < population.people.len()
        invariant
            c0 == (StudyAreaCache { population, info_per_msoa, lockdown_per_day }),
            cache_wf(c0),
            enable_commuting ==> draws@.len() >= 3 * population.people@.len(),
            p <= population.people@.len(),
            assignments@.len() == p,
            forall|q: int|
                0 <= q < p ==> assignment_matches(
                    c0,
                    enable_commuting,
                    draws@,
                    q,
                    #[trigger] assignments@[q],
                ),
        decreases population.people.len() - p,
    {
        let person = population.people[p];
        let home = person.msoa;
        let mut dest: [usize; 4] = [home, home, home, home];
        if enable_commuting {
            let nd = draws.len();
            let base = 3 * p;
            dest = [
                home,
                pick_destination(&info_per_msoa, home, 1, draws[base]),
                pick_destination(&info_per_msoa, home, 2, draws[base + 1]),
                pick_destination(&info_per_msoa, home, 3, draws[base + 2]),
            ];
        }
        let days = &lockdown_per_day[home];
        let mut daily: Vec<[u64; 4]> = Vec::new();
        let mut d: usize = 0;
        while d < days.len()
            invariant
                c0 == (StudyAreaCache { population, info_per_msoa, lockdown_per_day }),
                cache_wf(c0),
                p < population.people@.len(),
                person == population.people@[p as int],
                home == person.msoa,
                home < lockdown_per_day@.len(),
                *days == lockdown_per_day@[home as int],
                d <= days@.len(),
                daily@.len() == d,
                forall|e: int, k: int|
                    0 <= e < d && 0 <= k < 4 ==> #[trigger] daily@[e][k] == person.durations[k]
                        * days@[e].multiplier_pct[k],
            decreases days.len() - d,
        {
            let m = days[d].multiplier_pct;
            assert(m[0] <= 200 && m[1] <= 200 && m[2] <= 200 && m[3] <= 200) by {
                assert(days@[d as int].multiplier_pct[0] <= 200);
                assert(days@[d as int].multiplier_pct[1] <= 200);
                assert(days@[d as int].multiplier_pct[2] <= 200);
                assert(days@[d as int].multiplier_pct[3] <= 200);
            }
            let row: [u64; 4] = [
                scale(person.durations[0], m[0]),
                scale(person.durations[1], m[1]),
                scale(person.durations[2], m[2]),
                scale(person.durations[3], m[3]),
            ];
            daily.push(row);
            d = d + 1;
        }
        let asg = CommutingAssignment { destinations: dest, daily_durations: daily };
        assert(assignment_matches(c0, enable_commuting, draws@, p as int, asg));
        assignments.push(asg);
        p = p + 1;
    }
    FinalizedPopulation { population, info_per_msoa, lockdown_per_day, assignments }
}

/// Runs the commuting stage with a seeded generator: three draws per person, taken person
/// by person in order, feed `finalize`. Whatever the generator yields, the result is the
/// finalisation of the cache under some sequence of draws.
pub fn assign_commuting(cache: StudyAreaCache, enable_commuting: bool, rng: &mut StdRng) -> (r:
    FinalizedPopulation)
    requires
        cache_wf(cache),
    ensures
        exists|draws: Seq<u64>| finalized_by(cache, enable_commuting, draws, r),
{
    let mut draws: Vec<u64> = Vec::new();
    if enable_commuting {
        let n = cache.population.people.len();
        let mut p: usize = 0;
        while p < n
            invariant
                p <= n,
                draws@.len() == 3 * p,
            decreases n - p,
        {
            draws.push(next_draw(rng));
            draws.push(next_draw(rng));
            draws.push(next_draw(rng));
            p = p + 1;
        }
    }
    let ghost c0 = cache;
    let r = finalize(cache, enable_commuting, &draws);
    assert(finalized_by(c0, enable_commuting, draws@, r));
    r
}

proof fn lemma_destination_unique(infos: Seq<AreaInfo>, o: int, c: int, draw: int, r1: int, r2: int)
    requires
        0 <= o < infos.len(),
        1 <= c < 4,
        destination_ok(infos, o, c, draw, r1),
        destination_ok(infos, o, c, draw, r2),
    ensures
        r1 == r2,
{
    let total = prefix_weight(infos, o, c, infos.len() as int);
    if total != 0 {
        if r1 < r2 {
            lemma_prefix_bounds(infos, o, c, r2);
        } else if r2 < r1 {
            lemma_prefix_bounds(infos, o, c, r1);
        }
    }
}

/// Two finalisations of one cache under the same draws, as a fixed seed gives them, agree on
/// every destination and every adjusted duration.
pub proof fn lemma_finalize_deterministic(
    c: StudyAreaCache,
    enable: bool,
    draws: Seq<u64>,
    f1: FinalizedPopulation,
    f2: FinalizedPopulation,
)
    requires
        cache_wf(c),
        finalized_by(c, enable, draws, f1),
        finalized_by(c, enable, draws, f2),
    ensures
        f1.assignments@.len() == f2.assignments@.len(),
        forall|p: int, k: int|
            0 <= p < f1.assignments@.len() && 0 <= k < 4 ==> #[trigger] f1.assignments@[p].destinations[k]
                == f2.assignments@[p].destinations[k],
        forall|p: int|
            0 <= p < f1.assignments@.len() ==> (#[trigger] f1.assignments@[p]).daily_durations@.len()
                == f2.assignments@[p].daily_durations@.len(),
        forall|p: int, d: int, k: int|
            0 <= p < f1.assignments@.len() && 0 <= d < f1.assignments@[p].daily_durations@.len() && 0
                <= k < 4 ==> #[trigger] f1.assignments@[p].daily_durations@[d][k]
                == f2.assignments@[p].daily_durations@[d][k],
{
    assert forall|p: int, k: int|
        0 <= p < f1.assignments@.len() && 0 <= k < 4 implies #[trigger] f1.assignments@[p].destinations[k]
            == f2.assignments@[p].destinations[k] by {
        let a1 = f1.assignments@[p];
        let a2 = f2.assignments@[p];
        assert(assignment_matches(c, enable, draws, p, a1));
        assert(assignment_matches(c, enable, draws, p, a2));
        let home = c.population.people@[p].msoa as int;
        if k >= 1 && enable {
            assert(destination_ok(c.info_per_msoa@, home, k, draws[3 * p + k - 1] as int, a1.destinations[k] as int));
            assert(destination_ok(c.info_per_msoa@, home, k, draws[3 * p + k - 1] as int, a2.destinations[k] as int));
            lemma_destination_unique(
                c.info_per_msoa@,
                home,
                k,
                draws[3 * p + k - 1] as int,
                a1.destinations[k] as int,
                a2.destinations[k] as int,
            );
        }
    }
    assert forall|p: int, d: int, k: int|
        0 <= p < f1.assignments@.len() && 0 <= d < f1.assignments@[p].daily_durations@.len() && 0 <= k
            < 4 implies #[trigger] f1.assignments@[p].daily_durations@[d][k]
            == f2.assignments@[p].daily_durations@[d][k] by {
        assert(assignment_matches(c, enable, draws, p, f1.assignments@[p]));
        assert(assignment_matches(c, enable, draws, p, f2.assignments@[p]));
    }
    assert forall|p: int| 0 <= p < f1.assignments@.len() implies (#[trigger] f1.assignments@[p]).daily_durations@.len()
        == f2.assignments@[p].daily_durations@.len() by {
        assert(assignment_matches(c, enable, draws, p, f1.assignments@[p]));
        assert(assignment_matches(c, enable, draws, p, f2.assignments@[p]));
    }
}

/// With commuting off, every category of every person, home included, is their own area,
/// whatever the draws.
pub proof fn lemma_no_commuting_stays_home(c: StudyAreaCache, draws: Seq<u64>, f: FinalizedPopulation)
    requires
        finalized_by(c, false, draws, f),
    ensures
        forall|p: int, k: int|
            0 <= p < f.assignments@.len() && 0 <= k < 4 ==> #[trigger] f.assignments@[p].destinations[k]
                == c.population.people@[p].msoa,
{
    assert forall|p: int, k: int|
        0 <= p < f.assignments@.len() && 0 <= k < 4 implies #[trigger] f.assignments@[p].destinations[k]
            == c.population.people@[p].msoa by {
        assert(assignment_matches(c, false, draws, p, f.assignments@[p]));
    }
}

/// Every adjusted duration, in hundredths of a minute, lies between 0 and twice the nominal
/// duration.
pub proof fn lemma_durations_bounded(
    c: StudyAreaCache,
    enable: bool,
    draws: Seq<u64>,
    f: FinalizedPopulation,
)
    requires
        cache_wf(c),
        finalized_by(c, enable, draws, f),
    ensures
        forall|p: int, d: int, k: int|
            0 <= p < f.assignments@.len() && 0 <= d < f.assignments@[p].daily_durations@.len() && 0 <= k
                < 4 ==> 0 <= #[trigger] f.assignments@[p].daily_durations@[d][k] <= 2 * (100
                * c.population.people@[p].durations[k]),
{
    assert forall|p: int, d: int, k: int|
        0 <= p < f.assignments@.len() && 0 <= d < f.assignments@[p].daily_durations@.len() && 0 <= k
            < 4 implies 0 <= #[trigger] f.assignments@[p].daily_durations@[d][k] <= 2 * (100
            * c.population.people@[p].durations[k]) by {
        let person = c.population.people@[p];
        let home = person.msoa as int;
        assert(assignment_matches(c, enable, draws, p, f.assignments@[p]));
        let m = c.lockdown_per_day@[home]@[d].multiplier_pct[k];
        assert(m <= 200);
        let n = person.durations[k];
        assert(n * m <= 2 * (100 * n)) by (nonlinear_arith)
            requires
                m <= 200,
                n >= 0,
        ;
    }
}

/// The population is the finalisation, under some draws, of the cache built from this input
/// and data, with the input's commuting choice.
pub open spec fn finalized_from(input: Input, raw: RawDatasetBundle, f: FinalizedPopulation) -> bool {
    exists|c: StudyAreaCache, draws: Seq<u64>|
        cache_built(input, raw, c) && cache_wf(c) && #[trigger] finalized_by(
            c,
            input.enable_commuting,
            draws,
            f,
        )
}

impl FinalizedPopulation {
    /// Runs the whole pipeline: builds the study-area cache from the raw data, then assigns
    /// commuting with the generator when the input asks for it. Fails with the cache's error,
    /// in which case the generator is not used.
    pub fn create(input: Input, raw: &RawDatasetBundle, rng: &mut StdRng) -> (r: Result<
        FinalizedPopulation,
        BuildError,
    >)
        ensures
            r is Ok <==> population_buildable(input, *raw) && info_available(input.msoas@, *raw)
                && mobility_usable(input.msoas@, *raw),
            r matches Ok(f) ==> finalized_from(input, *raw, f),
    {
        let ghost input0 = input;
        let enable = input.enable_commuting;
        match StudyAreaCache::create(input, raw) {
            Ok(c) => {
                let ghost c0 = c;
                let f = assign_commuting(c, enable, rng);
                let ghost draws = choose|draws: Seq<u64>| finalized_by(c0, enable, draws, f);
                assert(cache_built(input0, *raw, c0) && cache_wf(c0) && finalized_by(
                    c0,
                    enable,
                    draws,
                    f,
                ));
                assert(finalized_from(input0, *raw, f));
                Ok(f)
            },
            Err(e) => Err(e),
        }
    }
}

} // verus!
