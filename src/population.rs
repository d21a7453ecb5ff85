use vstd::prelude::*;

use crate::area::{find_area, index_of, lemma_index_of_bounds, Msoa};
use crate::model::{
    BuildError, Demographics, DiaryTemplate, Household, HouseholdRecord, Person, Population,
};

verus! {

/// The household records that lie in a requested area, in the order they come.
pub open spec fn kept(recs: Seq<HouseholdRecord>, areas: Seq<Msoa>) -> Seq<HouseholdRecord>
    decreases recs.len(),
{
    if recs.len() == 0 {
        Seq::empty()
    } else {
        let p = kept(recs.drop_last(), areas);
        if index_of(areas, recs.last().msoa@) >= 0 {
            p.push(recs.last())
        } else {
            p
        }
    }
}

/// Number of people in a sequence of household records.
pub open spec fn total_members(recs: Seq<HouseholdRecord>) -> int
    decreases recs.len(),
{
    if recs.len() == 0 {
        0
    } else {
        total_members(recs.drop_last()) + recs.last().members@.len()
    }
}

/// Position of the first template for this stratum, or -1.
pub open spec fn template_index(templates: Seq<DiaryTemplate>, d: Demographics) -> int
    decreases templates.len(),
{
    if templates.len() == 0 {
        -1
    } else {
        let r = template_index(templates.drop_last(), d);
        if r >= 0 {
            r
        } else if templates.last().strata == d {
            templates.len() - 1
        } else {
            -1
        }
    }
}

/// Position of the first seed-case entry for this area, or -1.
pub open spec fn case_index(cases: Seq<(Msoa, u64)>, code: Seq<char>) -> int
    decreases cases.len(),
{
    if cases.len() == 0 {
        -1
    } else {
        let r = case_index(cases.drop_last(), code);
        if r >= 0 {
            r
        } else if cases.last().0@ == code {
            cases.len() - 1
        } else {
            -1
        }
    }
}

/// Seed cases asked for an area: the count of its first entry, or 0.
pub open spec fn case_count(cases: Seq<(Msoa, u64)>, code: Seq<char>) -> int {
    let i = case_index(cases, code);
    if i >= 0 {
        cases[i].1 as int
    } else {
        0
    }
}

/// Number of people living in area `a`.
pub open spec fn count_in(people: Seq<Person>, a: int) -> int
    decreases people.len(),
{
    if people.len() == 0 {
        0
    } else {
        count_in(people.drop_last(), a) + if people.last().msoa == a {
            1int
        } else {
            0
        }
    }
}

/// Whether every seed-case area was requested.
pub open spec fn cases_requested(cases: Seq<(Msoa, u64)>, areas: Seq<Msoa>) -> bool {
    forall|i: int| 0 <= i < cases.len() ==> index_of(areas, (#[trigger] cases[i]).0@) >= 0
}

/// Whether every member of the kept households has a diary template.
pub open spec fn members_covered(k: Seq<HouseholdRecord>, templates: Seq<DiaryTemplate>) -> bool {
    forall|h: int, m: int|
        0 <= h < k.len() && 0 <= m < k[h].members@.len() ==> template_index(
            templates,
            #[trigger] k[h].members@[m],
        ) >= 0
}

/// Whether area `a` holds at least one kept household.
pub open spec fn area_has_household(k: Seq<HouseholdRecord>, areas: Seq<Msoa>, a: int) -> bool {
    exists|h: int| 0 <= h < k.len() && index_of(areas, (#[trigger] k[h]).msoa@) == a
}

/// Whether every requested area holds at least one kept household.
pub open spec fn areas_covered(k: Seq<HouseholdRecord>, areas: Seq<Msoa>) -> bool {
    forall|a: int| 0 <= a < areas.len() ==> #[trigger] area_has_household(k, areas, a)
}

/// Person `j` is the `m`-th member of kept household `h`.
pub open spec fn person_matches(
    p: Person,
    h: int,
    rec: HouseholdRecord,
    m: int,
    areas: Seq<Msoa>,
    templates: Seq<DiaryTemplate>,
) -> bool {
    &&& p.household == h
    &&& p.msoa == index_of(areas, rec.msoa@)
    &&& p.demographics == rec.members@[m]
    &&& p.durations == templates[template_index(templates, rec.members@[m])].durations
}

/// The seed-case rule: a person is infected exactly when fewer than their area's seed count
/// of people came before them in that area.
pub open spec fn infection_matches(
    people: Seq<Person>,
    areas: Seq<Msoa>,
    cases: Seq<(Msoa, u64)>,
) -> bool {
    forall|j: int|
        0 <= j < people.len() ==> (#[trigger] people[j]).id == j && people[j].infected == (
        count_in(people.take(j), people[j].msoa as int) < case_count(cases, areas[people[j].msoa as int]@))
}

/// Household `h` was built from kept record `rec`, its members numbered after those of
/// the households before it.
pub open spec fn household_matches(
    areas: Seq<Msoa>,
    households: Seq<Household>,
    people: Seq<Person>,
    h: int,
    rec: HouseholdRecord,
    k: Seq<HouseholdRecord>,
    templates: Seq<DiaryTemplate>,
) -> bool {
    let hh = households[h];
    &&& hh.id == h
    &&& hh.msoa == index_of(areas, rec.msoa@)
    &&& hh.members@.len() == rec.members@.len()
    &&& forall|m: int|
        0 <= m < rec.members@.len() ==> #[trigger] hh.members@[m] == total_members(k.take(h)) + m
            && person_matches(people[total_members(k.take(h)) + m], h, rec, m, areas, templates)
}

/// The households and people of `pop` are those built from the kept records, in order.
pub open spec fn built_from(
    pop: Population,
    k: Seq<HouseholdRecord>,
    templates: Seq<DiaryTemplate>,
    cases: Seq<(Msoa, u64)>,
) -> bool {
    &&& pop.households@.len() == k.len()
    &&& pop.people@.len() == total_members(k)
    &&& forall|h: int|
        0 <= h < k.len() ==> household_matches(
            pop.msoas@,
            pop.households@,
            pop.people@,
            h,
            #[trigger] k[h],
            k,
            templates,
        )
    &&& infection_matches(pop.people@, pop.msoas@, cases)
    &&& forall|j: int| 0 <= j < pop.people@.len() ==> (#[trigger] pop.people@[j]).msoa < pop.msoas@.len()
}

proof fn lemma_count_in_bounds(people: Seq<Person>, a: int)
    ensures
        0 <= count_in(people, a) <= people.len(),
    decreases people.len(),
{
    if people.len() > 0 {
        lemma_count_in_bounds(people.drop_last(), a);
    }
}

proof fn lemma_total_prefix(k: Seq<HouseholdRecord>, x: int)
    requires
        0 <= x < k.len(),
    ensures
        total_members(k.take(x)) + k[x].members@.len() <= total_members(k),
        total_members(k.take(x)) >= 0,
    decreases k.len(),
{
    lemma_total_nonneg(k.take(x));
    if x == k.len() - 1 {
        assert(k.take(x) == k.drop_last());
    } else {
        let d = k.drop_last();
        lemma_total_prefix(d, x);
        assert(d.take(x) == k.take(x));
        lemma_total_nonneg(k);
        assert(d[x] == k[x]);
    }
}

proof fn lemma_total_nonneg(k: Seq<HouseholdRecord>)
    ensures
        total_members(k) >= 0,
    decreases k.len(),
{
    if k.len() > 0 {
        lemma_total_nonneg(k.drop_last());
    }
}

proof fn lemma_kept_prefix(recs: Seq<HouseholdRecord>, areas: Seq<Msoa>, n: int)
    requires
        0 <= n <= recs.len(),
    ensures
        kept(recs.take(n), areas).len() <= kept(recs, areas).len(),
        forall|x: int|
            0 <= x < kept(recs.take(n), areas).len() ==> kept(recs, areas)[x]
                == #[trigger] kept(recs.take(n), areas)[x],
    decreases recs.len(),
{
    if n == recs.len() {
        assert(recs.take(n) == recs);
    } else {
        let d = recs.drop_last();
        lemma_kept_prefix(d, areas, n);
        assert(d.take(n) == recs.take(n));
    }
}

/// Finds the first template for a stratum.
fn find_template(templates: &Vec<DiaryTemplate>, d: Demographics) -> (r: Option<usize>)
    ensures
        r matches Some(i) ==> i as int == template_index(templates@, d) && i < templates@.len(),
        r is None <==> template_index(templates@, d) < 0,
{
    let mut found: Option<usize> = None;
    let mut i: usize = 0;
    while i < templates.len()
        invariant
            i <= templates@.len(),
            found matches Some(k) ==> k as int == template_index(templates@.take(i as int), d) && k
                < i,
            found is None <==> template_index(templates@.take(i as int), d) < 0,
        decreases templates.len() - i,
    {
        assert(templates@.take(i as int + 1).drop_last() == templates@.take(i as int));
        if found.is_none() && templates[i].strata == d {
            found = Some(i);
        }
        i = i + 1;
    }
    assert(templates@.take(i as int) == templates@);
    found
}

/// The seed count asked for an area.
fn cases_for(cases: &Vec<(Msoa, u64)>, m: &Msoa) -> (r: u64)
    ensures
        r as int == case_count(cases@, m@),
{
    let mut found: Option<usize> = None;
    let mut i: usize = 0;
    while i < cases.len()
        invariant
            i <= cases@.len(),
            found matches Some(k) ==> k as int == case_index(cases@.take(i as int), m@) && k < i,
            found is None <==> case_index(cases@.take(i as int), m@) < 0,
        decreases cases.len() - i,
    {
        assert(cases@.take(i as int + 1).drop_last() == cases@.take(i as int));
        if found.is_none() && cases[i].0.same_as(m) {
            found = Some(i);
        }
        i = i + 1;
    }
    assert(cases@.take(i as int) == cases@);
    match found {
        Some(k) => cases[k].1,
        None => 0,
    }
}

/// Builds the households and people of the requested areas from the census household
/// records, in record order, skipping records of other areas. Each person takes the first
/// diary template of their stratum; the first people of an area, up to its seed count,
/// are infected.
pub fn create_population(
    records: &Vec<HouseholdRecord>,
    templates: &Vec<DiaryTemplate>,
    msoas: Vec<Msoa>,
    cases: &Vec<(Msoa, u64)>,
) -> (r: Result<Population, BuildError>)
    ensures
        r is Ok <==> cases_requested(cases@, msoas@) && members_covered(
            kept(records@, msoas@),
            templates@,
        ) && areas_covered(kept(records@, msoas@), msoas@),
        r matches Ok(p) ==> p.msoas@ == msoas@ && built_from(
            p,
            kept(records@, msoas@),
            templates@,
            cases@,
        ),
        r matches Err(BuildError::UnknownArea(m)) ==> index_of(msoas@, m@) < 0 && exists|i: int|
            0 <= i < cases@.len() && (#[trigger] cases@[i]).0@ == m@,
        r matches Err(BuildError::InsufficientDiaryCoverage(m)) ==> cases_requested(cases@, msoas@)
            && index_of(msoas@, m@) >= 0,
        r matches Err(e) ==> e is UnknownArea || e is InsufficientDiaryCoverage,
{
    let mut c: usize = 0;
    while c < cases.len()
        invariant
            c <= cases@.len(),
            forall|j: int| 0 <= j < c ==> index_of(msoas@, (#[trigger] cases@[j]).0@) >= 0,
        decreases cases.len() - c,
    {
        if find_area(&msoas, &cases[c].0).is_none() {
            return Err(BuildError::UnknownArea(cases[c].0.copied()));
        }
        c = c + 1;
    }
    let mut limits: Vec<u64> = Vec::new();
    let mut seen: Vec<usize> = Vec::new();
    let mut covered: Vec<bool> = Vec::new();
    let mut a: usize = 0;
    while a < msoas.len()
        invariant
            a <= msoas@.len(),
            limits@.len() == a,
            seen@.len() == a,
            covered@.len() == a,
            forall|b: int| 0 <= b < a ==> #[trigger] limits@[b] == case_count(cases@, msoas@[b]@),
            forall|b: int| 0 <= b < a ==> #[trigger] seen@[b] == 0,
            forall|b: int| 0 <= b < a ==> !#[trigger] covered@[b],
        decreases msoas.len() - a,
    {
        limits.push(cases_for(cases, &msoas[a]));
        seen.push(0);
        covered.push(false);
        a = a + 1;
    }
    let mut households: Vec<Household> = Vec::new();
    let mut people: Vec<Person> = Vec::new();
    let mut i: usize = 0;
    proof {
        assert(records@.take(0) == Seq::<HouseholdRecord>::empty());
        assert forall|b: int| 0 <= b < msoas@.len() implies #[trigger] seen@[b] == count_in(
            people@,
            b,
        ) by {}
    }
    while i < records.len()
        invariant
            i <= records@.len(),
            cases_requested(cases@, msoas@),
            limits@.len() == msoas@.len(),
            seen@.len() == msoas@.len(),
            covered@.len() == msoas@.len(),
            forall|b: int|
                0 <= b < msoas@.len() ==> #[trigger] limits@[b] == case_count(cases@, msoas@[b]@),
            forall|b: int| 0 <= b < msoas@.len() ==> #[trigger] seen@[b] == count_in(people@, b),
            forall|b: int|
                0 <= b < msoas@.len() ==> (#[trigger] covered@[b] <==> area_has_household(
                    kept(records@.take(i as int), msoas@),
                    msoas@,
                    b,
                )),
            households@.len() == kept(records@.take(i as int), msoas@).len(),
            people@.len() == total_members(kept(records@.take(i as int), msoas@)),
            forall|h: int|
                0 <= h < households@.len() ==> household_matches(
                    msoas@,
                    households@,
                    people@,
                    h,
                    #[trigger] kept(records@.take(i as int), msoas@)[h],
                    kept(records@.take(i as int), msoas@),
                    templates@,
                ),
            forall|j: int| 0 <= j < people@.len() ==> (#[trigger] people@[j]).msoa < msoas@.len(),
            infection_matches(people@, msoas@, cases@),
            members_covered(kept(records@.take(i as int), msoas@), templates@),
        decreases records.len() - i,
    {
        let ghost k0 = kept(records@.take(i as int), msoas@);
        let ghost people0 = people@;
        let ghost hh0 = households@;
        assert(records@.take(i as int + 1).drop_last() == records@.take(i as int));
        let rec = &records[i];
        match find_area(&msoas, &rec.msoa) {
            None => {
                assert(kept(records@.take(i as int + 1), msoas@) == k0);
            },
            Some(a) => {
                proof {
                    lemma_index_of_bounds(msoas@, rec.msoa@);
                }
                let h = households.len();
                let start = people.len();
                let ghost k1 = k0.push(*rec);
                assert(k1.take(h as int) == k0);
                assert(kept(records@.take(i as int + 1), msoas@) == k1);
                let mut members: Vec<usize> = Vec::new();
                let mut m: usize = 0;
                while m < rec.members.len()
                    invariant
                        cases_requested(cases@, msoas@),
                        i < records@.len(),
                        *rec == records@[i as int],
                        k1 == kept(records@.take(i as int + 1), msoas@),
                        k1 == k0.push(*rec),
                        k0.len() == h,
                        k1[h as int] == *rec,
                        0 <= a < msoas@.len(),
                        a as int == index_of(msoas@, rec.msoa@),
                        h == hh0.len(),
                        households@ == hh0,
                        start == people0.len(),
                        m <= rec.members@.len(),
                        members@.len() == m,
                        people@.len() == start + m,
                        people@.take(start as int) == people0,
                        seen@.len() == msoas@.len(),
                        limits@.len() == msoas@.len(),
                        forall|b: int|
                            0 <= b < msoas@.len() ==> #[trigger] limits@[b] == case_count(
                                cases@,
                                msoas@[b]@,
                            ),
                        forall|b: int|
                            0 <= b < msoas@.len() ==> #[trigger] seen@[b] == count_in(people@, b),
                        forall|j: int|
                            0 <= j < people@.len() ==> (#[trigger] people@[j]).msoa < msoas@.len(),
                        infection_matches(people@, msoas@, cases@),
                        forall|q: int|
                            0 <= q < m ==> #[trigger] members@[q] == start + q && person_matches(
                                people@[start + q],
                                h as int,
                                *rec,
                                q,
                                msoas@,
                                templates@,
                            ),
                        forall|q: int|
                            0 <= q < m ==> template_index(templates@, #[trigger] rec.members@[q])
                                >= 0,
                    decreases rec.members.len() - m,
                {
                    let d = rec.members[m];
                    let t = match find_template(templates, d) {
                        Some(t) => t,
                        None => {
                            proof {
                                lemma_kept_prefix(records@, msoas@, i as int + 1);
                                assert(kept(records@, msoas@)[h as int] == kept(
                                    records@.take(i as int + 1),
                                    msoas@,
                                )[h as int]);
                                assert(rec.members@[m as int] == d);
                            }
                            return Err(BuildError::InsufficientDiaryCoverage(rec.msoa.copied()));
                        },
                    };
                    let j = people.len();
                    proof {
                        lemma_count_in_bounds(people@, a as int);
                    }
                    let infected = (seen[a] as u64) < limits[a];
                    let ghost pold = people@;
                    people.push(
                        Person {
                            id: j,
                            household: h,
                            msoa: a,
                            demographics: d,
                            infected,
                            durations: templates[t].durations,
                        },
                    );
                    let n = people.len();
                    proof {
                        assert(people@.drop_last() == pold);
                        assert(people@.take(j as int) == pold);
                        assert forall|x: int| 0 <= x < j implies people@.take(x) == pold.take(x) by {
                            assert(people@.take(x) == pold.take(x));
                        }
                        assert(people@.take(start as int) == people0);
                    }
                    let v = seen[a] + 1;
                    seen.set(a, v);
                    members.push(j);
                    m = m + 1;
                }
                households.push(Household { id: h, msoa: a, members });
                covered.set(a, true);
                proof {
                    assert(k1.take(h as int) == k0);
                    assert(total_members(k1.take(h as int)) == start);
                    assert(kept(records@.take(i as int + 1), msoas@) == k1);
                    assert(total_members(k1) == total_members(k0) + rec.members@.len());
                    assert forall|x: int| 0 <= x < h implies k1.take(x) == k0.take(x) by {
                        assert(k1.take(x) == k0.take(x));
                    }
                    assert(k1[h as int] == *rec);
                    assert(area_has_household(k1, msoas@, a as int));
                    assert forall|x: int| 0 <= x < h implies household_matches(
                        msoas@,
                        households@,
                        people@,
                        x,
                        #[trigger] k1[x],
                        k1,
                        templates@,
                    ) by {
                        assert(k1[x] == k0[x]);
                        assert(households@[x] == hh0[x]);
                        assert(household_matches(msoas@, hh0, people0, x, k0[x], k0, templates@));
                        lemma_total_prefix(k0, x);
                        assert forall|q: int| 0 <= q < k0[x].members@.len() implies #[trigger] people@[
                            total_members(k0.take(x)) + q] == people0[total_members(k0.take(x)) + q] by {
                            assert(people@.take(start as int)[total_members(k0.take(x)) + q]
                                == people@[total_members(k0.take(x)) + q]);
                        }
                    }
                    assert(household_matches(
                        msoas@,
                        households@,
                        people@,
                        h as int,
                        k1[h as int],
                        k1,
                        templates@,
                    ));
                    assert forall|x: int, q: int|
                        0 <= x < k1.len() && 0 <= q < k1[x].members@.len() implies template_index(
                        templates@,
                        #[trigger] k1[x].members@[q],
                    ) >= 0 by {
                        if x < h {
                            assert(k1[x] == k0[x]);
                        }
                    }
                    assert forall|b: int| 0 <= b < msoas@.len() implies (#[trigger] covered@[b]
                        <==> area_has_household(k1, msoas@, b)) by {
                        if area_has_household(k0, msoas@, b) {
                            let w = choose|w: int|
                                0 <= w < k0.len() && index_of(msoas@, (#[trigger] k0[w]).msoa@) == b;
                            assert(k1[w] == k0[w]);
                        }
                        if area_has_household(k1, msoas@, b) && b != a {
                            let w = choose|w: int|
                                0 <= w < k1.len() && index_of(msoas@, (#[trigger] k1[w]).msoa@) == b;
                            assert(k1[w] == k0[w]);
                        }
                    }
                }
            },
        }
        i = i + 1;
    }
    assert(records@.take(i as int) == records@);
    let mut b: usize = 0;
    while b < msoas.len()
        invariant
            b <= msoas@.len(),
            cases_requested(cases@, msoas@),
            covered@.len() == msoas@.len(),
            forall|x: int|
                0 <= x < msoas@.len() ==> (#[trigger] covered@[x] <==> area_has_household(
                    kept(records@, msoas@),
                    msoas@,
                    x,
                )),
            forall|x: int| 0 <= x < b ==> #[trigger] area_has_household(kept(records@, msoas@), msoas@, x),
        decreases msoas.len() - b,
    {
        if !covered[b] {
            proof {
                lemma_index_of_bounds(msoas@, msoas@[b as int]@);
            }
            return Err(BuildError::InsufficientDiaryCoverage(msoas[b].copied()));
        }
        b = b + 1;
    }
    Ok(Population { msoas, households, people })
}

/// Number of infected people living in area `a`.
pub open spec fn infected_in(people: Seq<Person>, a: int) -> int
    decreases people.len(),
{
    if people.len() == 0 {
        0
    } else {
        infected_in(people.drop_last(), a) + if people.last().msoa == a && people.last().infected {
            1int
        } else {
            0
        }
    }
}

proof fn lemma_infected_prefix(people: Seq<Person>, areas: Seq<Msoa>, cases: Seq<(Msoa, u64)>, a: int, n: int)
    requires
        infection_matches(people, areas, cases),
        0 <= a < areas.len(),
        0 <= n <= people.len(),
    ensures
        infected_in(people.take(n), a) == if case_count(cases, areas[a]@) < count_in(people.take(n), a) {
            case_count(cases, areas[a]@)
        } else {
            count_in(people.take(n), a)
        },
    decreases n,
{
    if n > 0 {
        lemma_infected_prefix(people, areas, cases, a, n - 1);
        assert(people.take(n).drop_last() == people.take(n - 1));
        let j = n - 1;
        assert(people[j].id == j);
    }
}

/// With the seed count `k` of an area, exactly `min(k, residents)` of its people are
/// infected, each one among the first `k` residents in household-then-member order;
/// a count above the residents marks no more people than live there.
pub proof fn lemma_seed_cases(
    records: Seq<HouseholdRecord>,
    templates: Seq<DiaryTemplate>,
    cases: Seq<(Msoa, u64)>,
    pop: Population,
    a: int,
)
    requires
        built_from(pop, kept(records, pop.msoas@), templates, cases),
        0 <= a < pop.msoas@.len(),
    ensures
        infected_in(pop.people@, a) == if case_count(cases, pop.msoas@[a]@) < count_in(
            pop.people@,
            a,
        ) {
            case_count(cases, pop.msoas@[a]@)
        } else {
            count_in(pop.people@, a)
        },
        forall|j: int|
            0 <= j < pop.people@.len() && (#[trigger] pop.people@[j]).msoa == a && pop.people@[j].infected
                ==> count_in(pop.people@.take(j), a) < case_count(cases, pop.msoas@[a]@),
{
    lemma_infected_prefix(pop.people@, pop.msoas@, cases, a, pop.people@.len() as int);
    assert(pop.people@.take(pop.people@.len() as int) == pop.people@);
}

} // verus!
