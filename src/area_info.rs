use vstd::prelude::*;

use crate::area::{find_area, index_of, Msoa};
use crate::model::{AreaInfo, BuildError, VenueDirectory};

verus! {

/// The directory that describes an area: among those covering it, the one covering the
/// fewest areas, the earliest on a tie; -1 if none covers it.
pub open spec fn chosen_directory(dirs: Seq<VenueDirectory>, code: Seq<char>) -> int
    decreases dirs.len(),
{
    if dirs.len() == 0 {
        -1
    } else {
        let r = chosen_directory(dirs.drop_last(), code);
        let l = dirs.last();
        if index_of(l.covers@, code) >= 0 && (r < 0 || l.covers@.len() < dirs[r].covers@.len()) {
            dirs.len() - 1
        } else {
            r
        }
    }
}

/// The facts taken for an area from directory `d`.
pub open spec fn info_from(info: AreaInfo, dirs: Seq<VenueDirectory>, d: int) -> bool {
    &&& info.directory == d
    &&& info.venue_counts == dirs[d].venue_counts
    &&& info.attractiveness == dirs[d].attractiveness
    &&& info.x == dirs[d].x
    &&& info.y == dirs[d].y
}

proof fn lemma_chosen_bounds(dirs: Seq<VenueDirectory>, code: Seq<char>)
    ensures
        -1 <= chosen_directory(dirs, code) < dirs.len(),
    decreases dirs.len(),
{
    if dirs.len() > 0 {
        lemma_chosen_bounds(dirs.drop_last(), code);
    }
}

/// Chooses the directory that describes one area.
fn choose_directory(dirs: &Vec<VenueDirectory>, m: &Msoa) -> (r: Option<usize>)
    ensures
        r matches Some(i) ==> i as int == chosen_directory(dirs@, m@) && i < dirs@.len(),
        r is None <==> chosen_directory(dirs@, m@) < 0,
{
    let mut best: Option<usize> = None;
    let mut i: usize = 0;
    while i < dirs.len()
        invariant
            i <= dirs@.len(),
            best matches Some(k) ==> k as int == chosen_directory(dirs@.take(i as int), m@) && k
                < i,
            best is None <==> chosen_directory(dirs@.take(i as int), m@) < 0,
        decreases dirs.len() - i,
    {
        let ghost t = dirs@.take(i as int + 1);
        assert(t.drop_last() == dirs@.take(i as int));
        proof {
            lemma_chosen_bounds(dirs@.take(i as int), m@);
        }
        if find_area(&dirs[i].covers, m).is_some() {
            match best {
                None => {
                    best = Some(i);
                },
                Some(k) => {
                    assert(t[k as int] == dirs@[k as int]);
                    if dirs[i].covers.len() < dirs[k].covers.len() {
                        best = Some(i);
                    }
                },
            }
        }
        i = i + 1;
    }
    assert(dirs@.take(i as int) == dirs@);
    best
}

/// Resolves, for every requested area in order, the facts of the directory that describes
/// it. Fails with the first area that no directory covers.
pub fn get_info_per_msoa(areas: &Vec<Msoa>, dirs: &Vec<VenueDirectory>) -> (r: Result<
    Vec<AreaInfo>,
    BuildError,
>)
    ensures
        r is Ok <==> forall|a: int|
            0 <= a < areas@.len() ==> chosen_directory(dirs@, #[trigger] areas@[a]@) >= 0,
        r matches Ok(v) ==> v@.len() == areas@.len() && forall|a: int|
            0 <= a < areas@.len() ==> info_from(
                #[trigger] v@[a],
                dirs@,
                chosen_directory(dirs@, areas@[a]@),
            ),
        r matches Err(e) ==> e is MissingAreaInfo,
        r matches Err(BuildError::MissingAreaInfo(m)) ==> exists|a: int|
            0 <= a < areas@.len() && #[trigger] areas@[a]@ == m@ && chosen_directory(dirs@, m@)
                < 0,
{
    let mut out: Vec<AreaInfo> = Vec::new();
    let mut a: usize = 0;
    while a < areas.len()
        invariant
            a <= areas@.len(),
            out@.len() == a,
            forall|b: int|
                0 <= b < a ==> info_from(
                    #[trigger] out@[b],
                    dirs@,
                    chosen_directory(dirs@, areas@[b]@),
                ),
            forall|b: int| 0 <= b < a ==> chosen_directory(dirs@, #[trigger] areas@[b]@) >= 0,
        decreases areas.len() - a,
    {
        match choose_directory(dirs, &areas[a]) {
            None => {
                return Err(BuildError::MissingAreaInfo(areas[a].copied()));
            },
            Some(d) => {
                let dir = &dirs[d];
                out.push(
                    AreaInfo {
                        directory: d,
                        venue_counts: dir.venue_counts,
                        attractiveness: dir.attractiveness,
                        x: dir.x,
                        y: dir.y,
                    },
                );
            },
        }
        a = a + 1;
    }
    Ok(out)
}

} // verus!
