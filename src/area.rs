use vstd::prelude::*;
use vstd::string::StringSliceAdditionalSpecFns;

verus! {

/// A statistical area code: one upper-case ASCII letter followed by eight ASCII digits,
/// such as `E02000001`.
#[derive(Debug, Clone)]
pub struct Msoa {
    code: String,
}

impl View for Msoa {
    type V = Seq<char>;

    closed spec fn view(&self) -> Seq<char> {
        self.code@
    }
}

/// Whether these bytes spell a well-formed area code.
pub open spec fn valid_code(b: Seq<u8>) -> bool {
    &&& b.len() == 9
    &&& 65 <= b[0] <= 90
    &&& forall|i: int| 1 <= i < 9 ==> 48 <= #[trigger] b[i] <= 57
}

impl Msoa {
    /// Parses an area code, refusing anything not of the fixed shape.
    pub fn parse(s: &str) -> (r: Option<Msoa>)
        ensures
            r is Some <==> valid_code(s.spec_bytes()),
            r matches Some(m) ==> m@ == s@,
    {
        let b = s.as_bytes();
        if b.len() != 9 {
            return None;
        }
        if b[0] < 65 || b[0] > 90 {
            return None;
        }
        let mut i: usize = 1;
        while i < 9
            invariant
                b@ == s.spec_bytes(),
                b@.len() == 9,
                1 <= i <= 9,
                forall|j: int| 1 <= j < i ==> 48 <= #[trigger] b@[j] <= 57,
            decreases 9 - i,
        {
            if b[i] < 48 || b[i] > 57 {
                return None;
            }
            i = i + 1;
        }
        Some(Msoa { code: s.to_owned() })
    }

    /// The code as text.
    pub fn as_string(&self) -> (r: String)
        ensures
            r@ == self@,
    {
        self.code.clone()
    }

    /// A copy of this code.
    pub fn copied(&self) -> (r: Msoa)
        ensures
            r@ == self@,
    {
        Msoa { code: self.code.clone() }
    }

    /// Whether two codes are the same.
    pub fn same_as(&self, other: &Msoa) -> (r: bool)
        ensures
            r == (self@ == other@),
    {
        self.code == other.code
    }
}

/// Position of the first area in `areas` with this code, or -1.
pub open spec fn index_of(areas: Seq<Msoa>, code: Seq<char>) -> int
    decreases areas.len(),
{
    if areas.len() == 0 {
        -1
    } else {
        let r = index_of(areas.drop_last(), code);
        if r >= 0 {
            r
        } else if areas.last()@ == code {
            areas.len() - 1
        } else {
            -1
        }
    }
}

pub proof fn lemma_index_of_bounds(areas: Seq<Msoa>, code: Seq<char>)
    ensures
        -1 <= index_of(areas, code) < areas.len(),
        index_of(areas, code) >= 0 ==> areas[index_of(areas, code)]@ == code,
        index_of(areas, code) >= 0 ==> forall|j: int|
            0 <= j < index_of(areas, code) ==> areas[j]@ != code,
        index_of(areas, code) < 0 ==> forall|j: int| 0 <= j < areas.len() ==> areas[j]@ != code,
    decreases areas.len(),
{
    if areas.len() > 0 {
        let init = areas.drop_last();
        lemma_index_of_bounds(init, code);
        assert forall|j: int| 0 <= j < init.len() implies areas[j] == init[j] by {}
    }
}

/// Finds the first area in `areas` with the code of `m`.
pub fn find_area(areas: &Vec<Msoa>, m: &Msoa) -> (r: Option<usize>)
    ensures
        r matches Some(i) ==> i as int == index_of(areas@, m@),
        r is None <==> index_of(areas@, m@) < 0,
{
    let mut found: Option<usize> = None;
    let mut i: usize = 0;
    while i < areas.len()
        invariant
            i <= areas@.len(),
            found matches Some(k) ==> k as int == index_of(areas@.take(i as int), m@),
            found is None <==> index_of(areas@.take(i as int), m@) < 0,
        decreases areas.len() - i,
    {
        assert(areas@.take(i as int + 1).drop_last() == areas@.take(i as int));
        if found.is_none() && areas[i].same_as(m) {
            found = Some(i);
        }
        i = i + 1;
    }
    assert(areas@.take(i as int) == areas@);
    found
}

} // verus!
