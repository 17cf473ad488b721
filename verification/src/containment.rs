//! Point-in-solid by ray casting: a point lies inside a closed surface when
//! a ray from it crosses the surface an odd number of times. Whether the ray
//! hits each triangle is a geometric test made by the caller.
use vstd::prelude::*;

verus! {

/// How many of the tests hit.
pub open spec fn hit_count(hits: Seq<bool>) -> nat
    decreases hits.len(),
{
    if hits.len() == 0 {
        0
    } else {
        hit_count(hits.drop_last()) + if hits.last() {
            1nat
        } else {
            0nat
        }
    }
}

/// Whether the point lies inside, given whether the ray hits each triangle:
/// an odd number of hits.
pub fn inside_by_crossings(hits: &[bool]) -> (inside: bool)
    ensures
        inside == (hit_count(hits@) % 2 == 1),
{
    let mut odd = false;
    let mut i: usize = 0;
    while i < hits.len()
        invariant
            i <= hits@.len(),
            odd == (hit_count(hits@.take(i as int)) % 2 == 1),
        decreases hits@.len() - i,
    {
        assert(hits@.take(i as int + 1).drop_last() =~= hits@.take(i as int));
        if hits[i] {
            odd = !odd;
        }
        i = i + 1;
    }
    assert(hits@.take(hits@.len() as int) =~= hits@);
    odd
}

} // verus!
