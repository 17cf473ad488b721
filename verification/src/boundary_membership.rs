//! Which mesh points lie on which boundaries, in both directions.
//!
//! Whether a point lies inside a boundary's constraint is a geometric test
//! made by the caller; from its outcomes, one row per point with one entry
//! per constraint, this module builds the two maps the simulation uses: the
//! boundaries of each point, and the points of each boundary.
use vstd::prelude::*;

verus! {

/// Whether one of the first `upto` constraints, marked in `row`, belongs to
/// boundary `id`.
pub open spec fn in_row(row: Seq<bool>, ids: Seq<u64>, upto: int, id: u64) -> bool {
    exists|c: int| 0 <= c < upto && #[trigger] ids[c] == id && row[c]
}

/// Whether point `v` lies on boundary `id`.
pub open spec fn on_boundary(inside: Seq<Vec<bool>>, ids: Seq<u64>, v: int, id: u64) -> bool {
    in_row(inside[v]@, ids, ids.len() as int, id)
}

/// Whether some constraint holds point `v`.
pub open spec fn on_any(inside: Seq<Vec<bool>>, ids: Seq<u64>, v: int) -> bool {
    exists|c: int| 0 <= c < ids.len() && #[trigger] inside[v]@[c]
}

/// Each row has one entry per constraint.
pub open spec fn shaped(inside: Seq<Vec<bool>>, ids: Seq<u64>) -> bool {
    forall|v: int| 0 <= v < inside.len() ==> (#[trigger] inside[v])@.len() == ids.len()
}

/// The map from points to their boundaries: the points that lie on some
/// boundary, in increasing order, each with its boundaries, none twice.
pub open spec fn is_point_map(inside: Seq<Vec<bool>>, ids: Seq<u64>, points: Seq<(usize, Vec<u64>)>) -> bool {
    &&& forall|i: int, j: int| 0 <= i < j < points.len() ==> points[i].0 < points[j].0
    &&& forall|k: int| 0 <= k < points.len() ==> (#[trigger] points[k]).0 < inside.len()
    &&& forall|k: int| 0 <= k < points.len() ==> (#[trigger] points[k]).1@.no_duplicates()
    &&& forall|k: int| 0 <= k < points.len() ==> (#[trigger] points[k]).1@.len() > 0
    &&& forall|k: int, id: u64| 0 <= k < points.len() ==> (#[trigger] points[k].1@.contains(id)
        <==> on_boundary(inside, ids, points[k].0 as int, id))
    &&& forall|v: int| 0 <= v < inside.len() && #[trigger] on_any(inside, ids, v) ==> exists|k: int|
        0 <= k < points.len() && #[trigger] points[k].0 == v
}

/// The map from boundaries to their points: each boundary that holds some
/// point, once, with its points in increasing order.
pub open spec fn is_boundary_map(inside: Seq<Vec<bool>>, ids: Seq<u64>, boundaries: Seq<(u64, Vec<usize>)>) -> bool {
    &&& forall|i: int, j: int| 0 <= i < j < boundaries.len() ==> boundaries[i].0 != boundaries[j].0
    &&& forall|k: int| 0 <= k < boundaries.len() ==> (#[trigger] boundaries[k]).1@.len() > 0
    &&& forall|k: int, a: int, b: int|
        0 <= k < boundaries.len() && 0 <= a < b < boundaries[k].1@.len() ==> #[trigger] boundaries[k].1@[a]
            < #[trigger] boundaries[k].1@[b]
    &&& forall|k: int, j: int| 0 <= k < boundaries.len() && 0 <= j < boundaries[k].1@.len() ==> {
        let v = #[trigger] boundaries[k].1@[j];
        v < inside.len() && on_boundary(inside, ids, v as int, boundaries[k].0)
    }
    &&& forall|k: int, v: int|
        0 <= k < boundaries.len() && 0 <= v < inside.len() && #[trigger] on_boundary(inside, ids, v, boundaries[k].0)
            ==> boundaries[k].1@.contains(v as usize)
    &&& forall|v: int, id: u64| 0 <= v < inside.len() && #[trigger] on_boundary(inside, ids, v, id) ==> exists|k: int|
        0 <= k < boundaries.len() && #[trigger] boundaries[k].0 == id
}

proof fn lemma_in_row_step(row: Seq<bool>, ids: Seq<u64>, c: int)
    requires
        0 <= c < ids.len(),
        c < row.len(),
    ensures
        forall|id: u64| #[trigger] in_row(row, ids, c + 1, id) == (in_row(row, ids, c, id) || (row[c] && ids[c] == id)),
{
    assert forall|id: u64| #[trigger] in_row(row, ids, c + 1, id) == (in_row(row, ids, c, id) || (row[c] && ids[c]
        == id)) by {
        if in_row(row, ids, c + 1, id) {
            let w = choose|w: int| 0 <= w < c + 1 && #[trigger] ids[w] == id && row[w];
            if w < c {
                assert(in_row(row, ids, c, id));
            }
        }
        if row[c] && ids[c] == id {
            assert(ids[c] == id);
        }
    }
}

/// Whether `list` holds `x`.
fn holds(list: &Vec<u64>, x: u64) -> (b: bool)
    ensures
        b == list@.contains(x),
{
    let mut i: usize = 0;
    while i < list.len()
        invariant
            i <= list@.len(),
            forall|j: int| 0 <= j < i ==> list@[j] != x,
        decreases list@.len() - i,
    {
        if list[i] == x {
            return true;
        }
        i = i + 1;
    }
    false
}

/// The boundaries of the constraints marked in `row`, none twice.
fn boundaries_in_row(row: &Vec<bool>, ids: &Vec<u64>) -> (r: Vec<u64>)
    requires
        row@.len() == ids@.len(),
    ensures
        r@.no_duplicates(),
        forall|id: u64| #[trigger] r@.contains(id) <==> in_row(row@, ids@, ids@.len() as int, id),
{
    let mut r: Vec<u64> = Vec::new();
    let mut c: usize = 0;
    while c < ids.len()
        invariant
            c <= ids@.len(),
            row@.len() == ids@.len(),
            r@.no_duplicates(),
            forall|id: u64| #[trigger] r@.contains(id) <==> in_row(row@, ids@, c as int, id),
        decreases ids@.len() - c,
    {
        proof {
            lemma_in_row_step(row@, ids@, c as int);
        }
        if row[c] && !holds(&r, ids[c]) {
            let ghost before = r@;
            r.push(ids[c]);
            proof {
                assert forall|id: u64| #[trigger] r@.contains(id) == (before.contains(id) || id == ids@[c as int]) by {
                    if r@.contains(id) {
                        let j = choose|j: int| 0 <= j < r@.len() && r@[j] == id;
                        if j < before.len() {
                            assert(before[j] == id);
                        }
                    }
                    if before.contains(id) {
                        let j = choose|j: int| 0 <= j < before.len() && before[j] == id;
                        assert(r@[j] == id);
                    }
                    if id == ids@[c as int] {
                        assert(r@[before.len() as int] == id);
                    }
                }
            }
        }
        c = c + 1;
    }
    r
}

/// Whether some constraint of boundary `id` is marked in `row`.
fn row_has_boundary(row: &Vec<bool>, ids: &Vec<u64>, id: u64) -> (b: bool)
    requires
        row@.len() == ids@.len(),
    ensures
        b == in_row(row@, ids@, ids@.len() as int, id),
{
    let mut c: usize = 0;
    while c < ids.len()
        invariant
            c <= ids@.len(),
            row@.len() == ids@.len(),
            !in_row(row@, ids@, c as int, id),
        decreases ids@.len() - c,
    {
        proof {
            lemma_in_row_step(row@, ids@, c as int);
        }
        if row[c] && ids[c] == id {
            return true;
        }
        c = c + 1;
    }
    false
}

/// The map from points to their boundaries, built from the constraint
/// tests: `inside[v][c]` tells whether point `v` lies inside constraint
/// `c`, which belongs to boundary `ids[c]`.
pub fn point_boundaries(inside: &Vec<Vec<bool>>, ids: &Vec<u64>) -> (points: Vec<(usize, Vec<u64>)>)
    requires
        shaped(inside@, ids@),
    ensures
        is_point_map(inside@, ids@, points@),
{
    let mut points: Vec<(usize, Vec<u64>)> = Vec::new();
    let mut v: usize = 0;
    while v < inside.len()
        invariant
            v <= inside@.len(),
            shaped(inside@, ids@),
            forall|i: int, j: int| 0 <= i < j < points@.len() ==> points@[i].0 < points@[j].0,
            forall|k: int| 0 <= k < points@.len() ==> (#[trigger] points@[k]).0 < v,
            forall|k: int| 0 <= k < points@.len() ==> (#[trigger] points@[k]).1@.no_duplicates(),
            forall|k: int| 0 <= k < points@.len() ==> (#[trigger] points@[k]).1@.len() > 0,
            forall|k: int, id: u64| 0 <= k < points@.len() ==> (#[trigger] points@[k].1@.contains(id)
                <==> on_boundary(inside@, ids@, points@[k].0 as int, id)),
            forall|w: int| 0 <= w < v && #[trigger] on_any(inside@, ids@, w) ==> exists|k: int|
                0 <= k < points@.len() && #[trigger] points@[k].0 == w,
        decreases inside@.len() - v,
    {
        let row = &inside[v];
        assert(row@.len() == ids@.len());
        let found = boundaries_in_row(row, ids);
        if found.len() > 0 {
            let ghost before = points@;
            points.push((v, found));
            proof {
                assert(points@[before.len() as int].0 == v);
                assert forall|w: int| 0 <= w < v + 1 && #[trigger] on_any(inside@, ids@, w) implies exists|k: int|
                    0 <= k < points@.len() && #[trigger] points@[k].0 == w by {
                    if w < v {
                        let k = choose|k: int| 0 <= k < before.len() && #[trigger] before[k].0 == w;
                        assert(points@[k].0 == w);
                    } else {
                        assert(points@[before.len() as int].0 == w);
                    }
                }
            }
        } else {
            proof {
                if on_any(inside@, ids@, v as int) {
                    let c = choose|c: int| 0 <= c < ids@.len() && #[trigger] inside@[v as int]@[c];
                    assert(in_row(row@, ids@, ids@.len() as int, ids@[c]));
                    assert(found@.contains(ids@[c]));
                }
            }
        }
        v = v + 1;
    }
    points
}

/// The points of boundary `id`, in increasing order.
fn points_on(inside: &Vec<Vec<bool>>, ids: &Vec<u64>, id: u64) -> (r: Vec<usize>)
    requires
        shaped(inside@, ids@),
    ensures
        forall|a: int, b: int| 0 <= a < b < r@.len() ==> r@[a] < r@[b],
        forall|j: int| 0 <= j < r@.len() ==> (#[trigger] r@[j]) < inside@.len() && on_boundary(
            inside@,
            ids@,
            r@[j] as int,
            id,
        ),
        forall|v: int| 0 <= v < inside@.len() && #[trigger] on_boundary(inside@, ids@, v, id) ==> r@.contains(
            v as usize,
        ),
{
    let mut r: Vec<usize> = Vec::new();
    let mut v: usize = 0;
    while v < inside.len()
        invariant
            v <= inside@.len(),
            shaped(inside@, ids@),
            forall|a: int, b: int| 0 <= a < b < r@.len() ==> r@[a] < r@[b],
            forall|j: int| 0 <= j < r@.len() ==> (#[trigger] r@[j]) < v && on_boundary(
                inside@,
                ids@,
                r@[j] as int,
                id,
            ),
            forall|w: int| 0 <= w < v && #[trigger] on_boundary(inside@, ids@, w, id) ==> r@.contains(w as usize),
        decreases inside@.len() - v,
    {
        let row = &inside[v];
        assert(row@.len() == ids@.len());
        if row_has_boundary(row, ids, id) {
            let ghost before = r@;
            r.push(v);
            proof {
                assert(r@[before.len() as int] == v);
                assert forall|w: int| 0 <= w < v + 1 && #[trigger] on_boundary(inside@, ids@, w, id) implies r@.contains(
                    w as usize,
                ) by {
                    if w < v {
                        let j = choose|j: int| 0 <= j < before.len() && before[j] == w as usize;
                        assert(r@[j] == w as usize);
                    } else {
                        assert(r@[before.len() as int] == w as usize);
                    }
                }
            }
        }
        v = v + 1;
    }
    r
}

/// The map from boundaries to their points, built from the constraint
/// tests as [`point_boundaries`] takes them. The boundaries come in the
/// order of their first constraint.
pub fn boundary_points(inside: &Vec<Vec<bool>>, ids: &Vec<u64>) -> (boundaries: Vec<(u64, Vec<usize>)>)
    requires
        shaped(inside@, ids@),
    ensures
        is_boundary_map(inside@, ids@, boundaries@),
{
    let mut boundaries: Vec<(u64, Vec<usize>)> = Vec::new();
    let mut c: usize = 0;
    while c < ids.len()
        invariant
            c <= ids@.len(),
            shaped(inside@, ids@),
            forall|k: int| 0 <= k < boundaries@.len() ==> ids@.take(c as int).contains(
                (#[trigger] boundaries@[k]).0,
            ),
            forall|i: int, j: int| 0 <= i < j < boundaries@.len() ==> boundaries@[i].0 != boundaries@[j].0,
            forall|k: int| 0 <= k < boundaries@.len() ==> (#[trigger] boundaries@[k]).1@.len() > 0,
            forall|k: int, a: int, b: int|
                0 <= k < boundaries@.len() && 0 <= a < b < boundaries@[k].1@.len() ==> #[trigger] boundaries@[k].1@[a]
                    < #[trigger] boundaries@[k].1@[b],
            forall|k: int, j: int| 0 <= k < boundaries@.len() && 0 <= j < boundaries@[k].1@.len() ==> {
                let v = #[trigger] boundaries@[k].1@[j];
                v < inside@.len() && on_boundary(inside@, ids@, v as int, boundaries@[k].0)
            },
            forall|k: int, v: int|
                0 <= k < boundaries@.len() && 0 <= v < inside@.len() && #[trigger] on_boundary(
                    inside@,
                    ids@,
                    v,
                    boundaries@[k].0,
                ) ==> boundaries@[k].1@.contains(v as usize),
            forall|e: int, v: int|
                0 <= e < c && 0 <= v < inside@.len() && #[trigger] on_boundary(inside@, ids@, v, ids@[e])
                    ==> exists|k: int| 0 <= k < boundaries@.len() && #[trigger] boundaries@[k].0 == ids@[e],
        decreases ids@.len() - c,
    {
        let id = ids[c];
        let ghost seen = ids@.take(c as int);
        assert(ids@.take(c as int + 1) =~= seen.push(id));
        let mut earlier: Vec<u64> = Vec::new();
        let mut e: usize = 0;
        while e < c
            invariant
                e <= c < ids@.len(),
                earlier@ =~= ids@.take(e as int),
            decreases c - e,
        {
            earlier.push(ids[e]);
            assert(ids@.take(e as int + 1) =~= ids@.take(e as int).push(ids@[e as int]));
            e = e + 1;
        }
        if holds(&earlier, id) {
            proof {
                let f = choose|f: int| 0 <= f < seen.len() && seen[f] == id;
                assert forall|d: int, v: int|
                    0 <= d < c + 1 && 0 <= v < inside@.len() && #[trigger] on_boundary(inside@, ids@, v, ids@[d])
                        implies exists|k: int| 0 <= k < boundaries@.len() && #[trigger] boundaries@[k].0 == ids@[d] by {
                    if d == c {
                        assert(ids@[f] == ids@[d]);
                        assert(on_boundary(inside@, ids@, v, ids@[f]));
                    }
                }
                assert forall|k: int| 0 <= k < boundaries@.len() implies ids@.take(c as int + 1).contains(
                    (#[trigger] boundaries@[k]).0,
                ) by {
                    let g = choose|g: int| 0 <= g < seen.len() && seen[g] == boundaries@[k].0;
                    assert(ids@.take(c as int + 1)[g] == boundaries@[k].0);
                }
            }
        } else {
            let found = points_on(inside, ids, id);
            let ghost before = boundaries@;
            if found.len() > 0 {
                boundaries.push((id, found));
                proof {
                    assert(boundaries@[before.len() as int].0 == id);
                    assert forall|k: int| 0 <= k < boundaries@.len() implies ids@.take(c as int + 1).contains(
                        (#[trigger] boundaries@[k]).0,
                    ) by {
                        if k < before.len() {
                            let g = choose|g: int| 0 <= g < seen.len() && seen[g] == boundaries@[k].0;
                            assert(ids@.take(c as int + 1)[g] == boundaries@[k].0);
                        } else {
                            assert(ids@.take(c as int + 1)[c as int] == id);
                        }
                    }
                    assert forall|i: int, j: int| 0 <= i < j < boundaries@.len() implies boundaries@[i].0
                        != boundaries@[j].0 by {
                        if j == before.len() {
                            assert(seen.contains(before[i].0));
                        }
                    }
                    assert forall|d: int, v: int|
                        0 <= d < c + 1 && 0 <= v < inside@.len() && #[trigger] on_boundary(inside@, ids@, v, ids@[d])
                            implies exists|k: int| 0 <= k < boundaries@.len() && #[trigger] boundaries@[k].0
                            == ids@[d] by {
                        if d < c {
                            let k = choose|k: int| 0 <= k < before.len() && #[trigger] before[k].0 == ids@[d];
                            assert(boundaries@[k].0 == ids@[d]);
                        } else {
                            assert(boundaries@[before.len() as int].0 == ids@[d]);
                        }
                    }
                }
            } else {
                proof {
                    assert forall|d: int, v: int|
                        0 <= d < c + 1 && 0 <= v < inside@.len() && #[trigger] on_boundary(inside@, ids@, v, ids@[d])
                            implies exists|k: int| 0 <= k < boundaries@.len() && #[trigger] boundaries@[k].0
                            == ids@[d] by {
                        if d == c {
                            assert(found@.contains(v as usize));
                        }
                    }
                    assert forall|k: int| 0 <= k < boundaries@.len() implies ids@.take(c as int + 1).contains(
                        (#[trigger] boundaries@[k]).0,
                    ) by {
                        let g = choose|g: int| 0 <= g < seen.len() && seen[g] == boundaries@[k].0;
                        assert(ids@.take(c as int + 1)[g] == boundaries@[k].0);
                    }
                }
            }
        }
        c = c + 1;
    }
    proof {
        assert forall|v: int, id: u64| 0 <= v < inside@.len() && #[trigger] on_boundary(inside@, ids@, v, id) implies exists|
            k: int,
        | 0 <= k < boundaries@.len() && #[trigger] boundaries@[k].0 == id by {
            let e = choose|e: int| 0 <= e < ids@.len() && #[trigger] ids@[e] == id && inside@[v]@[e];
            assert(on_boundary(inside@, ids@, v, ids@[e]));
        }
    }
    boundaries
}

/// The two maps for a mesh: the boundaries of each point and the points of
/// each boundary.
pub fn generate_associative_data(inside: &Vec<Vec<bool>>, ids: &Vec<u64>) -> (r: (
    Vec<(usize, Vec<u64>)>,
    Vec<(u64, Vec<usize>)>,
))
    requires
        shaped(inside@, ids@),
    ensures
        is_point_map(inside@, ids@, r.0@),
        is_boundary_map(inside@, ids@, r.1@),
{
    (point_boundaries(inside, ids), boundary_points(inside, ids))
}

/// The two maps are each other's inverse: a point is listed under a
/// boundary exactly when the boundary is listed under the point.
pub proof fn law_maps_are_inverse(
    inside: Seq<Vec<bool>>,
    ids: Seq<u64>,
    points: Seq<(usize, Vec<u64>)>,
    boundaries: Seq<(u64, Vec<usize>)>,
    k: int,
    b: int,
)
    requires
        shaped(inside, ids),
        is_point_map(inside, ids, points),
        is_boundary_map(inside, ids, boundaries),
        0 <= k < points.len(),
        0 <= b < boundaries.len(),
    ensures
        points[k].1@.contains(boundaries[b].0) <==> boundaries[b].1@.contains(points[k].0),
{
    let v = points[k].0;
    let id = boundaries[b].0;
    if points[k].1@.contains(id) {
        assert(on_boundary(inside, ids, v as int, id));
    }
    if boundaries[b].1@.contains(v) {
        let j = choose|j: int| 0 <= j < boundaries[b].1@.len() && boundaries[b].1@[j] == v;
        assert(on_boundary(inside, ids, boundaries[b].1@[j] as int, id));
        assert(points[k].1@.contains(id));
    }
}

} // verus!
