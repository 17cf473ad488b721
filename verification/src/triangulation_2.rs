//! Planar triangulation data: triangles over a vertex list, their edges, and
//! per-vertex incidence lists; plus the sub-triangulation that keeps a chosen
//! set of triangles.
use vstd::prelude::*;

verus! {

/// A triangle, given by three indices into the vertex list.
#[derive(Debug, Clone, Copy)]
pub struct Face2D(pub [usize; 3]);

/// An edge, given by its two vertex indices (smaller first).
#[derive(Debug, Clone, Copy)]
pub struct IndexPair(pub usize, pub usize);

/// A vertex: its position (of whatever point type the caller uses) and the
/// indices of the triangles that touch it.
#[derive(Debug, Clone)]
pub struct Vertex2D<P> {
    point: P,
    incident_faces: Vec<usize>,
}

/// What a vertex holds, as mathematical values.
pub struct VertexView<P> {
    pub point: P,
    pub incident_faces: Seq<usize>,
}

impl<P> View for Vertex2D<P> {
    type V = VertexView<P>;

    closed spec fn view(&self) -> VertexView<P> {
        VertexView { point: self.point, incident_faces: self.incident_faces@ }
    }
}

impl<P: Copy> Vertex2D<P> {
    pub fn new(point: P, incident_faces: Vec<usize>) -> (v: Self)
        ensures
            v@.point == point,
            v@.incident_faces == incident_faces@,
    {
        Vertex2D { point, incident_faces }
    }

    pub fn point(&self) -> (p: &P)
        ensures
            *p == self@.point,
    {
        &self.point
    }

    pub fn incident_faces(&self) -> (s: &[usize])
        ensures
            s@ == self@.incident_faces,
    {
        self.incident_faces.as_slice()
    }
}

/// A triangulation: triangles, edges and vertices.
#[derive(Debug, Clone)]
pub struct Data2D<P> {
    faces: Vec<Face2D>,
    edges: Vec<IndexPair>,
    vertices: Vec<Vertex2D<P>>,
}

/// What a triangulation holds, as mathematical values.
pub struct Data2DView<P> {
    pub faces: Seq<Face2D>,
    pub edges: Seq<IndexPair>,
    pub vertices: Seq<VertexView<P>>,
}

impl<P> View for Data2D<P> {
    type V = Data2DView<P>;

    closed spec fn view(&self) -> Data2DView<P> {
        Data2DView {
            faces: self.faces@,
            edges: self.edges@,
            vertices: vertex_views(self.vertices@),
        }
    }
}

/// The values of a list of vertices.
pub open spec fn vertex_views<P>(s: Seq<Vertex2D<P>>) -> Seq<VertexView<P>> {
    Seq::new(s.len(), |i: int| s[i]@)
}

/// The vertex value with the given point and incidence list.
pub open spec fn vview<P>(point: P, incident_faces: Seq<usize>) -> VertexView<P> {
    VertexView { point, incident_faces }
}

/// Every corner of every triangle names an existing vertex.
pub open spec fn faces_in_range(faces: Seq<Face2D>, n: int) -> bool {
    forall|i: int, k: int| 0 <= i < faces.len() && 0 <= k < 3 ==> #[trigger] faces[i].0[k] < n
}

/// The triangles whose entry in `keep` is true, in the order given.
pub open spec fn kept_faces(faces: Seq<Face2D>, keep: Seq<bool>) -> Seq<Face2D>
    decreases faces.len(),
{
    if faces.len() == 0 {
        Seq::empty()
    } else {
        let prev = kept_faces(faces.drop_last(), keep);
        if keep[faces.len() - 1] {
            prev.push(faces.last())
        } else {
            prev
        }
    }
}

/// Triangle `f` has vertex `v` as a corner.
pub open spec fn face_has(f: Face2D, v: int) -> bool {
    f.0[0] == v || f.0[1] == v || f.0[2] == v
}

/// Some triangle of `faces` has vertex `v` as a corner.
pub open spec fn used_in(faces: Seq<Face2D>, v: int) -> bool {
    exists|i: int| 0 <= i < faces.len() && #[trigger] face_has(faces[i], v)
}

/// The number of vertices below `v` that some triangle of `faces` uses: the new
/// index of a used vertex `v` once the unused ones are dropped.
pub open spec fn rank(faces: Seq<Face2D>, v: int) -> nat
    decreases v,
{
    if v <= 0 {
        0
    } else {
        rank(faces, v - 1) + if used_in(faces, v - 1) {
            1nat
        } else {
            0nat
        }
    }
}

/// Triangle `f` with each corner renumbered by `rank`.
pub open spec fn remap_face(faces: Seq<Face2D>, f: Face2D) -> Face2D {
    Face2D(
        [
            rank(faces, f.0[0] as int) as usize,
            rank(faces, f.0[1] as int) as usize,
            rank(faces, f.0[2] as int) as usize,
        ],
    )
}

/// All triangles of `faces`, renumbered.
pub open spec fn remapped_faces(faces: Seq<Face2D>) -> Seq<Face2D> {
    Seq::new(faces.len(), |i: int| remap_face(faces, faces[i]))
}

/// `fi` once for each corner of `f` that is vertex `j` (corners in order).
pub open spec fn face_incidence(f: Face2D, fi: int, j: int) -> Seq<usize> {
    (if f.0[0] == j {
        seq![fi as usize]
    } else {
        Seq::empty()
    }) + (if f.0[1] == j {
        seq![fi as usize]
    } else {
        Seq::empty()
    }) + (if f.0[2] == j {
        seq![fi as usize]
    } else {
        Seq::empty()
    })
}

/// The incidence list of vertex `j`: the triangle indices in order, each as
/// often as it has `j` as a corner.
pub open spec fn incidence(faces: Seq<Face2D>, j: int) -> Seq<usize>
    decreases faces.len(),
{
    if faces.len() == 0 {
        Seq::empty()
    } else {
        incidence(faces.drop_last(), j) + face_incidence(faces.last(), faces.len() - 1, j)
    }
}

pub open spec fn min_int(a: int, b: int) -> int {
    if a <= b {
        a
    } else {
        b
    }
}

pub open spec fn max_int(a: int, b: int) -> int {
    if a <= b {
        b
    } else {
        a
    }
}

/// `(a, b)` is the side of `f` between corners `p` and `q`, smaller index first.
pub open spec fn side_is(f: Face2D, p: int, q: int, a: int, b: int) -> bool {
    min_int(f.0[p] as int, f.0[q] as int) == a && max_int(f.0[p] as int, f.0[q] as int) == b
}

/// `(a, b)` is one of the three sides of `f`.
pub open spec fn face_has_edge(f: Face2D, a: int, b: int) -> bool {
    side_is(f, 0, 1, a, b) || side_is(f, 0, 2, a, b) || side_is(f, 1, 2, a, b)
}

/// `(a, b)` is a side of some triangle of `faces`.
pub open spec fn has_edge(faces: Seq<Face2D>, a: int, b: int) -> bool {
    exists|i: int| 0 <= i < faces.len() && #[trigger] face_has_edge(faces[i], a, b)
}

/// Lexicographic order on edges.
pub open spec fn pair_lt(x: IndexPair, y: IndexPair) -> bool {
    x.0 < y.0 || (x.0 == y.0 && x.1 < y.1)
}

/// The edges are in strictly increasing lexicographic order (so none repeats).
pub open spec fn strictly_sorted(s: Seq<IndexPair>) -> bool {
    forall|i: int, j: int| 0 <= i < j < s.len() ==> pair_lt(#[trigger] s[i], #[trigger] s[j])
}

/// `after` is the triangulation made of the triangles of `before` that `keep`
/// marks: vertices no kept triangle uses are dropped, the others keep their
/// order and point and are renumbered consecutively; each vertex lists the new
/// indices of the triangles touching it; the edges are the sides of the kept
/// triangles, each once, sorted.
pub open spec fn retains<P>(before: Data2DView<P>, keep: Seq<bool>, after: Data2DView<P>) -> bool {
    built_from(before.vertices, kept_faces(before.faces, keep), after)
}

/// `after` is the triangulation made of the triangles `kept` over `vertices`
/// (see [`retains`]).
pub open spec fn built_from<P>(
    vertices: Seq<VertexView<P>>,
    kept: Seq<Face2D>,
    after: Data2DView<P>,
) -> bool {
    let n = vertices.len() as int;
    let new_faces = remapped_faces(kept);
    &&& after.faces == new_faces
    &&& after.vertices.len() == rank(kept, n)
    &&& forall|v: int|
        0 <= v < n && used_in(kept, v) ==> #[trigger] after.vertices[rank(kept, v) as int]
            == vview(vertices[v].point, incidence(new_faces, rank(kept, v) as int))
    &&& strictly_sorted(after.edges)
    &&& forall|e: IndexPair|
        after.edges.contains(e) <==> has_edge(new_faces, e.0 as int, e.1 as int)
}

// ---------------------------------------------------------------------------
// Lemmas on the renumbering.

proof fn lemma_rank_monotone(faces: Seq<Face2D>, a: int, b: int)
    requires
        a <= b,
    ensures
        rank(faces, a) <= rank(faces, b),
    decreases b - a,
{
    if a < b {
        lemma_rank_monotone(faces, a, b - 1);
    }
}

proof fn lemma_rank_used_below(faces: Seq<Face2D>, v: int, n: int)
    requires
        0 <= v < n,
        used_in(faces, v),
    ensures
        rank(faces, v) < rank(faces, n),
{
    assert(rank(faces, v + 1) == rank(faces, v) + 1);
    lemma_rank_monotone(faces, v + 1, n);
}

proof fn lemma_rank_le(faces: Seq<Face2D>, v: int)
    requires
        0 <= v,
    ensures
        rank(faces, v) <= v,
    decreases v,
{
    if v > 0 {
        lemma_rank_le(faces, v - 1);
    }
}

proof fn lemma_rank_injective(faces: Seq<Face2D>, u: int, v: int)
    requires
        0 <= u < v,
        used_in(faces, u),
    ensures
        rank(faces, u) < rank(faces, v),
{
    lemma_rank_used_below(faces, u, v);
}

proof fn lemma_kept_step(faces: Seq<Face2D>, keep: Seq<bool>, i: int)
    requires
        0 <= i < faces.len(),
    ensures
        kept_faces(faces.take(i + 1), keep) == (if keep[i] {
            kept_faces(faces.take(i), keep).push(faces[i])
        } else {
            kept_faces(faces.take(i), keep)
        }),
{
    assert(faces.take(i + 1).drop_last() =~= faces.take(i));
}

proof fn lemma_incidence_step(faces: Seq<Face2D>, i: int, j: int)
    requires
        0 <= i < faces.len(),
    ensures
        incidence(faces.take(i + 1), j) == incidence(faces.take(i), j) + face_incidence(
            faces[i],
            i,
            j,
        ),
{
    assert(faces.take(i + 1).drop_last() =~= faces.take(i));
}

// ---------------------------------------------------------------------------

impl<P: Copy> Data2D<P> {
    /// Every triangle corner names an existing vertex.
    pub open spec fn wf(&self) -> bool {
        faces_in_range(self@.faces, self@.vertices.len() as int)
    }

    pub fn new(faces: Vec<Face2D>, edges: Vec<IndexPair>, vertices: Vec<Vertex2D<P>>) -> (d: Self)
        ensures
            d@.faces == faces@,
            d@.edges == edges@,
            d@.vertices == vertex_views(vertices@),
    {
        Data2D { faces, edges, vertices }
    }

    pub fn faces(&self) -> (s: &[Face2D])
        ensures
            s@ == self@.faces,
    {
        self.faces.as_slice()
    }

    pub fn edges(&self) -> (s: &[IndexPair])
        ensures
            s@ == self@.edges,
    {
        self.edges.as_slice()
    }

    pub fn vertices(&self) -> (s: &[Vertex2D<P>])
        ensures
            vertex_views(s@) == self@.vertices,
    {
        self.vertices.as_slice()
    }

    /// Keeps the triangles that satisfy `pred` (asked once per triangle, in
    /// order, with the vertex list), drops the rest, compacts the vertex
    /// indices, and rebuilds the edges and the per-vertex incidence lists.
    pub fn retain_triangles<F: Fn(&Face2D, &[Vertex2D<P>]) -> bool>(&self, pred: F) -> (r: Self)
        requires
            self.wf(),
            forall|f: &Face2D, s: &[Vertex2D<P>]| call_requires(pred, (f, s)),
        ensures
            r.wf(),
            exists|keep: Seq<bool>, s: &[Vertex2D<P>]|
                #![trigger retains(self@, keep, r@), vertex_views(s@)]
                {
                    &&& keep.len() == self@.faces.len()
                    &&& vertex_views(s@) == self@.vertices
                    &&& forall|i: int|
                        0 <= i < keep.len() ==> #[trigger] call_ensures(
                            pred,
                            (&self@.faces[i], s),
                            keep[i],
                        )
                    &&& retains(self@, keep, r@)
                },
    {
        let verts = self.vertices.as_slice();
        let nf = self.faces.len();
        let mut keep: Vec<bool> = Vec::new();
        let mut i: usize = 0;
        while i < nf
            invariant
                nf == self.faces@.len(),
                i <= nf,
                keep@.len() == i,
                verts@ == self.vertices@,
                forall|f: &Face2D, s: &[Vertex2D<P>]| call_requires(pred, (f, s)),
                forall|j: int|
                    0 <= j < i ==> #[trigger] call_ensures(
                        pred,
                        (&self.faces@[j], verts),
                        keep@[j],
                    ),
            decreases nf - i,
        {
            let b = pred(&self.faces[i], verts);
            keep.push(b);
            i = i + 1;
        }
        let r = self.retain_triangles_by_mask(&keep);
        proof {
            assert(vertex_views(verts@) == self@.vertices);
            assert(retains(self@, keep@, r@));
        }
        r
    }

    /// Keeps the triangles whose entry in `keep` is true and drops the rest,
    /// compacts the vertex indices, and rebuilds the edges and the per-vertex
    /// incidence lists.
    pub fn retain_triangles_by_mask(&self, keep: &Vec<bool>) -> (r: Self)
        requires
            self.wf(),
            keep@.len() == self@.faces.len(),
        ensures
            retains(self@, keep@, r@),
            r.wf(),
    {
        let nf = self.faces.len();
        let n = self.vertices.len();
        // Triangles to keep, in order.
        let mut kept: Vec<Face2D> = Vec::new();
        let mut i: usize = 0;
        while i < nf
            invariant
                nf == self.faces@.len(),
                keep@.len() == nf,
                i <= nf,
                kept@ == kept_faces(self.faces@.take(i as int), keep@),
            decreases nf - i,
        {
            proof {
                lemma_kept_step(self.faces@, keep@, i as int);
            }
            if keep[i] {
                kept.push(self.faces[i]);
            }
            i = i + 1;
        }
        assert(self.faces@.take(nf as int) =~= self.faces@);
        proof {
            lemma_kept_in_range(self.faces@, keep@, n as int);
        }
        Self::build_from_kept(&self.vertices, kept)
    }
}


/// Triangle sequences keep their renumbered corners below `rank(kept, n)`.
proof fn lemma_remapped_in_range(kept: Seq<Face2D>, n: int)
    requires
        faces_in_range(kept, n),
    ensures
        faces_in_range(remapped_faces(kept), rank(kept, n) as int),
{
    let r = remapped_faces(kept);
    assert forall|i: int, k: int| 0 <= i < r.len() && 0 <= k < 3 implies #[trigger] r[i].0[k] < rank(
        kept,
        n,
    ) by {
        let v = kept[i].0[k] as int;
        assert(face_has(kept[i], v));
        assert(used_in(kept, v));
        assert(kept[i].0[k] < n);
        lemma_rank_used_below(kept, v, n);
        lemma_rank_le(kept, v);
    }
}

impl<P: Copy> Data2D<P> {
    /// Builds the triangulation made of the triangles `kept` over `verts`.
    fn build_from_kept(verts: &Vec<Vertex2D<P>>, kept: Vec<Face2D>) -> (r: Self)
        requires
            faces_in_range(kept@, verts@.len() as int),
        ensures
            built_from(vertex_views(verts@), kept@, r@),
            r.wf(),
    {
        let n = verts.len();
        let nk = kept.len();
        let ghost ks = kept@;
        // Which vertices some kept triangle uses.
        let mut used: Vec<bool> = Vec::new();
        let mut v: usize = 0;
        while v < n
            invariant
                used@.len() == v,
                v <= n,
                forall|u: int| 0 <= u < v ==> !(#[trigger] used@[u]),
            decreases n - v,
        {
            used.push(false);
            v = v + 1;
        }
        let mut i: usize = 0;
        while i < nk
            invariant
                nk == ks.len(),
                ks == kept@,
                n == used@.len(),
                i <= nk,
                faces_in_range(ks, n as int),
                forall|u: int| 0 <= u < n ==> (#[trigger] used@[u] <==> used_in(ks.take(i as int), u)),
            decreases nk - i,
        {
            let f = kept[i];
            assert(ks[i as int].0[0] < n && ks[i as int].0[1] < n && ks[i as int].0[2] < n);
            let ghost before = used@;
            used.set(f.0[0], true);
            used.set(f.0[1], true);
            used.set(f.0[2], true);
            proof {
                let t0 = ks.take(i as int);
                let t1 = ks.take(i as int + 1);
                assert(t1[i as int] == f);
                assert forall|u: int| 0 <= u < n implies (#[trigger] used@[u] <==> used_in(t1, u)) by {
                    if used_in(t0, u) {
                        let w = choose|w: int| 0 <= w < t0.len() && #[trigger] face_has(t0[w], u);
                        assert(t1[w] == t0[w]);
                    }
                    if face_has(f, u) {
                        assert(face_has(t1[i as int], u));
                    }
                    if used_in(t1, u) {
                        let w = choose|w: int| 0 <= w < t1.len() && #[trigger] face_has(t1[w], u);
                        if w < i {
                            assert(t0[w] == t1[w]);
                        }
                    }
                }
            }
            i = i + 1;
        }
        assert(ks.take(nk as int) =~= ks);
        // New index of every used vertex.
        let mut old_to_new: Vec<usize> = Vec::new();
        let mut next: usize = 0;
        let mut old: usize = 0;
        while old < n
            invariant
                n == used@.len(),
                old <= n,
                old_to_new@.len() == old,
                next == rank(ks, old as int),
                next <= old,
                forall|u: int| 0 <= u < n ==> (#[trigger] used@[u] <==> used_in(ks, u)),
                forall|u: int|
                    0 <= u < old && used_in(ks, u) ==> #[trigger] old_to_new@[u] == rank(ks, u),
            decreases n - old,
        {
            if used[old] {
                old_to_new.push(next);
                next = next + 1;
            } else {
                old_to_new.push(usize::MAX);
            }
            old = old + 1;
        }
        let n_new = next;
        // The kept triangles, renumbered.
        let ghost target = remapped_faces(ks);
        let mut new_faces: Vec<Face2D> = Vec::new();
        let mut i: usize = 0;
        while i < nk
            invariant
                nk == ks.len(),
                ks == kept@,
                n == old_to_new@.len(),
                i <= nk,
                faces_in_range(ks, n as int),
                target == remapped_faces(ks),
                forall|u: int|
                    0 <= u < n && used_in(ks, u) ==> #[trigger] old_to_new@[u] == rank(ks, u),
                new_faces@ == target.take(i as int),
            decreases nk - i,
        {
            let f = kept[i];
            assert(ks[i as int].0[0] < n && ks[i as int].0[1] < n && ks[i as int].0[2] < n);
            assert(face_has(ks[i as int], f.0[0] as int));
            assert(face_has(ks[i as int], f.0[1] as int));
            assert(face_has(ks[i as int], f.0[2] as int));
            let g = Face2D([old_to_new[f.0[0]], old_to_new[f.0[1]], old_to_new[f.0[2]]]);
            assert(g.0 =~= remap_face(ks, f).0);
            new_faces.push(g);
            assert(new_faces@ =~= target.take(i as int + 1));
            i = i + 1;
        }
        assert(new_faces@ =~= target);
        proof {
            lemma_remapped_in_range(ks, n as int);
        }
        let ghost nfs = new_faces@;
        // Incidence lists.
        let mut incidents: Vec<Vec<usize>> = Vec::new();
        let mut j: usize = 0;
        while j < n_new
            invariant
                incidents@.len() == j,
                j <= n_new,
                forall|q: int| 0 <= q < j ==> (#[trigger] incidents@[q])@ == Seq::<usize>::empty(),
            decreases n_new - j,
        {
            incidents.push(Vec::new());
            j = j + 1;
        }
        let mut fi: usize = 0;
        while fi < nk
            invariant
                nk == nfs.len(),
                nfs == new_faces@,
                fi <= nk,
                incidents@.len() == n_new,
                faces_in_range(nfs, n_new as int),
                forall|q: int|
                    0 <= q < n_new ==> (#[trigger] incidents@[q])@ == incidence(
                        nfs.take(fi as int),
                        q,
                    ),
            decreases nk - fi,
        {
            let f = new_faces[fi];
            assert(nfs[fi as int].0[0] < n_new && nfs[fi as int].0[1] < n_new && nfs[fi as int].0[2]
                < n_new);
            let ghost s0 = incidents@;
            incidents[f.0[0]].push(fi);
            let ghost s1 = incidents@;
            incidents[f.0[1]].push(fi);
            let ghost s2 = incidents@;
            incidents[f.0[2]].push(fi);
            proof {
                assert forall|q: int| 0 <= q < n_new implies (#[trigger] incidents@[q])@ == incidence(
                    nfs.take(fi as int + 1),
                    q,
                ) by {
                    lemma_incidence_step(nfs, fi as int, q);
                    assert(s1[q]@ =~= s0[q]@ + (if f.0[0] == q {
                        seq![fi]
                    } else {
                        Seq::empty()
                    }));
                    assert(s2[q]@ =~= s1[q]@ + (if f.0[1] == q {
                        seq![fi]
                    } else {
                        Seq::empty()
                    }));
                    assert(incidents@[q]@ =~= s2[q]@ + (if f.0[2] == q {
                        seq![fi]
                    } else {
                        Seq::empty()
                    }));
                    assert(incidents@[q]@ =~= s0[q]@ + face_incidence(f, fi as int, q));
                }
            }
            fi = fi + 1;
        }
        assert(nfs.take(nk as int) =~= nfs);
        // The used vertices, in order, with their incidence lists.
        let ghost vv = vertex_views(verts@);
        let mut new_vertices: Vec<Vertex2D<P>> = Vec::new();
        let mut old: usize = 0;
        while old < n
            invariant
                n == verts@.len(),
                n == used@.len(),
                n == old_to_new@.len(),
                old <= n,
                vv == vertex_views(verts@),
                n_new == rank(ks, n as int),
                incidents@.len() == n_new,
                new_vertices@.len() == rank(ks, old as int),
                forall|u: int| 0 <= u < n ==> (#[trigger] used@[u] <==> used_in(ks, u)),
                forall|u: int|
                    0 <= u < n && used_in(ks, u) ==> #[trigger] old_to_new@[u] == rank(ks, u),
                forall|q: int|
                    rank(ks, old as int) <= q < n_new ==> (#[trigger] incidents@[q])@ == incidence(
                        nfs,
                        q,
                    ),
                forall|u: int|
                    0 <= u < old && used_in(ks, u) ==> (#[trigger] new_vertices@[rank(ks, u) as int])@
                        == vview(vv[u].point, incidence(nfs, rank(ks, u) as int)),
            decreases n - old,
        {
            proof {
                lemma_rank_monotone(ks, old as int, n as int);
            }
            if used[old] {
                let ni = old_to_new[old];
                proof {
                    lemma_rank_used_below(ks, old as int, n as int);
                }
                let mut taken: Vec<usize> = Vec::new();
                std::mem::swap(&mut taken, &mut incidents[ni]);
                let ghost before = new_vertices@;
                new_vertices.push(Vertex2D { point: verts[old].point, incident_faces: taken });
                proof {
                    assert(rank(ks, old as int + 1) == rank(ks, old as int) + 1);
                    assert forall|u: int|
                        0 <= u < old + 1 && used_in(ks, u) implies (#[trigger] new_vertices@[rank(
                        ks,
                        u,
                    ) as int])@ == vview(vv[u].point, incidence(nfs, rank(ks, u) as int)) by {
                        if u < old {
                            lemma_rank_injective(ks, u, old as int);
                            assert(new_vertices@[rank(ks, u) as int] == before[rank(ks, u) as int]);
                        }
                    }
                }
            }
            old = old + 1;
        }
        let edges = sorted_edges(&new_faces, n_new);
        let r = Data2D { faces: new_faces, edges, vertices: new_vertices };
        proof {
            let rv = r@;
            assert(rv.vertices.len() == rank(ks, n as int));
            assert forall|v: int| 0 <= v < n && used_in(ks, v) implies #[trigger] rv.vertices[rank(
                ks,
                v,
            ) as int] == vview(vv[v].point, incidence(nfs, rank(ks, v) as int)) by {
                lemma_rank_used_below(ks, v, n as int);
            }

        }
        r
    }
}


/// The elements of `s` strictly increase.
pub open spec fn strictly_increasing(s: Seq<usize>) -> bool {
    forall|i: int, j: int| 0 <= i < j < s.len() ==> #[trigger] s[i] < #[trigger] s[j]
}

proof fn lemma_has_edge_step(faces: Seq<Face2D>, i: int, a: int, b: int)
    requires
        0 <= i < faces.len(),
    ensures
        has_edge(faces.take(i + 1), a, b) <==> (has_edge(faces.take(i), a, b) || face_has_edge(
            faces[i],
            a,
            b,
        )),
{
    let t0 = faces.take(i);
    let t1 = faces.take(i + 1);
    if has_edge(t0, a, b) {
        let w = choose|w: int| 0 <= w < t0.len() && #[trigger] face_has_edge(t0[w], a, b);
        assert(t1[w] == t0[w]);
    }
    if face_has_edge(faces[i], a, b) {
        assert(t1[i] == faces[i]);
    }
    if has_edge(t1, a, b) {
        let w = choose|w: int| 0 <= w < t1.len() && #[trigger] face_has_edge(t1[w], a, b);
        if w < i {
            assert(t0[w] == t1[w]);
        }
    }
}

/// Adds `a` to bucket `b`.
fn push_lower(lower: &mut Vec<Vec<usize>>, a: usize, b: usize)
    requires
        b < old(lower)@.len(),
    ensures
        final(lower)@.len() == old(lower)@.len(),
        forall|q: int|
            0 <= q < old(lower)@.len() ==> (#[trigger] final(lower)@[q])@ == if q == b {
                old(lower)@[q]@.push(a)
            } else {
                old(lower)@[q]@
            },
{
    lower[b].push(a);
}

/// For every vertex `b`, the smaller endpoints `a` of the sides `(a, b)` of
/// the triangles (repetitions allowed).
fn lower_endpoints(faces: &Vec<Face2D>, n: usize) -> (lower: Vec<Vec<usize>>)
    requires
        faces_in_range(faces@, n as int),
    ensures
        lower@.len() == n,
        forall|b: int, t: int|
            0 <= b < n && 0 <= t < lower@[b]@.len() ==> #[trigger] lower@[b]@[t] <= b && has_edge(
                faces@,
                lower@[b]@[t] as int,
                b,
            ),
        forall|a: int, b: int|
            #[trigger] has_edge(faces@, a, b) ==> 0 <= b < n && lower@[b]@.contains(a as usize),
{
    let mut lower: Vec<Vec<usize>> = Vec::new();
    let mut j: usize = 0;
    while j < n
        invariant
            lower@.len() == j,
            j <= n,
            forall|q: int| 0 <= q < j ==> (#[trigger] lower@[q])@ == Seq::<usize>::empty(),
        decreases n - j,
    {
        lower.push(Vec::new());
        j = j + 1;
    }
    let nf = faces.len();
    let ghost fs = faces@;
    let mut fi: usize = 0;
    while fi < nf
        invariant
            nf == fs.len(),
            fs == faces@,
            fi <= nf,
            lower@.len() == n,
            faces_in_range(fs, n as int),
            forall|b: int, t: int|
                0 <= b < n && 0 <= t < lower@[b]@.len() ==> #[trigger] lower@[b]@[t] <= b
                    && has_edge(fs.take(fi as int), lower@[b]@[t] as int, b),
            forall|a: int, b: int|
                #[trigger] has_edge(fs.take(fi as int), a, b) ==> 0 <= b < n && lower@[b]@.contains(
                    a as usize,
                ),
        decreases nf - fi,
    {
        let f = faces[fi];
        assert(fs[fi as int].0[0] < n && fs[fi as int].0[1] < n && fs[fi as int].0[2] < n);
        let ghost s0 = lower@;
        let (a01, b01) = if f.0[0] <= f.0[1] {
            (f.0[0], f.0[1])
        } else {
            (f.0[1], f.0[0])
        };
        push_lower(&mut lower, a01, b01);
        let ghost s1 = lower@;
        let (a02, b02) = if f.0[0] <= f.0[2] {
            (f.0[0], f.0[2])
        } else {
            (f.0[2], f.0[0])
        };
        push_lower(&mut lower, a02, b02);
        let ghost s2 = lower@;
        let (a12, b12) = if f.0[1] <= f.0[2] {
            (f.0[1], f.0[2])
        } else {
            (f.0[2], f.0[1])
        };
        push_lower(&mut lower, a12, b12);
        proof {
            let t0 = fs.take(fi as int);
            let t1 = fs.take(fi as int + 1);
            assert(fs[fi as int] == f);
            assert(face_has_edge(f, a01 as int, b01 as int));
            assert(face_has_edge(f, a02 as int, b02 as int));
            assert(face_has_edge(f, a12 as int, b12 as int));
            assert forall|b: int, t: int|
                0 <= b < n && 0 <= t < lower@[b]@.len() implies #[trigger] lower@[b]@[t] <= b
                && has_edge(t1, lower@[b]@[t] as int, b) by {
                let x = lower@[b]@[t] as int;
                lemma_has_edge_step(fs, fi as int, x, b);
                if t < s0[b]@.len() {
                    assert(lower@[b]@[t] == s0[b]@[t]);
                } else if t < s1[b]@.len() {
                    assert(lower@[b]@[t] == s1[b]@[t]);
                } else if t < s2[b]@.len() {
                    assert(lower@[b]@[t] == s2[b]@[t]);
                }
            }
            assert forall|a: int, b: int| #[trigger] has_edge(t1, a, b) implies 0 <= b < n && lower@[
                b]@.contains(a as usize) by {
                lemma_has_edge_step(fs, fi as int, a, b);
                if has_edge(t0, a, b) {
                    let w = choose|w: int|
                        0 <= w < s0[b]@.len() && #[trigger] s0[b]@[w] == a as usize;
                    assert(lower@[b]@[w] == s0[b]@[w]);
                } else {
                    if side_is(f, 0, 1, a, b) {
                        assert(s1[b]@[s1[b]@.len() - 1] == a as usize);
                        assert(lower@[b]@[s1[b]@.len() - 1] == a as usize);
                    } else if side_is(f, 0, 2, a, b) {
                        assert(s2[b]@[s2[b]@.len() - 1] == a as usize);
                        assert(lower@[b]@[s2[b]@.len() - 1] == a as usize);
                    } else {
                        assert(lower@[b]@[lower@[b]@.len() - 1] == a as usize);
                    }
                }
            }
        }
        fi = fi + 1;
    }
    assert(fs.take(nf as int) =~= fs);
    lower
}

/// For every vertex `a`, the larger endpoints `b` of the sides `(a, b)`, in
/// increasing order and each once.
fn upper_endpoints(faces: &Vec<Face2D>, n: usize) -> (upper: Vec<Vec<usize>>)
    requires
        faces_in_range(faces@, n as int),
    ensures
        upper@.len() == n,
        forall|a: int| 0 <= a < n ==> strictly_increasing(#[trigger] upper@[a]@),
        forall|a: int, x: usize|
            0 <= a < n ==> (#[trigger] upper@[a]@.contains(x) <==> has_edge(
                faces@,
                a,
                x as int,
            )),
{
    let lower = lower_endpoints(faces, n);
    let mut upper: Vec<Vec<usize>> = Vec::new();
    let mut j: usize = 0;
    while j < n
        invariant
            upper@.len() == j,
            j <= n,
            forall|q: int| 0 <= q < j ==> (#[trigger] upper@[q])@ == Seq::<usize>::empty(),
        decreases n - j,
    {
        upper.push(Vec::new());
        j = j + 1;
    }
    let mut b: usize = 0;
    while b < n
        invariant
            b <= n,
            upper@.len() == n,
            lower@.len() == n,
            forall|bb: int, t: int|
                0 <= bb < n && 0 <= t < lower@[bb]@.len() ==> #[trigger] lower@[bb]@[t] <= bb
                    && has_edge(faces@, lower@[bb]@[t] as int, bb),
            forall|a: int, bb: int|
                #[trigger] has_edge(faces@, a, bb) ==> 0 <= bb < n && lower@[bb]@.contains(
                    a as usize,
                ),
            forall|a: int| 0 <= a < n ==> strictly_increasing(#[trigger] upper@[a]@),
            forall|a: int, t: int|
                0 <= a < n && 0 <= t < upper@[a]@.len() ==> #[trigger] upper@[a]@[t] < b,
            forall|a: int, x: usize|
                0 <= a < n ==> (#[trigger] upper@[a]@.contains(x) <==> (x < b && has_edge(
                    faces@,
                    a,
                    x as int,
                ))),
        decreases n - b,
    {
        let lb = lower[b].len();
        let ghost start = upper@;
        let mut t: usize = 0;
        while t < lb
            invariant
                b < n,
                t <= lb,
                lb == lower@[b as int]@.len(),
                upper@.len() == n,
                lower@.len() == n,
                forall|tt: int|
                    0 <= tt < lb ==> #[trigger] lower@[b as int]@[tt] <= b && has_edge(
                        faces@,
                        lower@[b as int]@[tt] as int,
                        b as int,
                    ),
                forall|a: int| 0 <= a < n ==> strictly_increasing(#[trigger] upper@[a]@),
                forall|a: int, tt: int|
                    0 <= a < n && 0 <= tt < upper@[a]@.len() ==> #[trigger] upper@[a]@[tt] <= b,
                forall|a: int, x: usize|
                    0 <= a < n && x < b ==> (#[trigger] upper@[a]@.contains(x) <==> start[a]@.contains(
                        x,
                    )),
                forall|a: int|
                    0 <= a < n ==> (#[trigger] upper@[a]@.contains(b) <==> lower@[b as int]@.take(
                        t as int,
                    ).contains(a as usize)),
            decreases lb - t,
        {
            let a = lower[b][t];
            let la = upper[a].len();
            let ghost u0 = upper@;
            if la == 0 || upper[a][la - 1] != b {
                push_lower(&mut upper, b, a);
            }
            proof {
                let tk0 = lower@[b as int]@.take(t as int);
                let tk1 = lower@[b as int]@.take(t as int + 1);
                assert(tk1 =~= tk0.push(a));
                assert forall|q: int| 0 <= q < n implies strictly_increasing(#[trigger] upper@[q]@) by {
                    if q == a as int && upper@[q]@.len() != u0[q]@.len() {
                        assert(upper@[q]@ == u0[q]@.push(b));
                        if la > 0 {
                            assert(u0[q]@[la - 1] < b);
                        }
                    }
                }
                assert forall|q: int| 0 <= q < n implies (#[trigger] upper@[q]@.contains(b)
                    <==> tk1.contains(q as usize)) by {
                    if q == a as int {
                        assert(tk1[t as int] == a);
                        if la > 0 && u0[q]@[la - 1] == b {
                            assert(upper@[q]@ == u0[q]@);
                        } else {
                            assert(upper@[q]@[la as int] == b);
                        }
                    } else {
                        if tk1.contains(q as usize) {
                            let w = choose|w: int| 0 <= w < tk1.len() && tk1[w] == q as usize;
                            assert(tk0[w] == tk1[w]);
                        }
                        if u0[q]@.contains(b) {
                            let w = choose|w: int| 0 <= w < tk0.len() && tk0[w] == q as usize;
                            assert(tk1[w] == tk0[w]);
                        }
                    }
                }
                assert forall|q: int, x: usize|
                    0 <= q < n && x < b implies (#[trigger] upper@[q]@.contains(x)
                    <==> start[q]@.contains(x)) by {
                    if q == a as int && upper@[q]@.len() != u0[q]@.len() {
                        assert(upper@[q]@ == u0[q]@.push(b));
                        if upper@[q]@.contains(x) {
                            let w = choose|w: int| 0 <= w < upper@[q]@.len() && upper@[q]@[w] == x;
                            assert(u0[q]@[w] == x);
                        }
                        if u0[q]@.contains(x) {
                            let w = choose|w: int| 0 <= w < u0[q]@.len() && u0[q]@[w] == x;
                            assert(upper@[q]@[w] == x);
                        }
                    }
                }
            }
            t = t + 1;
        }
        proof {
            assert(lower@[b as int]@.take(lb as int) =~= lower@[b as int]@);
            assert forall|a: int, x: usize|
                0 <= a < n implies (#[trigger] upper@[a]@.contains(x) <==> (x < b + 1 && has_edge(
                faces@,
                a,
                x as int,
            ))) by {
                if x == b && has_edge(faces@, a, x as int) {
                    assert(lower@[b as int]@.contains(a as usize));
                }
                if x == b && upper@[a]@.contains(x) {
                    let w = choose|w: int| 0 <= w < lb && lower@[b as int]@[w] == a as usize;
                    assert(has_edge(faces@, lower@[b as int]@[w] as int, b as int));
                }
            }
        }
        b = b + 1;
    }
    upper
}

/// The sides of all triangles, each once, in increasing lexicographic order.
fn sorted_edges(faces: &Vec<Face2D>, n: usize) -> (edges: Vec<IndexPair>)
    requires
        faces_in_range(faces@, n as int),
    ensures
        strictly_sorted(edges@),
        forall|e: IndexPair| edges@.contains(e) <==> has_edge(faces@, e.0 as int, e.1 as int),
{
    let upper = upper_endpoints(faces, n);
    let mut edges: Vec<IndexPair> = Vec::new();
    let mut a: usize = 0;
    while a < n
        invariant
            a <= n,
            upper@.len() == n,
            faces_in_range(faces@, n as int),
            forall|q: int| 0 <= q < n ==> strictly_increasing(#[trigger] upper@[q]@),
            forall|q: int, x: usize|
                0 <= q < n ==> (#[trigger] upper@[q]@.contains(x) <==> has_edge(
                    faces@,
                    q,
                    x as int,
                )),
            strictly_sorted(edges@),
            forall|k: int| 0 <= k < edges@.len() ==> (#[trigger] edges@[k]).0 < a,
            forall|e: IndexPair|
                edges@.contains(e) <==> (e.0 < a && has_edge(faces@, e.0 as int, e.1 as int)),
        decreases n - a,
    {
        let la = upper[a].len();
        let ghost e0 = edges@;
        let mut t: usize = 0;
        while t < la
            invariant
                a < n,
                t <= la,
                upper@.len() == n,
                la == upper@[a as int]@.len(),
                strictly_increasing(upper@[a as int]@),
                forall|k: int| 0 <= k < e0.len() ==> (#[trigger] e0[k]).0 < a,
                strictly_sorted(e0),
                strictly_sorted(edges@),
                forall|k: int| 0 <= k < edges@.len() ==> (#[trigger] edges@[k]).0 <= a,
                t > 0 ==> edges@.len() > 0 && edges@.last() == IndexPair(
                    a,
                    upper@[a as int]@[t - 1],
                ),
                t == 0 ==> edges@ == e0,
                forall|e: IndexPair|
                    #![trigger edges@.contains(e)]
                    edges@.contains(e) <==> (e0.contains(e) || (e.0 == a && upper@[
                        a as int
                    ]@.take(t as int).contains(e.1))),
            decreases la - t,
        {
            let x = upper[a][t];
            let ghost before = edges@;
            edges.push(IndexPair(a, x));
            proof {
                let tk0 = upper@[a as int]@.take(t as int);
                let tk1 = upper@[a as int]@.take(t as int + 1);
                assert(tk1 =~= tk0.push(x));
                assert forall|i: int, j: int| 0 <= i < j < edges@.len() implies pair_lt(
                    #[trigger] edges@[i],
                    #[trigger] edges@[j],
                ) by {
                    if j == edges@.len() - 1 {
                        if i < before.len() {
                            assert(edges@[i] == before[i]);
                            if t > 0 {
                                assert(upper@[a as int]@[t - 1] < x);
                                if i < before.len() - 1 {
                                    assert(pair_lt(before[i], before[before.len() - 1]));
                                }
                            } else {
                                assert(e0.contains(before[i]));
                            }
                        }
                    } else {
                        assert(edges@[i] == before[i] && edges@[j] == before[j]);
                    }
                }
                let nw = IndexPair(a, x);
                assert forall|e: IndexPair| edges@.contains(e) <==> (before.contains(e) || e == nw) by {
                    if edges@.contains(e) {
                        let w = choose|w: int| 0 <= w < edges@.len() && edges@[w] == e;
                        if w < before.len() {
                            assert(before[w] == e);
                        }
                    }
                    if before.contains(e) {
                        let w = choose|w: int| 0 <= w < before.len() && before[w] == e;
                        assert(edges@[w] == e);
                    }
                    if e == nw {
                        assert(edges@[edges@.len() - 1] == e);
                    }
                }
                assert forall|y: usize| tk1.contains(y) <==> (tk0.contains(y) || y == x) by {
                    if tk1.contains(y) {
                        let w = choose|w: int| 0 <= w < tk1.len() && tk1[w] == y;
                        if w < t {
                            assert(tk0[w] == y);
                        }
                    }
                    if tk0.contains(y) {
                        let w = choose|w: int| 0 <= w < tk0.len() && tk0[w] == y;
                        assert(tk1[w] == y);
                    }
                    if y == x {
                        assert(tk1[t as int] == y);
                    }
                }
                assert forall|e: IndexPair|
                    #![trigger edges@.contains(e)]
                    edges@.contains(e) <==> (e0.contains(e) || (e.0 == a && tk1.contains(e.1))) by {
                    assert(before.contains(e) <==> (e0.contains(e) || (e.0 == a && tk0.contains(e.1))));
                    assert(tk1.contains(e.1) <==> (tk0.contains(e.1) || e.1 == x));
                }
            }
            t = t + 1;
        }
        proof {
            assert(upper@[a as int]@.take(la as int) =~= upper@[a as int]@);
            assert forall|e: IndexPair| edges@.contains(e) <==> (e.0 < a + 1 && has_edge(
                faces@,
                e.0 as int,
                e.1 as int,
            )) by {
                if e.0 == a {
                    assert(upper@[a as int]@.contains(e.1) <==> has_edge(
                        faces@,
                        a as int,
                        e.1 as int,
                    ));
                }
            }
        }
        a = a + 1;
    }
    proof {
        assert forall|e: IndexPair| edges@.contains(e) <==> has_edge(faces@, e.0 as int, e.1 as int) by {
            if has_edge(faces@, e.0 as int, e.1 as int) {
                let w = choose|w: int|
                    0 <= w < faces@.len() && #[trigger] face_has_edge(faces@[w], e.0 as int, e.1 as int);
                assert(faces@[w].0[0] < n && faces@[w].0[1] < n && faces@[w].0[2] < n);
            }
        }
    }
    edges
}

/// The kept triangles are still in range.
proof fn lemma_kept_in_range(faces: Seq<Face2D>, keep: Seq<bool>, n: int)
    requires
        faces_in_range(faces, n),
    ensures
        faces_in_range(kept_faces(faces, keep), n),
        kept_faces(faces, keep).len() <= faces.len(),
    decreases faces.len(),
{
    if faces.len() > 0 {
        let prev = faces.drop_last();
        assert forall|i: int, k: int| 0 <= i < prev.len() && 0 <= k < 3 implies #[trigger] prev[i].0[k]
            < n by {
            assert(prev[i] == faces[i]);
        }
        lemma_kept_in_range(prev, keep, n);
        let last = faces.last();
        assert(last == faces[faces.len() - 1]);
        assert forall|k: int| 0 <= k < 3 implies #[trigger] last.0[k] < n by {
            assert(faces[faces.len() - 1].0[k] < n);
        }
    }
}

proof fn lemma_rank_onto(faces: Seq<Face2D>, n: int, j: int)
    requires
        0 <= j < rank(faces, n),
    ensures
        exists|v: int| 0 <= v < n && used_in(faces, v) && #[trigger] rank(faces, v) == j,
    decreases n,
{
    if n > 0 {
        if j < rank(faces, n - 1) {
            lemma_rank_onto(faces, n - 1, j);
        } else {
            assert(used_in(faces, n - 1) && rank(faces, n - 1) == j);
        }
    }
}

/// Keeping triangles leaves no isolated vertex: every vertex of the result
/// is a corner of one of its triangles.
pub proof fn law_no_isolated_vertices<P>(before: Data2DView<P>, keep: Seq<bool>, after: Data2DView<P>)
    requires
        retains(before, keep, after),
    ensures
        forall|j: int| 0 <= j < after.vertices.len() ==> #[trigger] used_in(after.faces, j),
{
    let kept = kept_faces(before.faces, keep);
    let n = before.vertices.len() as int;
    assert forall|j: int| 0 <= j < after.vertices.len() implies #[trigger] used_in(after.faces, j) by {
        lemma_rank_onto(kept, n, j);
        let v = choose|v: int| 0 <= v < n && used_in(kept, v) && #[trigger] rank(kept, v) == j;
        let i = choose|i: int| 0 <= i < kept.len() && #[trigger] face_has(kept[i], v);
        lemma_rank_le(kept, v);
        let f = kept[i];
        assert(after.faces[i] == remap_face(kept, f));
        if f.0[0] == v {
            assert(after.faces[i].0[0] == j);
        } else if f.0[1] == v {
            assert(after.faces[i].0[1] == j);
        } else {
            assert(after.faces[i].0[2] == j);
        }
        assert(face_has(after.faces[i], j));
    }
}

} // verus!
