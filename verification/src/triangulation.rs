//! Tetrahedral mesh data: cells over a vertex list, their edges, and per-vertex
//! incidence lists; and reading triangle lists handed out as flat index
//! arrays.
use vstd::prelude::*;

verus! {

/// A tetrahedron, given by four indices into the vertex list.
#[derive(Debug, Clone, Copy)]
pub struct Face(pub [usize; 4]);

/// An edge, given by its two vertex indices.
#[derive(Debug, Clone, Copy)]
pub struct IndexPair(pub usize, pub usize);

/// A vertex: its position (of whatever point type the caller uses) and the
/// indices of the cells that touch it.
#[derive(Debug, Clone)]
pub struct Vertex<P> {
    point: P,
    incident_faces: Vec<usize>,
}

impl<P: Copy> Vertex<P> {
    pub fn new(point: P, incident_faces: Vec<usize>) -> (v: Self)
        ensures
            v.spec_point() == point,
            v.spec_incident_faces() == incident_faces@,
    {
        Vertex { point, incident_faces }
    }

    pub closed spec fn spec_point(&self) -> P {
        self.point
    }

    pub closed spec fn spec_incident_faces(&self) -> Seq<usize> {
        self.incident_faces@
    }

    pub fn point(&self) -> (p: &P)
        ensures
            *p == self.spec_point(),
    {
        &self.point
    }

    pub fn incident_faces(&self) -> (s: &[usize])
        ensures
            s@ == self.spec_incident_faces(),
    {
        self.incident_faces.as_slice()
    }
}

/// A tetrahedral mesh: cells, edges and vertices.
#[derive(Debug, Clone)]
pub struct Data<P> {
    faces: Vec<Face>,
    edges: Vec<IndexPair>,
    vertices: Vec<Vertex<P>>,
}

impl<P: Copy> Data<P> {
    pub fn new(faces: Vec<Face>, edges: Vec<IndexPair>, vertices: Vec<Vertex<P>>) -> (d: Self)
        ensures
            d.spec_faces() == faces@,
            d.spec_edges() == edges@,
            d.spec_vertices() == vertices@,
    {
        Data { faces, edges, vertices }
    }

    pub closed spec fn spec_faces(&self) -> Seq<Face> {
        self.faces@
    }

    pub closed spec fn spec_edges(&self) -> Seq<IndexPair> {
        self.edges@
    }

    pub closed spec fn spec_vertices(&self) -> Seq<Vertex<P>> {
        self.vertices@
    }

    pub fn faces(&self) -> (s: &[Face])
        ensures
            s@ == self.spec_faces(),
    {
        self.faces.as_slice()
    }

    pub fn edges(&self) -> (s: &[IndexPair])
        ensures
            s@ == self.spec_edges(),
    {
        self.edges.as_slice()
    }

    pub fn vertices(&self) -> (s: &[Vertex<P>])
        ensures
            s@ == self.spec_vertices(),
    {
        self.vertices.as_slice()
    }
}

/// The triangles of a flat index list: entries `3i`, `3i + 1`, `3i + 2` form
/// triangle `i`; a last incomplete group is left out.
pub open spec fn triangles_of(flat: Seq<u32>) -> Seq<[usize; 3]> {
    Seq::new(
        flat.len() / 3,
        |i: int| [flat[3 * i] as usize, flat[3 * i + 1] as usize, flat[3 * i + 2] as usize],
    )
}

/// Groups a polyhedron's flat triangle index list (as the geometry kernel
/// hands it out) into triangles.
pub fn polyhedron_triangle_indices(flat: &[u32]) -> (tris: Vec<[usize; 3]>)
    ensures
        tris@ == triangles_of(flat@),
{
    let len = flat.len();
    let n = len / 3;
    let mut tris: Vec<[usize; 3]> = Vec::new();
    let mut i: usize = 0;
    while i < n
        invariant
            n == flat@.len() / 3,
            len == flat@.len(),
            i <= n,
            tris@ == triangles_of(flat@).take(i as int),
        decreases n - i,
    {
        assert(3 * i + 2 < len) by (nonlinear_arith)
            requires
                i < n,
                n == len / 3,
        ;
        let t = [flat[3 * i] as usize, flat[3 * i + 1] as usize, flat[3 * i + 2] as usize];
        tris.push(t);
        proof {
            let want = triangles_of(flat@);
            assert(want[i as int] =~= t);
            assert(tris@ =~= want.take(i as int + 1));
        }
        i = i + 1;
    }
    assert(tris@ =~= triangles_of(flat@));
    tris
}

} // verus!
