use dpm_sim::containment::inside_by_crossings;
use dpm_sim::boundary_membership::{boundary_points, generate_associative_data, point_boundaries};
use dpm_sim::face_plane::{coordinate, Axis3D, PlaneComparison};
use dpm_sim::triangulation::{polyhedron_triangle_indices, Data, Face, IndexPair as Edge3, Vertex};
use dpm_sim::triangulation_2::{Data2D, Face2D, IndexPair, Vertex2D};

fn square_with_triangle() -> Data2D<(i32, i32)> {
    // Vertices 0..4 form a square split along 0-2; vertex 4 with 1 and 2
    // forms a third triangle.
    let faces = vec![Face2D([0, 1, 2]), Face2D([0, 2, 3]), Face2D([1, 4, 2])];
    let edges = vec![
        IndexPair(0, 1),
        IndexPair(0, 2),
        IndexPair(0, 3),
        IndexPair(1, 2),
        IndexPair(1, 4),
        IndexPair(2, 3),
        IndexPair(2, 4),
    ];
    let vertices = vec![
        Vertex2D::new((0, 0), vec![0, 1]),
        Vertex2D::new((1, 0), vec![0, 2]),
        Vertex2D::new((1, 1), vec![0, 1, 2]),
        Vertex2D::new((0, 1), vec![1]),
        Vertex2D::new((2, 0), vec![2]),
    ];
    Data2D::new(faces, edges, vertices)
}

fn face_list(d: &Data2D<(i32, i32)>) -> Vec<[usize; 3]> {
    d.faces().iter().map(|f| f.0).collect()
}

fn edge_list(d: &Data2D<(i32, i32)>) -> Vec<(usize, usize)> {
    d.edges().iter().map(|e| (e.0, e.1)).collect()
}

#[test]
fn retain_drops_unused_vertices_and_renumbers() {
    let d = square_with_triangle();
    // Keep the triangles that do not touch vertex 3.
    let r = d.retain_triangles(|f: &Face2D, _v: &[Vertex2D<(i32, i32)>]| !f.0.contains(&3));
    assert_eq!(face_list(&r), vec![[0, 1, 2], [1, 3, 2]]);
    let points: Vec<(i32, i32)> = r.vertices().iter().map(|v| *v.point()).collect();
    assert_eq!(points, vec![(0, 0), (1, 0), (1, 1), (2, 0)]);
    let incidence: Vec<Vec<usize>> = r.vertices().iter().map(|v| v.incident_faces().to_vec()).collect();
    assert_eq!(incidence, vec![vec![0], vec![0, 1], vec![0, 1], vec![1]]);
    assert_eq!(edge_list(&r), vec![(0, 1), (0, 2), (1, 2), (1, 3), (2, 3)]);
    for j in 0..r.vertices().len() {
        assert!(r.faces().iter().any(|f| f.0.contains(&j)));
    }
}

#[test]
fn retain_everything_keeps_the_triangulation() {
    let d = square_with_triangle();
    let r = d.retain_triangles(|_f: &Face2D, _v: &[Vertex2D<(i32, i32)>]| true);
    assert_eq!(face_list(&r), face_list(&d));
    assert_eq!(edge_list(&r), edge_list(&d));
    let incidence: Vec<Vec<usize>> = r.vertices().iter().map(|v| v.incident_faces().to_vec()).collect();
    assert_eq!(incidence, vec![vec![0, 1], vec![0, 2], vec![0, 1, 2], vec![1], vec![2]]);
}

#[test]
fn retain_nothing_leaves_an_empty_triangulation() {
    let d = square_with_triangle();
    let r = d.retain_triangles(|_f: &Face2D, _v: &[Vertex2D<(i32, i32)>]| false);
    assert!(r.faces().is_empty());
    assert!(r.edges().is_empty());
    assert!(r.vertices().is_empty());
}

#[test]
fn retain_by_mask_asks_nothing_of_points() {
    let d = square_with_triangle();
    let r = d.retain_triangles_by_mask(&vec![false, false, true]);
    assert_eq!(face_list(&r), vec![[0, 2, 1]]);
    assert_eq!(edge_list(&r), vec![(0, 1), (0, 2), (1, 2)]);
    let points: Vec<(i32, i32)> = r.vertices().iter().map(|v| *v.point()).collect();
    assert_eq!(points, vec![(1, 0), (1, 1), (2, 0)]);
}

#[test]
fn retain_by_point_predicate_sees_the_vertices() {
    let d = square_with_triangle();
    // Keep triangles whose corners all have x <= 1.
    let r = d.retain_triangles(|f: &Face2D, v: &[Vertex2D<(i32, i32)>]| f.0.iter().all(|&i| v[i].point().0 <= 1));
    assert_eq!(face_list(&r), vec![[0, 1, 2], [0, 2, 3]]);
}

#[test]
fn triangle_indices_group_by_three() {
    assert_eq!(
        polyhedron_triangle_indices(&[0, 1, 2, 2, 3, 0]),
        vec![[0, 1, 2], [2, 3, 0]]
    );
    assert_eq!(polyhedron_triangle_indices(&[5, 6, 7, 8]), vec![[5, 6, 7]]);
    assert!(polyhedron_triangle_indices(&[]).is_empty());
}

#[test]
fn tetrahedral_data_keeps_what_it_is_given() {
    let d = Data::new(
        vec![Face([0, 1, 2, 3])],
        vec![Edge3(0, 1)],
        vec![Vertex::new(7u8, vec![0])],
    );
    assert_eq!(d.faces()[0].0, [0, 1, 2, 3]);
    assert_eq!((d.edges()[0].0, d.edges()[0].1), (0, 1));
    assert_eq!(*d.vertices()[0].point(), 7u8);
    assert_eq!(d.vertices()[0].incident_faces(), &[0]);
}

#[test]
fn membership_maps_are_inverse() {
    // Three points, two constraints of boundary 10 and one of boundary 20.
    let inside = vec![
        vec![true, false, true],
        vec![false, false, false],
        vec![false, true, true],
    ];
    let ids = vec![10u64, 10, 20];
    let (points, boundaries) = generate_associative_data(&inside, &ids);
    assert_eq!(points, vec![(0, vec![10, 20]), (2, vec![10, 20])]);
    assert_eq!(boundaries, vec![(10, vec![0, 2]), (20, vec![0, 2])]);
    for (p, bs) in &points {
        for (b, ps) in &boundaries {
            assert_eq!(bs.contains(b), ps.contains(p));
        }
    }
}

#[test]
fn membership_skips_points_and_boundaries_without_a_match() {
    let inside = vec![vec![false, true], vec![false, true], vec![false, false]];
    let ids = vec![1u64, 2];
    assert_eq!(point_boundaries(&inside, &ids), vec![(0, vec![2]), (1, vec![2])]);
    assert_eq!(boundary_points(&inside, &ids), vec![(2, vec![0, 1])]);
}

#[test]
fn membership_of_nothing_is_empty() {
    let inside: Vec<Vec<bool>> = vec![vec![], vec![]];
    let ids: Vec<u64> = vec![];
    let (points, boundaries) = generate_associative_data(&inside, &ids);
    assert!(points.is_empty());
    assert!(boundaries.is_empty());
}

#[test]
fn axis_picks_its_coordinate() {
    let p = [1.5f64, -2.0, 7.25];
    assert_eq!(coordinate(&p, Axis3D::X), 1.5);
    assert_eq!(coordinate(&p, Axis3D::Y), -2.0);
    assert_eq!(coordinate(&p, Axis3D::Z), 7.25);
    assert_eq!(Axis3D::Z.index(), 2);
    assert_eq!(Axis3D::Y.name(), "Y");
}

#[test]
fn comparisons_read_as_in_the_panel() {
    assert_eq!(PlaneComparison::LessOrEqual.description(), "≤ (min face)");
    assert_eq!(PlaneComparison::GreaterOrEqual.description(), "≥ (max face)");
    assert_eq!(PlaneComparison::Approx.description(), "≈ (near plane)");
    assert_eq!(PlaneComparison::Approx.sign(), "≈");
    assert_eq!(PlaneComparison::LessOrEqual.sign(), "≤");
}

#[test]
fn odd_crossings_mean_inside() {
    assert!(inside_by_crossings(&[true]));
    assert!(!inside_by_crossings(&[true, false, true]));
    assert!(inside_by_crossings(&[false, true, true, true]));
    assert!(!inside_by_crossings(&[]));
}
