use cemconv::dedup::{flatten_faces, VertexDeduplicator};
use cemconv::mesh::{Shape, VTNIndex};

fn corner(p: usize, t: usize, n: usize) -> VTNIndex {
    (p, Some(t), Some(n))
}

#[test]
fn quad_deduplicates_to_four_vertices_and_two_triangles() {
    // A planar quad split along the diagonal 0-2: 6 corner references, 4 distinct.
    let geometry = vec![vec![
        Shape::Triangle(corner(0, 0, 0), corner(1, 1, 0), corner(2, 2, 0)),
        Shape::Triangle(corner(0, 0, 0), corner(2, 2, 0), corner(3, 3, 0)),
    ]];
    let flat = flatten_faces(&geometry, 4, 1).unwrap();
    assert_eq!(flat.associations.len(), 4);
    assert_eq!(flat.triangles.len(), 2);
    assert_eq!(flat.associations, vec![(0, 0, 0), (1, 1, 0), (2, 2, 0), (3, 3, 0)]);
    assert_eq!(flat.triangles, vec![(0, 1, 2), (0, 2, 3)]);
}

#[test]
fn flat_indices_follow_first_encounter_not_sort_order() {
    let geometry = vec![vec![
        Shape::Triangle(corner(9, 0, 0), corner(3, 0, 0), corner(7, 0, 0)),
        Shape::Triangle(corner(3, 0, 0), corner(1, 0, 0), corner(9, 0, 0)),
    ]];
    let flat = flatten_faces(&geometry, 1, 1).unwrap();
    assert_eq!(flat.associations, vec![(9, 0, 0), (3, 0, 0), (7, 0, 0), (1, 0, 0)]);
    assert_eq!(flat.triangles, vec![(0, 1, 2), (1, 3, 0)]);
}

#[test]
fn same_position_with_other_texture_or_normal_is_another_vertex() {
    let geometry = vec![vec![Shape::Triangle(corner(0, 0, 0), corner(0, 1, 0), corner(0, 0, 1))]];
    let flat = flatten_faces(&geometry, 2, 2).unwrap();
    assert_eq!(flat.associations, vec![(0, 0, 0), (0, 1, 0), (0, 0, 1)]);
    assert_eq!(flat.triangles, vec![(0, 1, 2)]);
}

#[test]
fn vertex_count_is_the_number_of_distinct_triples() {
    // 4 triangles, 12 corners, 5 distinct canonical triples.
    let a = corner(0, 0, 0);
    let b = corner(1, 0, 0);
    let c = corner(2, 0, 0);
    let d = (3, None, Some(0));
    let e = (0, Some(0), None);
    let geometry = vec![
        vec![Shape::Triangle(a, b, c), Shape::Triangle(a, c, d)],
        vec![Shape::Triangle(d, e, a), Shape::Triangle(c, b, a)],
    ];
    let flat = flatten_faces(&geometry, 7, 9).unwrap();
    assert_eq!(flat.associations.len(), 5);
    assert_eq!(flat.associations, vec![(0, 0, 0), (1, 0, 0), (2, 0, 0), (3, 7, 0), (0, 0, 9)]);
    assert_eq!(flat.triangles, vec![(0, 1, 2), (0, 2, 3), (3, 4, 0), (2, 1, 0)]);
}

#[test]
fn points_and_lines_are_skipped() {
    let geometry = vec![vec![
        Shape::Point(corner(5, 0, 0)),
        Shape::Line(corner(6, 0, 0), corner(7, 0, 0)),
        Shape::Triangle(corner(0, 0, 0), corner(1, 0, 0), corner(2, 0, 0)),
        Shape::Point(corner(8, 0, 0)),
    ]];
    let flat = flatten_faces(&geometry, 1, 1).unwrap();
    assert_eq!(flat.associations, vec![(0, 0, 0), (1, 0, 0), (2, 0, 0)]);
    assert_eq!(flat.triangles, vec![(0, 1, 2)]);
}

#[test]
fn no_faces_give_no_vertices() {
    let flat = flatten_faces(&vec![], 0, 0).unwrap();
    assert!(flat.associations.is_empty());
    assert!(flat.triangles.is_empty());
    let flat = flatten_faces(&vec![vec![], vec![Shape::Point((0, None, None))]], 0, 0).unwrap();
    assert!(flat.associations.is_empty());
    assert!(flat.triangles.is_empty());
}

#[test]
fn winding_is_kept() {
    let geometry = vec![vec![
        Shape::Triangle(corner(0, 0, 0), corner(1, 0, 0), corner(2, 0, 0)),
        Shape::Triangle(corner(2, 0, 0), corner(1, 0, 0), corner(0, 0, 0)),
    ]];
    let flat = flatten_faces(&geometry, 1, 1).unwrap();
    assert_eq!(flat.triangles, vec![(0, 1, 2), (2, 1, 0)]);
}

#[test]
fn deduplicator_hands_out_sequential_indices() {
    let mut dedup = VertexDeduplicator::new(10, 20);
    assert_eq!(dedup.len(), 0);
    assert_eq!(dedup.dedup_vertex((4, Some(1), Some(2))), 0);
    assert_eq!(dedup.dedup_vertex((4, Some(1), Some(3))), 1);
    assert_eq!(dedup.dedup_vertex((4, Some(1), Some(2))), 0);
    assert_eq!(dedup.dedup_vertex((5, Some(1), Some(2))), 2);
    assert_eq!(dedup.dedup_vertex((4, Some(1), Some(3))), 1);
    assert_eq!(dedup.len(), 3);
    assert_eq!(dedup.associations(), &vec![(4, 1, 2), (4, 1, 3), (5, 1, 2)]);
    assert_eq!(dedup.into_associations(), vec![(4, 1, 2), (4, 1, 3), (5, 1, 2)]);
}

#[test]
fn missing_references_become_sentinels() {
    let mut dedup = VertexDeduplicator::new(10, 20);
    assert_eq!(dedup.dedup_vertex((0, None, None)), 0);
    assert_eq!(dedup.dedup_vertex((0, None, Some(1))), 1);
    assert_eq!(dedup.dedup_vertex((0, Some(1), None)), 2);
    // A reference that equals the sentinel is the same canonical triple.
    assert_eq!(dedup.dedup_vertex((0, Some(10), Some(20))), 0);
    assert_eq!(dedup.dedup_vertex((0, Some(10), Some(1))), 1);
    // A missing reference is not index 0.
    assert_eq!(dedup.dedup_vertex((0, Some(0), Some(0))), 3);
    assert_eq!(
        dedup.into_associations(),
        vec![(0, 10, 20), (0, 10, 1), (0, 1, 20), (0, 0, 0)]
    );
}

#[test]
fn many_vertices_on_one_position_are_told_apart() {
    let mut dedup = VertexDeduplicator::new(1000, 1000);
    for n in 0..50 {
        assert_eq!(dedup.dedup_vertex((7, Some(n), Some(n))), n);
    }
    for n in 0..50 {
        assert_eq!(dedup.dedup_vertex((7, Some(n), Some(n))), n);
    }
    assert_eq!(dedup.len(), 50);
}
