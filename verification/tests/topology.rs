use cemconv::mesh::{Object, Shape, VTNIndex};
use cemconv::topology::{compare_geometry, compare_shape, has_same_topology, validate};

type Mesh = Object<[f64; 3], [f64; 2], [f64; 3]>;

fn corner(p: usize) -> VTNIndex {
    (p, Some(p), Some(0))
}

fn quad(id: &str, height: f64) -> Mesh {
    Object {
        id: id.to_string(),
        vertices: vec![
            [0.0, 0.0, height],
            [1.0, 0.0, height],
            [1.0, 1.0, height],
            [0.0, 1.0, height],
        ],
        tex_vertices: vec![[0.0, 0.0], [1.0, 0.0], [1.0, 1.0], [0.0, 1.0]],
        normals: vec![[0.0, 0.0, 1.0]],
        geometry: vec![vec![
            Shape::Triangle(corner(0), corner(1), corner(2)),
            Shape::Triangle(corner(0), corner(2), corner(3)),
        ]],
    }
}

#[test]
fn shapes_compare_by_kind_and_indices() {
    let a = (0, Some(1), Some(2));
    let b = (0, Some(1), None);
    let c = (3, None, None);
    assert!(compare_shape(Shape::Point(a), Shape::Point(a)));
    assert!(!compare_shape(Shape::Point(a), Shape::Point(b)));
    assert!(compare_shape(Shape::Line(a, b), Shape::Line(a, b)));
    assert!(!compare_shape(Shape::Line(a, b), Shape::Line(b, a)));
    assert!(!compare_shape(Shape::Line(a, b), Shape::Line(a, c)));
    assert!(compare_shape(Shape::Triangle(a, b, c), Shape::Triangle(a, b, c)));
    assert!(!compare_shape(Shape::Triangle(a, b, c), Shape::Triangle(a, c, b)));
    assert!(!compare_shape(Shape::Triangle(a, b, c), Shape::Triangle(c, b, c)));
    assert!(!compare_shape(Shape::Triangle(a, b, c), Shape::Triangle(a, b, a)));
    assert!(!compare_shape(Shape::Point(a), Shape::Line(a, a)));
    assert!(!compare_shape(Shape::Line(a, a), Shape::Triangle(a, a, a)));
    assert!(!compare_shape(Shape::Triangle(a, a, a), Shape::Point(a)));
}

#[test]
fn missing_and_present_references_differ() {
    assert!(!compare_shape(Shape::Point((0, None, None)), Shape::Point((0, Some(0), None))));
    assert!(!compare_shape(Shape::Point((0, None, None)), Shape::Point((0, None, Some(0)))));
    assert!(compare_shape(Shape::Point((0, None, None)), Shape::Point((0, None, None))));
}

#[test]
fn face_lists_compare_in_order() {
    let a = Shape::Point((0, None, None));
    let b = Shape::Point((1, None, None));
    assert!(compare_geometry(&vec![], &vec![]));
    assert!(compare_geometry(&vec![a, b], &vec![a, b]));
    assert!(!compare_geometry(&vec![a, b], &vec![b, a]));
    assert!(!compare_geometry(&vec![a, b], &vec![a]));
    assert!(!compare_geometry(&vec![a], &vec![a, b]));
}

#[test]
fn frame_with_other_values_validates() {
    let base = quad("base", 0.0);
    let frame = quad("frame", 5.0);
    assert!(has_same_topology(&base, &frame));
    assert_eq!(validate(&base, &vec![&frame]), Ok(()));
}

#[test]
fn no_candidates_validate() {
    let base = quad("base", 0.0);
    assert_eq!(validate(&base, &vec![]), Ok(()));
}

#[test]
fn changed_second_face_is_reported_at_the_candidates_place() {
    let base = quad("base", 0.0);
    let good = quad("good", 1.0);
    let mut bad = quad("bad", 2.0);
    bad.geometry[0][1] = Shape::Triangle(corner(0), corner(2), corner(1));
    assert!(!has_same_topology(&base, &bad));
    assert_eq!(validate(&base, &vec![&bad]), Err(0));
    assert_eq!(validate(&base, &vec![&good, &bad]), Err(1));
    assert_eq!(validate(&base, &vec![&good, &good, &bad, &good]), Err(2));
}

#[test]
fn validation_stops_at_the_first_failure() {
    let base = quad("base", 0.0);
    let good = quad("good", 1.0);
    let mut bad = quad("bad", 2.0);
    bad.geometry[0][1] = Shape::Triangle(corner(0), corner(2), corner(1));
    let mut worse = quad("worse", 3.0);
    worse.geometry.clear();
    assert_eq!(validate(&base, &vec![&good, &bad, &worse]), Err(1));
    assert_eq!(validate(&base, &vec![&worse, &bad, &good]), Err(0));
}

#[test]
fn counts_must_match() {
    let base = quad("base", 0.0);
    let mut frame = quad("frame", 1.0);
    frame.vertices.push([9.0, 9.0, 9.0]);
    assert_eq!(validate(&base, &vec![&frame]), Err(0));
    let mut frame = quad("frame", 1.0);
    frame.normals.push([1.0, 0.0, 0.0]);
    assert_eq!(validate(&base, &vec![&frame]), Err(0));
    let mut frame = quad("frame", 1.0);
    frame.tex_vertices.pop();
    assert_eq!(validate(&base, &vec![&frame]), Err(0));
}

#[test]
fn face_lists_must_match_in_number_and_kind() {
    let base = quad("base", 0.0);
    let mut frame = quad("frame", 1.0);
    frame.geometry.push(vec![]);
    assert_eq!(validate(&base, &vec![&frame]), Err(0));
    let mut frame = quad("frame", 1.0);
    frame.geometry[0].pop();
    assert_eq!(validate(&base, &vec![&frame]), Err(0));
    let mut frame = quad("frame", 1.0);
    frame.geometry[0][0] = Shape::Line(corner(0), corner(1));
    assert_eq!(validate(&base, &vec![&frame]), Err(0));
}
