use cemconv::frames::{build_model, extract_frame, MeshError};
use cemconv::mesh::{FlatVertex, Material, Object, Shape, TriangleSelection, VTNIndex};

type Mesh = Object<[f64; 3], [f64; 2], [f64; 3]>;

const DEFAULT_TEXTURE: [f64; 2] = [0.0, 0.0];
const DEFAULT_NORMAL: [f64; 3] = [1.0, 0.0, 0.0];

fn corner(p: usize) -> VTNIndex {
    (p, Some(p), Some(0))
}

fn quad(id: &str, height: f64) -> Mesh {
    Object {
        id: id.to_string(),
        vertices: vec![
            [0.0, 0.0, height],
            [1.0, 0.0, height],
            [1.0, 1.0, height],
            [0.0, 1.0, height],
        ],
        tex_vertices: vec![[0.0, 0.0], [1.0, 0.0], [1.0, 1.0], [0.0, 1.0]],
        normals: vec![[0.0, 0.0, 1.0]],
        geometry: vec![vec![
            Shape::Triangle(corner(0), corner(1), corner(2)),
            Shape::Triangle(corner(0), corner(2), corner(3)),
        ]],
    }
}

#[test]
fn frame_holds_the_referenced_values() {
    let object = quad("q", 2.0);
    let frame = extract_frame(&object, &vec![(2, 1, 0), (0, 3, 0)], DEFAULT_TEXTURE, DEFAULT_NORMAL)
        .unwrap();
    assert_eq!(
        frame,
        vec![
            FlatVertex { position: [1.0, 1.0, 2.0], normal: [0.0, 0.0, 1.0], texture: [1.0, 0.0] },
            FlatVertex { position: [0.0, 0.0, 2.0], normal: [0.0, 0.0, 1.0], texture: [0.0, 1.0] },
        ]
    );
}

#[test]
fn sentinels_resolve_to_the_defaults() {
    let object = quad("q", 0.0);
    // 4 texture coordinates and 1 normal: the sentinels are 4 and 1.
    let frame = extract_frame(
        &object,
        &vec![(1, 4, 0), (1, 2, 1), (1, 4, 1)],
        [0.25, 0.75],
        [0.0, -1.0, 0.0],
    )
    .unwrap();
    assert_eq!(
        frame,
        vec![
            FlatVertex { position: [1.0, 0.0, 0.0], normal: [0.0, 0.0, 1.0], texture: [0.25, 0.75] },
            FlatVertex { position: [1.0, 0.0, 0.0], normal: [0.0, -1.0, 0.0], texture: [1.0, 1.0] },
            FlatVertex { position: [1.0, 0.0, 0.0], normal: [0.0, -1.0, 0.0], texture: [0.25, 0.75] },
        ]
    );
}

#[test]
fn references_beyond_the_arrays_resolve_to_the_defaults() {
    let object = quad("q", 0.0);
    let frame = extract_frame(&object, &vec![(0, 99, 77)], DEFAULT_TEXTURE, DEFAULT_NORMAL).unwrap();
    assert_eq!(
        frame,
        vec![FlatVertex { position: [0.0, 0.0, 0.0], normal: DEFAULT_NORMAL, texture: DEFAULT_TEXTURE }]
    );
}

#[test]
fn position_out_of_range_gives_no_frame() {
    let object = quad("q", 0.0);
    assert_eq!(extract_frame(&object, &vec![(4, 0, 0)], DEFAULT_TEXTURE, DEFAULT_NORMAL), None);
    assert_eq!(
        extract_frame(&object, &vec![(0, 0, 0), (1, 0, 0), (17, 0, 0)], DEFAULT_TEXTURE, DEFAULT_NORMAL),
        None
    );
    assert_eq!(extract_frame(&object, &vec![], DEFAULT_TEXTURE, DEFAULT_NORMAL), Some(vec![]));
}

#[test]
fn model_of_a_quad() {
    let base = quad("base", 0.0);
    let model = build_model(&base, &vec![], DEFAULT_TEXTURE, DEFAULT_NORMAL).unwrap();
    assert_eq!(model.lod_levels, vec![vec![(0, 1, 2), (0, 2, 3)]]);
    assert_eq!(
        model.materials,
        vec![Material {
            name: String::new(),
            texture: 0,
            triangles: vec![TriangleSelection { offset: 0, len: 2 }],
            vertex_offset: 0,
            vertex_count: 4,
            texture_name: String::new(),
        }]
    );
    assert_eq!(model.frames.len(), 1);
    assert_eq!(
        model.frames[0],
        vec![
            FlatVertex { position: [0.0, 0.0, 0.0], normal: [0.0, 0.0, 1.0], texture: [0.0, 0.0] },
            FlatVertex { position: [1.0, 0.0, 0.0], normal: [0.0, 0.0, 1.0], texture: [1.0, 0.0] },
            FlatVertex { position: [1.0, 1.0, 0.0], normal: [0.0, 0.0, 1.0], texture: [1.0, 1.0] },
            FlatVertex { position: [0.0, 1.0, 0.0], normal: [0.0, 0.0, 1.0], texture: [0.0, 1.0] },
        ]
    );
}

#[test]
fn base_and_one_frame_give_two_frames_and_one_triangle_buffer() {
    let base = quad("base", 0.0);
    let frame = quad("frame", 3.0);
    let model = build_model(&base, &vec![&frame], DEFAULT_TEXTURE, DEFAULT_NORMAL).unwrap();
    assert_eq!(model.frames.len(), 2);
    assert_eq!(model.lod_levels.len(), 1);
    assert_eq!(model.lod_levels[0], vec![(0, 1, 2), (0, 2, 3)]);
    assert_eq!(model.frames[0].len(), 4);
    assert_eq!(model.frames[1].len(), 4);
    for index in 0..4 {
        assert_eq!(model.frames[0][index].position[2], 0.0);
        assert_eq!(model.frames[1][index].position[2], 3.0);
        assert_eq!(model.frames[0][index].texture, model.frames[1][index].texture);
        assert_eq!(&model.frames[0][index].position[..2], &model.frames[1][index].position[..2]);
    }
}

#[test]
fn frames_keep_the_order_of_the_candidates() {
    let base = quad("base", 0.0);
    let a = quad("a", 1.0);
    let b = quad("b", 2.0);
    let c = quad("c", 3.0);
    let model = build_model(&base, &vec![&c, &a, &b], DEFAULT_TEXTURE, DEFAULT_NORMAL).unwrap();
    let heights: Vec<f64> = model.frames.iter().map(|frame| frame[0].position[2]).collect();
    assert_eq!(heights, vec![0.0, 3.0, 1.0, 2.0]);
}

#[test]
fn missing_references_use_the_sentinels_of_the_base() {
    let mut base = quad("base", 0.0);
    base.geometry = vec![vec![Shape::Triangle((0, None, None), (1, Some(1), None), (2, None, Some(0)))]];
    let model = build_model(&base, &vec![], [9.0, 9.0], [0.0, 1.0, 0.0]).unwrap();
    assert_eq!(
        model.frames[0],
        vec![
            FlatVertex { position: [0.0, 0.0, 0.0], normal: [0.0, 1.0, 0.0], texture: [9.0, 9.0] },
            FlatVertex { position: [1.0, 0.0, 0.0], normal: [0.0, 1.0, 0.0], texture: [1.0, 0.0] },
            FlatVertex { position: [1.0, 1.0, 0.0], normal: [0.0, 0.0, 1.0], texture: [9.0, 9.0] },
        ]
    );
}

#[test]
fn position_out_of_range_is_an_error() {
    let mut base = quad("base", 0.0);
    base.geometry[0][1] = Shape::Triangle(corner(0), corner(2), (4, Some(0), Some(0)));
    assert_eq!(
        build_model(&base, &vec![], DEFAULT_TEXTURE, DEFAULT_NORMAL),
        Err(MeshError::IndexOutOfRange)
    );
}

#[test]
fn frame_with_fewer_positions_is_an_error() {
    let base = quad("base", 0.0);
    let mut frame = quad("frame", 1.0);
    frame.vertices.pop();
    assert_eq!(
        build_model(&base, &vec![&frame], DEFAULT_TEXTURE, DEFAULT_NORMAL),
        Err(MeshError::IndexOutOfRange)
    );
}

#[test]
fn same_input_gives_the_same_model() {
    let base = quad("base", 0.0);
    let frame = quad("frame", 3.0);
    let first = build_model(&base, &vec![&frame], DEFAULT_TEXTURE, DEFAULT_NORMAL).unwrap();
    let second = build_model(&base, &vec![&frame], DEFAULT_TEXTURE, DEFAULT_NORMAL).unwrap();
    assert_eq!(first, second);
}

#[test]
fn mesh_errors_have_messages() {
    assert_eq!(
        MeshError::IndexOutOfRange.message(),
        "a face corner references a value that its object does not have"
    );
    assert_eq!(
        MeshError::TooLarge.message(),
        "the model has more vertices or triangles than a 32-bit count holds"
    );
}
