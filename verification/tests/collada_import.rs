use cemconv::collada_import::{
    classify_name, convert, find_frames, find_link, find_object, find_scene_nodes,
    find_with_attribute, get_input, get_input_source, morph_links, read_morph, root_geometry,
    trim_hash, MorphLink, NodeContent,
};
use cemconv::diagnostics::{ImportError, Transformation, Warning};
use cemconv::document::{Attribute, Element, Xml};
use cemconv::frames::MeshError;
use cemconv::mesh::{FlatVertex, Object, Shape, VTNIndex};

type Mesh = Object<[f64; 3], [f64; 2], [f64; 3]>;

const DEFAULT_TEXTURE: [f64; 2] = [0.0, 0.0];
const DEFAULT_NORMAL: [f64; 3] = [1.0, 0.0, 0.0];

fn element(name: &str, attributes: &[(&str, &str)], children: Vec<Xml>) -> Element {
    Element {
        name: name.to_string(),
        ns: None,
        attributes: attributes
            .iter()
            .map(|(name, value)| Attribute {
                name: name.to_string(),
                ns: None,
                value: value.to_string(),
            })
            .collect(),
        children,
    }
}

fn node(name: &str, attributes: &[(&str, &str)], children: Vec<Xml>) -> Xml {
    Xml::ElementNode(element(name, attributes, children))
}

fn text(content: &str) -> Xml {
    Xml::CharacterNode(content.to_string())
}

fn corner(p: usize) -> VTNIndex {
    (p, Some(p), Some(0))
}

fn quad(id: &str, height: f64) -> Mesh {
    Object {
        id: id.to_string(),
        vertices: vec![
            [0.0, 0.0, height],
            [1.0, 0.0, height],
            [1.0, 1.0, height],
            [0.0, 1.0, height],
        ],
        tex_vertices: vec![[0.0, 0.0], [1.0, 0.0], [1.0, 1.0], [0.0, 1.0]],
        normals: vec![[0.0, 0.0, 1.0]],
        geometry: vec![vec![
            Shape::Triangle(corner(0), corner(1), corner(2)),
            Shape::Triangle(corner(0), corner(2), corner(3)),
        ]],
    }
}

fn morph(source: &str, method: &str, targets: &str) -> Xml {
    node("morph", &[("source", source), ("method", method)], vec![
        node("source", &[("id", "targets-source")], vec![
            node("IDREF_array", &[("id", "targets-array"), ("count", "2")], vec![text(targets)]),
        ]),
        node("source", &[("id", "weights-source")], vec![
            node("float_array", &[], vec![text("0 0")]),
        ]),
        node("targets", &[], vec![
            node("input", &[("semantic", "MORPH_WEIGHT"), ("source", "#weights-source")], vec![]),
            node("input", &[("semantic", "MORPH_TARGET"), ("source", "#targets-source")], vec![]),
        ]),
    ])
}

fn scene(url: &str) -> Xml {
    node("scene", &[], vec![node("instance_visual_scene", &[("url", url)], vec![])])
}

fn visual_scenes(id: &str, nodes: Vec<Xml>) -> Xml {
    node("library_visual_scenes", &[], vec![
        node("visual_scene", &[("id", "Other")], vec![
            node("node", &[], vec![node("instance_geometry", &[("url", "#elsewhere")], vec![])]),
        ]),
        node("visual_scene", &[("id", id)], nodes),
    ])
}

fn document(controllers: Vec<Xml>, nodes: Vec<Xml>) -> Element {
    element("COLLADA", &[], vec![
        node("asset", &[], vec![]),
        node("library_controllers", &[], controllers),
        visual_scenes("Scene", nodes),
        scene("#Scene"),
    ])
}

fn instance(url: &str) -> Xml {
    node("node", &[("type", "NODE")], vec![node("instance_geometry", &[("url", url)], vec![])])
}

fn import(root: &Element, objects: &Vec<Mesh>) -> (Result<cemconv::mesh::Model<FlatVertex<[f64; 3], [f64; 2], [f64; 3]>>, ImportError>, Vec<Warning>) {
    let mut sink = Vec::new();
    let result = convert(root, objects, DEFAULT_TEXTURE, DEFAULT_NORMAL, &mut sink);
    (result.map(|imported| imported.model), sink)
}

#[test]
fn hash_is_trimmed_once() {
    assert_eq!(trim_hash("#name"), "name");
    assert_eq!(trim_hash("name"), "name");
    assert_eq!(trim_hash("##name"), "#name");
    assert_eq!(trim_hash("na#me"), "na#me");
    assert_eq!(trim_hash("#"), "");
    assert_eq!(trim_hash(""), "");
    assert_eq!(trim_hash("#é#"), "é#");
    assert_eq!(trim_hash("é#"), "é#");
}

#[test]
fn input_is_found_by_semantic() {
    let parent = element("targets", &[], vec![
        node("input", &[("semantic", "MORPH_WEIGHT"), ("source", "#w")], vec![]),
        node("other", &[("semantic", "MORPH_TARGET"), ("source", "#x")], vec![]),
        node("input", &[("source", "#y")], vec![]),
        node("input", &[("semantic", "MORPH_TARGET"), ("source", "#t")], vec![]),
        node("input", &[("semantic", "MORPH_TARGET"), ("source", "#u")], vec![]),
    ]);
    assert_eq!(get_input(None, &parent, "MORPH_TARGET").unwrap().get_attribute("source", None), Some("#t"));
    assert_eq!(get_input(None, &parent, "MORPH_WEIGHT").unwrap().get_attribute("source", None), Some("#w"));
    assert!(get_input(None, &parent, "POSITION").is_none());
    assert!(get_input(Some("ns"), &parent, "MORPH_TARGET").is_none());
}

#[test]
fn first_element_with_attribute_value() {
    let a = element("a", &[("id", "x")], vec![]);
    let b = element("b", &[("id", "y")], vec![]);
    let c = element("c", &[("id", "x")], vec![]);
    let d = element("d", &[], vec![]);
    let all = vec![&d, &a, &b, &c];
    assert_eq!(find_with_attribute(&all, "id", "x").unwrap().name, "a");
    assert_eq!(find_with_attribute(&all, "id", "y").unwrap().name, "b");
    assert!(find_with_attribute(&all, "id", "z").is_none());
    assert!(find_with_attribute(&all, "name", "x").is_none());
    assert!(find_with_attribute(&vec![], "id", "x").is_none());
}

#[test]
fn input_source_is_found_directly() {
    let parent = element("morph", &[], vec![
        text("noise"),
        node("source", &[("id", "a")], vec![]),
        node("source", &[("id", "b")], vec![text("b")]),
    ]);
    let input = element("input", &[("source", "#b")], vec![]);
    let found = get_input_source(None, &parent, &input).unwrap();
    assert_eq!(found.get_attribute("id", None), Some("b"));
    let bare = element("input", &[("source", "b")], vec![]);
    assert!(get_input_source(None, &parent, &bare).is_none());
    let unknown = element("input", &[("source", "#c")], vec![]);
    assert!(get_input_source(None, &parent, &unknown).is_none());
    let without = element("input", &[], vec![]);
    assert!(get_input_source(None, &parent, &without).is_none());
}

#[test]
fn input_source_follows_references() {
    let parent = element("mesh", &[], vec![
        node("vertices", &[("id", "v")], vec![
            node("input", &[("semantic", "POSITION"), ("source", "#w")], vec![]),
        ]),
        node("vertices", &[("id", "w")], vec![
            node("input", &[("semantic", "POSITION"), ("source", "#p")], vec![]),
        ]),
        node("source", &[("id", "p")], vec![]),
        node("vertices", &[("id", "dead")], vec![]),
    ]);
    let input = element("input", &[("source", "#v")], vec![]);
    assert_eq!(get_input_source(None, &parent, &input).unwrap().get_attribute("id", None), Some("p"));
    let dead = element("input", &[("source", "#dead")], vec![]);
    assert!(get_input_source(None, &parent, &dead).is_none());
}

#[test]
fn circular_references_resolve_to_nothing() {
    let parent = element("mesh", &[], vec![
        node("vertices", &[("id", "a")], vec![node("input", &[("source", "#b")], vec![])]),
        node("vertices", &[("id", "b")], vec![node("input", &[("source", "#a")], vec![])]),
        node("vertices", &[("id", "self")], vec![node("input", &[("source", "#self")], vec![])]),
    ]);
    let input = element("input", &[("source", "#a")], vec![]);
    assert!(get_input_source(None, &parent, &input).is_none());
    let own = element("input", &[("source", "#self")], vec![]);
    assert!(get_input_source(None, &parent, &own).is_none());
}

#[test]
fn longest_chain_without_a_circle_resolves() {
    let parent = element("mesh", &[], vec![
        node("vertices", &[("id", "a")], vec![node("input", &[("source", "#b")], vec![])]),
        node("vertices", &[("id", "b")], vec![node("input", &[("source", "#c")], vec![])]),
        node("source", &[("id", "c")], vec![]),
    ]);
    let input = element("input", &[("source", "#a")], vec![]);
    assert_eq!(get_input_source(None, &parent, &input).unwrap().get_attribute("id", None), Some("c"));
}

#[test]
fn morph_names_its_source_and_targets() {
    let controller = morph("#base-mesh", "NORMALIZED", "\n  frame1-mesh frame2-mesh\n");
    let morph = match &controller {
        Xml::ElementNode(element) => element,
        _ => unreachable!(),
    };
    assert_eq!(
        read_morph(None, morph),
        Some(MorphLink {
            name: "base-mesh".to_string(),
            targets: vec!["frame1-mesh".to_string(), "frame2-mesh".to_string()],
        })
    );
}

#[test]
fn morph_with_a_missing_part_links_nothing() {
    let whole = element("morph", &[("source", "#base")], vec![
        node("source", &[("id", "t")], vec![node("IDREF_array", &[], vec![text("a b")])]),
        node("targets", &[], vec![node("input", &[("semantic", "MORPH_TARGET"), ("source", "#t")], vec![])]),
    ]);
    assert!(read_morph(None, &whole).is_some());
    let no_source = element("morph", &[], vec![
        node("source", &[("id", "t")], vec![node("IDREF_array", &[], vec![text("a b")])]),
        node("targets", &[], vec![node("input", &[("semantic", "MORPH_TARGET"), ("source", "#t")], vec![])]),
    ]);
    assert_eq!(read_morph(None, &no_source), None);
    let no_targets = element("morph", &[("source", "#base")], vec![
        node("source", &[("id", "t")], vec![node("IDREF_array", &[], vec![text("a b")])]),
    ]);
    assert_eq!(read_morph(None, &no_targets), None);
    let no_input = element("morph", &[("source", "#base")], vec![
        node("source", &[("id", "t")], vec![node("IDREF_array", &[], vec![text("a b")])]),
        node("targets", &[], vec![node("input", &[("semantic", "MORPH_WEIGHT"), ("source", "#t")], vec![])]),
    ]);
    assert_eq!(read_morph(None, &no_input), None);
    let no_array = element("morph", &[("source", "#base")], vec![
        node("source", &[("id", "t")], vec![node("Name_array", &[], vec![text("a b")])]),
        node("targets", &[], vec![node("input", &[("semantic", "MORPH_TARGET"), ("source", "#t")], vec![])]),
    ]);
    assert_eq!(read_morph(None, &no_array), None);
    let no_text = element("morph", &[("source", "#base")], vec![
        node("source", &[("id", "t")], vec![node("IDREF_array", &[], vec![node("x", &[], vec![])])]),
        node("targets", &[], vec![node("input", &[("semantic", "MORPH_TARGET"), ("source", "#t")], vec![])]),
    ]);
    assert_eq!(read_morph(None, &no_text), None);
}

#[test]
fn morph_with_empty_array_links_no_targets() {
    let empty = element("morph", &[("source", "base")], vec![
        node("source", &[("id", "t")], vec![node("IDREF_array", &[], vec![text("  ")])]),
        node("targets", &[], vec![node("input", &[("semantic", "MORPH_TARGET"), ("source", "#t")], vec![])]),
    ]);
    assert_eq!(read_morph(None, &empty), Some(MorphLink { name: "base".to_string(), targets: vec![] }));
}

#[test]
fn links_are_collected_and_relative_morphs_reported() {
    let root = document(
        vec![
            node("controller", &[], vec![morph("#a", "RELATIVE", "a1 a2")]),
            node("controller", &[], vec![node("skin", &[], vec![])]),
            node("controller", &[], vec![morph("#b", "NORMALIZED", "b1")]),
            node("controller", &[], vec![node("morph", &[("method", "RELATIVE")], vec![])]),
        ],
        vec![],
    );
    let mut sink = vec![Warning::InstanceLight];
    let links = morph_links(&root, &mut sink);
    assert_eq!(
        links,
        vec![
            MorphLink { name: "a".to_string(), targets: vec!["a1".to_string(), "a2".to_string()] },
            MorphLink { name: "b".to_string(), targets: vec!["b1".to_string()] },
        ]
    );
    assert_eq!(sink, vec![Warning::InstanceLight, Warning::RelativeMorph, Warning::RelativeMorph]);
}

#[test]
fn document_without_controllers_has_no_links() {
    let root = element("COLLADA", &[], vec![scene("#Scene")]);
    let mut sink = Vec::new();
    assert!(morph_links(&root, &mut sink).is_empty());
    assert!(sink.is_empty());
}

#[test]
fn the_last_link_for_a_name_counts() {
    let links = vec![
        MorphLink { name: "a".to_string(), targets: vec!["1".to_string()] },
        MorphLink { name: "b".to_string(), targets: vec!["2".to_string()] },
        MorphLink { name: "a".to_string(), targets: vec!["3".to_string(), "4".to_string()] },
    ];
    assert_eq!(find_link(&links, "a"), Some(&vec!["3".to_string(), "4".to_string()]));
    assert_eq!(find_link(&links, "b"), Some(&vec!["2".to_string()]));
    assert_eq!(find_link(&links, "c"), None);
    assert_eq!(find_link(&vec![], "a"), None);
}

#[test]
fn the_last_object_with_an_identifier_counts() {
    let objects = vec![quad("a", 0.0), quad("b", 1.0), quad("a", 2.0)];
    assert_eq!(find_object(&objects, "a"), Some(2));
    assert_eq!(find_object(&objects, "b"), Some(1));
    assert_eq!(find_object(&objects, "c"), None);
    assert_eq!(find_object(&Vec::<Mesh>::new(), "a"), None);
}

#[test]
fn frames_are_looked_up_in_target_order() {
    let objects = vec![quad("a", 0.0), quad("b", 1.0), quad("c", 2.0)];
    let frames = find_frames(&objects, &vec!["c".to_string(), "a".to_string(), "c".to_string()]).unwrap();
    let ids: Vec<&str> = frames.iter().map(|frame| frame.id.as_str()).collect();
    assert_eq!(ids, vec!["c", "a", "c"]);
    assert!(find_frames(&objects, &vec!["a".to_string(), "x".to_string()]).is_none());
    assert_eq!(find_frames(&objects, &vec![]).unwrap().len(), 0);
}

#[test]
fn scene_nodes_of_the_primary_scene() {
    let root = document(vec![], vec![instance("#one"), text("x"), instance("#two"), node("extra", &[], vec![])]);
    let nodes = find_scene_nodes(&root).unwrap();
    assert_eq!(nodes.len(), 2);
    assert_eq!(nodes[0].get_child("instance_geometry", None).unwrap().get_attribute("url", None), Some("#one"));
    assert_eq!(nodes[1].get_child("instance_geometry", None).unwrap().get_attribute("url", None), Some("#two"));
}

#[test]
fn scene_errors() {
    let no_scene = element("COLLADA", &[], vec![visual_scenes("Scene", vec![])]);
    assert_eq!(find_scene_nodes(&no_scene).err(), Some(ImportError::MissingScene));
    let no_instance = element("COLLADA", &[], vec![node("scene", &[], vec![]), visual_scenes("Scene", vec![])]);
    assert_eq!(find_scene_nodes(&no_instance).err(), Some(ImportError::MissingVisualSceneInstance));
    let no_url = element("COLLADA", &[], vec![
        node("scene", &[], vec![node("instance_visual_scene", &[], vec![])]),
        visual_scenes("Scene", vec![]),
    ]);
    assert_eq!(find_scene_nodes(&no_url).err(), Some(ImportError::MissingSceneUrl));
    let no_library = element("COLLADA", &[], vec![scene("#Scene")]);
    assert_eq!(find_scene_nodes(&no_library).err(), Some(ImportError::MissingVisualScenes));
    let unknown = element("COLLADA", &[], vec![scene("#Nowhere"), visual_scenes("Scene", vec![])]);
    assert_eq!(find_scene_nodes(&unknown).err(), Some(ImportError::UnknownScene));
}

#[test]
fn namespace_of_the_root_is_used_for_lookups() {
    let mut root = document(vec![], vec![instance("#one")]);
    root.ns = Some("urn:x".to_string());
    // The children carry no namespace, so nothing is found under the root's namespace.
    assert_eq!(find_scene_nodes(&root).err(), Some(ImportError::MissingScene));
}

#[test]
fn node_content_is_classified_by_name() {
    assert_eq!(classify_name("asset"), NodeContent::Ignored);
    assert_eq!(classify_name("lookat"), NodeContent::Unsupported(Warning::NodeTransformation(Transformation::LookAt)));
    assert_eq!(classify_name("matrix"), NodeContent::Unsupported(Warning::NodeTransformation(Transformation::Matrix)));
    assert_eq!(classify_name("rotate"), NodeContent::Unsupported(Warning::NodeTransformation(Transformation::Rotate)));
    assert_eq!(classify_name("scale"), NodeContent::Unsupported(Warning::NodeTransformation(Transformation::Scale)));
    assert_eq!(classify_name("skew"), NodeContent::Unsupported(Warning::NodeTransformation(Transformation::Skew)));
    assert_eq!(classify_name("translate"), NodeContent::Unsupported(Warning::NodeTransformation(Transformation::Translate)));
    assert_eq!(classify_name("instance_camera"), NodeContent::Unsupported(Warning::InstanceCamera));
    assert_eq!(classify_name("instance_controller"), NodeContent::Unsupported(Warning::InstanceController));
    assert_eq!(classify_name("instance_geometry"), NodeContent::Geometry);
    assert_eq!(classify_name("instance_light"), NodeContent::Unsupported(Warning::InstanceLight));
    assert_eq!(classify_name("instance_node"), NodeContent::Unsupported(Warning::InstanceNode));
    assert_eq!(classify_name("node"), NodeContent::Unsupported(Warning::NestedNode));
    assert_eq!(classify_name("extra"), NodeContent::Ignored);
    assert_eq!(classify_name(""), NodeContent::Ignored);
    assert_eq!(classify_name("Matrix"), NodeContent::Ignored);
}

#[test]
fn unsupported_node_content_is_reported_and_skipped() {
    let a = element("node", &[], vec![
        node("asset", &[], vec![]),
        node("matrix", &[], vec![]),
        text("between"),
        node("instance_geometry", &[("url", "#first")], vec![]),
        node("instance_camera", &[], vec![]),
        node("instance_geometry", &[], vec![]),
        node("translate", &[], vec![]),
    ]);
    let joint = element("node", &[("type", "JOINT")], vec![
        node("instance_geometry", &[("url", "#bone")], vec![]),
        node("matrix", &[], vec![]),
    ]);
    let b = element("node", &[("type", "NODE")], vec![
        node("instance_light", &[], vec![]),
        node("instance_node", &[], vec![]),
        node("node", &[], vec![node("instance_geometry", &[("url", "#nested")], vec![])]),
        node("instance_controller", &[], vec![]),
        node("instance_geometry", &[("url", "second")], vec![]),
        node("lookat", &[], vec![]),
        node("rotate", &[], vec![]),
        node("scale", &[], vec![]),
        node("skew", &[], vec![]),
    ]);
    let mut sink = Vec::new();
    let names = root_geometry(&vec![&a, &joint, &b], &mut sink);
    assert_eq!(names, vec!["first", "second"]);
    assert_eq!(
        sink,
        vec![
            Warning::NodeTransformation(Transformation::Matrix),
            Warning::InstanceCamera,
            Warning::DegenerateInstanceGeometry,
            Warning::NodeTransformation(Transformation::Translate),
            Warning::JointNode,
            Warning::InstanceLight,
            Warning::InstanceNode,
            Warning::NestedNode,
            Warning::InstanceController,
            Warning::NodeTransformation(Transformation::LookAt),
            Warning::NodeTransformation(Transformation::Rotate),
            Warning::NodeTransformation(Transformation::Scale),
            Warning::NodeTransformation(Transformation::Skew),
        ]
    );
}

#[test]
fn document_without_morph_gives_one_frame() {
    let root = document(vec![], vec![instance("#base")]);
    let objects = vec![quad("other", 9.0), quad("base", 0.0)];
    let (result, warnings) = import(&root, &objects);
    let model = result.unwrap();
    assert!(warnings.is_empty());
    assert_eq!(model.frames.len(), 1);
    assert_eq!(model.frames[0].len(), 4);
    assert_eq!(model.lod_levels, vec![vec![(0, 1, 2), (0, 2, 3)]]);
    assert_eq!(model.materials.len(), 1);
    assert_eq!(model.materials[0].vertex_count, 4);
    assert_eq!(model.materials[0].triangles[0].len, 2);
    assert_eq!(model.frames[0][3], FlatVertex { position: [0.0, 1.0, 0.0], normal: [0.0, 0.0, 1.0], texture: [0.0, 1.0] });
}

#[test]
fn base_and_one_morph_frame_give_two_frames_sharing_one_triangle_buffer() {
    let root = document(
        vec![node("controller", &[], vec![morph("#base", "NORMALIZED", "frame")])],
        vec![instance("#base")],
    );
    let objects = vec![quad("base", 0.0), quad("frame", 4.0)];
    let (result, warnings) = import(&root, &objects);
    let model = result.unwrap();
    assert!(warnings.is_empty());
    assert_eq!(model.frames.len(), 2);
    assert_eq!(model.lod_levels.len(), 1);
    assert_eq!(model.lod_levels[0], vec![(0, 1, 2), (0, 2, 3)]);
    assert_eq!(model.frames[0].len(), 4);
    assert_eq!(model.frames[1].len(), 4);
    assert_eq!(model.frames[0][1].position, [1.0, 0.0, 0.0]);
    assert_eq!(model.frames[1][1].position, [1.0, 0.0, 4.0]);
}

#[test]
fn frames_follow_the_target_list() {
    let root = document(
        vec![node("controller", &[], vec![morph("#base", "NORMALIZED", " f3 f1\n f2 ")])],
        vec![instance("#base")],
    );
    let objects = vec![quad("f1", 1.0), quad("f2", 2.0), quad("f3", 3.0), quad("base", 0.0)];
    let model = import(&root, &objects).0.unwrap();
    let heights: Vec<f64> = model.frames.iter().map(|frame| frame[0].position[2]).collect();
    assert_eq!(heights, vec![0.0, 3.0, 1.0, 2.0]);
}

#[test]
fn morph_of_another_geometry_is_not_used() {
    let root = document(
        vec![node("controller", &[], vec![morph("#other", "NORMALIZED", "frame")])],
        vec![instance("#base")],
    );
    let objects = vec![quad("base", 0.0), quad("frame", 4.0), quad("other", 1.0)];
    let model = import(&root, &objects).0.unwrap();
    assert_eq!(model.frames.len(), 1);
}

#[test]
fn changed_second_face_fails_with_the_place_of_the_frame() {
    let root = document(
        vec![node("controller", &[], vec![morph("#base", "NORMALIZED", "good bad")])],
        vec![instance("#base")],
    );
    let mut bad = quad("bad", 2.0);
    bad.geometry[0][1] = Shape::Triangle(corner(0), corner(3), corner(2));
    let objects = vec![quad("base", 0.0), quad("good", 1.0), bad];
    let (result, warnings) = import(&root, &objects);
    assert_eq!(result, Err(ImportError::TopologyMismatch(1)));
    assert!(warnings.is_empty());
    assert_eq!(
        ImportError::TopologyMismatch(1).message(),
        "error[collada]: index 1 in the morph target sequence uses different geometry"
    );
}

#[test]
fn import_names_the_base_object() {
    let root = document(vec![], vec![instance("#base")]);
    let objects = vec![quad("base", 7.0), quad("other", 9.0), quad("base", 0.0)];
    let mut sink = Vec::new();
    let imported = convert(&root, &objects, DEFAULT_TEXTURE, DEFAULT_NORMAL, &mut sink).unwrap();
    assert_eq!(imported.base, 2);
    assert_eq!(imported.model.frames[0][0].position, [0.0, 0.0, 0.0]);
}

#[test]
fn first_root_geometry_is_used_and_the_rest_reported() {
    let root = document(vec![], vec![instance("#second"), instance("#first")]);
    let objects = vec![quad("first", 1.0), quad("second", 2.0)];
    let (result, warnings) = import(&root, &objects);
    let model = result.unwrap();
    assert_eq!(model.frames[0][0].position, [0.0, 0.0, 2.0]);
    assert_eq!(warnings, vec![Warning::AdditionalRootGeometry]);
}

#[test]
fn warnings_come_in_the_order_of_the_import() {
    let root = document(
        vec![node("controller", &[], vec![morph("#base", "RELATIVE", "frame")])],
        vec![
            node("node", &[("type", "JOINT")], vec![]),
            node("node", &[], vec![
                node("matrix", &[], vec![]),
                node("instance_geometry", &[("url", "#base")], vec![]),
                node("instance_geometry", &[("url", "#frame")], vec![]),
            ]),
        ],
    );
    let objects = vec![quad("base", 0.0), quad("frame", 4.0)];
    let mut sink = vec![Warning::InstanceNode];
    let result = convert(&root, &objects, DEFAULT_TEXTURE, DEFAULT_NORMAL, &mut sink);
    assert_eq!(result.unwrap().model.frames.len(), 2);
    assert_eq!(
        sink,
        vec![
            Warning::InstanceNode,
            Warning::RelativeMorph,
            Warning::JointNode,
            Warning::NodeTransformation(Transformation::Matrix),
            Warning::AdditionalRootGeometry,
        ]
    );
}

#[test]
fn import_errors() {
    let objects = vec![quad("base", 0.0), quad("frame", 4.0)];

    let root = element("COLLADA", &[], vec![]);
    assert_eq!(import(&root, &objects).0, Err(ImportError::MissingScene));

    let root = document(vec![], vec![]);
    assert_eq!(import(&root, &objects).0, Err(ImportError::NoRootGeometry));

    let root = document(vec![], vec![node("node", &[("type", "JOINT")], vec![
        node("instance_geometry", &[("url", "#base")], vec![]),
    ])]);
    let (result, warnings) = import(&root, &objects);
    assert_eq!(result, Err(ImportError::NoRootGeometry));
    assert_eq!(warnings, vec![Warning::JointNode]);

    let root = document(vec![], vec![instance("#missing")]);
    assert_eq!(import(&root, &objects).0, Err(ImportError::MissingRootGeometry));

    let root = document(
        vec![node("controller", &[], vec![morph("#base", "NORMALIZED", "frame missing")])],
        vec![instance("#base")],
    );
    assert_eq!(import(&root, &objects).0, Err(ImportError::MissingFrameGeometry));

    let mut broken = quad("base", 0.0);
    broken.geometry[0][0] = Shape::Triangle(corner(0), corner(1), (7, None, None));
    let root = document(vec![], vec![instance("#base")]);
    assert_eq!(import(&root, &vec![broken]).0, Err(ImportError::Mesh(MeshError::IndexOutOfRange)));
}

#[test]
fn errors_after_the_scan_keep_the_warnings() {
    let objects = vec![quad("base", 0.0)];
    let root = document(
        vec![node("controller", &[], vec![morph("#base", "RELATIVE", "frame")])],
        vec![node("node", &[], vec![
            node("instance_light", &[], vec![]),
            node("instance_geometry", &[("url", "#missing")], vec![]),
        ])],
    );
    let (result, warnings) = import(&root, &objects);
    assert_eq!(result, Err(ImportError::MissingRootGeometry));
    assert_eq!(warnings, vec![Warning::RelativeMorph, Warning::InstanceLight]);
}

#[test]
fn morphs_are_reported_even_without_a_scene() {
    let root = element("COLLADA", &[], vec![
        node("library_controllers", &[], vec![node("controller", &[], vec![morph("#base", "RELATIVE", "frame")])]),
    ]);
    let (result, warnings) = import(&root, &vec![quad("base", 0.0)]);
    assert_eq!(result, Err(ImportError::MissingScene));
    assert_eq!(warnings, vec![Warning::RelativeMorph]);
}

#[test]
fn same_document_gives_the_same_model_and_warnings() {
    let root = document(
        vec![node("controller", &[], vec![morph("#base", "RELATIVE", "frame")])],
        vec![instance("#base"), instance("#frame")],
    );
    let objects = vec![quad("base", 0.0), quad("frame", 4.0)];
    let first = import(&root, &objects);
    let second = import(&root, &objects);
    assert_eq!(first, second);
    assert!(first.0.is_ok());
}

#[test]
fn warnings_have_messages() {
    assert_eq!(Warning::RelativeMorph.message(), "warning[collada]: unsupported morph method RELATIVE, treating it as NORMALIZED...");
    assert_eq!(Warning::JointNode.message(), "warning[collada]: unsupported node type JOINT, ignoring...");
    assert_eq!(
        Warning::NodeTransformation(Transformation::Skew).message(),
        "warning[collada]: transformations on nodes are not supported yet (tried to use transformation type: skew)..."
    );
    assert_eq!(
        Warning::NodeTransformation(Transformation::LookAt).message(),
        "warning[collada]: transformations on nodes are not supported yet (tried to use transformation type: lookat)..."
    );
    assert_eq!(Warning::InstanceCamera.message(), "warning[collada]: Ignoring instance_camera");
    assert_eq!(Warning::InstanceController.message(), "warning[collada]: Ignoring instance_controller");
    assert_eq!(Warning::DegenerateInstanceGeometry.message(), "warning[collada]: degenerate <instance_geometry> is missing a url tag");
    assert_eq!(Warning::InstanceLight.message(), "warning[collada]: Lights are unsupported");
    assert_eq!(Warning::InstanceNode.message(), "warning[collada]: Ignoring instance_node");
    assert_eq!(Warning::NestedNode.message(), "warning[collada]: Nested nodes are unsupported");
    assert_eq!(
        Warning::AdditionalRootGeometry.message(),
        "warning[collada]: ignoring additional root geometry for now, submodels are not supported yet"
    );
    for kind in [Transformation::LookAt, Transformation::Matrix, Transformation::Rotate,
                 Transformation::Scale, Transformation::Skew, Transformation::Translate] {
        assert_eq!(classify_name(kind.element_name()), NodeContent::Unsupported(Warning::NodeTransformation(kind)));
    }
}

#[test]
fn errors_have_messages() {
    assert_eq!(ImportError::MissingScene.message(), "Collada document requires a root scene");
    assert_eq!(ImportError::MissingVisualSceneInstance.message(), "Collada document missing root visual scene");
    assert_eq!(ImportError::MissingSceneUrl.message(), "<instance_visual_scene> missing \"url\" attribute");
    assert_eq!(ImportError::MissingVisualScenes.message(), "Collada document has to have visual scenes");
    assert_eq!(ImportError::UnknownScene.message(), "The scene named in <instance_visual_scene> does not exist");
    assert_eq!(ImportError::NoRootGeometry.message(), "No root geometry!");
    assert_eq!(ImportError::MissingRootGeometry.message(), "geometry library missing root geometry");
    assert_eq!(ImportError::MissingFrameGeometry.message(), "geometry library missing geometry frame");
    assert_eq!(
        ImportError::TopologyMismatch(12).message(),
        "error[collada]: index 12 in the morph target sequence uses different geometry"
    );
    assert_eq!(
        ImportError::Mesh(MeshError::TooLarge).message(),
        "error[collada]: the model has more vertices or triangles than a 32-bit count holds"
    );
}
