//! The markup document of a flat model: one geometry per frame, a morph
//! controller that links the frames, and a scene that instantiates the first
//! of them.

use crate::mesh::{
    same_content, same_frame, same_material, same_materials, same_numbers, Material, Model,
    TextVertex, Triangle,
};
use crate::sequences::{lemma_take_all, lemma_take_step};
use crate::text::{begin, decimal, joined, put, put_decimal};
use vstd::prelude::*;

verus! {

/// The opening of every document, up to and including the start of the
/// geometry library.
pub const HEADER: &'static str = r#"<?xml version="1.0" encoding="utf-8"?>
<COLLADA xmlns="http://www.collada.org/2005/11/COLLADASchema" version="1.4.1">
  <asset>
    <contributor>
      <author>cemconv user</author>
      <authoring_tool>cemconv 0.2.0 collada exporter</authoring_tool>
    </contributor>
    <created>2018-01-01T00:00:00</created>
    <modified>2018-01-01T00:00:00</modified>
    <unit name="meter" meter="1"/>
    <up_axis>Y_UP</up_axis>
  </asset>
  <library_cameras/>
  <library_lights/>
  <library_images/>
  <library_geometries>
"#;

/// The accessor parameters of a three-component array.
pub const FORMAT_POS: &'static str =
    r##"<param name="X" type="float"/><param name="Y" type="float"/><param name="Z" type="float"/>"##;

/// The accessor parameters of a texture coordinate array.
pub const FORMAT_TEX: &'static str =
    r##"<param name="S" type="float"/><param name="T" type="float"/>"##;

/// The geometry block of one frame. The attribute arrays hold numbers that
/// are already written out.
pub struct Geometry<'n> {
    /// The name from which the identifiers of the block are derived.
    pub name: &'n str,
    /// The positions, three numbers (X, Y, Z) per vertex.
    pub mesh_positions: Vec<&'n str>,
    /// The normals, three numbers (X, Y, Z) per vertex.
    pub mesh_normals: Vec<&'n str>,
    /// The texture coordinates, two numbers (S, T) per vertex.
    pub mesh_map: Vec<&'n str>,
    /// The flat indices of the triangle corners, three per triangle.
    pub polygons: Vec<u64>,
}

/// The texts of a sequence of string slices.
pub open spec fn slice_texts(slices: Seq<&str>) -> Seq<Seq<char>> {
    Seq::new(slices.len(), |i: int| slices[i]@)
}

/// The numbers of an array, each followed by a space.
pub open spec fn values_text(values: Seq<Seq<char>>) -> Seq<char>
    decreases values.len(),
{
    if values.len() == 0 {
        Seq::empty()
    } else {
        values_text(values.drop_last()) + values.last() + " "@
    }
}

/// One attribute array with its accessor.
#[verifier::opaque]
pub open spec fn source_text(
    name: Seq<char>,
    source: Seq<char>,
    array: Seq<Seq<char>>,
    vertex_count: nat,
    stride: nat,
    format: Seq<char>,
) -> Seq<char> {
    "        <source id=\""@ + name + "-"@ + source + "\">\n"@
        + "          <float_array id=\""@ + name + "-"@ + source + "-array\" count=\""@
        + decimal(array.len()) + "\">\n"@
        + values_text(array)
        + "          </float_array>\n"@
        + "<technique_common><accessor source=\"#"@ + name + "-"@ + source
        + "-array\" count=\""@ + decimal(vertex_count) + "\" stride=\""@ + decimal(stride)
        + "\">\n"@
        + format + "\n"@
        + "</accessor></technique_common>\n"@
        + "        </source>\n"@
}

/// The face list: each flat index three times, for the vertex, the normal
/// and the texture coordinate.
pub open spec fn polygons_text(polygons: Seq<u64>) -> Seq<char>
    decreases polygons.len(),
{
    if polygons.len() == 0 {
        Seq::empty()
    } else {
        let index = decimal(polygons.last() as nat);
        polygons_text(polygons.drop_last()) + index + " "@ + index + " "@ + index + " "@
    }
}

/// The triangles of a geometry: the three inputs and the face list.
#[verifier::opaque]
pub open spec fn triangles_text(name: Seq<char>, polygons: Seq<u64>) -> Seq<char> {
    "        <triangles count=\""@ + decimal(polygons.len() / 3) + "\">\n"@
        + "          <input semantic=\"VERTEX\" source=\"#"@ + name
        + "-mesh-vertices\" offset=\"0\"/>\n"@
        + "          <input semantic=\"NORMAL\" source=\"#"@ + name
        + "-mesh-normals\" offset=\"1\"/>\n"@
        + "          <input semantic=\"TEXCOORD\" source=\"#"@ + name
        + "-mesh-map\" offset=\"2\" set=\"0\"/>\n"@
        + "          <p>"@ + polygons_text(polygons) + "          </p>\n"@
        + "        </triangles>\n"@
}

/// A whole geometry block.
#[verifier::opaque]
pub open spec fn geometry_text(
    name: Seq<char>,
    positions: Seq<Seq<char>>,
    normals: Seq<Seq<char>>,
    map: Seq<Seq<char>>,
    polygons: Seq<u64>,
) -> Seq<char> {
    "    <geometry id=\""@ + name + "-mesh\" name=\""@ + name + "\">\n"@
        + "      <mesh>\n"@
        + source_text(name, "mesh-positions"@, positions, positions.len() / 3, 3, FORMAT_POS@)
        + source_text(name, "mesh-normals"@, normals, positions.len() / 3, 3, FORMAT_POS@)
        + source_text(name, "mesh-map"@, map, positions.len() / 3, 2, FORMAT_TEX@)
        + "        <vertices id=\""@ + name
        + "-mesh-vertices\"><input semantic=\"POSITION\" source=\"#"@ + name
        + "-mesh-positions\"/></vertices>\n"@
        + triangles_text(name, polygons)
        + "      </mesh>\n"@
        + "    </geometry>"@
}

/// Appends the numbers of an array, each followed by a space.
fn push_values(f: &mut String, array: &Vec<&str>)
    ensures
        final(f)@ == old(f)@ + values_text(slice_texts(array@)),
{
    let ghost all = slice_texts(array@);
    let head = Ghost(f@);
    let mut i: usize = 0;
    assert(f@ =~= head@ + values_text(all.take(0)));
    while i < array.len()
        invariant
            0 <= i <= array.len(),
            all == slice_texts(array@),
            f@ == head@ + values_text(all.take(i as int)),
        decreases array.len() - i,
    {
        proof {
            lemma_take_step(all, i as int);
        }
        let tail = Ghost(values_text(all.take(i as int)));
        let tail = put(f, array[i], head, tail);
        put(f, " ", head, tail);
        i = i + 1;
    }
    proof {
        lemma_take_all(all);
    }
}

/// Appends one attribute array with its accessor.
fn push_source(
    f: &mut String,
    name: &str,
    source: &str,
    array: &Vec<&str>,
    vertex_count: usize,
    stride: usize,
    format: &str,
)
    ensures
        final(f)@ == old(f)@ + source_text(
            name@,
            source@,
            slice_texts(array@),
            vertex_count as nat,
            stride as nat,
            format@,
        ),
{
    proof {
        reveal(source_text);
    }
    let head = Ghost(f@);
    let tail = begin(f, "        <source id=\"");
    let tail = put(f, name, head, tail);
    let tail = put(f, "-", head, tail);
    let tail = put(f, source, head, tail);
    let tail = put(f, "\">\n", head, tail);
    let tail = put(f, "          <float_array id=\"", head, tail);
    let tail = put(f, name, head, tail);
    let tail = put(f, "-", head, tail);
    let tail = put(f, source, head, tail);
    let tail = put(f, "-array\" count=\"", head, tail);
    let tail = put_decimal(f, array.len() as u64, head, tail);
    let tail = put(f, "\">\n", head, tail);
    push_values(f, array);
    let tail = joined(f, Ghost(values_text(slice_texts(array@))), head, tail);
    let tail = put(f, "          </float_array>\n", head, tail);
    let tail = put(f, "<technique_common><accessor source=\"#", head, tail);
    let tail = put(f, name, head, tail);
    let tail = put(f, "-", head, tail);
    let tail = put(f, source, head, tail);
    let tail = put(f, "-array\" count=\"", head, tail);
    let tail = put_decimal(f, vertex_count as u64, head, tail);
    let tail = put(f, "\" stride=\"", head, tail);
    let tail = put_decimal(f, stride as u64, head, tail);
    let tail = put(f, "\">\n", head, tail);
    let tail = put(f, format, head, tail);
    let tail = put(f, "\n", head, tail);
    let tail = put(f, "</accessor></technique_common>\n", head, tail);
    put(f, "        </source>\n", head, tail);
}

/// Appends the face list, each flat index three times.
fn push_polygons(f: &mut String, polygons: &Vec<u64>)
    ensures
        final(f)@ == old(f)@ + polygons_text(polygons@),
{
    let head = Ghost(f@);
    let mut i: usize = 0;
    assert(f@ =~= head@ + polygons_text(polygons@.take(0)));
    while i < polygons.len()
        invariant
            0 <= i <= polygons.len(),
            f@ == head@ + polygons_text(polygons@.take(i as int)),
        decreases polygons.len() - i,
    {
        proof {
            lemma_take_step(polygons@, i as int);
        }
        let index = polygons[i];
        let tail = Ghost(polygons_text(polygons@.take(i as int)));
        let tail = put_decimal(f, index, head, tail);
        let tail = put(f, " ", head, tail);
        let tail = put_decimal(f, index, head, tail);
        let tail = put(f, " ", head, tail);
        let tail = put_decimal(f, index, head, tail);
        put(f, " ", head, tail);
        i = i + 1;
    }
    proof {
        lemma_take_all(polygons@);
    }
}

/// Appends the triangles of a geometry.
fn push_triangles(f: &mut String, name: &str, polygons: &Vec<u64>)
    ensures
        final(f)@ == old(f)@ + triangles_text(name@, polygons@),
{
    proof {
        reveal(triangles_text);
    }
    let head = Ghost(f@);
    let tail = begin(f, "        <triangles count=\"");
    let tail = put_decimal(f, (polygons.len() / 3) as u64, head, tail);
    let tail = put(f, "\">\n", head, tail);
    let tail = put(f, "          <input semantic=\"VERTEX\" source=\"#", head, tail);
    let tail = put(f, name, head, tail);
    let tail = put(f, "-mesh-vertices\" offset=\"0\"/>\n", head, tail);
    let tail = put(f, "          <input semantic=\"NORMAL\" source=\"#", head, tail);
    let tail = put(f, name, head, tail);
    let tail = put(f, "-mesh-normals\" offset=\"1\"/>\n", head, tail);
    let tail = put(f, "          <input semantic=\"TEXCOORD\" source=\"#", head, tail);
    let tail = put(f, name, head, tail);
    let tail = put(f, "-mesh-map\" offset=\"2\" set=\"0\"/>\n", head, tail);
    let tail = put(f, "          <p>", head, tail);
    push_polygons(f, polygons);
    let tail = joined(f, Ghost(polygons_text(polygons@)), head, tail);
    let tail = put(f, "          </p>\n", head, tail);
    put(f, "        </triangles>\n", head, tail);
}

impl<'n> Geometry<'n> {
    /// The text of the geometry block.
    pub open spec fn text(&self) -> Seq<char> {
        geometry_text(
            self.name@,
            slice_texts(self.mesh_positions@),
            slice_texts(self.mesh_normals@),
            slice_texts(self.mesh_map@),
            self.polygons@,
        )
    }

    /// Appends the geometry block to `f`: the three attribute arrays, each
    /// with an accessor that counts a third of the position array as its
    /// vertices, then the triangles.
    pub fn fmt(&self, f: &mut String)
        ensures
            final(f)@ == old(f)@ + self.text(),
    {
        proof {
            reveal(geometry_text);
        }
        let head = Ghost(f@);
        let tail = begin(f, "    <geometry id=\"");
        let tail = put(f, self.name, head, tail);
        let tail = put(f, "-mesh\" name=\"", head, tail);
        let tail = put(f, self.name, head, tail);
        let tail = put(f, "\">\n", head, tail);
        let tail = put(f, "      <mesh>\n", head, tail);
        let vertex_count = self.mesh_positions.len() / 3;
        assert(vertex_count == slice_texts(self.mesh_positions@).len() / 3);
        push_source(
            f,
            self.name,
            "mesh-positions",
            &self.mesh_positions,
            vertex_count,
            3,
            FORMAT_POS,
        );
        let tail = joined(
            f,
            Ghost(
                source_text(
                    self.name@,
                    "mesh-positions"@,
                    slice_texts(self.mesh_positions@),
                    vertex_count as nat,
                    3,
                    FORMAT_POS@,
                ),
            ),
            head,
            tail,
        );
        push_source(f, self.name, "mesh-normals", &self.mesh_normals, vertex_count, 3, FORMAT_POS);
        let tail = joined(
            f,
            Ghost(
                source_text(
                    self.name@,
                    "mesh-normals"@,
                    slice_texts(self.mesh_normals@),
                    vertex_count as nat,
                    3,
                    FORMAT_POS@,
                ),
            ),
            head,
            tail,
        );
        push_source(f, self.name, "mesh-map", &self.mesh_map, vertex_count, 2, FORMAT_TEX);
        let tail = joined(
            f,
            Ghost(
                source_text(
                    self.name@,
                    "mesh-map"@,
                    slice_texts(self.mesh_map@),
                    vertex_count as nat,
                    2,
                    FORMAT_TEX@,
                ),
            ),
            head,
            tail,
        );
        let tail = put(f, "        <vertices id=\"", head, tail);
        let tail = put(f, self.name, head, tail);
        let tail = put(
            f,
            "-mesh-vertices\"><input semantic=\"POSITION\" source=\"#",
            head,
            tail,
        );
        let tail = put(f, self.name, head, tail);
        let tail = put(f, "-mesh-positions\"/></vertices>\n", head, tail);
        push_triangles(f, self.name, &self.polygons);
        let tail = joined(f, Ghost(triangles_text(self.name@, self.polygons@)), head, tail);
        let tail = put(f, "      </mesh>\n", head, tail);
        put(f, "    </geometry>", head, tail);
    }
}

/// Whether the first selection of `material` holds the triangle at `place`.
pub open spec fn selects(material: Material, place: int) -> bool {
    material.triangles@[0].offset <= place < material.triangles@[0].offset
        + material.triangles@[0].len
}

/// The last of `materials` that selects the triangle at `place`.
pub open spec fn selecting(materials: Seq<Material>, place: int) -> Option<Material>
    decreases materials.len(),
{
    if materials.len() == 0 {
        None
    } else if selects(materials.last(), place) {
        Some(materials.last())
    } else {
        selecting(materials.drop_last(), place)
    }
}

/// The corner `corner` (0, 1 or 2) of a triangle.
pub open spec fn corner_of(triangle: Triangle, corner: int) -> u32 {
    if corner == 0 {
        triangle.0
    } else if corner == 1 {
        triangle.1
    } else {
        triangle.2
    }
}

/// The entry at `place` of the face list of a geometry: the corner of the
/// triangle, moved by the vertex offset of the last material that selects
/// the triangle; 0 for a triangle that no material selects.
pub open spec fn polygon(materials: Seq<Material>, triangles: Seq<Triangle>, place: int) -> u64 {
    match selecting(materials, place / 3) {
        Some(material) => (material.vertex_offset + corner_of(
            triangles[place / 3],
            place % 3,
        )) as u64,
        None => 0,
    }
}

/// The face list of a geometry: three entries per triangle.
pub open spec fn polygons_of(materials: Seq<Material>, triangles: Seq<Triangle>) -> Seq<u64> {
    Seq::new(3 * triangles.len(), |place: int| polygon(materials, triangles, place))
}

/// The face list that every frame of `model` shares.
pub fn expand_polygons<V>(model: &Model<V>) -> (polygons: Vec<u64>)
    requires
        model.selections_in_range(),
        3 * model.lod_levels@[0]@.len() <= usize::MAX,
    ensures
        polygons@ == polygons_of(model.materials@, model.lod_levels@[0]@),
{
    let triangle_data = &model.lod_levels[0];
    let count = triangle_data.len();
    let mut polygons: Vec<u64> = Vec::new();
    let mut i: usize = 0;
    while i < 3 * count
        invariant
            0 <= i <= 3 * count,
            3 * count <= usize::MAX,
            polygons@.len() == i,
            forall|k: int| 0 <= k < i ==> polygons@[k] == 0,
        decreases 3 * count - i,
    {
        polygons.push(0);
        i = i + 1;
    }
    assert(polygons@ =~= polygons_of(model.materials@.take(0), triangle_data@));
    let mut m: usize = 0;
    while m < model.materials.len()
        invariant
            0 <= m <= model.materials.len(),
            model.selections_in_range(),
            *triangle_data == model.lod_levels@[0],
            count == triangle_data@.len(),
            3 * count <= usize::MAX,
            polygons@ == polygons_of(model.materials@.take(m as int), triangle_data@),
        decreases model.materials.len() - m,
    {
        proof {
            lemma_take_step(model.materials@, m as int);
        }
        let material = &model.materials[m];
        let triangle_slice = material.triangles[0];
        let vertex_offset = material.vertex_offset;
        let ghost before = polygons@;
        let mut index: u32 = 0;
        while index < triangle_slice.len
            invariant
                0 <= index <= triangle_slice.len,
                triangle_slice.offset + triangle_slice.len <= count,
                count == triangle_data@.len(),
                3 * count <= usize::MAX,
                polygons@.len() == 3 * count,
                forall|k: int|
                    0 <= k < 3 * count ==> #[trigger] polygons@[k] == if triangle_slice.offset
                        <= k / 3 < triangle_slice.offset + index {
                        (vertex_offset + corner_of(triangle_data@[k / 3], k % 3)) as u64
                    } else {
                        before[k]
                    },
            decreases triangle_slice.len - index,
        {
            let place = triangle_slice.offset as usize + index as usize;
            let triangle = triangle_data[place];
            polygons.set(place * 3, vertex_offset as u64 + triangle.0 as u64);
            polygons.set(place * 3 + 1, vertex_offset as u64 + triangle.1 as u64);
            polygons.set(place * 3 + 2, vertex_offset as u64 + triangle.2 as u64);
            index = index + 1;
        }
        assert(polygons@ =~= polygons_of(model.materials@.take(m + 1), triangle_data@));
        m = m + 1;
    }
    proof {
        lemma_take_all(model.materials@);
    }
    polygons
}

/// The position array of a frame: three numbers per vertex.
pub open spec fn positions_of(vertices: Seq<TextVertex>) -> Seq<Seq<char>>
    decreases vertices.len(),
{
    if vertices.len() == 0 {
        Seq::empty()
    } else {
        let vertex = vertices.last();
        positions_of(vertices.drop_last()).push(vertex.position.0@).push(vertex.position.1@).push(
            vertex.position.2@,
        )
    }
}

/// The normal array of a frame: three numbers per vertex.
pub open spec fn normals_of(vertices: Seq<TextVertex>) -> Seq<Seq<char>>
    decreases vertices.len(),
{
    if vertices.len() == 0 {
        Seq::empty()
    } else {
        let vertex = vertices.last();
        normals_of(vertices.drop_last()).push(vertex.normal.0@).push(vertex.normal.1@).push(
            vertex.normal.2@,
        )
    }
}

/// The texture coordinate array of a frame: two numbers per vertex.
pub open spec fn map_of(vertices: Seq<TextVertex>) -> Seq<Seq<char>>
    decreases vertices.len(),
{
    if vertices.len() == 0 {
        Seq::empty()
    } else {
        let vertex = vertices.last();
        map_of(vertices.drop_last()).push(vertex.texture.0@).push(vertex.texture.1@)
    }
}

/// The name of the geometry of a frame.
#[verifier::opaque]
pub open spec fn frame_name(name: Seq<char>, frame_index: nat) -> Seq<char> {
    name + "_frame"@ + decimal(frame_index)
}

/// The geometry block of the frame with the given number, on a line of its
/// own.
#[verifier::opaque]
pub open spec fn frame_text(
    name: Seq<char>,
    frame_index: nat,
    vertices: Seq<TextVertex>,
    polygons: Seq<u64>,
) -> Seq<char> {
    geometry_text(
        frame_name(name, frame_index),
        positions_of(vertices),
        normals_of(vertices),
        map_of(vertices),
        polygons,
    ) + "\n"@
}

/// The geometry blocks of the given frames, numbered from 0. All of them
/// carry the same face list.
pub open spec fn meshes_text(
    name: Seq<char>,
    frames: Seq<Vec<TextVertex>>,
    polygons: Seq<u64>,
) -> Seq<char>
    decreases frames.len(),
{
    if frames.len() == 0 {
        Seq::empty()
    } else {
        meshes_text(name, frames.drop_last(), polygons) + frame_text(
            name,
            (frames.len() - 1) as nat,
            frames.last()@,
            polygons,
        )
    }
}

/// Composes the name of the geometry of a frame.
fn name_frame(name: &str, frame_index: usize) -> (full: String)
    ensures
        full@ == frame_name(name@, frame_index as nat),
{
    proof {
        reveal(frame_name);
    }
    let mut full = String::new();
    let head = Ghost(full@);
    let tail = begin(&mut full, name);
    let tail = put(&mut full, "_frame", head, tail);
    put_decimal(&mut full, frame_index as u64, head, tail);
    assert(full@ =~= frame_name(name@, frame_index as nat));
    full
}

/// Appends the geometry block of one frame to `string`, and hands the face
/// list back.
fn write_frame(
    name: &str,
    frame_index: usize,
    frame: &Vec<TextVertex>,
    polygons: Vec<u64>,
    string: &mut String,
) -> (shared: Vec<u64>)
    ensures
        shared@ == polygons@,
        final(string)@ == old(string)@ + frame_text(
            name@,
            frame_index as nat,
            frame@,
            polygons@,
        ),
{
    proof {
        reveal(frame_text);
    }
    let full_name = name_frame(name, frame_index);
    let mut mesh_positions: Vec<&str> = Vec::new();
    let mut mesh_normals: Vec<&str> = Vec::new();
    let mut mesh_map: Vec<&str> = Vec::new();
    let mut index: usize = 0;
    assert(slice_texts(mesh_positions@) =~= positions_of(frame@.take(0)));
    assert(slice_texts(mesh_normals@) =~= normals_of(frame@.take(0)));
    assert(slice_texts(mesh_map@) =~= map_of(frame@.take(0)));
    while index < frame.len()
        invariant
            0 <= index <= frame.len(),
            slice_texts(mesh_positions@) == positions_of(frame@.take(index as int)),
            slice_texts(mesh_normals@) == normals_of(frame@.take(index as int)),
            slice_texts(mesh_map@) == map_of(frame@.take(index as int)),
        decreases frame.len() - index,
    {
        proof {
            lemma_take_step(frame@, index as int);
        }
        let vertex = &frame[index];
        let ghost positions = slice_texts(mesh_positions@);
        let ghost normals = slice_texts(mesh_normals@);
        let ghost map = slice_texts(mesh_map@);
        mesh_positions.push(vertex.position.0.as_str());
        mesh_positions.push(vertex.position.1.as_str());
        mesh_positions.push(vertex.position.2.as_str());
        mesh_normals.push(vertex.normal.0.as_str());
        mesh_normals.push(vertex.normal.1.as_str());
        mesh_normals.push(vertex.normal.2.as_str());
        mesh_map.push(vertex.texture.0.as_str());
        mesh_map.push(vertex.texture.1.as_str());
        assert(slice_texts(mesh_positions@) =~= positions.push(vertex.position.0@).push(
            vertex.position.1@,
        ).push(vertex.position.2@));
        assert(slice_texts(mesh_normals@) =~= normals.push(vertex.normal.0@).push(
            vertex.normal.1@,
        ).push(vertex.normal.2@));
        assert(slice_texts(mesh_map@) =~= map.push(vertex.texture.0@).push(vertex.texture.1@));
        index = index + 1;
    }
    proof {
        lemma_take_all(frame@);
    }
    let geometry = Geometry {
        name: full_name.as_str(),
        mesh_positions,
        mesh_normals,
        mesh_map,
        polygons,
    };
    let head = Ghost(string@);
    geometry.fmt(string);
    let tail = Ghost(geometry.text());
    put(string, "\n", head, tail);
    geometry.polygons
}

/// Appends one geometry block per frame of `model` to `string`. Every block
/// carries the complete attribute arrays of its frame and the face list that
/// all frames share.
pub fn write_meshes(name: &str, model: &Model<TextVertex>, string: &mut String)
    requires
        model.selections_in_range(),
        3 * model.lod_levels@[0]@.len() <= usize::MAX,
    ensures
        final(string)@ == old(string)@ + meshes_text(
            name@,
            model.frames@,
            polygons_of(model.materials@, model.lod_levels@[0]@),
        ),
{
    let mut polygons = expand_polygons(model);
    let ghost shared = polygons@;
    let head = Ghost(string@);
    let mut frame_index: usize = 0;
    assert(string@ =~= head@ + meshes_text(name@, model.frames@.take(0), shared));
    while frame_index < model.frames.len()
        invariant
            0 <= frame_index <= model.frames.len(),
            polygons@ == shared,
            string@ == head@ + meshes_text(name@, model.frames@.take(frame_index as int), shared),
        decreases model.frames.len() - frame_index,
    {
        proof {
            lemma_take_step(model.frames@, frame_index as int);
        }
        let tail = Ghost(meshes_text(name@, model.frames@.take(frame_index as int), shared));
        polygons = write_frame(name, frame_index, &model.frames[frame_index], polygons, string);
        joined(
            string,
            Ghost(
                frame_text(name@, frame_index as nat, model.frames@[frame_index as int]@, shared),
            ),
            head,
            tail,
        );
        frame_index = frame_index + 1;
    }
    proof {
        lemma_take_all(model.frames@);
    }
}

/// The reference lines of the morph targets: the geometries of the frames 1
/// to `frames - 1`.
pub open spec fn targets_text(name: Seq<char>, frames: nat) -> Seq<char>
    decreases frames,
{
    if frames <= 1 {
        Seq::empty()
    } else {
        targets_text(name, (frames - 1) as nat) + "            "@ + frame_name(
            name,
            (frames - 1) as nat,
        ) + "-mesh\n"@
    }
}

/// One zero weight for each of the frames 1 to `frames - 1`.
pub open spec fn weights_text(frames: nat) -> Seq<char>
    decreases frames,
{
    if frames <= 1 {
        Seq::empty()
    } else {
        weights_text((frames - 1) as nat) + "0 "@
    }
}

/// The source that lists the morph targets.
#[verifier::opaque]
pub open spec fn targets_source_text(name: Seq<char>, frames: nat) -> Seq<char> {
    "        <source id=\""@ + name + "-targets\">\n"@
        + "          <IDREF_array id=\""@ + name + "-targets-array\" count=\""@
        + decimal((frames - 1) as nat) + "\">\n"@
        + targets_text(name, frames)
        + "          </IDREF_array>\n"@
        + "<technique_common><accessor source=\"#"@ + name + "-targets-array\" count=\""@
        + decimal((frames - 1) as nat)
        + "\" stride=\"1\"><param name=\"IDREF\" type=\"IDREF\"/></accessor></technique_common>\n"@
        + "        </source>\n"@
}

/// The source that lists the morph weights.
#[verifier::opaque]
pub open spec fn weights_source_text(name: Seq<char>, frames: nat) -> Seq<char> {
    "        <source id=\""@ + name + "-weights\">\n"@
        + "          <float_array id=\""@ + name + "-weights-array\" count=\""@
        + decimal((frames - 1) as nat) + "\">"@
        + weights_text(frames)
        + "</float_array>\n"@
        + "<technique_common><accessor source=\"#"@ + name + "-weights-array\" count=\""@
        + decimal((frames - 1) as nat)
        + "\" stride=\"1\"><param name=\"MORPH_WEIGHT\" type=\"float\"/></accessor></technique_common>\n"@
        + "        </source>\n"@
}

/// The morph controller of a model with more than one frame: frame 0 is the
/// base, every other frame a target with the weight zero.
#[verifier::opaque]
pub open spec fn controller_text(name: Seq<char>, frames: nat) -> Seq<char> {
    "    <controller id=\""@ + name + "-morph\" name=\""@ + name + "-morph\">\n"@
        + "      <morph source=\"#"@ + frame_name(name, 0) + "-mesh\" method=\"NORMALIZED\">\n"@
        + targets_source_text(name, frames)
        + weights_source_text(name, frames)
        + "        <targets>\n"@
        + "          <input semantic=\"MORPH_TARGET\" source=\"#"@ + name + "-targets\"/>\n"@
        + "          <input semantic=\"MORPH_WEIGHT\" source=\"#"@ + name + "-weights\"/>\n"@
        + "        </targets>\n"@
        + "      </morph>\n"@
        + "    </controller>\n"@
}

/// The controller library: empty for a model with at most one frame.
#[verifier::opaque]
pub open spec fn controllers_text(name: Seq<char>, frames: nat) -> Seq<char> {
    "  <library_controllers>\n"@ + if frames > 1 {
        controller_text(name, frames)
    } else {
        Seq::empty()
    } + "  </library_controllers>\n"@
}

/// The scene: one node, which instantiates the geometry of frame 0.
#[verifier::opaque]
pub open spec fn scene_text(name: Seq<char>) -> Seq<char> {
    "  <library_visual_scenes><visual_scene id=\"Scene\" name=\"Scene\">"@ + "\n"@
        + "<node id=\""@ + frame_name(name, 0) + "\" name=\""@ + frame_name(name, 0)
        + "\" type=\"NODE\"><matrix sid=\"transform\">1 0 0 "@ + decimal(0)
        + " 0 1 0 0 0 0 1 0 0 0 0 1</matrix><instance_geometry url=\"#"@ + frame_name(name, 0)
        + "-mesh\"/></node>\n"@
        + "  </visual_scene></library_visual_scenes>"@ + "\n"@
        + "  <scene><instance_visual_scene url=\"#Scene\"/></scene>"@ + "\n"@
        + "</COLLADA>"@
}

/// The whole document of a model.
#[verifier::opaque]
pub open spec fn document_text(cem: &Model<TextVertex>) -> Seq<char> {
    HEADER@
        + meshes_text(
            "scene_root"@,
            cem.frames@,
            polygons_of(cem.materials@, cem.lod_levels@[0]@),
        )
        + "  </library_geometries>\n"@
        + controllers_text("scene_root"@, cem.frames@.len())
        + scene_text("scene_root"@)
}

/// Appends the source that lists the morph targets.
fn push_targets_source(string: &mut String, name: &str, frames: usize)
    requires
        frames > 1,
    ensures
        final(string)@ == old(string)@ + targets_source_text(name@, frames as nat),
{
    proof {
        reveal(targets_source_text);
    }
    let head = Ghost(string@);
    let tail = begin(string, "        <source id=\"");
    let tail = put(string, name, head, tail);
    let tail = put(string, "-targets\">\n", head, tail);
    let tail = put(string, "          <IDREF_array id=\"", head, tail);
    let tail = put(string, name, head, tail);
    let tail = put(string, "-targets-array\" count=\"", head, tail);
    let tail = put_decimal(string, (frames - 1) as u64, head, tail);
    let tail = put(string, "\">\n", head, tail);
    let ghost before = string@;
    let mut frame_index: usize = 1;
    assert(string@ =~= before + targets_text(name@, 1));
    while frame_index < frames
        invariant
            1 <= frame_index <= frames,
            string@ == before + targets_text(name@, frame_index as nat),
        decreases frames - frame_index,
    {
        let full_name = name_frame(name, frame_index);
        let lines = Ghost(targets_text(name@, frame_index as nat));
        let lines = put(string, "            ", Ghost(before), lines);
        let lines = put(string, full_name.as_str(), Ghost(before), lines);
        put(string, "-mesh\n", Ghost(before), lines);
        frame_index = frame_index + 1;
    }
    let tail = joined(string, Ghost(targets_text(name@, frames as nat)), head, tail);
    let tail = put(string, "          </IDREF_array>\n", head, tail);
    let tail = put(string, "<technique_common><accessor source=\"#", head, tail);
    let tail = put(string, name, head, tail);
    let tail = put(string, "-targets-array\" count=\"", head, tail);
    let tail = put_decimal(string, (frames - 1) as u64, head, tail);
    let tail = put(
        string,
        "\" stride=\"1\"><param name=\"IDREF\" type=\"IDREF\"/></accessor></technique_common>\n",
        head,
        tail,
    );
    put(string, "        </source>\n", head, tail);
}

/// Appends the source that lists the morph weights.
fn push_weights_source(string: &mut String, name: &str, frames: usize)
    requires
        frames > 1,
    ensures
        final(string)@ == old(string)@ + weights_source_text(name@, frames as nat),
{
    proof {
        reveal(weights_source_text);
    }
    let head = Ghost(string@);
    let tail = begin(string, "        <source id=\"");
    let tail = put(string, name, head, tail);
    let tail = put(string, "-weights\">\n", head, tail);
    let tail = put(string, "          <float_array id=\"", head, tail);
    let tail = put(string, name, head, tail);
    let tail = put(string, "-weights-array\" count=\"", head, tail);
    let tail = put_decimal(string, (frames - 1) as u64, head, tail);
    let tail = put(string, "\">", head, tail);
    let ghost before = string@;
    let mut frame_index: usize = 1;
    assert(string@ =~= before + weights_text(1));
    while frame_index < frames
        invariant
            1 <= frame_index <= frames,
            string@ == before + weights_text(frame_index as nat),
        decreases frames - frame_index,
    {
        let zeros = Ghost(weights_text(frame_index as nat));
        put(string, "0 ", Ghost(before), zeros);
        frame_index = frame_index + 1;
    }
    let tail = joined(string, Ghost(weights_text(frames as nat)), head, tail);
    let tail = put(string, "</float_array>\n", head, tail);
    let tail = put(string, "<technique_common><accessor source=\"#", head, tail);
    let tail = put(string, name, head, tail);
    let tail = put(string, "-weights-array\" count=\"", head, tail);
    let tail = put_decimal(string, (frames - 1) as u64, head, tail);
    let tail = put(
        string,
        "\" stride=\"1\"><param name=\"MORPH_WEIGHT\" type=\"float\"/></accessor></technique_common>\n",
        head,
        tail,
    );
    put(string, "        </source>\n", head, tail);
}

/// Appends the morph controller of a model with more than one frame.
fn push_controller(string: &mut String, name: &str, frames: usize)
    requires
        frames > 1,
    ensures
        final(string)@ == old(string)@ + controller_text(name@, frames as nat),
{
    proof {
        reveal(controller_text);
    }
    let base = name_frame(name, 0);
    let head = Ghost(string@);
    let tail = begin(string, "    <controller id=\"");
    let tail = put(string, name, head, tail);
    let tail = put(string, "-morph\" name=\"", head, tail);
    let tail = put(string, name, head, tail);
    let tail = put(string, "-morph\">\n", head, tail);
    let tail = put(string, "      <morph source=\"#", head, tail);
    let tail = put(string, base.as_str(), head, tail);
    let tail = put(string, "-mesh\" method=\"NORMALIZED\">\n", head, tail);
    push_targets_source(string, name, frames);
    let tail = joined(string, Ghost(targets_source_text(name@, frames as nat)), head, tail);
    push_weights_source(string, name, frames);
    let tail = joined(string, Ghost(weights_source_text(name@, frames as nat)), head, tail);
    let tail = put(string, "        <targets>\n", head, tail);
    let tail = put(string, "          <input semantic=\"MORPH_TARGET\" source=\"#", head, tail);
    let tail = put(string, name, head, tail);
    let tail = put(string, "-targets\"/>\n", head, tail);
    let tail = put(string, "          <input semantic=\"MORPH_WEIGHT\" source=\"#", head, tail);
    let tail = put(string, name, head, tail);
    let tail = put(string, "-weights\"/>\n", head, tail);
    let tail = put(string, "        </targets>\n", head, tail);
    let tail = put(string, "      </morph>\n", head, tail);
    put(string, "    </controller>\n", head, tail);
}

/// Appends the controller library.
fn push_controllers(string: &mut String, name: &str, frames: usize)
    ensures
        final(string)@ == old(string)@ + controllers_text(name@, frames as nat),
{
    proof {
        reveal(controllers_text);
    }
    let head = Ghost(string@);
    let tail = begin(string, "  <library_controllers>\n");
    if frames > 1 {
        push_controller(string, name, frames);
        let tail = joined(string, Ghost(controller_text(name@, frames as nat)), head, tail);
        put(string, "  </library_controllers>\n", head, tail);
    } else {
        let tail = joined(string, Ghost(Seq::<char>::empty()), head, tail);
        put(string, "  </library_controllers>\n", head, tail);
    }
}

/// Appends the scene and closes the document.
fn push_scene(string: &mut String, name: &str)
    ensures
        final(string)@ == old(string)@ + scene_text(name@),
{
    proof {
        reveal(scene_text);
    }
    let base = name_frame(name, 0);
    let head = Ghost(string@);
    let tail = begin(
        string,
        "  <library_visual_scenes><visual_scene id=\"Scene\" name=\"Scene\">",
    );
    let tail = put(string, "\n", head, tail);
    let tail = put(string, "<node id=\"", head, tail);
    let tail = put(string, base.as_str(), head, tail);
    let tail = put(string, "\" name=\"", head, tail);
    let tail = put(string, base.as_str(), head, tail);
    let tail = put(
        string,
        "\" type=\"NODE\"><matrix sid=\"transform\">1 0 0 ",
        head,
        tail,
    );
    let tail = put_decimal(string, 0, head, tail);
    let tail = put(
        string,
        " 0 1 0 0 0 0 1 0 0 0 0 1</matrix><instance_geometry url=\"#",
        head,
        tail,
    );
    let tail = put(string, base.as_str(), head, tail);
    let tail = put(string, "-mesh\"/></node>\n", head, tail);
    let tail = put(string, "  </visual_scene></library_visual_scenes>", head, tail);
    let tail = put(string, "\n", head, tail);
    let tail = put(string, "  <scene><instance_visual_scene url=\"#Scene\"/></scene>", head, tail);
    let tail = put(string, "\n", head, tail);
    put(string, "</COLLADA>", head, tail);
}

/// Writes the markup document of a model: one geometry per frame; where the
/// model has more than one frame, a morph controller that names every frame
/// but the first as a target of the first, each with the weight zero; and a
/// scene with one node, which instantiates the geometry of the first frame.
pub fn convert(cem: &Model<TextVertex>) -> (string: String)
    requires
        cem.selections_in_range(),
        3 * cem.lod_levels@[0]@.len() <= usize::MAX,
    ensures
        string@ == document_text(cem),
{
    proof {
        reveal(document_text);
    }
    let mut string = String::new();
    let head = Ghost(string@);
    let tail = begin(&mut string, HEADER);
    write_meshes("scene_root", cem, &mut string);
    let tail = joined(
        &string,
        Ghost(
            meshes_text(
                "scene_root"@,
                cem.frames@,
                polygons_of(cem.materials@, cem.lod_levels@[0]@),
            ),
        ),
        head,
        tail,
    );
    let tail = put(&mut string, "  </library_geometries>\n", head, tail);
    let name = "scene_root";
    push_controllers(&mut string, name, cem.frames.len());
    let tail = joined(
        &string,
        Ghost(controllers_text(name@, cem.frames@.len())),
        head,
        tail,
    );
    push_scene(&mut string, name);
    joined(&string, Ghost(scene_text(name@)), head, tail);
    assert(string@ =~= document_text(cem));
    string
}

/// Materials with the same content select the same triangles and move them
/// by the same offset.
pub proof fn lemma_polygons_agree(
    first: Seq<Material>,
    second: Seq<Material>,
    triangles: Seq<Triangle>,
)
    requires
        same_materials(first, second),
    ensures
        polygons_of(first, triangles) == polygons_of(second, triangles),
{
    assert forall|place: int| 0 <= place < 3 * triangles.len() implies polygon(
        first,
        triangles,
        place,
    ) == polygon(second, triangles, place) by {
        lemma_selecting_agrees(first, second, place / 3);
    }
    assert(polygons_of(first, triangles) =~= polygons_of(second, triangles));
}

/// Materials with the same content have the same last material that selects
/// a triangle, as far as its vertex offset goes.
proof fn lemma_selecting_agrees(first: Seq<Material>, second: Seq<Material>, place: int)
    requires
        same_materials(first, second),
    ensures
        match (selecting(first, place), selecting(second, place)) {
            (Some(a), Some(b)) => a.vertex_offset == b.vertex_offset,
            (None, None) => true,
            _ => false,
        },
    decreases first.len(),
{
    if first.len() > 0 {
        assert(same_material(first[first.len() - 1], second[second.len() - 1]));
        assert forall|m: int| 0 <= m < first.drop_last().len() implies same_material(
            #[trigger] first.drop_last()[m],
            second.drop_last()[m],
        ) by {
            assert(same_material(first[m], second[m]));
        }
        lemma_selecting_agrees(first.drop_last(), second.drop_last(), place);
    }
}

/// Frames with the same numbers have the same attribute arrays.
pub proof fn lemma_arrays_agree(first: Seq<TextVertex>, second: Seq<TextVertex>)
    requires
        same_frame(first, second),
    ensures
        positions_of(first) == positions_of(second),
        normals_of(first) == normals_of(second),
        map_of(first) == map_of(second),
    decreases first.len(),
{
    if first.len() > 0 {
        assert(same_numbers(first[first.len() - 1], second[second.len() - 1]));
        assert forall|i: int| 0 <= i < first.drop_last().len() implies same_numbers(
            #[trigger] first.drop_last()[i],
            second.drop_last()[i],
        ) by {
            assert(same_numbers(first[i], second[i]));
        }
        lemma_arrays_agree(first.drop_last(), second.drop_last());
    }
}

/// Frames with the same numbers have the same geometry blocks.
pub proof fn lemma_meshes_text_agrees(
    name: Seq<char>,
    first: Seq<Vec<TextVertex>>,
    second: Seq<Vec<TextVertex>>,
    polygons: Seq<u64>,
)
    requires
        first.len() == second.len(),
        forall|f: int| 0 <= f < first.len() ==> same_frame((#[trigger] first[f])@, second[f]@),
    ensures
        meshes_text(name, first, polygons) == meshes_text(name, second, polygons),
    decreases first.len(),
{
    reveal(frame_text);
    if first.len() > 0 {
        assert(same_frame(first[first.len() - 1]@, second[second.len() - 1]@));
        lemma_arrays_agree(first.last()@, second.last()@);
        assert forall|f: int| 0 <= f < first.drop_last().len() implies same_frame(
            (#[trigger] first.drop_last()[f])@,
            second.drop_last()[f]@,
        ) by {
            assert(same_frame(first[f]@, second[f]@));
        }
        lemma_meshes_text_agrees(name, first.drop_last(), second.drop_last(), polygons);
    }
}

/// The document of a model depends on nothing but the content of the model:
/// models that hold the same content yield the same document, character by
/// character.
pub proof fn lemma_same_content_same_document(
    first: &Model<TextVertex>,
    second: &Model<TextVertex>,
)
    requires
        same_content(first, second),
        first.lod_levels@.len() > 0,
    ensures
        document_text(first) == document_text(second),
{
    reveal(document_text);
    assert(first.lod_levels@[0]@ == second.lod_levels@[0]@);
    lemma_polygons_agree(first.materials@, second.materials@, first.lod_levels@[0]@);
    lemma_meshes_text_agrees(
        "scene_root"@,
        first.frames@,
        second.frames@,
        polygons_of(first.materials@, first.lod_levels@[0]@),
    );
}

/// What `convert` needs of a model: selections that lie inside the first
/// level of detail, and a face list whose length the machine can count.
pub open spec fn convertible(cem: &Model<TextVertex>) -> bool {
    cem.selections_in_range() && 3 * cem.lod_levels@[0]@.len() <= usize::MAX
}

/// Writes the markup document of a model, or nothing where the model has a
/// material without a selection inside its first level of detail, or more
/// triangles than a face list can hold.
pub fn try_convert(cem: &Model<TextVertex>) -> (string: Option<String>)
    ensures
        match string {
            Some(string) => convertible(cem) && string@ == document_text(cem),
            None => !convertible(cem),
        },
{
    if !cem.has_selections_in_range() {
        return None;
    }
    if cem.lod_levels[0].len() > usize::MAX / 3 {
        return None;
    }
    Some(convert(cem))
}

} // verus!
