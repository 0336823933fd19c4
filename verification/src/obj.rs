//! The split-indexed text format: import of a parsed object into the flat
//! model, and the text of one frame of a flat model.

use crate::dedup::{
    faces_of, flat_associations, lemma_flat_positions, triangle_matches, triangles_of,
};
use crate::frames::{
    build_model, is_flat_model, lemma_resolve_corner, lemma_vertex_count, MeshError,
};
use crate::mesh::{
    same_content, same_frame, same_material, same_materials, same_numbers, FlatVertex, Material,
    Model, Object, Shape, TextVertex, Triangle, VTNIndex,
};
use crate::sequences::{lemma_take_all, lemma_take_step};
use crate::text::{begin, decimal, joined, push_decimal, put, put_decimal};
use vstd::prelude::*;

verus! {

/// The corner names a position of `object`, and no texture coordinate or
/// normal that `object` does not have.
pub open spec fn corner_in_range<P, T, N>(object: &Object<P, T, N>, corner: VTNIndex) -> bool {
    &&& corner.0 < object.vertices@.len()
    &&& match corner.1 {
        Some(texture) => texture < object.tex_vertices@.len(),
        None => true,
    }
    &&& match corner.2 {
        Some(normal) => normal < object.normals@.len(),
        None => true,
    }
}

/// Every corner of each of `faces` is in range.
pub open spec fn faces_in_range<P, T, N>(
    object: &Object<P, T, N>,
    faces: Seq<(VTNIndex, VTNIndex, VTNIndex)>,
) -> bool {
    forall|j: int|
        0 <= j < faces.len() ==> {
            let face = #[trigger] faces[j];
            &&& corner_in_range(object, face.0)
            &&& corner_in_range(object, face.1)
            &&& corner_in_range(object, face.2)
        }
}

/// Every corner of every triangle of `object` is in range.
pub open spec fn corners_in_range<P, T, N>(object: &Object<P, T, N>) -> bool {
    faces_in_range(object, faces_of(object.geometry@))
}

/// Decides `corner_in_range`.
fn is_corner_in_range<P, T, N>(object: &Object<P, T, N>, corner: VTNIndex) -> (ok: bool)
    ensures
        ok == corner_in_range(object, corner),
{
    corner.0 < object.vertices.len() && match corner.1 {
        Some(texture) => texture < object.tex_vertices.len(),
        None => true,
    } && match corner.2 {
        Some(normal) => normal < object.normals.len(),
        None => true,
    }
}

/// Decides `corners_in_range`.
pub fn has_corners_in_range<P, T, N>(object: &Object<P, T, N>) -> (ok: bool)
    ensures
        ok == corners_in_range(object),
{
    let mut g: usize = 0;
    while g < object.geometry.len()
        invariant
            0 <= g <= object.geometry.len(),
            faces_in_range(object, faces_of(object.geometry@.take(g as int))),
        decreases object.geometry.len() - g,
    {
        let shapes = &object.geometry[g];
        let ghost done = faces_of(object.geometry@.take(g as int));
        let mut s: usize = 0;
        while s < shapes.len()
            invariant
                0 <= s <= shapes.len(),
                0 <= g < object.geometry.len(),
                *shapes == object.geometry@[g as int],
                done == faces_of(object.geometry@.take(g as int)),
                faces_in_range(object, done + triangles_of(shapes@.take(s as int))),
            decreases shapes.len() - s,
        {
            let ghost before = done + triangles_of(shapes@.take(s as int));
            let ghost after = done + triangles_of(shapes@.take(s + 1));
            proof {
                lemma_take_step(shapes@, s as int);
            }
            match shapes[s] {
                Shape::Triangle(a, b, c) => {
                    assert(after =~= before.push((a, b, c)));
                    if !(is_corner_in_range(object, a) && is_corner_in_range(object, b)
                        && is_corner_in_range(object, c)) {
                        proof {
                            assert(after[after.len() - 1] == (a, b, c));
                            lemma_faces_prefix(object.geometry@, g as int, s + 1);
                            let all = faces_of(object.geometry@);
                            assert(all[after.len() - 1] == (a, b, c));
                        }
                        return false;
                    }
                    assert forall|j: int| 0 <= j < after.len() implies {
                        let face = #[trigger] after[j];
                        &&& corner_in_range(object, face.0)
                        &&& corner_in_range(object, face.1)
                        &&& corner_in_range(object, face.2)
                    } by {
                        if j < before.len() {
                            assert(after[j] == before[j]);
                        }
                    }
                },
                _ => {
                    assert(after =~= before);
                },
            }
            s = s + 1;
        }
        proof {
            lemma_take_all(shapes@);
            lemma_take_step(object.geometry@, g as int);
        }
        g = g + 1;
    }
    proof {
        lemma_take_all(object.geometry@);
    }
    true
}

/// The triangles met up to shape `s` of face list `g` come first among all
/// triangles.
proof fn lemma_faces_prefix(geometry: Seq<Vec<Shape>>, g: int, s: int)
    requires
        0 <= g < geometry.len(),
        0 <= s <= geometry[g]@.len(),
    ensures
        (faces_of(geometry.take(g)) + triangles_of(geometry[g]@.take(s))).is_prefix_of(
            faces_of(geometry),
        ),
{
    lemma_triangles_prefix(geometry[g]@, s);
    lemma_take_step(geometry, g);
    assert(faces_of(geometry.take(g + 1)) == faces_of(geometry.take(g)) + triangles_of(
        geometry[g]@,
    ));
    lemma_geometry_prefix(geometry, g + 1);
}

/// The triangles of a prefix of a face list come first among its triangles.
proof fn lemma_triangles_prefix(shapes: Seq<Shape>, s: int)
    requires
        0 <= s <= shapes.len(),
    ensures
        triangles_of(shapes.take(s)).is_prefix_of(triangles_of(shapes)),
    decreases shapes.len() - s,
{
    if s < shapes.len() {
        lemma_take_step(shapes, s);
        lemma_triangles_prefix(shapes, s + 1);
    } else {
        lemma_take_all(shapes);
    }
}

/// The triangles of the first face lists come first among all triangles.
proof fn lemma_geometry_prefix(geometry: Seq<Vec<Shape>>, g: int)
    requires
        0 <= g <= geometry.len(),
    ensures
        faces_of(geometry.take(g)).is_prefix_of(faces_of(geometry)),
    decreases geometry.len() - g,
{
    if g < geometry.len() {
        lemma_take_step(geometry, g);
        lemma_geometry_prefix(geometry, g + 1);
    } else {
        lemma_take_all(geometry);
    }
}

/// What keeps a parsed object from becoming a flat model, if anything.
pub open spec fn object_error<P, T, N>(object: &Object<P, T, N>) -> Option<MeshError> {
    if !corners_in_range(object) {
        Some(MeshError::IndexOutOfRange)
    } else if flat_associations(
        object.geometry@,
        object.tex_vertices.len(),
        object.normals.len(),
    ).len() > u32::MAX || faces_of(object.geometry@).len() > u32::MAX {
        Some(MeshError::TooLarge)
    } else {
        None
    }
}

/// Converts a parsed object into a flat model with one frame. Its triangle
/// corners are deduplicated in first-encounter order; each flat vertex
/// carries the position, texture coordinate and normal that its corner
/// references, or the given default where the corner has no reference.
/// Points and lines are skipped.
pub fn obj_to_cem<P: Copy, T: Copy, N: Copy>(
    i: &Object<P, T, N>,
    default_texture: T,
    default_normal: N,
) -> (result: Result<Model<FlatVertex<P, T, N>>, MeshError>)
    ensures
        match result {
            Ok(model) => {
                &&& object_error(i) is None
                &&& is_flat_model(&model, i, Seq::empty(), default_texture, default_normal)
            },
            Err(error) => object_error(i) == Some(error),
        },
{
    if !has_corners_in_range(i) {
        return Err(MeshError::IndexOutOfRange);
    }
    proof {
        lemma_flat_positions(
            i.geometry@,
            i.tex_vertices.len(),
            i.normals.len(),
            i.vertices@.len(),
        );
    }
    let frames: Vec<&Object<P, T, N>> = Vec::new();
    assert(frames@.unref() =~= Seq::<Object<P, T, N>>::empty());
    build_model(i, &frames, default_texture, default_normal)
}

/// What the source says of a face corner: the position it names, and the
/// texture coordinate and normal it names or, without a reference, the
/// defaults.
pub open spec fn corner_vertex<P, T, N>(
    object: &Object<P, T, N>,
    corner: VTNIndex,
    default_texture: T,
    default_normal: N,
) -> FlatVertex<P, T, N> {
    FlatVertex {
        position: object.vertices@[corner.0 as int],
        normal: match corner.2 {
            Some(normal) => object.normals@[normal as int],
            None => default_normal,
        },
        texture: match corner.1 {
            Some(texture) => object.tex_vertices@[texture as int],
            None => default_texture,
        },
    }
}

/// The way there and back, as far as indices carry it: the flat model of an
/// object whose corners are in range has one triangle per triangle of the
/// object, in the same order and with the same winding; its one material
/// selects them all, so that an emitter writes each of them once; and the
/// flat vertex that a triangle names at a corner holds exactly the values
/// that the object's face names at that corner.
pub proof fn lemma_round_trip<P, T, N>(
    model: &Model<FlatVertex<P, T, N>>,
    object: &Object<P, T, N>,
    default_texture: T,
    default_normal: N,
)
    requires
        corners_in_range(object),
        is_flat_model(model, object, Seq::empty(), default_texture, default_normal),
    ensures
        model.selections_in_range(),
        model.lod_levels@[0]@.len() == faces_of(object.geometry@).len(),
        model.materials@.len() == 1,
        model.materials@[0].vertex_offset == 0,
        model.materials@[0].triangles@[0].offset == 0,
        model.materials@[0].triangles@[0].len == faces_of(object.geometry@).len(),
        model.frames@.len() == 1,
        forall|j: int|
            0 <= j < faces_of(object.geometry@).len() ==> {
                let triangle = #[trigger] model.lod_levels@[0]@[j];
                let face = faces_of(object.geometry@)[j];
                let vertices = model.frames@[0]@;
                &&& triangle.0 < vertices.len()
                &&& triangle.1 < vertices.len()
                &&& triangle.2 < vertices.len()
                &&& vertices[triangle.0 as int] == corner_vertex(
                    object,
                    face.0,
                    default_texture,
                    default_normal,
                )
                &&& vertices[triangle.1 as int] == corner_vertex(
                    object,
                    face.1,
                    default_texture,
                    default_normal,
                )
                &&& vertices[triangle.2 as int] == corner_vertex(
                    object,
                    face.2,
                    default_texture,
                    default_normal,
                )
            },
{
    lemma_vertex_count(model, object, Seq::empty(), default_texture, default_normal);
    let faces = faces_of(object.geometry@);
    let flat = flat_associations(
        object.geometry@,
        object.tex_vertices.len(),
        object.normals.len(),
    );
    assert forall|j: int| 0 <= j < faces.len() implies {
        let triangle = #[trigger] model.lod_levels@[0]@[j];
        let face = faces[j];
        let vertices = model.frames@[0]@;
        &&& triangle.0 < vertices.len()
        &&& triangle.1 < vertices.len()
        &&& triangle.2 < vertices.len()
        &&& vertices[triangle.0 as int] == corner_vertex(
            object,
            face.0,
            default_texture,
            default_normal,
        )
        &&& vertices[triangle.1 as int] == corner_vertex(
            object,
            face.1,
            default_texture,
            default_normal,
        )
        &&& vertices[triangle.2 as int] == corner_vertex(
            object,
            face.2,
            default_texture,
            default_normal,
        )
    } by {
        let triangle = model.lod_levels@[0]@[j];
        let face = faces[j];
        assert(triangle_matches(
            triangle,
            face,
            flat,
            object.tex_vertices.len(),
            object.normals.len(),
        ));
        assert(corner_in_range(object, face.0));
        assert(corner_in_range(object, face.1));
        assert(corner_in_range(object, face.2));
        lemma_resolve_corner(object, face.0, default_texture, default_normal);
        lemma_resolve_corner(object, face.1, default_texture, default_normal);
        lemma_resolve_corner(object, face.2, default_texture, default_normal);
    }
}

/// The three lines of one vertex: position, normal, texture coordinate.
#[verifier::opaque]
pub open spec fn vertex_text(vertex: TextVertex) -> Seq<char> {
    "v "@ + vertex.position.0@ + " "@ + vertex.position.1@ + " "@ + vertex.position.2@ + "\n"@
        + "vn "@ + vertex.normal.0@ + " "@ + vertex.normal.1@ + " "@ + vertex.normal.2@ + "\n"@
        + "vt "@ + vertex.texture.0@ + " "@ + vertex.texture.1@ + "\n"@
}

/// The lines of the vertices of a frame, in index order.
pub open spec fn vertices_text(vertices: Seq<TextVertex>) -> Seq<char>
    decreases vertices.len(),
{
    if vertices.len() == 0 {
        Seq::empty()
    } else {
        vertices_text(vertices.drop_last()) + vertex_text(vertices.last())
    }
}

/// One face corner: the 1-based flat index, once for each of position,
/// texture coordinate and normal.
#[verifier::opaque]
pub open spec fn corner_text(index: nat) -> Seq<char> {
    decimal(index) + "/"@ + decimal(index) + "/"@ + decimal(index)
}

/// The line of one triangle of a material with the given vertex offset.
#[verifier::opaque]
pub open spec fn face_text(vertex_offset: u32, triangle: Triangle) -> Seq<char> {
    "f "@ + corner_text((vertex_offset + triangle.0 + 1) as nat)
        + " "@ + corner_text((vertex_offset + triangle.1 + 1) as nat)
        + " "@ + corner_text((vertex_offset + triangle.2 + 1) as nat)
        + "\n"@
}

/// The lines of `count` triangles, starting with the one at `first`.
pub open spec fn faces_text(
    triangles: Seq<Triangle>,
    vertex_offset: u32,
    first: int,
    count: nat,
) -> Seq<char>
    decreases count,
{
    if count == 0 {
        Seq::empty()
    } else {
        faces_text(triangles, vertex_offset, first, (count - 1) as nat) + face_text(
            vertex_offset,
            triangles[first + count - 1],
        )
    }
}

/// The comment line of a material, and the lines of the triangles of its
/// first selection.
#[verifier::opaque]
pub open spec fn material_text(material: Material, triangles: Seq<Triangle>) -> Seq<char> {
    "# name: "@ + material.name@ + ", texture: "@ + decimal(material.texture as nat)
        + ", texture_name: "@ + material.texture_name@ + "\n"@
        + faces_text(
            triangles,
            material.vertex_offset,
            material.triangles@[0].offset as int,
            material.triangles@[0].len as nat,
        )
}

/// The text of the materials, in order.
pub open spec fn materials_text(materials: Seq<Material>, triangles: Seq<Triangle>) -> Seq<char>
    decreases materials.len(),
{
    if materials.len() == 0 {
        Seq::empty()
    } else {
        materials_text(materials.drop_last(), triangles) + material_text(
            materials.last(),
            triangles,
        )
    }
}

/// The text of one frame of a model: every vertex of the frame, then every
/// material with its faces.
#[verifier::opaque]
pub open spec fn obj_text(cem: &Model<TextVertex>, frame_index: int) -> Seq<char> {
    vertices_text(cem.frames@[frame_index]@)
        + materials_text(cem.materials@, cem.lod_levels@[0]@)
}

/// Appends the three lines of one vertex.
fn push_vertex(out: &mut String, vertex: &TextVertex)
    ensures
        final(out)@ == old(out)@ + vertex_text(*vertex),
{
    proof {
        reveal(vertex_text);
    }
    let head = Ghost(out@);
    let tail = begin(out, "v ");
    let tail = put(out, vertex.position.0.as_str(), head, tail);
    let tail = put(out, " ", head, tail);
    let tail = put(out, vertex.position.1.as_str(), head, tail);
    let tail = put(out, " ", head, tail);
    let tail = put(out, vertex.position.2.as_str(), head, tail);
    let tail = put(out, "\n", head, tail);
    let tail = put(out, "vn ", head, tail);
    let tail = put(out, vertex.normal.0.as_str(), head, tail);
    let tail = put(out, " ", head, tail);
    let tail = put(out, vertex.normal.1.as_str(), head, tail);
    let tail = put(out, " ", head, tail);
    let tail = put(out, vertex.normal.2.as_str(), head, tail);
    let tail = put(out, "\n", head, tail);
    let tail = put(out, "vt ", head, tail);
    let tail = put(out, vertex.texture.0.as_str(), head, tail);
    let tail = put(out, " ", head, tail);
    let tail = put(out, vertex.texture.1.as_str(), head, tail);
    put(out, "\n", head, tail);
}

/// Appends one face corner.
fn push_corner(out: &mut String, index: u64)
    ensures
        final(out)@ == old(out)@ + corner_text(index as nat),
{
    proof {
        reveal(corner_text);
    }
    let head = Ghost(out@);
    push_decimal(out, index);
    let tail = Ghost(decimal(index as nat));
    let tail = put(out, "/", head, tail);
    let tail = put_decimal(out, index, head, tail);
    let tail = put(out, "/", head, tail);
    put_decimal(out, index, head, tail);
}

/// Appends the line of one triangle.
fn push_face(out: &mut String, vertex_offset: u32, triangle: Triangle)
    ensures
        final(out)@ == old(out)@ + face_text(vertex_offset, triangle),
{
    proof {
        reveal(face_text);
    }
    let first = vertex_offset as u64 + triangle.0 as u64 + 1;
    let second = vertex_offset as u64 + triangle.1 as u64 + 1;
    let third = vertex_offset as u64 + triangle.2 as u64 + 1;
    let head = Ghost(out@);
    let tail = begin(out, "f ");
    push_corner(out, first);
    let tail = joined(out, Ghost(corner_text(first as nat)), head, tail);
    let tail = put(out, " ", head, tail);
    push_corner(out, second);
    let tail = joined(out, Ghost(corner_text(second as nat)), head, tail);
    let tail = put(out, " ", head, tail);
    push_corner(out, third);
    let tail = joined(out, Ghost(corner_text(third as nat)), head, tail);
    put(out, "\n", head, tail);
}

/// Appends the comment line of a material and the lines of its triangles.
fn push_material(out: &mut String, material: &Material, triangle_data: &Vec<Triangle>)
    requires
        material.triangles@.len() > 0,
        material.triangles@[0].offset + material.triangles@[0].len <= triangle_data@.len(),
    ensures
        final(out)@ == old(out)@ + material_text(*material, triangle_data@),
{
    proof {
        reveal(material_text);
    }
    let triangle_slice = material.triangles[0];
    let head = Ghost(out@);
    let tail = begin(out, "# name: ");
    let tail = put(out, material.name.as_str(), head, tail);
    let tail = put(out, ", texture: ", head, tail);
    let tail = put_decimal(out, material.texture as u64, head, tail);
    let tail = put(out, ", texture_name: ", head, tail);
    let tail = put(out, material.texture_name.as_str(), head, tail);
    let tail = put(out, "\n", head, tail);
    let ghost before = out@;
    let mut index: u32 = 0;
    assert(out@ =~= before + faces_text(
        triangle_data@,
        material.vertex_offset,
        triangle_slice.offset as int,
        0,
    ));
    while index < triangle_slice.len
        invariant
            0 <= index <= triangle_slice.len,
            triangle_slice.offset + triangle_slice.len <= triangle_data@.len(),
            out@ == before + faces_text(
                triangle_data@,
                material.vertex_offset,
                triangle_slice.offset as int,
                index as nat,
            ),
        decreases triangle_slice.len - index,
    {
        assert(triangle_data.len() <= usize::MAX);
        let place = triangle_slice.offset as usize + index as usize;
        let lines = Ghost(
            faces_text(
                triangle_data@,
                material.vertex_offset,
                triangle_slice.offset as int,
                index as nat,
            ),
        );
        push_face(out, material.vertex_offset, triangle_data[place]);
        joined(
            out,
            Ghost(face_text(material.vertex_offset, triangle_data@[place as int])),
            Ghost(before),
            lines,
        );
        index = index + 1;
    }
    joined(
        out,
        Ghost(
            faces_text(
                triangle_data@,
                material.vertex_offset,
                triangle_slice.offset as int,
                triangle_slice.len as nat,
            ),
        ),
        head,
        tail,
    );
}

/// Writes one frame of a model in the split-indexed text format: per vertex
/// its position, normal and texture coordinate; per material a comment line
/// and, for each triangle of its first selection, a face whose corners name
/// the same 1-based flat index three times.
pub fn cem2_to_obj(cem: &Model<TextVertex>, frame_index: usize) -> (string: String)
    requires
        frame_index < cem.frames@.len(),
        cem.selections_in_range(),
    ensures
        string@ == obj_text(cem, frame_index as int),
{
    proof {
        reveal(obj_text);
    }
    let triangle_data = &cem.lod_levels[0];
    let frame = &cem.frames[frame_index];
    let mut string = String::new();
    let head = Ghost(string@);
    let mut v: usize = 0;
    assert(string@ =~= head@ + vertices_text(frame@.take(0)));
    while v < frame.len()
        invariant
            0 <= v <= frame.len(),
            string@ == head@ + vertices_text(frame@.take(v as int)),
        decreases frame.len() - v,
    {
        proof {
            lemma_take_step(frame@, v as int);
        }
        let lines = Ghost(vertices_text(frame@.take(v as int)));
        push_vertex(&mut string, &frame[v]);
        joined(&string, Ghost(vertex_text(frame@[v as int])), head, lines);
        v = v + 1;
    }
    proof {
        lemma_take_all(frame@);
    }
    let tail = Ghost(vertices_text(frame@));
    let ghost before = string@;
    let mut m: usize = 0;
    assert(string@ =~= before + materials_text(cem.materials@.take(0), triangle_data@));
    while m < cem.materials.len()
        invariant
            0 <= m <= cem.materials.len(),
            cem.selections_in_range(),
            *triangle_data == cem.lod_levels@[0],
            string@ == before + materials_text(cem.materials@.take(m as int), triangle_data@),
        decreases cem.materials.len() - m,
    {
        proof {
            lemma_take_step(cem.materials@, m as int);
        }
        let blocks = Ghost(materials_text(cem.materials@.take(m as int), triangle_data@));
        push_material(&mut string, &cem.materials[m], triangle_data);
        joined(
            &string,
            Ghost(material_text(cem.materials@[m as int], triangle_data@)),
            Ghost(before),
            blocks,
        );
        m = m + 1;
    }
    proof {
        lemma_take_all(cem.materials@);
    }
    joined(
        &string,
        Ghost(materials_text(cem.materials@, triangle_data@)),
        head,
        tail,
    );
    assert(string@ =~= obj_text(cem, frame_index as int));
    string
}

/// Frames with the same numbers have the same vertex lines.
pub proof fn lemma_vertices_text_agrees(first: Seq<TextVertex>, second: Seq<TextVertex>)
    requires
        same_frame(first, second),
    ensures
        vertices_text(first) == vertices_text(second),
    decreases first.len(),
{
    reveal(vertex_text);
    if first.len() > 0 {
        assert(same_numbers(first[first.len() - 1], second[second.len() - 1]));
        assert forall|i: int| 0 <= i < first.drop_last().len() implies same_numbers(
            #[trigger] first.drop_last()[i],
            second.drop_last()[i],
        ) by {
            assert(same_numbers(first[i], second[i]));
        }
        lemma_vertices_text_agrees(first.drop_last(), second.drop_last());
    }
}

/// Materials with the same content have the same text.
pub proof fn lemma_materials_text_agrees(
    first: Seq<Material>,
    second: Seq<Material>,
    triangles: Seq<Triangle>,
)
    requires
        same_materials(first, second),
    ensures
        materials_text(first, triangles) == materials_text(second, triangles),
    decreases first.len(),
{
    reveal(material_text);
    if first.len() > 0 {
        assert(same_material(first[first.len() - 1], second[second.len() - 1]));
        assert forall|m: int| 0 <= m < first.drop_last().len() implies same_material(
            #[trigger] first.drop_last()[m],
            second.drop_last()[m],
        ) by {
            assert(same_material(first[m], second[m]));
        }
        lemma_materials_text_agrees(first.drop_last(), second.drop_last(), triangles);
    }
}

/// The text of a frame depends on nothing but the content of the model:
/// models that hold the same content yield the same text, character by
/// character.
pub proof fn lemma_same_content_same_text(
    first: &Model<TextVertex>,
    second: &Model<TextVertex>,
    frame_index: int,
)
    requires
        same_content(first, second),
        0 <= frame_index < first.frames@.len(),
        first.lod_levels@.len() > 0,
    ensures
        obj_text(first, frame_index) == obj_text(second, frame_index),
{
    reveal(obj_text);
    assert(same_frame(first.frames@[frame_index]@, second.frames@[frame_index]@));
    lemma_vertices_text_agrees(first.frames@[frame_index]@, second.frames@[frame_index]@);
    assert(first.lod_levels@[0]@ == second.lod_levels@[0]@);
    lemma_materials_text_agrees(first.materials@, second.materials@, first.lod_levels@[0]@);
}

/// Why a frame of a model cannot be written out.
#[derive(Clone, Copy, Debug, PartialEq, Eq)]
pub enum ExtractError {
    /// The model has fewer frames than the frame index asks for.
    FrameOutOfRange {
        /// The frame index asked for.
        frame_index: usize,
        /// The number of frames of the model.
        frames: usize,
    },
    /// The model has no level of detail, or a material without a selection
    /// that lies inside the first level of detail.
    SelectionOutOfRange,
}

/// Writes the frame at `frame_index` in the split-indexed text format, or
/// says why the model has no such text.
pub fn extract_obj(cem: &Model<TextVertex>, frame_index: usize) -> (result: Result<
    String,
    ExtractError,
>)
    ensures
        match result {
            Ok(string) => {
                &&& frame_index < cem.frames@.len()
                &&& cem.selections_in_range()
                &&& string@ == obj_text(cem, frame_index as int)
            },
            Err(ExtractError::FrameOutOfRange { frame_index: index, frames }) => {
                &&& frame_index >= cem.frames@.len()
                &&& index == frame_index
                &&& frames == cem.frames@.len()
            },
            Err(ExtractError::SelectionOutOfRange) => {
                &&& frame_index < cem.frames@.len()
                &&& !cem.selections_in_range()
            },
        },
{
    if frame_index >= cem.frames.len() {
        return Err(ExtractError::FrameOutOfRange { frame_index, frames: cem.frames.len() });
    }
    if !cem.has_selections_in_range() {
        return Err(ExtractError::SelectionOutOfRange);
    }
    Ok(cem2_to_obj(cem, frame_index))
}

impl ExtractError {
    /// The diagnostic line of the error.
    pub open spec fn text(self) -> Seq<char> {
        match self {
            ExtractError::FrameOutOfRange { frame_index, frames } => "Tried to extract frame index "@
                + decimal(frame_index as nat) + " from a CEM file that only has "@ + decimal(
                frames as nat,
            ) + " frames"@,
            ExtractError::SelectionOutOfRange =>
                "A material selects triangles that the model does not have"@,
        }
    }

    /// Writes the diagnostic line of the error.
    pub fn message(&self) -> (line: String)
        ensures
            line@ == self.text(),
    {
        match self {
            ExtractError::FrameOutOfRange { frame_index, frames } => {
                let mut line = String::from_str("Tried to extract frame index ");
                let head = Ghost(Seq::<char>::empty());
                let tail = Ghost(line@);
                assert(line@ =~= head@ + tail@);
                let tail = put_decimal(&mut line, *frame_index as u64, head, tail);
                let tail = put(&mut line, " from a CEM file that only has ", head, tail);
                let tail = put_decimal(&mut line, *frames as u64, head, tail);
                let tail = put(&mut line, " frames", head, tail);
                assert(line@ =~= tail@);
                line
            },
            ExtractError::SelectionOutOfRange => String::from_str(
                "A material selects triangles that the model does not have",
            ),
        }
    }
}

} // verus!
