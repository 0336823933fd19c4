//! Frame materialization: from the deduplicated faces of a base object and
//! the source arrays of each frame object to the flat model.

use crate::dedup::{
    canonical, canonical_corners, faces_of, first_occurrences, flat_associations, flatten_faces,
    lemma_first_occurrences, triangle_matches,
};
use crate::mesh::{
    models_agree, Association, FlatVertex, Material, Model, Object, TriangleSelection, VTNIndex,
};
use crate::sequences::lemma_take_all;
use crate::topology::{first_mismatch, lemma_same_topology_validates, same_topology};
use vstd::prelude::*;

verus! {

/// Why the faces of an object cannot become a flat model.
#[derive(Clone, Copy, Debug, PartialEq, Eq)]
pub enum MeshError {
    /// A face corner names a position, or a present texture coordinate or
    /// normal, that its object does not have.
    IndexOutOfRange,
    /// The model has more flat vertices or triangles than a 32-bit count
    /// holds.
    TooLarge,
}

impl MeshError {
    /// The diagnostic line of the error.
    pub open spec fn text(self) -> Seq<char> {
        match self {
            MeshError::IndexOutOfRange =>
                "a face corner references a value that its object does not have"@,
            MeshError::TooLarge =>
                "the model has more vertices or triangles than a 32-bit count holds"@,
        }
    }

    /// Writes the diagnostic line of the error.
    pub fn message(&self) -> (line: String)
        ensures
            line@ == self.text(),
    {
        match self {
            MeshError::IndexOutOfRange => String::from_str(
                "a face corner references a value that its object does not have",
            ),
            MeshError::TooLarge => String::from_str(
                "the model has more vertices or triangles than a 32-bit count holds",
            ),
        }
    }
}

/// The flat vertex that a canonical triple stands for in `from`: the
/// position at its first index; the texture coordinate at its second, or
/// the default where `from` has none there; the normal likewise.
pub open spec fn resolve<P, T, N>(
    from: &Object<P, T, N>,
    association: Association,
    default_texture: T,
    default_normal: N,
) -> FlatVertex<P, T, N> {
    FlatVertex {
        position: from.vertices@[association.0 as int],
        normal: if association.2 < from.normals@.len() {
            from.normals@[association.2 as int]
        } else {
            default_normal
        },
        texture: if association.1 < from.tex_vertices@.len() {
            from.tex_vertices@[association.1 as int]
        } else {
            default_texture
        },
    }
}

/// The flat vertices that the triples stand for in `from`.
pub open spec fn resolved<P, T, N>(
    from: &Object<P, T, N>,
    associations: Seq<Association>,
    default_texture: T,
    default_normal: N,
) -> Seq<FlatVertex<P, T, N>> {
    Seq::new(
        associations.len(),
        |i: int| resolve(from, associations[i], default_texture, default_normal),
    )
}

/// Every triple names a position that `from` has.
pub open spec fn positions_in_range<P, T, N>(
    from: &Object<P, T, N>,
    associations: Seq<Association>,
) -> bool {
    forall|i: int|
        0 <= i < associations.len() ==> (#[trigger] associations[i]).0 < from.vertices@.len()
}

/// What a face corner resolves to. A corner without a texture reference
/// gets the default texture coordinate, one without a normal reference the
/// default normal; a reference that `from` can follow yields the value that
/// it names.
pub proof fn lemma_resolve_corner<P, T, N>(
    from: &Object<P, T, N>,
    vertex: VTNIndex,
    default_texture: T,
    default_normal: N,
)
    ensures
        ({
            let flat = resolve(
                from,
                canonical(vertex, from.tex_vertices.len(), from.normals.len()),
                default_texture,
                default_normal,
            );
            &&& flat.position == from.vertices@[vertex.0 as int]
            &&& match vertex.1 {
                Some(texture) => texture < from.tex_vertices@.len() ==> flat.texture
                    == from.tex_vertices@[texture as int],
                None => flat.texture == default_texture,
            }
            &&& match vertex.2 {
                Some(normal) => normal < from.normals@.len() ==> flat.normal
                    == from.normals@[normal as int],
                None => flat.normal == default_normal,
            }
        }),
{
}

/// Materializes one frame: for each recorded triple, in order, the flat
/// vertex that it stands for in `from`. Gives nothing where a triple names a
/// position that `from` does not have.
pub fn extract_frame<P: Copy, T: Copy, N: Copy>(
    from: &Object<P, T, N>,
    indices: &Vec<Association>,
    default_texture: T,
    default_normal: N,
) -> (frame: Option<Vec<FlatVertex<P, T, N>>>)
    ensures
        frame is Some <==> positions_in_range(from, indices@),
        frame matches Some(vertices) ==> vertices@ == resolved(
            from,
            indices@,
            default_texture,
            default_normal,
        ),
{
    let mut vertices: Vec<FlatVertex<P, T, N>> = Vec::new();
    let mut i: usize = 0;
    while i < indices.len()
        invariant
            0 <= i <= indices.len(),
            positions_in_range(from, indices@.take(i as int)),
            vertices@ == resolved(
                from,
                indices@.take(i as int),
                default_texture,
                default_normal,
            ),
        decreases indices.len() - i,
    {
        let (position, texture, normal) = indices[i];
        if position >= from.vertices.len() {
            return None;
        }
        let vertex = FlatVertex {
            position: from.vertices[position],
            normal: if normal < from.normals.len() {
                from.normals[normal]
            } else {
                default_normal
            },
            texture: if texture < from.tex_vertices.len() {
                from.tex_vertices[texture]
            } else {
                default_texture
            },
        };
        vertices.push(vertex);
        proof {
            assert(vertices@ =~= resolved(
                from,
                indices@.take(i + 1),
                default_texture,
                default_normal,
            ));
        }
        i = i + 1;
    }
    proof {
        lemma_take_all(indices@);
    }
    Some(vertices)
}

/// The material of an imported model: unnamed, untextured, and spanning the
/// whole triangle buffer and every vertex.
pub open spec fn is_whole_material(material: Material, triangles: nat, vertices: nat) -> bool {
    &&& material.name@ == Seq::<char>::empty()
    &&& material.texture == 0
    &&& material.triangles@.len() == 1
    &&& material.triangles@[0].offset == 0
    &&& material.triangles@[0].len == triangles
    &&& material.vertex_offset == 0
    &&& material.vertex_count == vertices
    &&& material.texture_name@ == Seq::<char>::empty()
}

/// What keeps `base` and its frames from becoming a flat model, if anything.
pub open spec fn mesh_error<P, T, N>(
    base: &Object<P, T, N>,
    frames: Seq<Object<P, T, N>>,
) -> Option<MeshError> {
    let flat = flat_associations(base.geometry@, base.tex_vertices.len(), base.normals.len());
    if flat.len() > u32::MAX || faces_of(base.geometry@).len() > u32::MAX {
        Some(MeshError::TooLarge)
    } else if !(positions_in_range(base, flat) && forall|k: int|
        0 <= k < frames.len() ==> positions_in_range(&#[trigger] frames[k], flat)) {
        Some(MeshError::IndexOutOfRange)
    } else {
        None
    }
}

/// `model` is the flat model of `base` with the morph frames `frames`:
/// nothing keeps them from becoming one; it has one triangle buffer,
/// rewritten from the faces of `base`; one material; and one frame per
/// object, each materialized from the same association list.
pub open spec fn is_flat_model<P, T, N>(
    model: &Model<FlatVertex<P, T, N>>,
    base: &Object<P, T, N>,
    frames: Seq<Object<P, T, N>>,
    default_texture: T,
    default_normal: N,
) -> bool {
    let invalid_texture_index = base.tex_vertices.len();
    let invalid_normal_index = base.normals.len();
    let flat = flat_associations(base.geometry@, invalid_texture_index, invalid_normal_index);
    let faces = faces_of(base.geometry@);
    &&& mesh_error(base, frames) is None
    &&& model.lod_levels@.len() == 1
    &&& model.lod_levels@[0]@.len() == faces.len()
    &&& forall|j: int|
        0 <= j < faces.len() ==> triangle_matches(
            #[trigger] model.lod_levels@[0]@[j],
            faces[j],
            flat,
            invalid_texture_index,
            invalid_normal_index,
        )
    &&& model.materials@.len() == 1
    &&& is_whole_material(model.materials@[0], faces.len(), flat.len())
    &&& model.frames@.len() == 1 + frames.len()
    &&& model.frames@[0]@ == resolved(base, flat, default_texture, default_normal)
    &&& forall|f: int|
        1 <= f < model.frames@.len() ==> (#[trigger] model.frames@[f])@ == resolved(
            &frames[f - 1],
            flat,
            default_texture,
            default_normal,
        )
}

/// Builds the flat model of `base` and its morph frames. The faces of
/// `base` are deduplicated once; every frame is then materialized from the
/// resulting association list, the base first.
pub fn build_model<P: Copy, T: Copy, N: Copy>(
    base: &Object<P, T, N>,
    frames: &Vec<&Object<P, T, N>>,
    default_texture: T,
    default_normal: N,
) -> (result: Result<Model<FlatVertex<P, T, N>>, MeshError>)
    ensures
        match result {
            Ok(model) => is_flat_model(
                &model,
                base,
                frames@.unref(),
                default_texture,
                default_normal,
            ),
            Err(error) => mesh_error(base, frames@.unref()) == Some(error),
        },
{
    let flat = match flatten_faces(&base.geometry, base.tex_vertices.len(), base.normals.len()) {
        Some(flat) => flat,
        None => { return Err(MeshError::TooLarge); },
    };
    let ghost all = frames@.unref();
    let mut vertices: Vec<Vec<FlatVertex<P, T, N>>> = Vec::new();
    match extract_frame(base, &flat.associations, default_texture, default_normal) {
        Some(frame) => {
            vertices.push(frame);
        },
        None => { return Err(MeshError::IndexOutOfRange); },
    }
    let mut k: usize = 0;
    while k < frames.len()
        invariant
            0 <= k <= frames.len(),
            all == frames@.unref(),
            flat.associations@ == flat_associations(
                base.geometry@,
                base.tex_vertices.len(),
                base.normals.len(),
            ),
            flat.associations@.len() <= u32::MAX,
            faces_of(base.geometry@).len() <= u32::MAX,
            positions_in_range(base, flat.associations@),
            vertices@.len() == 1 + k,
            vertices@[0]@ == resolved(base, flat.associations@, default_texture, default_normal),
            forall|f: int|
                1 <= f < vertices@.len() ==> (#[trigger] vertices@[f])@ == resolved(
                    &all[f - 1],
                    flat.associations@,
                    default_texture,
                    default_normal,
                ),
            forall|f: int|
                0 <= f < k ==> positions_in_range(&#[trigger] all[f], flat.associations@),
        decreases frames.len() - k,
    {
        assert(all[k as int] == *frames@[k as int]);
        match extract_frame(frames[k], &flat.associations, default_texture, default_normal) {
            Some(frame) => {
                vertices.push(frame);
            },
            None => { return Err(MeshError::IndexOutOfRange); },
        }
        k = k + 1;
    }
    let material = Material {
        name: String::new(),
        texture: 0,
        triangles: vec![TriangleSelection { offset: 0, len: flat.triangles.len() as u32 }],
        vertex_offset: 0,
        vertex_count: flat.associations.len() as u32,
        texture_name: String::new(),
    };
    let model = Model {
        lod_levels: vec![flat.triangles],
        materials: vec![material],
        frames: vertices,
    };
    proof {
        let faces = faces_of(base.geometry@);
        assert(model.lod_levels@.len() == 1);
        assert(model.lod_levels@[0]@.len() == faces.len());
        assert(model.materials@.len() == 1);
        assert(is_whole_material(
            model.materials@[0],
            faces.len(),
            flat.associations@.len(),
        ));
        assert(mesh_error(base, all) is None);
    }
    Ok(model)
}

/// Every frame of a flat model has one vertex for each distinct canonical
/// triple that the corners of the base object's triangles reference, however
/// many corners there are.
pub proof fn lemma_vertex_count<P, T, N>(
    model: &Model<FlatVertex<P, T, N>>,
    base: &Object<P, T, N>,
    frames: Seq<Object<P, T, N>>,
    default_texture: T,
    default_normal: N,
)
    requires
        is_flat_model(model, base, frames, default_texture, default_normal),
    ensures
        forall|f: int|
            0 <= f < model.frames@.len() ==> (#[trigger] model.frames@[f])@.len()
                == canonical_corners(
                faces_of(base.geometry@),
                base.tex_vertices.len(),
                base.normals.len(),
            ).to_set().len(),
        model.frames_congruent(),
        model.indices_in_range(),
        model.selections_in_range(),
{
    let keys = canonical_corners(
        faces_of(base.geometry@),
        base.tex_vertices.len(),
        base.normals.len(),
    );
    lemma_first_occurrences(keys);
    assert forall|f: int| 0 <= f < model.frames@.len() implies (#[trigger] model.frames@[f])@.len()
        == keys.to_set().len() by {
        if f > 0 {
            assert(model.frames@[f]@ == resolved(
                &frames[f - 1],
                first_occurrences(keys),
                default_texture,
                default_normal,
            ));
        }
    }
}

/// A base object and its frames have one flat model: two models of the same
/// input hold the same content.
pub proof fn lemma_flat_model_unique<P, T, N>(
    first: &Model<FlatVertex<P, T, N>>,
    second: &Model<FlatVertex<P, T, N>>,
    base: &Object<P, T, N>,
    frames: Seq<Object<P, T, N>>,
    default_texture: T,
    default_normal: N,
)
    requires
        is_flat_model(first, base, frames, default_texture, default_normal),
        is_flat_model(second, base, frames, default_texture, default_normal),
    ensures
        models_agree(first, second),
{
    let keys = canonical_corners(
        faces_of(base.geometry@),
        base.tex_vertices.len(),
        base.normals.len(),
    );
    let flat = first_occurrences(keys);
    let faces = faces_of(base.geometry@);
    lemma_first_occurrences(keys);
    assert forall|j: int| 0 <= j < faces.len() implies first.lod_levels@[0]@[j]
        == second.lod_levels@[0]@[j] by {
        let a = first.lod_levels@[0]@[j];
        let b = second.lod_levels@[0]@[j];
        assert(triangle_matches(a, faces[j], flat, base.tex_vertices.len(), base.normals.len()));
        assert(triangle_matches(b, faces[j], flat, base.tex_vertices.len(), base.normals.len()));
        assert(flat[a.0 as int] == flat[b.0 as int]);
        assert(flat[a.1 as int] == flat[b.1 as int]);
        assert(flat[a.2 as int] == flat[b.2 as int]);
    }
    assert(first.lod_levels@[0]@ =~= second.lod_levels@[0]@);
    assert(first.materials@[0].triangles@ =~= second.materials@[0].triangles@);
    assert forall|f: int| 0 <= f < first.frames@.len() implies (#[trigger] first.frames@[f])@
        == second.frames@[f]@ by {
        if f > 0 {
            assert(second.frames@[f]@ == resolved(
                &frames[f - 1],
                flat,
                default_texture,
                default_normal,
            ));
        }
    }
}

/// A base object with one morph frame of the same topology gives a model of
/// exactly two frames, which share one triangle buffer and have the same
/// number of vertices.
pub proof fn lemma_one_morph_frame<P, T, N>(
    model: &Model<FlatVertex<P, T, N>>,
    base: &Object<P, T, N>,
    frame: Object<P, T, N>,
    default_texture: T,
    default_normal: N,
)
    requires
        same_topology(base, &frame),
        is_flat_model(model, base, seq![frame], default_texture, default_normal),
    ensures
        first_mismatch(base, seq![frame]) is None,
        model.frames@.len() == 2,
        model.lod_levels@.len() == 1,
        model.frames@[0]@.len() == model.frames@[1]@.len(),
{
    lemma_same_topology_validates(base, seq![frame]);
    lemma_vertex_count(model, base, seq![frame], default_texture, default_normal);
}

} // verus!
