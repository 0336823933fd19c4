//! The mesh data model: split-indexed source objects on one side, the
//! flat-indexed runtime model on the other.
//!
//! Attribute values (positions, normals, texture coordinates) are carried
//! through as type parameters. Nothing in this crate computes with them; it
//! only decides which value ends up where.

use vstd::prelude::*;

verus! {

/// One face corner of a split-indexed source: a position index, an optional
/// texture index and an optional normal index. A missing index means "use the
/// default value", never index 0.
pub type VTNIndex = (usize, Option<usize>, Option<usize>);

/// A face corner whose missing references were replaced by sentinels: the
/// key under which flat vertices are deduplicated.
pub type Association = (usize, usize, usize);

/// Three flat vertex indices.
pub type Triangle = (u32, u32, u32);

/// A face primitive of a split-indexed source.
#[derive(Clone, Copy, Debug, PartialEq, Eq, Hash)]
pub enum Shape {
    /// A point specified by its position.
    Point(VTNIndex),
    /// A line specified by its endpoints.
    Line(VTNIndex, VTNIndex),
    /// A triangle specified by its three corners.
    Triangle(VTNIndex, VTNIndex, VTNIndex),
}

/// A split-indexed mesh object, as an authoring-format parser hands it over.
#[derive(Clone, Debug, PartialEq)]
pub struct Object<P, T, N> {
    /// The identifier under which documents refer to this object.
    pub id: String,
    /// Positions, referenced by the first component of a `VTNIndex`.
    pub vertices: Vec<P>,
    /// Texture coordinates, referenced by the second component.
    pub tex_vertices: Vec<T>,
    /// Normals, referenced by the third component.
    pub normals: Vec<N>,
    /// The face lists of the object, one per geometry group.
    pub geometry: Vec<Vec<Shape>>,
}

/// A flat vertex: position, normal and texture coordinate share one index.
#[derive(Clone, Copy, Debug, PartialEq)]
pub struct FlatVertex<P, T, N> {
    /// Where the vertex lies.
    pub position: P,
    /// The direction of the surface at the vertex.
    pub normal: N,
    /// The place of the vertex on the texture.
    pub texture: T,
}

/// A contiguous range of triangles of one level of detail.
#[derive(Clone, Copy, Debug, PartialEq, Eq)]
pub struct TriangleSelection {
    /// The place of the first triangle of the range.
    pub offset: u32,
    /// The number of triangles in the range.
    pub len: u32,
}

/// A named group of triangles, with one selection per level of detail.
#[derive(Clone, Debug, PartialEq, Eq)]
pub struct Material {
    /// The name of the material.
    pub name: String,
    /// The index of the texture bound to the material.
    pub texture: u32,
    /// The triangles of the material, one range per level of detail.
    pub triangles: Vec<TriangleSelection>,
    /// What is added to each flat index of the selected triangles.
    pub vertex_offset: u32,
    /// The number of vertices that the material uses.
    pub vertex_count: u32,
    /// The name of the texture.
    pub texture_name: String,
}

/// The flat-indexed model: triangle buffers shared by every frame, and one
/// full vertex list per frame.
#[derive(Clone, Debug, PartialEq)]
pub struct Model<V> {
    /// The triangle buffer of each level of detail. Every frame shares them.
    pub lod_levels: Vec<Vec<Triangle>>,
    /// The materials, which partition the triangles for output.
    pub materials: Vec<Material>,
    /// The vertices of each frame, the base frame first.
    pub frames: Vec<Vec<V>>,
}

impl<V> Model<V> {
    /// Every frame has as many vertices as the first one.
    pub open spec fn frames_congruent(&self) -> bool {
        forall|i: int|
            0 <= i < self.frames.len() ==> (#[trigger] self.frames[i]).len()
                == self.frames[0].len()
    }

    /// The triangles of the first level of detail only name vertices that
    /// every frame has.
    pub open spec fn indices_in_range(&self) -> bool {
        self.lod_levels.len() > 0 ==> forall|f: int, j: int|
            #![trigger self.frames[f], self.lod_levels[0][j]]
            0 <= f < self.frames.len() && 0 <= j < self.lod_levels[0].len() ==> {
                let t = self.lod_levels[0][j];
                t.0 < self.frames[f].len() && t.1 < self.frames[f].len() && t.2
                    < self.frames[f].len()
            }
    }

    /// What the emitters need of a model: a first level of detail, and in each
    /// material a first selection that lies inside it.
    pub open spec fn selections_in_range(&self) -> bool {
        &&& self.lod_levels.len() > 0
        &&& forall|m: int|
            0 <= m < self.materials.len() ==> {
                let material = #[trigger] self.materials[m];
                &&& material.triangles.len() > 0
                &&& material.triangles[0].offset + material.triangles[0].len
                    <= self.lod_levels[0].len()
            }
    }

    /// Decides `selections_in_range`.
    pub fn has_selections_in_range(&self) -> (ok: bool)
        ensures
            ok == self.selections_in_range(),
    {
        if self.lod_levels.len() == 0 {
            return false;
        }
        let count = self.lod_levels[0].len();
        let mut m: usize = 0;
        while m < self.materials.len()
            invariant
                0 <= m <= self.materials.len(),
                self.lod_levels.len() > 0,
                count == self.lod_levels[0].len(),
                forall|k: int|
                    0 <= k < m ==> {
                        let material = #[trigger] self.materials[k];
                        &&& material.triangles.len() > 0
                        &&& material.triangles[0].offset + material.triangles[0].len
                            <= self.lod_levels[0].len()
                    },
            decreases self.materials.len() - m,
        {
            let material = &self.materials[m];
            if material.triangles.len() == 0 {
                return false;
            }
            let selection = material.triangles[0];
            let end: u64 = selection.offset as u64 + selection.len as u64;
            if end > count as u64 {
                return false;
            }
            m = m + 1;
        }
        true
    }
}

/// Two materials hold the same names, numbers and selections.
pub open spec fn same_material(first: Material, second: Material) -> bool {
    &&& first.name@ == second.name@
    &&& first.texture == second.texture
    &&& first.triangles@ == second.triangles@
    &&& first.vertex_offset == second.vertex_offset
    &&& first.vertex_count == second.vertex_count
    &&& first.texture_name@ == second.texture_name@
}

/// Two lists of materials hold the same content, material by material.
pub open spec fn same_materials(first: Seq<Material>, second: Seq<Material>) -> bool {
    &&& first.len() == second.len()
    &&& forall|m: int| 0 <= m < first.len() ==> same_material(#[trigger] first[m], second[m])
}

/// Two models hold the same content: the same triangles at every level of
/// detail, the same materials, and the same vertices in every frame.
pub open spec fn models_agree<V>(first: &Model<V>, second: &Model<V>) -> bool {
    &&& first.lod_levels@.len() == second.lod_levels@.len()
    &&& forall|l: int|
        0 <= l < first.lod_levels@.len() ==> (#[trigger] first.lod_levels@[l])@
            == second.lod_levels@[l]@
    &&& same_materials(first.materials@, second.materials@)
    &&& first.frames@.len() == second.frames@.len()
    &&& forall|f: int|
        0 <= f < first.frames@.len() ==> (#[trigger] first.frames@[f])@ == second.frames@[f]@
}

/// A flat vertex whose components are already written out as numbers.
pub type TextVertex = FlatVertex<(String, String, String), (String, String), (String, String, String)>;

/// Two vertices hold the same written-out numbers.
pub open spec fn same_numbers(first: TextVertex, second: TextVertex) -> bool {
    &&& first.position.0@ == second.position.0@
    &&& first.position.1@ == second.position.1@
    &&& first.position.2@ == second.position.2@
    &&& first.normal.0@ == second.normal.0@
    &&& first.normal.1@ == second.normal.1@
    &&& first.normal.2@ == second.normal.2@
    &&& first.texture.0@ == second.texture.0@
    &&& first.texture.1@ == second.texture.1@
}

/// Two frames hold the same written-out numbers, vertex by vertex.
pub open spec fn same_frame(first: Seq<TextVertex>, second: Seq<TextVertex>) -> bool {
    &&& first.len() == second.len()
    &&& forall|i: int| 0 <= i < first.len() ==> same_numbers(#[trigger] first[i], second[i])
}

/// Two models of written-out vertices hold the same content.
pub open spec fn same_content(first: &Model<TextVertex>, second: &Model<TextVertex>) -> bool {
    &&& first.lod_levels@.len() == second.lod_levels@.len()
    &&& forall|l: int|
        0 <= l < first.lod_levels@.len() ==> (#[trigger] first.lod_levels@[l])@
            == second.lod_levels@[l]@
    &&& same_materials(first.materials@, second.materials@)
    &&& first.frames@.len() == second.frames@.len()
    &&& forall|f: int|
        0 <= f < first.frames@.len() ==> same_frame(
            (#[trigger] first.frames@[f])@,
            second.frames@[f]@,
        )
}

} // verus!
