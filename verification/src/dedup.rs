//! Vertex deduplication: split-indexed face corners are canonicalized and
//! numbered in the order in which they are first met.

use crate::mesh::{Association, Shape, Triangle, VTNIndex};
use crate::sequences::{lemma_take_all, lemma_take_step};
use std::collections::HashMap;
use vstd::prelude::*;

verus! {

/// The deduplication key of a face corner: a missing texture or normal
/// reference is replaced by the given out-of-range sentinel.
pub open spec fn canonical(
    vertex: VTNIndex,
    invalid_texture_index: usize,
    invalid_normal_index: usize,
) -> Association {
    (
        vertex.0,
        match vertex.1 {
            Some(texture) => texture,
            None => invalid_texture_index,
        },
        match vertex.2 {
            Some(normal) => normal,
            None => invalid_normal_index,
        },
    )
}

/// The distinct elements of `s`, each at the place of its first occurrence.
pub open spec fn first_occurrences<A>(s: Seq<A>) -> Seq<A>
    decreases s.len(),
{
    if s.len() == 0 {
        Seq::empty()
    } else {
        let earlier = first_occurrences(s.drop_last());
        if earlier.contains(s.last()) {
            earlier
        } else {
            earlier.push(s.last())
        }
    }
}

/// `first_occurrences(s)` holds every element of `s` exactly once, so its
/// length is the number of distinct elements of `s`.
pub proof fn lemma_first_occurrences<A>(s: Seq<A>)
    ensures
        first_occurrences(s).no_duplicates(),
        forall|x: A| first_occurrences(s).contains(x) <==> s.contains(x),
        first_occurrences(s).to_set() == s.to_set(),
        first_occurrences(s).len() == s.to_set().len(),
        first_occurrences(s).len() <= s.len(),
    decreases s.len(),
{
    let r = first_occurrences(s);
    if s.len() > 0 {
        let shorter = s.drop_last();
        let earlier = first_occurrences(shorter);
        lemma_first_occurrences(shorter);
        assert forall|x: A| r.contains(x) <==> s.contains(x) by {
            if s.contains(x) {
                let i = choose|i: int| 0 <= i < s.len() && s[i] == x;
                if i < s.len() - 1 {
                    assert(shorter.len() == s.len() - 1);
                    assert(shorter[i] == x);
                    assert(shorter.contains(x));
                    assert(earlier.contains(x));
                    let j = choose|j: int| 0 <= j < earlier.len() && earlier[j] == x;
                    assert(r[j] == x);
                } else if earlier.contains(x) {
                    let j = choose|j: int| 0 <= j < earlier.len() && earlier[j] == x;
                    assert(r[j] == x);
                } else {
                    assert(r[r.len() - 1] == x);
                }
            }
            if r.contains(x) {
                let j = choose|j: int| 0 <= j < r.len() && r[j] == x;
                if j < earlier.len() {
                    assert(earlier[j] == x);
                    assert(earlier.contains(x));
                    assert(shorter.contains(x));
                    let i = choose|i: int| 0 <= i < shorter.len() && shorter[i] == x;
                    assert(s[i] == x);
                } else {
                    assert(s[s.len() - 1] == x);
                }
            }
        }
    }
    assert(r.to_set() =~= s.to_set());
    r.unique_seq_to_set();
}

/// Assigns flat vertex indices to face corners. Two corners get the same
/// index exactly when their canonical triples are equal; a new triple gets
/// the next index, starting at 0.
pub struct VertexDeduplicator {
    invalid_texture_index: usize,
    invalid_normal_index: usize,
    /// The canonical triple of each flat index.
    associations: Vec<Association>,
    /// For each position index, the flat indices whose triple starts with it.
    reverse: HashMap<usize, Vec<usize>>,
}

impl View for VertexDeduplicator {
    type V = Seq<Association>;

    /// The canonical triples met so far, in the order of their flat indices.
    closed spec fn view(&self) -> Seq<Association> {
        self.associations@
    }
}

impl VertexDeduplicator {
    /// The lookup table and the association list describe the same triples.
    pub closed spec fn wf(&self) -> bool {
        &&& self.associations@.no_duplicates()
        &&& forall|p: usize, j: int|
            #![trigger self.reverse@[p]@[j]]
            self.reverse@.contains_key(p) && 0 <= j < self.reverse@[p]@.len() ==> {
                &&& self.reverse@[p]@[j] < self.associations@.len()
                &&& self.associations@[self.reverse@[p]@[j] as int].0 == p
            }
        &&& forall|i: int|
            0 <= i < self.associations@.len() ==> {
                let p = (#[trigger] self.associations@[i]).0;
                &&& self.reverse@.contains_key(p)
                &&& exists|k: int|
                    0 <= k < self.reverse@[p]@.len() && (#[trigger] self.reverse@[p]@[k]) as int
                        == i
            }
    }

    /// The sentinel that stands for a missing texture reference.
    pub closed spec fn invalid_texture_index(&self) -> usize {
        self.invalid_texture_index
    }

    /// The sentinel that stands for a missing normal reference.
    pub closed spec fn invalid_normal_index(&self) -> usize {
        self.invalid_normal_index
    }

    /// The canonical triple under which this deduplicator files `vertex`.
    pub open spec fn key(&self, vertex: VTNIndex) -> Association {
        canonical(vertex, self.invalid_texture_index(), self.invalid_normal_index())
    }

    /// An empty deduplicator with the given sentinels.
    pub fn new(invalid_texture_index: usize, invalid_normal_index: usize) -> (d: Self)
        ensures
            d.wf(),
            d@ == Seq::<Association>::empty(),
            d.invalid_texture_index() == invalid_texture_index,
            d.invalid_normal_index() == invalid_normal_index,
    {
        VertexDeduplicator {
            invalid_texture_index,
            invalid_normal_index,
            associations: Vec::new(),
            reverse: HashMap::new(),
        }
    }

    /// The flat index of a face corner. A corner whose canonical triple was
    /// met before gets the index assigned then; any other gets the next free
    /// index, and its triple is recorded.
    pub fn dedup_vertex(&mut self, vertex: VTNIndex) -> (index: usize)
        requires
            old(self).wf(),
        ensures
            final(self).wf(),
            final(self).invalid_texture_index() == old(self).invalid_texture_index(),
            final(self).invalid_normal_index() == old(self).invalid_normal_index(),
            final(self)@ == if old(self)@.contains(old(self).key(vertex)) {
                old(self)@
            } else {
                old(self)@.push(old(self).key(vertex))
            },
            final(self)@.no_duplicates(),
            index < final(self)@.len(),
            final(self)@[index as int] == old(self).key(vertex),
    {
        let key: Association = (
            vertex.0,
            match vertex.1 {
                Some(texture) => texture,
                None => self.invalid_texture_index,
            },
            match vertex.2 {
                Some(normal) => normal,
                None => self.invalid_normal_index,
            },
        );
        match self.reverse.get(&key.0) {
            Some(bucket) => {
                let mut j: usize = 0;
                while j < bucket.len()
                    invariant
                        0 <= j <= bucket.len(),
                        *self == *old(self),
                        self.wf(),
                        key == self.key(vertex),
                        self.reverse@.contains_key(key.0),
                        *bucket == self.reverse@[key.0],
                        forall|k: int|
                            0 <= k < j ==> self.associations@[bucket@[k] as int] != key,
                    decreases bucket.len() - j,
                {
                    let index = bucket[j];
                    assert(self.reverse@[key.0]@[j as int] == index);
                    let found = self.associations[index];
                    if found.1 == key.1 && found.2 == key.2 {
                        assert(self.associations@[index as int] == key);
                        return index;
                    }
                    j = j + 1;
                }
                assert forall|i: int| 0 <= i < self.associations@.len() implies self.associations@[i]
                    != key by {
                    if self.associations@[i] == key {
                        let k = choose|k: int|
                            0 <= k < bucket@.len() && (#[trigger] bucket@[k]) as int == i;
                        assert(self.associations@[bucket@[k] as int] != key);
                    }
                }
            },
            None => {
                assert forall|i: int| 0 <= i < self.associations@.len() implies self.associations@[i]
                    != key by {
                    if self.associations@[i] == key {
                        assert(self.reverse@.contains_key(self.associations@[i].0));
                    }
                }
            },
        }
        assert(!self.associations@.contains(key));
        let index = self.associations.len();
        self.associations.push(key);
        let mut bucket: Vec<usize> = match self.reverse.remove(&key.0) {
            Some(bucket) => bucket,
            None => Vec::new(),
        };
        let ghost before = bucket@;
        bucket.push(index);
        self.reverse.insert(key.0, bucket);
        proof {
            let after = self.reverse@[key.0]@;
            assert(after == before.push(index));
            assert forall|p: usize, j: int|
                self.reverse@.contains_key(p) && 0 <= j < self.reverse@[p]@.len() implies {
                &&& (#[trigger] self.reverse@[p]@[j]) < self.associations@.len()
                &&& self.associations@[self.reverse@[p]@[j] as int].0 == p
            } by {
                if p == key.0 {
                    if j < before.len() {
                        assert(old(self).reverse@.contains_key(p));
                        assert(old(self).reverse@[p]@[j] == after[j]);
                    }
                } else {
                    assert(old(self).reverse@.contains_key(p));
                    assert(old(self).reverse@[p]@[j] == self.reverse@[p]@[j]);
                }
            }
            assert forall|i: int| 0 <= i < self.associations@.len() implies {
                let p = (#[trigger] self.associations@[i]).0;
                &&& self.reverse@.contains_key(p)
                &&& exists|k: int|
                    0 <= k < self.reverse@[p]@.len() && (#[trigger] self.reverse@[p]@[k]) as int
                        == i
            } by {
                let p = self.associations@[i].0;
                if i == index {
                    assert(self.reverse@[p]@[before.len() as int] as int == i);
                } else {
                    assert(old(self).associations@[i] == self.associations@[i]);
                    let k = choose|k: int|
                        0 <= k < old(self).reverse@[p]@.len() && (
                        #[trigger] old(self).reverse@[p]@[k]) as int == i;
                    assert(self.reverse@[p]@[k] as int == i);
                }
            }
        }
        index
    }

    /// The number of flat vertices assigned so far.
    pub fn len(&self) -> (n: usize)
        ensures
            n == self@.len(),
    {
        self.associations.len()
    }

    /// The canonical triple of each flat vertex, in index order.
    pub fn associations(&self) -> (list: &Vec<Association>)
        ensures
            list@ == self@,
    {
        &self.associations
    }

    /// Gives up the deduplicator for its association list.
    pub fn into_associations(self) -> (list: Vec<Association>)
        ensures
            list@ == self@,
    {
        self.associations
    }
}

/// The triangles among `shapes`, in order. Points and lines are left out.
pub open spec fn triangles_of(shapes: Seq<Shape>) -> Seq<(VTNIndex, VTNIndex, VTNIndex)>
    decreases shapes.len(),
{
    if shapes.len() == 0 {
        Seq::empty()
    } else {
        let earlier = triangles_of(shapes.drop_last());
        match shapes.last() {
            Shape::Triangle(a, b, c) => earlier.push((a, b, c)),
            _ => earlier,
        }
    }
}

/// The triangles of all face lists of an object, in order.
pub open spec fn faces_of(geometry: Seq<Vec<Shape>>) -> Seq<(VTNIndex, VTNIndex, VTNIndex)>
    decreases geometry.len(),
{
    if geometry.len() == 0 {
        Seq::empty()
    } else {
        faces_of(geometry.drop_last()) + triangles_of(geometry.last()@)
    }
}

/// The canonical triples of the corners of `faces`, three per face, in the
/// order in which the corners are met.
pub open spec fn canonical_corners(
    faces: Seq<(VTNIndex, VTNIndex, VTNIndex)>,
    invalid_texture_index: usize,
    invalid_normal_index: usize,
) -> Seq<Association>
    decreases faces.len(),
{
    if faces.len() == 0 {
        Seq::empty()
    } else {
        let face = faces.last();
        canonical_corners(faces.drop_last(), invalid_texture_index, invalid_normal_index).push(
            canonical(face.0, invalid_texture_index, invalid_normal_index),
        ).push(canonical(face.1, invalid_texture_index, invalid_normal_index)).push(
            canonical(face.2, invalid_texture_index, invalid_normal_index),
        )
    }
}

/// The flat vertices that the triangles of `geometry` need: the distinct
/// canonical triples of their corners, in first-encounter order.
pub open spec fn flat_associations(
    geometry: Seq<Vec<Shape>>,
    invalid_texture_index: usize,
    invalid_normal_index: usize,
) -> Seq<Association> {
    first_occurrences(
        canonical_corners(faces_of(geometry), invalid_texture_index, invalid_normal_index),
    )
}

/// Where every corner of `faces` names a position below `bound`, so does
/// every flat vertex.
pub proof fn lemma_flat_positions(
    geometry: Seq<Vec<Shape>>,
    invalid_texture_index: usize,
    invalid_normal_index: usize,
    bound: nat,
)
    requires
        forall|j: int|
            0 <= j < faces_of(geometry).len() ==> {
                let face = #[trigger] faces_of(geometry)[j];
                face.0.0 < bound && face.1.0 < bound && face.2.0 < bound
            },
    ensures
        forall|i: int|
            0 <= i < flat_associations(
                geometry,
                invalid_texture_index,
                invalid_normal_index,
            ).len() ==> (#[trigger] flat_associations(
                geometry,
                invalid_texture_index,
                invalid_normal_index,
            )[i]).0 < bound,
{
    let faces = faces_of(geometry);
    let keys = canonical_corners(faces, invalid_texture_index, invalid_normal_index);
    let flat = first_occurrences(keys);
    lemma_corner_positions(faces, invalid_texture_index, invalid_normal_index, bound);
    lemma_first_occurrences(keys);
    assert forall|i: int| 0 <= i < flat.len() implies (#[trigger] flat[i]).0 < bound by {
        assert(flat.contains(flat[i]));
        assert(keys.contains(flat[i]));
    }
}

/// Where every corner of `faces` names a position below `bound`, so does
/// every canonical triple of their corners.
proof fn lemma_corner_positions(
    faces: Seq<(VTNIndex, VTNIndex, VTNIndex)>,
    invalid_texture_index: usize,
    invalid_normal_index: usize,
    bound: nat,
)
    requires
        forall|j: int|
            0 <= j < faces.len() ==> {
                let face = #[trigger] faces[j];
                face.0.0 < bound && face.1.0 < bound && face.2.0 < bound
            },
    ensures
        forall|i: int|
            0 <= i < canonical_corners(faces, invalid_texture_index, invalid_normal_index).len()
                ==> (#[trigger] canonical_corners(
                faces,
                invalid_texture_index,
                invalid_normal_index,
            )[i]).0 < bound,
    decreases faces.len(),
{
    if faces.len() > 0 {
        let shorter = faces.drop_last();
        assert forall|j: int| 0 <= j < shorter.len() implies {
            let face = #[trigger] shorter[j];
            face.0.0 < bound && face.1.0 < bound && face.2.0 < bound
        } by {
            assert(shorter[j] == faces[j]);
        }
        lemma_corner_positions(shorter, invalid_texture_index, invalid_normal_index, bound);
        let face = faces[faces.len() - 1];
        assert(face.0.0 < bound && face.1.0 < bound && face.2.0 < bound);
        let earlier = canonical_corners(shorter, invalid_texture_index, invalid_normal_index);
        let keys = canonical_corners(faces, invalid_texture_index, invalid_normal_index);
        assert forall|i: int| 0 <= i < keys.len() implies (#[trigger] keys[i]).0 < bound by {
            if i < earlier.len() {
                assert(keys[i] == earlier[i]);
            }
        }
    }
}

/// `triangle` names, corner by corner, the flat vertices of `face`.
pub open spec fn triangle_matches(
    triangle: Triangle,
    face: (VTNIndex, VTNIndex, VTNIndex),
    associations: Seq<Association>,
    invalid_texture_index: usize,
    invalid_normal_index: usize,
) -> bool {
    &&& triangle.0 < associations.len()
    &&& triangle.1 < associations.len()
    &&& triangle.2 < associations.len()
    &&& associations[triangle.0 as int] == canonical(
        face.0,
        invalid_texture_index,
        invalid_normal_index,
    )
    &&& associations[triangle.1 as int] == canonical(
        face.1,
        invalid_texture_index,
        invalid_normal_index,
    )
    &&& associations[triangle.2 as int] == canonical(
        face.2,
        invalid_texture_index,
        invalid_normal_index,
    )
}

/// The deduplicated faces of an object.
#[derive(Debug)]
pub struct FlatFaces {
    /// The canonical triple of each flat vertex.
    pub associations: Vec<Association>,
    /// The triangles, rewritten to flat indices, corner order kept.
    pub triangles: Vec<Triangle>,
}

/// Deduplicates the triangle corners of `geometry`. The flat vertices are
/// numbered in first-encounter order over the face lists; each triangle keeps
/// its place and its corner order. Points and lines are skipped.
///
/// Gives nothing when a 32-bit count cannot hold the number of flat vertices
/// or the number of triangles.
pub fn flatten_faces(
    geometry: &Vec<Vec<Shape>>,
    invalid_texture_index: usize,
    invalid_normal_index: usize,
) -> (flat: Option<FlatFaces>)
    ensures
        flat is Some <==> {
            &&& flat_associations(geometry@, invalid_texture_index, invalid_normal_index).len()
                <= u32::MAX
            &&& faces_of(geometry@).len() <= u32::MAX
        },
        flat matches Some(f) ==> {
            &&& f.associations@ == flat_associations(
                geometry@,
                invalid_texture_index,
                invalid_normal_index,
            )
            &&& f.associations@.no_duplicates()
            &&& f.associations@.len() == canonical_corners(
                faces_of(geometry@),
                invalid_texture_index,
                invalid_normal_index,
            ).to_set().len()
            &&& f.triangles@.len() == faces_of(geometry@).len()
            &&& forall|j: int|
                0 <= j < f.triangles@.len() ==> triangle_matches(
                    #[trigger] f.triangles@[j],
                    faces_of(geometry@)[j],
                    f.associations@,
                    invalid_texture_index,
                    invalid_normal_index,
                )
        },
{
    let mut dedup = VertexDeduplicator::new(invalid_texture_index, invalid_normal_index);
    let mut triangles: Vec<Triangle> = Vec::new();
    let mut overflow = false;
    let mut g: usize = 0;
    while g < geometry.len()
        invariant
            0 <= g <= geometry.len(),
            dedup.wf(),
            dedup.invalid_texture_index() == invalid_texture_index,
            dedup.invalid_normal_index() == invalid_normal_index,
            dedup@ == flat_associations(
                geometry@.take(g as int),
                invalid_texture_index,
                invalid_normal_index,
            ),
            overflow <==> dedup@.len() > u32::MAX,
            triangles@.len() == faces_of(geometry@.take(g as int)).len(),
            !overflow ==> forall|j: int|
                0 <= j < triangles@.len() ==> triangle_matches(
                    #[trigger] triangles@[j],
                    faces_of(geometry@.take(g as int))[j],
                    dedup@,
                    invalid_texture_index,
                    invalid_normal_index,
                ),
        decreases geometry.len() - g,
    {
        let shapes = &geometry[g];
        let ghost done = faces_of(geometry@.take(g as int));
        let mut s: usize = 0;
        while s < shapes.len()
            invariant
                0 <= s <= shapes.len(),
                dedup.wf(),
                dedup.invalid_texture_index() == invalid_texture_index,
                dedup.invalid_normal_index() == invalid_normal_index,
                dedup@ == first_occurrences(
                    canonical_corners(
                        done + triangles_of(shapes@.take(s as int)),
                        invalid_texture_index,
                        invalid_normal_index,
                    ),
                ),
                overflow <==> dedup@.len() > u32::MAX,
                triangles@.len() == (done + triangles_of(shapes@.take(s as int))).len(),
                !overflow ==> forall|j: int|
                    0 <= j < triangles@.len() ==> triangle_matches(
                        #[trigger] triangles@[j],
                        (done + triangles_of(shapes@.take(s as int)))[j],
                        dedup@,
                        invalid_texture_index,
                        invalid_normal_index,
                    ),
            decreases shapes.len() - s,
        {
            let ghost faces = done + triangles_of(shapes@.take(s as int));
            proof {
                lemma_take_step(shapes@, s as int);
            }
            match shapes[s] {
                Shape::Triangle(a, b, c) => {
                    let ghost extended = faces.push((a, b, c));
                    let ghost keys = canonical_corners(
                        faces,
                        invalid_texture_index,
                        invalid_normal_index,
                    );
                    let ghost ka = canonical(a, invalid_texture_index, invalid_normal_index);
                    let ghost kb = canonical(b, invalid_texture_index, invalid_normal_index);
                    let ghost kc = canonical(c, invalid_texture_index, invalid_normal_index);
                    let ghost before = dedup@;
                    let i0 = dedup.dedup_vertex(a);
                    proof {
                        assert(keys.push(ka).drop_last() =~= keys);
                        assert(dedup@ == first_occurrences(keys.push(ka)));
                    }
                    let i1 = dedup.dedup_vertex(b);
                    proof {
                        assert(keys.push(ka).push(kb).drop_last() =~= keys.push(ka));
                        assert(dedup@ == first_occurrences(keys.push(ka).push(kb)));
                    }
                    let i2 = dedup.dedup_vertex(c);
                    proof {
                        assert(keys.push(ka).push(kb).push(kc).drop_last() =~= keys.push(ka).push(
                            kb,
                        ));
                        assert(dedup@ == first_occurrences(keys.push(ka).push(kb).push(kc)));
                        assert(extended =~= done + triangles_of(shapes@.take(s + 1)));
                        assert(extended.drop_last() =~= faces);
                        assert(canonical_corners(
                            extended,
                            invalid_texture_index,
                            invalid_normal_index,
                        ) == keys.push(ka).push(kb).push(kc));
                        assert(forall|j: int| 0 <= j < before.len() ==> dedup@[j] == before[j]);
                    }
                    let limit = u32::MAX as usize;
                    if i0 >= limit || i1 >= limit || i2 >= limit {
                        overflow = true;
                    }
                    triangles.push(
                        (
                            #[verifier::truncate]
                            (i0 as u32),
                            #[verifier::truncate]
                            (i1 as u32),
                            #[verifier::truncate]
                            (i2 as u32),
                        ),
                    );
                },
                _ => {
                    assert(faces =~= done + triangles_of(shapes@.take(s + 1)));
                },
            }
            s = s + 1;
        }
        proof {
            lemma_take_all(shapes@);
            lemma_take_step(geometry@, g as int);
        }
        g = g + 1;
    }
    proof {
        lemma_take_all(geometry@);
        lemma_first_occurrences(
            canonical_corners(faces_of(geometry@), invalid_texture_index, invalid_normal_index),
        );
    }
    if overflow || triangles.len() > u32::MAX as usize {
        None
    } else {
        Some(FlatFaces { associations: dedup.into_associations(), triangles })
    }
}

} // verus!
