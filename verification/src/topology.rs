//! Frame topology validation: a morph frame may differ from its base object
//! in attribute values only, never in how many values there are nor in which
//! of them the faces reference.

use crate::mesh::{Object, Shape, VTNIndex};
use crate::sequences::{lemma_take_all, lemma_take_step};
use vstd::prelude::*;

verus! {

/// Whether two face corners reference the same indices.
fn same_index(a: VTNIndex, b: VTNIndex) -> (same: bool)
    ensures
        same == (a == b),
{
    a.0 == b.0 && a.1 == b.1 && a.2 == b.2
}

/// Whether two primitives are of the same kind and reference the same
/// indices at each corner.
pub fn compare_shape(base: Shape, frame: Shape) -> (same: bool)
    ensures
        same == (base == frame),
{
    match (base, frame) {
        (Shape::Point(a), Shape::Point(b)) => same_index(a, b),
        (Shape::Line(a, a1), Shape::Line(b, b1)) => same_index(a, b) && same_index(a1, b1),
        (Shape::Triangle(a, a1, a2), Shape::Triangle(b, b1, b2)) => same_index(a, b) && same_index(
            a1,
            b1,
        ) && same_index(a2, b2),
        _ => false,
    }
}

/// Whether two face lists hold the same primitives in the same order.
pub fn compare_geometry(base: &Vec<Shape>, frame: &Vec<Shape>) -> (same: bool)
    ensures
        same == (base@ == frame@),
{
    if base.len() != frame.len() {
        return false;
    }
    let mut i: usize = 0;
    while i < base.len()
        invariant
            0 <= i <= base.len(),
            base.len() == frame.len(),
            forall|k: int| 0 <= k < i ==> base@[k] == frame@[k],
        decreases base.len() - i,
    {
        if !compare_shape(base[i], frame[i]) {
            return false;
        }
        i = i + 1;
    }
    assert(base@ =~= frame@);
    true
}

/// `frame` has as many positions, normals and texture coordinates as `base`,
/// and its face lists are those of `base`.
pub open spec fn same_topology<P, T, N>(base: &Object<P, T, N>, frame: &Object<P, T, N>) -> bool {
    &&& base.vertices@.len() == frame.vertices@.len()
    &&& base.normals@.len() == frame.normals@.len()
    &&& base.tex_vertices@.len() == frame.tex_vertices@.len()
    &&& base.geometry@.len() == frame.geometry@.len()
    &&& forall|g: int|
        0 <= g < base.geometry@.len() ==> (#[trigger] base.geometry@[g])@ == frame.geometry@[g]@
}

/// Decides `same_topology`.
pub fn has_same_topology<P, T, N>(base: &Object<P, T, N>, frame: &Object<P, T, N>) -> (same: bool)
    ensures
        same == same_topology(base, frame),
{
    if base.vertices.len() != frame.vertices.len() || base.normals.len() != frame.normals.len()
        || base.tex_vertices.len() != frame.tex_vertices.len() {
        return false;
    }
    if base.geometry.len() != frame.geometry.len() {
        return false;
    }
    let mut g: usize = 0;
    while g < base.geometry.len()
        invariant
            0 <= g <= base.geometry.len(),
            base.geometry.len() == frame.geometry.len(),
            forall|k: int| 0 <= k < g ==> (#[trigger] base.geometry@[k])@ == frame.geometry@[k]@,
        decreases base.geometry.len() - g,
    {
        if !compare_geometry(&base.geometry[g], &frame.geometry[g]) {
            return false;
        }
        g = g + 1;
    }
    true
}

/// The place of the first candidate that does not share the topology of
/// `base`, if there is one.
pub open spec fn first_mismatch<P, T, N>(
    base: &Object<P, T, N>,
    candidates: Seq<Object<P, T, N>>,
) -> Option<int>
    decreases candidates.len(),
{
    if candidates.len() == 0 {
        None
    } else {
        match first_mismatch(base, candidates.drop_last()) {
            Some(index) => Some(index),
            None => if same_topology(base, &candidates.last()) {
                None
            } else {
                Some(candidates.len() - 1)
            },
        }
    }
}

/// `first_mismatch` names a candidate that fails and has no failing
/// candidate before it; it names none exactly when every candidate passes.
pub proof fn lemma_first_mismatch<P, T, N>(
    base: &Object<P, T, N>,
    candidates: Seq<Object<P, T, N>>,
)
    ensures
        match first_mismatch(base, candidates) {
            Some(index) => {
                &&& 0 <= index < candidates.len()
                &&& !same_topology(base, &candidates[index])
                &&& forall|j: int| 0 <= j < index ==> same_topology(base, &#[trigger] candidates[j])
            },
            None => forall|j: int|
                0 <= j < candidates.len() ==> same_topology(base, &#[trigger] candidates[j]),
        },
    decreases candidates.len(),
{
    if candidates.len() > 0 {
        lemma_first_mismatch(base, candidates.drop_last());
        assert forall|j: int| 0 <= j < candidates.len() - 1 implies candidates.drop_last()[j]
            == candidates[j] by {}
    }
}

/// Checks the candidates in order against `base`, and stops at the first one
/// that does not share its topology, reporting that candidate's place.
pub fn validate<P, T, N>(
    base: &Object<P, T, N>,
    candidates: &Vec<&Object<P, T, N>>,
) -> (result: Result<(), usize>)
    ensures
        match result {
            Ok(_) => first_mismatch(base, candidates@.unref()) is None,
            Err(index) => first_mismatch(base, candidates@.unref()) == Some(index as int),
        },
{
    let ghost all = candidates@.unref();
    let mut index: usize = 0;
    while index < candidates.len()
        invariant
            0 <= index <= candidates.len(),
            all == candidates@.unref(),
            first_mismatch(base, all.take(index as int)) is None,
        decreases candidates.len() - index,
    {
        proof {
            lemma_take_step(all, index as int);
        }
        if !has_same_topology(base, candidates[index]) {
            proof {
                lemma_mismatch_stays(base, all, index + 1);
            }
            return Err(index);
        }
        index = index + 1;
    }
    proof {
        lemma_take_all(all);
    }
    Ok(())
}

/// A mismatch found among the first `n` candidates is the first mismatch of
/// the whole sequence.
proof fn lemma_mismatch_stays<P, T, N>(
    base: &Object<P, T, N>,
    candidates: Seq<Object<P, T, N>>,
    n: int,
)
    requires
        0 <= n <= candidates.len(),
        first_mismatch(base, candidates.take(n)) is Some,
    ensures
        first_mismatch(base, candidates) == first_mismatch(base, candidates.take(n)),
    decreases candidates.len() - n,
{
    if n < candidates.len() {
        lemma_take_step(candidates, n);
        lemma_mismatch_stays(base, candidates, n + 1);
    } else {
        lemma_take_all(candidates);
    }
}

/// A candidate that differs from the base in attribute values only passes:
/// where every candidate has the counts and the face lists of the base,
/// validation names no mismatch.
pub proof fn lemma_same_topology_validates<P, T, N>(
    base: &Object<P, T, N>,
    candidates: Seq<Object<P, T, N>>,
)
    requires
        forall|j: int| 0 <= j < candidates.len() ==> same_topology(base, &#[trigger] candidates[j]),
    ensures
        first_mismatch(base, candidates) is None,
{
    lemma_first_mismatch(base, candidates);
}

/// A candidate one of whose faces references other indices than the face at
/// the same place of the base fails, and validation reports its place, if
/// every candidate before it passes.
pub proof fn lemma_changed_face_is_reported<P, T, N>(
    base: &Object<P, T, N>,
    candidates: Seq<Object<P, T, N>>,
    place: int,
    list: int,
    face: int,
)
    requires
        0 <= place < candidates.len(),
        forall|j: int| 0 <= j < place ==> same_topology(base, &#[trigger] candidates[j]),
        0 <= list < base.geometry@.len(),
        0 <= face < base.geometry@[list]@.len(),
        list < candidates[place].geometry@.len() && face < candidates[place].geometry@[list]@.len()
            ==> base.geometry@[list]@[face] != candidates[place].geometry@[list]@[face],
    ensures
        first_mismatch(base, candidates) == Some(place),
{
    lemma_first_mismatch(base, candidates);
    let frame = candidates[place];
    if same_topology(base, &frame) {
        assert(base.geometry@[list]@ == frame.geometry@[list]@);
        assert(false);
    }
}

} // verus!
