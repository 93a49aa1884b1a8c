//! Shapes, their mesh data, and the builder that merges several shapes into one mesh.

use vstd::prelude::*;

verus! {

/// Data structure intermediary for storing vertex and index information for
/// building a mesh.
pub struct ShapeMeshData<V> {
    pub vertices: Vec<V>,
    pub indices: Vec<u32>,
}

/// Standard trait to define a shape.
pub trait Shape {
    /// The vertex type the shape's mesh is made of.
    type Vertex;
    /// Where the shape sits relative to the compound it is part of.
    type Placement;

    /// Convert this shape to `ShapeMeshData` paired with its placement.
    fn as_mesh_data(&self) -> Result<(Self::Placement, ShapeMeshData<Self::Vertex>), ShapeBuilderError>;
}

/// Some various errors that may be thrown by `ShapeBuilder`.
#[derive(Debug, Clone, Copy, PartialEq, Eq)]
pub enum ShapeBuilderError {
    ColliderBuildError(&'static str),
}

/// Mesh resolution for a capsule: `segments` around the circumference and
/// `rings` per hemispherical cap.
#[derive(Debug, Clone, Copy, PartialEq, Eq, Structural)]
pub struct CapsuleDrawInstructions {
    pub segments: u32,
    pub rings: u32,
}

/// Standard builder for building shapes, including compound shapes.
pub struct ShapeBuilder<S> {
    shapes: Vec<S>,
}

impl<S> View for ShapeBuilder<S> {
    type V = Seq<S>;

    closed spec fn view(&self) -> Seq<S> {
        self.shapes@
    }
}

impl<S> ShapeBuilder<S> {
    /// Create a new `ShapeBuilder`.
    pub fn new() -> (r: Self)
        ensures
            r@ == Seq::<S>::empty(),
    {
        ShapeBuilder { shapes: Vec::new() }
    }

    /// Add a shape to this builder.
    pub fn add(&mut self, shape: S) -> (r: &mut Self)
        ensures
            r@ == old(self)@.push(shape),
            *final(self) == *final(r),
    {
        self.shapes.push(shape);
        self
    }

    /// The shapes added so far, in order.
    pub fn shapes(&self) -> (r: &Vec<S>)
        ensures
            r@ == self@,
    {
        &self.shapes
    }

    /// Whether no shape has been added.
    pub fn is_empty(&self) -> (r: bool)
        ensures
            r == (self@.len() == 0),
    {
        self.shapes.len() == 0
    }
}

/// The vertices of all parts, one part after another.
pub open spec fn merged_vertices<V>(parts: Seq<ShapeMeshData<V>>) -> Seq<V>
    decreases parts.len(),
{
    if parts.len() == 0 {
        Seq::empty()
    } else {
        merged_vertices(parts.drop_last()) + parts.last().vertices@
    }
}

/// A part's indices shifted by `offset`, the number of vertices placed before it.
pub open spec fn shifted(indices: Seq<u32>, offset: nat) -> Seq<u32> {
    indices.map_values(|i: u32| (i + offset) as u32)
}

/// The indices of all parts, one part after another, each part's indices shifted
/// by the number of vertices of the parts before it, so that they still name that
/// part's own vertices in the merged vertex list.
pub open spec fn merged_indices<V>(parts: Seq<ShapeMeshData<V>>) -> Seq<u32>
    decreases parts.len(),
{
    if parts.len() == 0 {
        Seq::empty()
    } else {
        merged_indices(parts.drop_last())
            + shifted(parts.last().indices@, merged_vertices(parts.drop_last()).len())
    }
}

/// No shifted index passes `u32::MAX`: each index of part `k`, plus the vertex count
/// of the parts before `k`, fits in a `u32`.
pub open spec fn shifts_fit<V>(parts: Seq<ShapeMeshData<V>>) -> bool {
    forall|k: int, i: int|
        0 <= k < parts.len() && 0 <= i < parts[k].indices@.len()
            ==> #[trigger] parts[k].indices@[i] + merged_vertices(parts.take(k)).len() <= u32::MAX
}

/// Every part's indices name one of its own vertices.
pub open spec fn parts_well_formed<V>(parts: Seq<ShapeMeshData<V>>) -> bool {
    forall|k: int, i: int|
        0 <= k < parts.len() && 0 <= i < parts[k].indices@.len()
            ==> #[trigger] parts[k].indices@[i] < parts[k].vertices@.len()
}

/// Merging well-formed parts gives well-formed mesh data: every merged index names a
/// vertex of the merged vertex list, indeed one of the vertices of its own part.
pub proof fn lemma_merged_indices_in_range<V>(parts: Seq<ShapeMeshData<V>>)
    requires
        shifts_fit(parts),
        parts_well_formed(parts),
    ensures
        forall|m: int| 0 <= m < merged_indices(parts).len()
            ==> #[trigger] merged_indices(parts)[m] < merged_vertices(parts).len(),
    decreases parts.len(),
{
    if parts.len() > 0 {
        let front = parts.drop_last();
        let k = parts.len() - 1;
        assert forall|k2: int, i: int|
            0 <= k2 < front.len() && 0 <= i < front[k2].indices@.len() implies
            #[trigger] front[k2].indices@[i] + merged_vertices(front.take(k2)).len() <= u32::MAX by {
            assert(front.take(k2) =~= parts.take(k2));
            assert(front[k2] == parts[k2]);
            assert(parts[k2].indices@[i] + merged_vertices(parts.take(k2)).len() <= u32::MAX);
        }
        assert forall|k2: int, i: int|
            0 <= k2 < front.len() && 0 <= i < front[k2].indices@.len() implies
            #[trigger] front[k2].indices@[i] < front[k2].vertices@.len() by {
            assert(front[k2] == parts[k2]);
            assert(parts[k2].indices@[i] < parts[k2].vertices@.len());
        }
        lemma_merged_indices_in_range(front);
        assert(parts.take(k) =~= front);
        let off = merged_vertices(front).len();
        let last = parts.last();
        assert forall|m: int| 0 <= m < merged_indices(parts).len()
            implies #[trigger] merged_indices(parts)[m] < merged_vertices(parts).len() by {
            let lo = merged_indices(front).len() as int;
            if m < lo {
                assert(merged_indices(parts)[m] == merged_indices(front)[m]);
            } else {
                let i = m - lo;
                assert(parts[k] == last);
                assert(last.indices@[i] + merged_vertices(parts.take(k)).len() <= u32::MAX);
                assert(last.indices@[i] < last.vertices@.len());
                assert(merged_indices(parts)[m] == shifted(last.indices@, off)[i]);
            }
        }
    }
}

/// Merges the mesh data of several shapes into one: their vertices appended in
/// order, and their indices appended in order, each part's indices shifted by the
/// number of vertices of the parts before it. Merging well-formed parts gives
/// well-formed data.
pub fn merge_mesh_data<V: Copy>(parts: &Vec<ShapeMeshData<V>>) -> (r: ShapeMeshData<V>)
    requires
        shifts_fit(parts@),
    ensures
        r.vertices@ == merged_vertices(parts@),
        r.indices@ == merged_indices(parts@),
        parts_well_formed(parts@) ==> forall|m: int| 0 <= m < r.indices@.len()
            ==> #[trigger] r.indices@[m] < r.vertices@.len(),
{
    let mut vertices: Vec<V> = Vec::new();
    let mut indices: Vec<u32> = Vec::new();
    let mut p: usize = 0;
    while p < parts.len()
        invariant
            p <= parts@.len(),
            shifts_fit(parts@),
            vertices@ == merged_vertices(parts@.take(p as int)),
            indices@ == merged_indices(parts@.take(p as int)),
        decreases parts@.len() - p,
    {
        let part = &parts[p];
        let ghost before_v = vertices@;
        let ghost before_i = indices@;
        let offset: usize = vertices.len();
        assert forall|i: int| 0 <= i < part.indices@.len()
            implies #[trigger] part.indices@[i] + offset <= u32::MAX by {
            assert(parts@[p as int].indices@[i] + merged_vertices(parts@.take(p as int)).len() <= u32::MAX);
        }
        let mut j: usize = 0;
        while j < part.vertices.len()
            invariant
                j <= part.vertices@.len(),
                vertices@ == before_v + part.vertices@.take(j as int),
            decreases part.vertices@.len() - j,
        {
            vertices.push(part.vertices[j]);
            j = j + 1;
            assert(vertices@ =~= before_v + part.vertices@.take(j as int));
        }
        let mut k: usize = 0;
        while k < part.indices.len()
            invariant
                k <= part.indices@.len(),
                offset == before_v.len(),
                forall|i: int| 0 <= i < part.indices@.len() ==> #[trigger] part.indices@[i] + offset <= u32::MAX,
                indices@ == before_i + shifted(part.indices@.take(k as int), offset as nat),
            decreases part.indices@.len() - k,
        {
            let shifted_index: u64 = part.indices[k] as u64 + offset as u64;
            indices.push(shifted_index as u32);
            k = k + 1;
            assert(indices@ =~= before_i + shifted(part.indices@.take(k as int), offset as nat));
        }
        proof {
            assert(part.vertices@.take(j as int) =~= part.vertices@);
            assert(part.indices@.take(k as int) =~= part.indices@);
            assert(parts@.take(p + 1).drop_last() =~= parts@.take(p as int));
        }
        p = p + 1;
    }
    proof {
        assert(parts@.take(p as int) =~= parts@);
        if parts_well_formed(parts@) {
            lemma_merged_indices_in_range(parts@);
        }
    }
    ShapeMeshData { vertices, indices }
}

} // verus!
