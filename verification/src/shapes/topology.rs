//! Vertex counts and triangle index lists of the primitive shapes.
//!
//! The vertex positions, normals and uvs of a shape are floating-point data and
//! are generated elsewhere, in the order these functions count them; the index
//! lists here say which of those vertices form each triangle.

use vstd::prelude::*;

verus! {

/// Every index names one of the first `vertex_count` vertices.
pub open spec fn indices_in_range(indices: Seq<u32>, vertex_count: nat) -> bool {
    forall|j: int| 0 <= j < indices.len() ==> (#[trigger] indices[j]) < vertex_count
}

// ---------------------------------------------------------------- cube

/// The cube's vertex count: four corners on each of its six faces.
pub open spec fn cube_vertex_count() -> nat {
    24
}

/// The two triangles of the cube face whose corners start at vertex `4 * face`.
pub open spec fn cube_face(face: nat) -> Seq<u32> {
    let b = 4 * face;
    seq![b as u32, (b + 1) as u32, (b + 2) as u32, b as u32, (b + 2) as u32, (b + 3) as u32]
}

/// The cube's index list over its first `faces` faces.
pub open spec fn cube_faces(faces: nat) -> Seq<u32>
    decreases faces,
{
    if faces == 0 {
        Seq::empty()
    } else {
        cube_faces((faces - 1) as nat) + cube_face((faces - 1) as nat)
    }
}

proof fn lemma_cube_faces_in_range(faces: nat)
    requires
        faces <= 6,
    ensures
        cube_faces(faces).len() == 6 * faces,
        indices_in_range(cube_faces(faces), 4 * faces),
    decreases faces,
{
    if faces > 0 {
        lemma_cube_faces_in_range((faces - 1) as nat);
        let prev = cube_faces((faces - 1) as nat);
        let f = cube_face((faces - 1) as nat);
        assert forall|j: int| 0 <= j < (prev + f).len() implies (#[trigger] (prev + f)[j]) < 4 * faces by {
            if j < prev.len() {
                assert((prev + f)[j] == prev[j]);
            } else {
                assert((prev + f)[j] == f[j - prev.len()]);
            }
        }
    }
}

/// The index list of a cube: two triangles per face, six faces of four vertices each.
pub fn cube_indices() -> (r: Vec<u32>)
    ensures
        r@ == cube_faces(6),
        r@.len() == 36,
        indices_in_range(r@, cube_vertex_count()),
        // face f (0..6) is drawn as two triangles over its own four vertices 4f..4f+4
        r@ == seq![
            0u32, 1, 2, 0, 2, 3,
            4, 5, 6, 4, 6, 7,
            8, 9, 10, 8, 10, 11,
            12, 13, 14, 12, 14, 15,
            16, 17, 18, 16, 18, 19,
            20, 21, 22, 20, 22, 23
        ],
{
    let mut out: Vec<u32> = Vec::new();
    let mut face: u32 = 0;
    while face < 6
        invariant
            face <= 6,
            out@ == cube_faces(face as nat),
        decreases 6 - face,
    {
        let b = face * 4;
        out.push(b);
        out.push(b + 1);
        out.push(b + 2);
        out.push(b);
        out.push(b + 2);
        out.push(b + 3);
        face = face + 1;
        assert(out@ =~= cube_faces(face as nat));
    }
    proof {
        lemma_cube_faces_in_range(6);
        reveal_with_fuel(cube_faces, 7);
        assert(out@ =~= seq![
            0u32, 1, 2, 0, 2, 3,
            4, 5, 6, 4, 6, 7,
            8, 9, 10, 8, 10, 11,
            12, 13, 14, 12, 14, 15,
            16, 17, 18, 16, 18, 19,
            20, 21, 22, 20, 22, 23
        ]);
    }
    out
}

// ---------------------------------------------------------------- cylinder

/// The cylinder's vertex count for `segments` sides: a top and a bottom side vertex
/// per rim point, then the top cap's center and rim, then the bottom cap's.
pub open spec fn cylinder_vertex_count(segments: nat) -> nat {
    2 * (segments + 1) + 1 + (segments + 1) + 1 + (segments + 1)
}

/// The two side triangles of segment `i`, over the interleaved top/bottom side vertices.
pub open spec fn cylinder_side(i: nat) -> Seq<u32> {
    let b = 2 * i;
    seq![b as u32, (b + 2) as u32, (b + 1) as u32, (b + 1) as u32, (b + 2) as u32, (b + 3) as u32]
}

/// A cap triangle fanning from `center` to rim vertices `center + 1 + i` and
/// `center + 2 + i`, wound counter-clockwise (`top`) or reversed.
pub open spec fn cap_triangle(center: nat, i: nat, top: bool) -> Seq<u32> {
    if top {
        seq![center as u32, (center + 1 + i) as u32, (center + 2 + i) as u32]
    } else {
        seq![center as u32, (center + 2 + i) as u32, (center + 1 + i) as u32]
    }
}

/// The side triangles of the first `n` segments.
pub open spec fn cylinder_sides(n: nat) -> Seq<u32>
    decreases n,
{
    if n == 0 { Seq::empty() } else { cylinder_sides((n - 1) as nat) + cylinder_side((n - 1) as nat) }
}

/// The first `n` triangles of a cap fanning from `center`.
pub open spec fn cap(center: nat, n: nat, top: bool) -> Seq<u32>
    decreases n,
{
    if n == 0 { Seq::empty() } else { cap(center, (n - 1) as nat, top) + cap_triangle(center, (n - 1) as nat, top) }
}

/// The cylinder's index list: sides, then the top cap, then the bottom cap.
pub open spec fn cylinder_index_list(segments: nat) -> Seq<u32> {
    let top = 2 * (segments + 1);
    let bottom = top + 1 + (segments + 1);
    cylinder_sides(segments) + cap(top, segments, true) + cap(bottom, segments, false)
}

proof fn lemma_concat_in_range(a: Seq<u32>, b: Seq<u32>, bound: nat)
    requires
        indices_in_range(a, bound),
        indices_in_range(b, bound),
    ensures
        indices_in_range(a + b, bound),
{
    assert forall|j: int| 0 <= j < (a + b).len() implies (#[trigger] (a + b)[j]) < bound by {
        if j < a.len() {
            assert((a + b)[j] == a[j]);
        } else {
            assert((a + b)[j] == b[j - a.len()]);
        }
    }
}

proof fn lemma_cylinder_sides(n: nat)
    requires
        2 * n + 1 <= u32::MAX,
    ensures
        cylinder_sides(n).len() == 6 * n,
        indices_in_range(cylinder_sides(n), 2 * n + 2),
    decreases n,
{
    if n > 0 {
        lemma_cylinder_sides((n - 1) as nat);
        lemma_concat_in_range(cylinder_sides((n - 1) as nat), cylinder_side((n - 1) as nat), 2 * n + 2);
    }
}

proof fn lemma_cap(center: nat, n: nat, top: bool)
    requires
        center + n + 1 <= u32::MAX,
    ensures
        cap(center, n, top).len() == 3 * n,
        indices_in_range(cap(center, n, top), center + n + 2),
    decreases n,
{
    if n > 0 {
        lemma_cap(center, (n - 1) as nat, top);
        lemma_concat_in_range(cap(center, (n - 1) as nat, top), cap_triangle(center, (n - 1) as nat, top), center + n + 2);
    }
}

/// Appends the cap triangles fanning from `center` over `segments` rim vertices.
fn push_cap(out: &mut Vec<u32>, center: u32, segments: u32, top: bool)
    requires
        center as int + segments as int + 1 <= u32::MAX,
    ensures
        final(out)@ == old(out)@ + cap(center as nat, segments as nat, top),
{
    let ghost start = out@;
    let mut i: u32 = 0;
    while i < segments
        invariant
            i <= segments,
            center as int + segments as int + 1 <= u32::MAX,
            out@ == start + cap(center as nat, i as nat, top),
        decreases segments - i,
    {
        out.push(center);
        if top {
            out.push(center + 1 + i);
            out.push(center + 2 + i);
        } else {
            out.push(center + 2 + i);
            out.push(center + 1 + i);
        }
        i = i + 1;
        assert(out@ =~= start + cap(center as nat, i as nat, top));
    }
}

/// The index list of a cylinder with `segments` sides: two triangles per side,
/// then a fan of one triangle per segment for the top cap and for the bottom cap
/// (the bottom wound the other way).
pub fn cylinder_indices(segments: u32) -> (r: Vec<u32>)
    requires
        cylinder_vertex_count(segments as nat) <= u32::MAX,
    ensures
        r@ == cylinder_index_list(segments as nat),
        r@.len() == 12 * segments,
        indices_in_range(r@, cylinder_vertex_count(segments as nat)),
{
    let mut out: Vec<u32> = Vec::new();
    let mut i: u32 = 0;
    while i < segments
        invariant
            i <= segments,
            cylinder_vertex_count(segments as nat) <= u32::MAX,
            out@ == cylinder_sides(i as nat),
        decreases segments - i,
    {
        let b = i * 2;
        out.push(b);
        out.push(b + 2);
        out.push(b + 1);
        out.push(b + 1);
        out.push(b + 2);
        out.push(b + 3);
        i = i + 1;
        assert(out@ =~= cylinder_sides(i as nat));
    }
    let top = (segments + 1) * 2;
    push_cap(&mut out, top, segments, true);
    let bottom = top + 1 + (segments + 1);
    push_cap(&mut out, bottom, segments, false);
    proof {
        let s = segments as nat;
        let count = cylinder_vertex_count(s);
        lemma_cylinder_sides(s);
        lemma_cap(top as nat, s, true);
        lemma_cap(bottom as nat, s, false);
        assert(indices_in_range(cylinder_sides(s), count));
        assert(indices_in_range(cap(top as nat, s, true), count));
        assert(indices_in_range(cap(bottom as nat, s, false), count));
        lemma_concat_in_range(cylinder_sides(s), cap(top as nat, s, true), count);
        lemma_concat_in_range(cylinder_sides(s) + cap(top as nat, s, true), cap(bottom as nat, s, false), count);
    }
    out
}

// ---------------------------------------------------------------- cone

/// The cone's vertex count for `segments` sides: an apex and a base vertex per rim
/// point, then the bottom cap's center and rim.
pub open spec fn cone_vertex_count(segments: nat) -> nat {
    2 * (segments + 1) + 1 + (segments + 1)
}

/// The side triangle of segment `i`: its base vertex, the next base vertex, and
/// the apex between them.
pub open spec fn cone_side(i: nat) -> Seq<u32> {
    let b = 2 * i + 1;
    seq![b as u32, (b + 2) as u32, (b + 1) as u32]
}

/// The side triangles of the first `n` segments.
pub open spec fn cone_sides(n: nat) -> Seq<u32>
    decreases n,
{
    if n == 0 { Seq::empty() } else { cone_sides((n - 1) as nat) + cone_side((n - 1) as nat) }
}

/// The cone's index list: sides, then the bottom cap.
pub open spec fn cone_index_list(segments: nat) -> Seq<u32> {
    cone_sides(segments) + cap(2 * (segments + 1), segments, false)
}

proof fn lemma_cone_sides(n: nat)
    requires
        2 * n + 2 <= u32::MAX,
    ensures
        cone_sides(n).len() == 3 * n,
        indices_in_range(cone_sides(n), 2 * n + 2),
    decreases n,
{
    if n > 0 {
        lemma_cone_sides((n - 1) as nat);
        lemma_concat_in_range(cone_sides((n - 1) as nat), cone_side((n - 1) as nat), 2 * n + 2);
    }
}

/// The index list of a cone with `segments` sides: one triangle per side, then a
/// fan of one triangle per segment for the bottom cap, wound downwards.
pub fn cone_indices(segments: u32) -> (r: Vec<u32>)
    requires
        cone_vertex_count(segments as nat) <= u32::MAX,
    ensures
        r@ == cone_index_list(segments as nat),
        r@.len() == 6 * segments,
        indices_in_range(r@, cone_vertex_count(segments as nat)),
{
    let mut out: Vec<u32> = Vec::new();
    let mut i: u32 = 0;
    while i < segments
        invariant
            i <= segments,
            cone_vertex_count(segments as nat) <= u32::MAX,
            out@ == cone_sides(i as nat),
        decreases segments - i,
    {
        let b = i * 2 + 1;
        out.push(b);
        out.push(b + 2);
        out.push(b + 1);
        i = i + 1;
        assert(out@ =~= cone_sides(i as nat));
    }
    let bottom = (segments + 1) * 2;
    push_cap(&mut out, bottom, segments, false);
    proof {
        let s = segments as nat;
        let count = cone_vertex_count(s);
        lemma_cone_sides(s);
        lemma_cap(bottom as nat, s, false);
        assert(indices_in_range(cone_sides(s), count));
        assert(indices_in_range(cap(bottom as nat, s, false), count));
        lemma_concat_in_range(cone_sides(s), cap(bottom as nat, s, false), count);
    }
    out
}

// ---------------------------------------------------------------- capsule

/// The capsule's vertex count for `segments` around and `rings` per cap: a grid of
/// `segments + 1` columns with `rings + 1` rows for the top hemisphere, three rows
/// for the cylinder body, and `rings + 1` rows for the bottom hemisphere.
pub open spec fn capsule_vertex_count(segments: nat, rings: nat) -> nat {
    (2 * rings + 5) * (segments + 1)
}

/// The two triangles of the grid cell whose top-left vertex is `current`, in a
/// grid whose rows are `stride` vertices apart.
pub open spec fn grid_quad(current: nat, stride: nat) -> Seq<u32> {
    let next = current + stride;
    seq![current as u32, next as u32, (current + 1) as u32, (current + 1) as u32, next as u32, (next + 1) as u32]
}

/// The first `n` cells of the grid row starting at vertex `base`.
pub open spec fn grid_row(base: nat, n: nat, stride: nat) -> Seq<u32>
    decreases n,
{
    if n == 0 { Seq::empty() } else { grid_row(base, (n - 1) as nat, stride) + grid_quad(base + (n - 1) as nat, stride) }
}

/// The cells of the first `rows` rows of a grid of `segments` cells per row,
/// starting at vertex `start`.
pub open spec fn grid(start: nat, rows: nat, segments: nat) -> Seq<u32>
    decreases rows,
{
    if rows == 0 {
        Seq::empty()
    } else {
        grid(start, (rows - 1) as nat, segments)
            + grid_row(start + ((rows - 1) as nat) * (segments + 1), segments, segments + 1)
    }
}

/// The capsule's index list: the top hemisphere's grid, the body's, the bottom
/// hemisphere's.
pub open spec fn capsule_index_list(segments: nat, rings: nat) -> Seq<u32> {
    let cylinder_start = (rings + 1) * (segments + 1);
    let bottom_start = cylinder_start + 3 * (segments + 1);
    grid(0, rings, segments) + grid(cylinder_start, 2, segments) + grid(bottom_start, rings, segments)
}

proof fn lemma_grid_row(base: nat, n: nat, stride: nat)
    requires
        base + n + stride <= u32::MAX,
    ensures
        grid_row(base, n, stride).len() == 6 * n,
        indices_in_range(grid_row(base, n, stride), base + n + stride + 1),
    decreases n,
{
    if n > 0 {
        lemma_grid_row(base, (n - 1) as nat, stride);
        lemma_concat_in_range(grid_row(base, (n - 1) as nat, stride), grid_quad(base + (n - 1) as nat, stride), base + n + stride + 1);
    }
}

proof fn lemma_grid(start: nat, rows: nat, segments: nat)
    requires
        start + (rows + 1) * (segments + 1) <= u32::MAX,
    ensures
        grid(start, rows, segments).len() == 6 * rows * segments,
        indices_in_range(grid(start, rows, segments), start + (rows + 1) * (segments + 1)),
    decreases rows,
{
    if rows > 0 {
        let r1 = (rows - 1) as nat;
        let bound = start + (rows + 1) * (segments + 1);
        assert((rows + 1) * (segments + 1) == (r1 + 1) * (segments + 1) + (segments + 1)) by (nonlinear_arith)
            requires r1 + 1 == rows;
        assert(r1 * (segments + 1) + segments + 1 == (r1 + 1) * (segments + 1)) by (nonlinear_arith);
        lemma_grid(start, r1, segments);
        let base = start + r1 * (segments + 1);
        lemma_grid_row(base, segments, segments + 1);
        assert(6 * r1 * segments + 6 * segments == 6 * rows * segments) by (nonlinear_arith)
            requires r1 + 1 == rows;
        lemma_concat_in_range(grid(start, r1, segments), grid_row(base, segments, segments + 1), bound);
    } else {
        assert(6 * rows * segments == 0) by (nonlinear_arith)
            requires rows == 0;
    }
}

/// Cell (`row`, `col`) of a grid of `cols` cells per row whose vertices start at
/// `start`, with rows `cols + 1` vertices apart, is drawn at position
/// `offset + 6 * (row * cols + col)` of `r`: from its top-left vertex `c`, the
/// triangles (c, c + cols + 1, c + 1) and (c + 1, c + cols + 1, c + cols + 2).
pub open spec fn grid_cell_holds(r: Seq<u32>, offset: int, start: int, cols: int, row: int, col: int) -> bool {
    let k = offset + 6 * (row * cols + col);
    let c = start + row * (cols + 1) + col;
    &&& 0 <= k
    &&& k + 6 <= r.len()
    &&& r[k] == c
    &&& r[k + 1] == c + cols + 1
    &&& r[k + 2] == c + 1
    &&& r[k + 3] == c + 1
    &&& r[k + 4] == c + cols + 1
    &&& r[k + 5] == c + cols + 2
}

proof fn lemma_grid_row_cells(base: nat, n: nat, stride: nat, col: nat)
    requires
        col < n,
        base + n + stride <= u32::MAX,
    ensures
        grid_row(base, n, stride).len() == 6 * n,
        grid_row(base, n, stride)[6 * col as int] == base + col,
        grid_row(base, n, stride)[6 * col as int + 1] == base + col + stride,
        grid_row(base, n, stride)[6 * col as int + 2] == base + col + 1,
        grid_row(base, n, stride)[6 * col as int + 3] == base + col + 1,
        grid_row(base, n, stride)[6 * col as int + 4] == base + col + stride,
        grid_row(base, n, stride)[6 * col as int + 5] == base + col + stride + 1,
    decreases n,
{
    lemma_grid_row(base, n, stride);
    let n1 = (n - 1) as nat;
    lemma_grid_row(base, n1, stride);
    if col < n1 {
        lemma_grid_row_cells(base, n1, stride, col);
    }
}

proof fn lemma_grid_cells(start: nat, rows: nat, cols: nat, row: nat, col: nat)
    requires
        row < rows,
        col < cols,
        start + (rows + 1) * (cols + 1) <= u32::MAX,
    ensures
        grid_cell_holds(grid(start, rows, cols), 0, start as int, cols as int, row as int, col as int),
    decreases rows,
{
    let r1 = (rows - 1) as nat;
    let g = grid(start, rows, cols);
    let prev = grid(start, r1, cols);
    let base = start + r1 * (cols + 1);
    assert((rows + 1) * (cols + 1) == (r1 + 1) * (cols + 1) + (cols + 1)) by (nonlinear_arith)
        requires r1 + 1 == rows;
    assert(r1 * (cols + 1) + cols + 1 == (r1 + 1) * (cols + 1)) by (nonlinear_arith);
    assert(r1 * (cols + 1) >= 0) by (nonlinear_arith);
    lemma_grid(start, rows, cols);
    lemma_grid(start, r1, cols);
    lemma_grid_row(base, cols, cols + 1);
    assert(g == prev + grid_row(base, cols, cols + 1));
    let k: int = (6 * (row * cols + col)) as int;
    assert(row * cols + col + 1 <= rows * cols) by (nonlinear_arith)
        requires row < rows, col < cols;
    assert(row * cols >= 0) by (nonlinear_arith);
    if row < r1 {
        lemma_grid_cells(start, r1, cols, row, col);
        assert(row * cols + col + 1 <= r1 * cols) by (nonlinear_arith)
            requires row < r1, col < cols;
        assert(6 * r1 * cols == 6 * (r1 * cols)) by (nonlinear_arith);
        assert(g[k + 0] == prev[k + 0]);
        assert(g[k + 1] == prev[k + 1]);
        assert(g[k + 2] == prev[k + 2]);
        assert(g[k + 3] == prev[k + 3]);
        assert(g[k + 4] == prev[k + 4]);
        assert(g[k + 5] == prev[k + 5]);
    } else {
        assert(row == r1);
        assert(6 * r1 * cols == 6 * (r1 * cols)) by (nonlinear_arith);
        lemma_grid_row_cells(base, cols, cols + 1, col);
        let off: int = prev.len() as int;
        assert(off == 6 * (r1 * cols));
        assert(k == off + 6 * col);
        assert(g[k + 0] == grid_row(base, cols, cols + 1)[6 * col as int + 0]);
        assert(g[k + 1] == grid_row(base, cols, cols + 1)[6 * col as int + 1]);
        assert(g[k + 2] == grid_row(base, cols, cols + 1)[6 * col as int + 2]);
        assert(g[k + 3] == grid_row(base, cols, cols + 1)[6 * col as int + 3]);
        assert(g[k + 4] == grid_row(base, cols, cols + 1)[6 * col as int + 4]);
        assert(g[k + 5] == grid_row(base, cols, cols + 1)[6 * col as int + 5]);
    }
}

/// Moves cell facts of `g` to the same grid placed at `offset` inside `a + g + b`.
proof fn lemma_cell_in_concat(a: Seq<u32>, g: Seq<u32>, b: Seq<u32>, start: int, cols: int, row: int, col: int)
    requires
        grid_cell_holds(g, 0, start, cols, row, col),
    ensures
        grid_cell_holds(a + g + b, a.len() as int, start, cols, row, col),
{
    let k = 6 * (row * cols + col);
    assert((a + g + b)[a.len() + k + 0] == (a + g)[a.len() + k + 0]);
    assert((a + g)[a.len() + k + 0] == g[k + 0]);
    assert((a + g + b)[a.len() + k + 1] == (a + g)[a.len() + k + 1]);
    assert((a + g)[a.len() + k + 1] == g[k + 1]);
    assert((a + g + b)[a.len() + k + 2] == (a + g)[a.len() + k + 2]);
    assert((a + g)[a.len() + k + 2] == g[k + 2]);
    assert((a + g + b)[a.len() + k + 3] == (a + g)[a.len() + k + 3]);
    assert((a + g)[a.len() + k + 3] == g[k + 3]);
    assert((a + g + b)[a.len() + k + 4] == (a + g)[a.len() + k + 4]);
    assert((a + g)[a.len() + k + 4] == g[k + 4]);
    assert((a + g + b)[a.len() + k + 5] == (a + g)[a.len() + k + 5]);
    assert((a + g)[a.len() + k + 5] == g[k + 5]);
}

/// Appends the cells of a grid row: `segments` cells from vertex `base`, with the
/// next row `segments + 1` vertices further.
fn push_grid_row(out: &mut Vec<u32>, base: u32, segments: u32)
    requires
        base as int + 2 * (segments as int) + 2 <= u32::MAX,
    ensures
        final(out)@ == old(out)@ + grid_row(base as nat, segments as nat, segments as nat + 1),
{
    let ghost start = out@;
    let stride = segments + 1;
    let mut seg: u32 = 0;
    while seg < segments
        invariant
            seg <= segments,
            stride == segments + 1,
            base as int + 2 * (segments as int) + 2 <= u32::MAX,
            out@ == start + grid_row(base as nat, seg as nat, stride as nat),
        decreases segments - seg,
    {
        let current = base + seg;
        let next = current + stride;
        out.push(current);
        out.push(next);
        out.push(current + 1);
        out.push(current + 1);
        out.push(next);
        out.push(next + 1);
        seg = seg + 1;
        assert(out@ =~= start + grid_row(base as nat, seg as nat, stride as nat));
    }
}

/// Appends the cells of `rows` grid rows of `segments` cells, starting at vertex `start`.
fn push_grid(out: &mut Vec<u32>, start: u32, rows: u32, segments: u32)
    requires
        start as int + (rows as int + 1) * (segments as int + 1) <= u32::MAX,
    ensures
        final(out)@ == old(out)@ + grid(start as nat, rows as nat, segments as nat),
{
    let ghost first = out@;
    let mut ring: u32 = 0;
    while ring < rows
        invariant
            ring <= rows,
            start as int + (rows as int + 1) * (segments as int + 1) <= u32::MAX,
            out@ == first + grid(start as nat, ring as nat, segments as nat),
        decreases rows - ring,
    {
        proof {
            assert((ring as int + 2) * (segments as int + 1) <= (rows as int + 1) * (segments as int + 1)) by (nonlinear_arith)
                requires ring < rows;
            assert((ring as int + 2) * (segments as int + 1) == ring as int * (segments as int + 1) + 2 * (segments as int) + 2) by (nonlinear_arith);
        }
        let base = start + ring * (segments + 1);
        push_grid_row(out, base, segments);
        ring = ring + 1;
        assert(out@ =~= first + grid(start as nat, ring as nat, segments as nat));
    }
}

/// The index list of a capsule with `segments` around and `rings` per hemisphere:
/// two triangles per grid cell of the top hemisphere, of the cylinder body (two
/// rows of cells), and of the bottom hemisphere.
pub fn capsule_indices(segments: u32, rings: u32) -> (r: Vec<u32>)
    requires
        capsule_vertex_count(segments as nat, rings as nat) <= u32::MAX,
    ensures
        r@ == capsule_index_list(segments as nat, rings as nat),
        r@.len() == 12 * (rings as nat) * (segments as nat) + 12 * (segments as nat),
        indices_in_range(r@, capsule_vertex_count(segments as nat, rings as nat)),
        // the top hemisphere: `rings` rows of `segments` cells from vertex 0
        forall|row: int, col: int| 0 <= row < rings && 0 <= col < segments
            ==> #[trigger] grid_cell_holds(r@, 0, 0, segments as int, row, col),
        // the body: two rows of cells, from the vertex after the top hemisphere's rows
        forall|row: int, col: int| 0 <= row < 2 && 0 <= col < segments
            ==> #[trigger] grid_cell_holds(r@, 6 * rings * segments, (rings + 1) * (segments + 1), segments as int, row, col),
        // the bottom hemisphere: `rings` rows of cells, after the body's three rows of vertices
        forall|row: int, col: int| 0 <= row < rings && 0 <= col < segments
            ==> #[trigger] grid_cell_holds(r@, 6 * rings * segments + 12 * segments,
                (rings + 1) * (segments + 1) + 3 * (segments + 1), segments as int, row, col),
{
    let ghost s = segments as nat;
    let ghost rg = rings as nat;
    proof {
        assert((2 * rg + 5) * (s + 1) == (rg + 1) * (s + 1) + 3 * (s + 1) + (rg + 1) * (s + 1)) by (nonlinear_arith);
        assert((rg + 1) * (s + 1) >= 0) by (nonlinear_arith);
        assert((2 * rg + 5) * (s + 1) >= 2 * rg + 5) by (nonlinear_arith);
        assert((rg + 1) * (s + 1) + 3 * (s + 1) <= (2 * rg + 5) * (s + 1)) by (nonlinear_arith);
    }
    let segs_plus_one = segments + 1;
    let mut out: Vec<u32> = Vec::new();
    push_grid(&mut out, 0, rings, segments);
    let cylinder_start = (rings + 1) * segs_plus_one;
    push_grid(&mut out, cylinder_start, 2, segments);
    let bottom_start = cylinder_start + 3 * segs_plus_one;
    push_grid(&mut out, bottom_start, rings, segments);
    proof {
        let count = capsule_vertex_count(s, rg);
        let cs = cylinder_start as nat;
        let bs = bottom_start as nat;
        assert(out@ =~= capsule_index_list(s, rg));
        lemma_grid(0, rg, s);
        lemma_grid(cs, 2, s);
        lemma_grid(bs, rg, s);
        assert(indices_in_range(grid(0, rg, s), count));
        assert(indices_in_range(grid(cs, 2, s), count));
        assert(indices_in_range(grid(bs, rg, s), count));
        lemma_concat_in_range(grid(0, rg, s), grid(cs, 2, s), count);
        lemma_concat_in_range(grid(0, rg, s) + grid(cs, 2, s), grid(bs, rg, s), count);
        assert(6 * rg * s + 6 * 2 * s + 6 * rg * s == 12 * rg * s + 12 * s) by (nonlinear_arith);
        let top = grid(0, rg, s);
        let body = grid(cs, 2, s);
        let bottom = grid(bs, rg, s);
        assert(6 * rg * s == 6 * (rg * s)) by (nonlinear_arith);
        assert(cs + 3 * (s + 1) + (rg + 1) * (s + 1) <= u32::MAX);
        assert forall|row: int, col: int| 0 <= row < rings && 0 <= col < segments
            implies #[trigger] grid_cell_holds(out@, 0, 0, segments as int, row, col) by {
            lemma_grid_cells(0, rg, s, row as nat, col as nat);
            lemma_cell_in_concat(Seq::<u32>::empty(), top, body + bottom, 0, s as int, row, col);
            assert(Seq::<u32>::empty() + top + (body + bottom) =~= out@);
        }
        assert forall|row: int, col: int| 0 <= row < 2 && 0 <= col < segments
            implies #[trigger] grid_cell_holds(out@, 6 * rings * segments, (rings + 1) * (segments + 1), segments as int, row, col) by {
            lemma_grid_cells(cs, 2, s, row as nat, col as nat);
            lemma_cell_in_concat(top, body, bottom, cs as int, s as int, row, col);
            assert(top + body + bottom =~= out@);
        }
        assert forall|row: int, col: int| 0 <= row < rings && 0 <= col < segments
            implies #[trigger] grid_cell_holds(out@, 6 * rings * segments + 12 * segments,
                (rings + 1) * (segments + 1) + 3 * (segments + 1), segments as int, row, col) by {
            lemma_grid_cells(bs, rg, s, row as nat, col as nat);
            lemma_cell_in_concat(top + body, bottom, Seq::<u32>::empty(), bs as int, s as int, row, col);
            assert(top + body + bottom + Seq::<u32>::empty() =~= out@);
        }
    }
    out
}

} // verus!
