//! The topology of an icosphere: an icosahedron whose triangles are split into
//! four, `subdivisions` times, with one shared midpoint vertex per edge.
//!
//! Vertex positions are floating-point data computed elsewhere: the first twelve
//! are the icosahedron's corners, and each further vertex is the midpoint of the
//! two vertices recorded for it, pushed out to the sphere's radius.

use std::collections::HashMap;
use vstd::prelude::*;
use crate::shapes::topology::indices_in_range;

verus! {

broadcast use vstd::std_specs::hash::group_hash_axioms;

/// An edge's key: its two vertex indices, smaller first.
pub open spec fn edge_key(a: usize, b: usize) -> (usize, usize) {
    if a < b { (a, b) } else { (b, a) }
}

/// The midpoint vertex of the edge `key`: the one already made for it (found in
/// `cache`), or a new vertex numbered after the `base` vertices of the previous
/// level and the midpoints made so far. Returns the vertex and the midpoints and
/// cache afterwards.
pub open spec fn midpoint_of(
    mids: Seq<(usize, usize)>,
    cache: Map<(usize, usize), usize>,
    base: nat,
    key: (usize, usize),
) -> (usize, Seq<(usize, usize)>, Map<(usize, usize), usize>) {
    if cache.contains_key(key) {
        (cache[key], mids, cache)
    } else {
        let index = (base + mids.len()) as usize;
        (index, mids.push(key), cache.insert(key, index))
    }
}

/// Splits triangle `t` into four: one per corner, and the middle one, over the
/// midpoints of its three edges.
pub open spec fn split_triangle(
    t: (usize, usize, usize),
    mids: Seq<(usize, usize)>,
    cache: Map<(usize, usize), usize>,
    base: nat,
) -> (Seq<(usize, usize, usize)>, Seq<(usize, usize)>, Map<(usize, usize), usize>) {
    let (v0, v1, v2) = t;
    let (a, m1, c1) = midpoint_of(mids, cache, base, edge_key(v0, v1));
    let (b, m2, c2) = midpoint_of(m1, c1, base, edge_key(v1, v2));
    let (c, m3, c3) = midpoint_of(m2, c2, base, edge_key(v2, v0));
    (seq![(v0, a, c), (v1, b, a), (v2, c, b), (a, b, c)], m3, c3)
}

/// One subdivision of `tris` over `base` vertices: the split triangles in order,
/// the edge midpoints in the order they were first needed, and the edge-to-vertex cache.
pub open spec fn subdivision(tris: Seq<(usize, usize, usize)>, base: nat)
    -> (Seq<(usize, usize, usize)>, Seq<(usize, usize)>, Map<(usize, usize), usize>)
    decreases tris.len(),
{
    if tris.len() == 0 {
        (Seq::empty(), Seq::empty(), Map::empty())
    } else {
        let (out, mids, cache) = subdivision(tris.drop_last(), base);
        let (four, m, c) = split_triangle(tris.last(), mids, cache, base);
        (out + four, m, c)
    }
}

/// Every vertex of every triangle is below `bound`.
pub open spec fn triangles_below(tris: Seq<(usize, usize, usize)>, bound: nat) -> bool {
    forall|i: int| 0 <= i < tris.len() ==> {
        &&& (#[trigger] tris[i]).0 < bound
        &&& tris[i].1 < bound
        &&& tris[i].2 < bound
    }
}

/// The midpoint bookkeeping is consistent: the cache maps exactly the recorded
/// edges, each to its vertex number; no edge is recorded twice; every recorded
/// edge joins two vertices of the previous level, smaller first.
pub open spec fn midpoints_consistent(mids: Seq<(usize, usize)>, cache: Map<(usize, usize), usize>, base: nat) -> bool {
    &&& forall|k: (usize, usize)| #[trigger] cache.contains_key(k) <==> mids.contains(k)
    &&& forall|i: int| 0 <= i < mids.len() ==> cache[#[trigger] mids[i]] == base + i
    &&& mids.no_duplicates()
    &&& forall|i: int| 0 <= i < mids.len() ==> (#[trigger] mids[i]).0 <= mids[i].1 < base
}

proof fn lemma_midpoint_of(mids: Seq<(usize, usize)>, cache: Map<(usize, usize), usize>, base: nat, key: (usize, usize))
    requires
        midpoints_consistent(mids, cache, base),
        key.0 <= key.1 < base,
        base + mids.len() + 1 <= usize::MAX,
    ensures
        ({
            let (v, m, c) = midpoint_of(mids, cache, base, key);
            &&& midpoints_consistent(m, c, base)
            &&& v < base + m.len()
            &&& mids.len() <= m.len() <= mids.len() + 1
            &&& m.take(mids.len() as int) == mids
        }),
{
    if cache.contains_key(key) {
        let i = choose|i: int| 0 <= i < mids.len() && mids[i] == key;
        assert(cache[mids[i]] == base + i);
        assert(mids.take(mids.len() as int) =~= mids);
    } else {
        let index = (base + mids.len()) as usize;
        let m = mids.push(key);
        let c = cache.insert(key, index);
        assert(!mids.contains(key));
        assert forall|k: (usize, usize)| #[trigger] c.contains_key(k) <==> m.contains(k) by {
            if k == key {
                assert(m[mids.len() as int] == key);
            } else if mids.contains(k) {
                let j = choose|j: int| 0 <= j < mids.len() && mids[j] == k;
                assert(m[j] == k);
            } else if m.contains(k) {
                let j = choose|j: int| 0 <= j < m.len() && m[j] == k;
                if j < mids.len() {
                    assert(mids[j] == k);
                }
            }
        }
        assert forall|i: int| 0 <= i < m.len() implies c[#[trigger] m[i]] == base + i by {
            if i < mids.len() {
                assert(m[i] == mids[i]);
                assert(mids.contains(mids[i]));
            }
        }
        assert forall|i: int, j: int| 0 <= i < m.len() && 0 <= j < m.len() && i != j implies m[i] != m[j] by {
            if i < mids.len() && j < mids.len() {
            } else if i < mids.len() {
                assert(mids.contains(m[i]));
            } else if j < mids.len() {
                assert(mids.contains(m[j]));
            }
        }
        assert(m.take(mids.len() as int) =~= mids);
    }
}

proof fn lemma_split_triangle(
    t: (usize, usize, usize),
    mids: Seq<(usize, usize)>,
    cache: Map<(usize, usize), usize>,
    base: nat,
)
    requires
        midpoints_consistent(mids, cache, base),
        t.0 < base,
        t.1 < base,
        t.2 < base,
        base + mids.len() + 3 <= usize::MAX,
    ensures
        ({
            let (four, m, c) = split_triangle(t, mids, cache, base);
            &&& midpoints_consistent(m, c, base)
            &&& four.len() == 4
            &&& triangles_below(four, base + m.len())
            &&& mids.len() <= m.len() <= mids.len() + 3
        }),
{
    let (v0, v1, v2) = t;
    lemma_midpoint_of(mids, cache, base, edge_key(v0, v1));
    let (a, m1, c1) = midpoint_of(mids, cache, base, edge_key(v0, v1));
    lemma_midpoint_of(m1, c1, base, edge_key(v1, v2));
    let (b, m2, c2) = midpoint_of(m1, c1, base, edge_key(v1, v2));
    lemma_midpoint_of(m2, c2, base, edge_key(v2, v0));
    let (c, m3, c3) = midpoint_of(m2, c2, base, edge_key(v2, v0));
    let four = seq![(v0, a, c), (v1, b, a), (v2, c, b), (a, b, c)];
    assert(triangles_below(four, base + m3.len()));
}

proof fn lemma_subdivision(tris: Seq<(usize, usize, usize)>, base: nat)
    requires
        triangles_below(tris, base),
        base + 3 * tris.len() <= usize::MAX,
    ensures
        ({
            let (out, mids, cache) = subdivision(tris, base);
            &&& midpoints_consistent(mids, cache, base)
            &&& out.len() == 4 * tris.len()
            &&& mids.len() <= 3 * tris.len()
            &&& triangles_below(out, base + mids.len())
        }),
    decreases tris.len(),
{
    if tris.len() == 0 {
        let (out, mids, cache) = subdivision(tris, base);
        assert(mids =~= Seq::<(usize, usize)>::empty());
    } else {
        let prev = tris.drop_last();
        assert(triangles_below(prev, base)) by {
            assert forall|i: int| 0 <= i < prev.len() implies {
                &&& (#[trigger] prev[i]).0 < base
                &&& prev[i].1 < base
                &&& prev[i].2 < base
            } by {
                assert(prev[i] == tris[i]);
            }
        }
        lemma_subdivision(prev, base);
        let (out, mids, cache) = subdivision(prev, base);
        let t = tris.last();
        assert(t == tris[tris.len() - 1]);
        lemma_split_triangle(t, mids, cache, base);
        let (four, m, c) = split_triangle(t, mids, cache, base);
        assert forall|i: int| 0 <= i < (out + four).len() implies {
            &&& (#[trigger] (out + four)[i]).0 < base + m.len()
            &&& (out + four)[i].1 < base + m.len()
            &&& (out + four)[i].2 < base + m.len()
        } by {
            if i < out.len() {
                assert((out + four)[i] == out[i]);
            } else {
                assert((out + four)[i] == four[i - out.len()]);
            }
        }
    }
}

/// The twelve-vertex, twenty-face icosahedron the sphere is subdivided from.
pub open spec fn icosahedron() -> Seq<(usize, usize, usize)> {
    seq![
        (0, 11, 5), (0, 5, 1), (0, 1, 7), (0, 7, 10), (0, 10, 11),
        (1, 5, 9), (5, 11, 4), (11, 10, 2), (10, 7, 6), (7, 1, 8),
        (3, 9, 4), (3, 4, 2), (3, 2, 6), (3, 6, 8), (3, 8, 9),
        (4, 9, 5), (2, 4, 11), (6, 2, 10), (8, 6, 7), (9, 8, 1),
    ]
}

/// The triangles and the midpoint list after `level` subdivisions of the icosahedron.
pub open spec fn sphere_level(level: nat) -> (Seq<(usize, usize, usize)>, Seq<(usize, usize)>)
    decreases level,
{
    if level == 0 {
        (icosahedron(), Seq::empty())
    } else {
        let (tris, mids) = sphere_level((level - 1) as nat);
        let (next, new_mids, _) = subdivision(tris, 12 + mids.len());
        (next, mids + new_mids)
    }
}

pub open spec fn pow4(n: nat) -> nat
    decreases n,
{
    if n == 0 { 1 } else { 4 * pow4((n - 1) as nat) }
}

proof fn lemma_sphere_level(level: nat)
    requires
        level <= 13,
    ensures
        ({
            let (tris, mids) = sphere_level(level);
            &&& tris.len() == 20 * pow4(level)
            &&& mids.len() + 12 <= 20 * pow4(level)
            &&& triangles_below(tris, 12 + mids.len())
            &&& forall|i: int| 0 <= i < mids.len() ==> (#[trigger] mids[i]).0 <= mids[i].1 < 12 + i
        }),
    decreases level,
{
    reveal_with_fuel(pow4, 2);
    if level == 0 {
        let tris = icosahedron();
        assert(triangles_below(tris, 12));
    } else {
        let l1 = (level - 1) as nat;
        lemma_sphere_level(l1);
        let (tris, mids) = sphere_level(l1);
        let base = 12 + mids.len();
        assert(pow4(l1) <= pow4(12)) by {
            lemma_pow4_monotone(l1, 12);
        }
        assert(pow4(12) == 16777216) by { reveal_with_fuel(pow4, 13); }
        lemma_subdivision(tris, base);
        let (next, new_mids, cache) = subdivision(tris, base);
        let all = mids + new_mids;
        assert forall|i: int| 0 <= i < all.len() implies (#[trigger] all[i]).0 <= all[i].1 < 12 + i by {
            if i < mids.len() {
                assert(all[i] == mids[i]);
            } else {
                assert(all[i] == new_mids[i - mids.len()]);
            }
        }
    }
}

proof fn lemma_pow4_monotone(a: nat, b: nat)
    requires
        a <= b,
    ensures
        pow4(a) <= pow4(b),
    decreases b,
{
    if a < b {
        lemma_pow4_monotone(a, (b - 1) as nat);
        assert(pow4(b) == 4 * pow4((b - 1) as nat));
    }
}

/// The code an edge key is cached under.
pub open spec fn edge_code(key: (usize, usize)) -> u64 {
    (key.0 * 0x1_0000_0000 + key.1) as u64
}

proof fn lemma_edge_code_injective(p: (usize, usize), q: (usize, usize))
    requires
        p.0 < 0x1_0000_0000,
        p.1 < 0x1_0000_0000,
        q.0 < 0x1_0000_0000,
        q.1 < 0x1_0000_0000,
        edge_code(p) == edge_code(q),
    ensures
        p == q,
{
    let (a, b) = p;
    let (c, d) = q;
    assert(a * 0x1_0000_0000 + b < 0x1_0000_0000 * 0x1_0000_0000) by (nonlinear_arith)
        requires a < 0x1_0000_0000, b < 0x1_0000_0000;
    assert(c * 0x1_0000_0000 + d < 0x1_0000_0000 * 0x1_0000_0000) by (nonlinear_arith)
        requires c < 0x1_0000_0000, d < 0x1_0000_0000;
    assert(a == c && b == d) by (nonlinear_arith)
        requires
            a * 0x1_0000_0000 + b == c * 0x1_0000_0000 + d,
            b < 0x1_0000_0000,
            d < 0x1_0000_0000,
            0 <= b,
            0 <= d;
}

/// The cache keyed by edge codes holds the edge cache's entries.
pub open spec fn cache_matches(codes: Map<u64, usize>, cache: Map<(usize, usize), usize>) -> bool {
    forall|k: (usize, usize)| k.0 < 0x1_0000_0000 && k.1 < 0x1_0000_0000 ==> {
        &&& (codes.contains_key(#[trigger] edge_code(k)) <==> cache.contains_key(k))
        &&& cache.contains_key(k) ==> codes[edge_code(k)] == cache[k]
    }
}

fn make_edge_key(a: usize, b: usize) -> (r: (usize, usize))
    ensures
        r == edge_key(a, b),
{
    if a < b { (a, b) } else { (b, a) }
}

/// Finds or makes the midpoint vertex of the edge `key`.
fn find_midpoint(
    key: (usize, usize),
    base: usize,
    mids: &mut Vec<(usize, usize)>,
    codes: &mut HashMap<u64, usize>,
    Ghost(cache): Ghost<Map<(usize, usize), usize>>,
) -> (r: (usize, Ghost<Map<(usize, usize), usize>>))
    requires
        key.0 <= key.1 < base,
        base <= 0x1_0000_0000,
        base + old(mids)@.len() + 1 <= usize::MAX,
        cache_matches(old(codes)@, cache),
    ensures
        ({
            let (v, m, c) = midpoint_of(old(mids)@, cache, base as nat, key);
            &&& r.0 == v
            &&& final(mids)@ == m
            &&& r.1@ == c
            &&& cache_matches(final(codes)@, c)
        }),
{
    proof {
        assert((key.0 as u64) * 0x1_0000_0000 + (key.1 as u64) < 0x1_0000_0000 * 0x1_0000_0000) by (nonlinear_arith)
            requires key.0 < 0x1_0000_0000, key.1 < 0x1_0000_0000;
    }
    let code: u64 = (key.0 as u64) * 0x1_0000_0000 + (key.1 as u64);
    assert(code == edge_code(key));
    match codes.get(&code) {
        Some(index) => {
            assert(cache.contains_key(key));
            (*index, Ghost(cache))
        },
        None => {
            let index = base + mids.len();
            mids.push(key);
            codes.insert(code, index);
            let ghost c = cache.insert(key, index);
            assert forall|k: (usize, usize)| k.0 < 0x1_0000_0000 && k.1 < 0x1_0000_0000 implies {
                &&& (codes@.contains_key(#[trigger] edge_code(k)) <==> c.contains_key(k))
                &&& c.contains_key(k) ==> codes@[edge_code(k)] == c[k]
            } by {
                if edge_code(k) == code {
                    lemma_edge_code_injective(k, key);
                }
            }
            (index, Ghost(c))
        },
    }
}

/// Splits every triangle of `tris` (over `base` vertices) into four. Returns the
/// new triangles and, in order, the edge of each new vertex: vertex `base + j` is
/// the midpoint of the `j`-th returned edge. Each edge gets one midpoint, shared by
/// the triangles on both its sides.
pub fn subdivide(tris: &Vec<(usize, usize, usize)>, base: usize) -> (r: (Vec<(usize, usize, usize)>, Vec<(usize, usize)>))
    requires
        triangles_below(tris@, base as nat),
        base + 3 * tris@.len() <= u32::MAX,
    ensures
        r.0@ == subdivision(tris@, base as nat).0,
        r.1@ == subdivision(tris@, base as nat).1,
        r.0@.len() == 4 * tris@.len(),
        r.1@.no_duplicates(),
        triangles_below(r.0@, base as nat + r.1@.len()),
        forall|j: int| 0 <= j < r.1@.len() ==> (#[trigger] r.1@[j]).0 <= r.1@[j].1 < base,
{
    let mut out: Vec<(usize, usize, usize)> = Vec::new();
    let mut mids: Vec<(usize, usize)> = Vec::new();
    let mut codes: HashMap<u64, usize> = HashMap::new();
    let ghost mut cache: Map<(usize, usize), usize> = Map::empty();
    let n = tris.len();
    let mut t: usize = 0;
    while t < n
        invariant
            n == tris@.len(),
            t <= n,
            triangles_below(tris@, base as nat),
            base + 3 * tris@.len() <= u32::MAX,
            (out@, mids@, cache) == subdivision(tris@.take(t as int), base as nat),
            cache_matches(codes@, cache),
        decreases n - t,
    {
        proof {
            assert(tris@.take(t + 1).drop_last() =~= tris@.take(t as int));
            assert(tris@.take(t + 1).last() == tris@[t as int]);
            assert(triangles_below(tris@.take(t as int), base as nat)) by {
                assert forall|i: int| 0 <= i < tris@.take(t as int).len() implies {
                    &&& (#[trigger] tris@.take(t as int)[i]).0 < base
                    &&& tris@.take(t as int)[i].1 < base
                    &&& tris@.take(t as int)[i].2 < base
                } by {
                    assert(tris@.take(t as int)[i] == tris@[i]);
                }
            }
            lemma_subdivision(tris@.take(t as int), base as nat);
            assert(tris@[t as int].0 < base && tris@[t as int].1 < base && tris@[t as int].2 < base);
        }
        let (v0, v1, v2) = tris[t];
        let ghost m0 = mids@;
        let (a, Ghost(c1)) = find_midpoint(make_edge_key(v0, v1), base, &mut mids, &mut codes, Ghost(cache));
        proof { lemma_midpoint_of(m0, cache, base as nat, edge_key(v0, v1)); }
        let ghost m1 = mids@;
        let (b, Ghost(c2)) = find_midpoint(make_edge_key(v1, v2), base, &mut mids, &mut codes, Ghost(c1));
        proof { lemma_midpoint_of(m1, c1, base as nat, edge_key(v1, v2)); }
        let (c, Ghost(c3)) = find_midpoint(make_edge_key(v2, v0), base, &mut mids, &mut codes, Ghost(c2));
        out.push((v0, a, c));
        out.push((v1, b, a));
        out.push((v2, c, b));
        out.push((a, b, c));
        proof {
            cache = c3;
        }
        t = t + 1;
        proof {
            let (po, pm, pc) = subdivision(tris@.take((t - 1) as int), base as nat);
            let (four, fm, fc) = split_triangle(tris@[t - 1], pm, pc, base as nat);
            assert(out@ =~= po + four);
        }
    }
    proof {
        assert(tris@.take(n as int) =~= tris@);
        lemma_subdivision(tris@, base as nat);
    }
    (out, mids)
}

/// The topology of an icosphere: its triangles, and the edge each vertex after
/// the icosahedron's twelve corners is the midpoint of.
pub struct SphereTopology {
    pub triangles: Vec<(usize, usize, usize)>,
    pub midpoints: Vec<(usize, usize)>,
}

/// The topology of an icosahedron subdivided `subdivisions` times. The vertex
/// count is twelve plus the number of midpoints; midpoint `j` (vertex `12 + j`)
/// joins two vertices numbered below `12 + j`.
pub fn sphere_topology(subdivisions: u32) -> (r: SphereTopology)
    requires
        subdivisions <= 13,
    ensures
        r.triangles@ == sphere_level(subdivisions as nat).0,
        r.midpoints@ == sphere_level(subdivisions as nat).1,
        r.triangles@.len() == 20 * pow4(subdivisions as nat),
        triangles_below(r.triangles@, 12 + r.midpoints@.len()),
        12 + r.midpoints@.len() <= u32::MAX,
        forall|j: int| 0 <= j < r.midpoints@.len() ==> (#[trigger] r.midpoints@[j]).0 <= r.midpoints@[j].1 < 12 + j,
{
    let mut triangles: Vec<(usize, usize, usize)> = vec![
        (0, 11, 5), (0, 5, 1), (0, 1, 7), (0, 7, 10), (0, 10, 11),
        (1, 5, 9), (5, 11, 4), (11, 10, 2), (10, 7, 6), (7, 1, 8),
        (3, 9, 4), (3, 4, 2), (3, 2, 6), (3, 6, 8), (3, 8, 9),
        (4, 9, 5), (2, 4, 11), (6, 2, 10), (8, 6, 7), (9, 8, 1),
    ];
    assert(triangles@ =~= icosahedron());
    let mut midpoints: Vec<(usize, usize)> = Vec::new();
    let mut level: u32 = 0;
    while level < subdivisions
        invariant
            level <= subdivisions <= 13,
            (triangles@, midpoints@) == sphere_level(level as nat),
        decreases subdivisions - level,
    {
        proof {
            lemma_sphere_level(level as nat);
            lemma_pow4_monotone(level as nat, 12);
            assert(pow4(12) == 16777216) by { reveal_with_fuel(pow4, 13); }
        }
        let (next, new_mids) = subdivide(&triangles, 12 + midpoints.len());
        let ghost prev = midpoints@;
        let mut j: usize = 0;
        while j < new_mids.len()
            invariant
                j <= new_mids@.len(),
                midpoints@ == prev + new_mids@.take(j as int),
            decreases new_mids@.len() - j,
        {
            midpoints.push(new_mids[j]);
            j = j + 1;
            assert(midpoints@ =~= prev + new_mids@.take(j as int));
        }
        assert(new_mids@.take(j as int) =~= new_mids@);
        triangles = next;
        level = level + 1;
    }
    proof {
        lemma_sphere_level(subdivisions as nat);
        lemma_pow4_monotone(subdivisions as nat, 13);
        assert(pow4(13) == 67108864) by { reveal_with_fuel(pow4, 14); }
    }
    SphereTopology { triangles, midpoints }
}

/// The flat index list of `triangles`, three indices per triangle.
pub open spec fn flat_indices(triangles: Seq<(usize, usize, usize)>) -> Seq<u32>
    decreases triangles.len(),
{
    if triangles.len() == 0 {
        Seq::empty()
    } else {
        let t = triangles.last();
        flat_indices(triangles.drop_last()) + seq![t.0 as u32, t.1 as u32, t.2 as u32]
    }
}

/// Flattens triangles into an index list, three indices per triangle, in order.
/// When every vertex of the triangles is below `vertex_count`, so is every index.
pub fn triangle_indices(triangles: &Vec<(usize, usize, usize)>, vertex_count: usize) -> (r: Vec<u32>)
    requires
        triangles_below(triangles@, vertex_count as nat),
        vertex_count <= u32::MAX,
    ensures
        r@ == flat_indices(triangles@),
        r@.len() == 3 * triangles@.len(),
        indices_in_range(r@, vertex_count as nat),
        // triangle i is drawn from its own three corners, in order
        forall|i: int| 0 <= i < triangles@.len() ==> {
            &&& r@[3 * i] == (#[trigger] triangles@[i]).0
            &&& r@[3 * i + 1] == triangles@[i].1
            &&& r@[3 * i + 2] == triangles@[i].2
        },
{
    let mut out: Vec<u32> = Vec::new();
    let n = triangles.len();
    let mut i: usize = 0;
    while i < n
        invariant
            n == triangles@.len(),
            i <= n,
            triangles_below(triangles@, vertex_count as nat),
            vertex_count <= u32::MAX,
            out@ == flat_indices(triangles@.take(i as int)),
            out@.len() == 3 * i,
            indices_in_range(out@, vertex_count as nat),
            forall|j: int| 0 <= j < i ==> {
                &&& out@[3 * j] == (#[trigger] triangles@[j]).0
                &&& out@[3 * j + 1] == triangles@[j].1
                &&& out@[3 * j + 2] == triangles@[j].2
            },
        decreases n - i,
    {
        let (a, b, c) = triangles[i];
        assert(a < vertex_count && b < vertex_count && c < vertex_count);
        let ghost old_out = out@;
        out.push(a as u32);
        out.push(b as u32);
        out.push(c as u32);
        i = i + 1;
        proof {
            assert forall|j: int| 0 <= j < i implies {
                &&& out@[3 * j] == (#[trigger] triangles@[j]).0
                &&& out@[3 * j + 1] == triangles@[j].1
                &&& out@[3 * j + 2] == triangles@[j].2
            } by {
                if j < i - 1 {
                    assert(out@[3 * j] == old_out[3 * j]);
                    assert(out@[3 * j + 1] == old_out[3 * j + 1]);
                    assert(out@[3 * j + 2] == old_out[3 * j + 2]);
                }
            }
            assert(triangles@.take(i as int).drop_last() =~= triangles@.take(i - 1));
            assert(out@ =~= flat_indices(triangles@.take(i as int)));
        }
    }
    assert(triangles@.take(n as int) =~= triangles@);
    out
}

} // verus!
