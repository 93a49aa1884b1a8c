use gearbox::{
    append_model_indices, capsule_indices, cone_indices, cube_indices, cylinder_indices, framebuffer_action,
    merge_mesh_data, sphere_topology, subdivide, triangle_indices, CapsuleDrawInstructions, FrameBufferKey,
    FramebufferAction, ShapeBuilder, ShapeMeshData, UVec2,
};

fn all_below(indices: &[u32], count: u32) -> bool {
    indices.iter().all(|&i| i < count)
}

#[test]
fn cube_indices_are_two_triangles_per_face() {
    let indices = cube_indices();
    assert_eq!(indices.len(), 36);
    assert_eq!(&indices[..12], &[0, 1, 2, 0, 2, 3, 4, 5, 6, 4, 6, 7]);
    assert_eq!(&indices[30..], &[20, 21, 22, 20, 22, 23]);
    assert!(all_below(&indices, 24));
}

#[test]
fn cylinder_indices_cover_sides_and_caps() {
    let indices = cylinder_indices(2);
    assert_eq!(
        indices,
        vec![
            0, 2, 1, 1, 2, 3, 2, 4, 3, 3, 4, 5, // sides
            6, 7, 8, 6, 8, 9, // top cap
            10, 12, 11, 10, 13, 12, // bottom cap
        ]
    );
    // 4 * 2 + 6 vertices
    assert!(all_below(&indices, 14));
    assert_eq!(cylinder_indices(16).len(), 12 * 16);
    assert!(all_below(&cylinder_indices(16), 4 * 16 + 6));
    assert!(cylinder_indices(0).is_empty());
}

#[test]
fn cone_indices_cover_sides_and_base() {
    let indices = cone_indices(2);
    assert_eq!(indices, vec![1, 3, 2, 3, 5, 4, 6, 8, 7, 6, 9, 8]);
    assert!(all_below(&indices, 3 * 2 + 4));
    assert!(all_below(&cone_indices(16), 3 * 16 + 4));
}

#[test]
fn capsule_indices_cover_every_grid_cell() {
    let d = CapsuleDrawInstructions { segments: 1, rings: 1 };
    let indices = capsule_indices(d.segments, d.rings);
    assert_eq!(
        indices,
        vec![
            0, 2, 1, 1, 2, 3, // top hemisphere
            4, 6, 5, 5, 6, 7, 6, 8, 7, 7, 8, 9, // body
            10, 12, 11, 11, 12, 13, // bottom hemisphere
        ]
    );
    let big = capsule_indices(16, 16);
    assert_eq!(big.len(), 12 * 16 * 16 + 12 * 16);
    assert!(all_below(&big, (2 * 16 + 5) * 17));
}

#[test]
fn icosphere_vertex_and_triangle_counts() {
    for (level, tris, verts) in [(0u32, 20usize, 12usize), (1, 80, 42), (2, 320, 162), (3, 1280, 642)] {
        let topo = sphere_topology(level);
        assert_eq!(topo.triangles.len(), tris);
        assert_eq!(12 + topo.midpoints.len(), verts);
        let indices = triangle_indices(&topo.triangles, 12 + topo.midpoints.len());
        assert_eq!(indices.len(), 3 * tris);
        assert!(all_below(&indices, verts as u32));
        for (j, &(a, b)) in topo.midpoints.iter().enumerate() {
            assert!(a < b && b < 12 + j);
        }
    }
}

#[test]
fn subdivide_shares_edge_midpoints() {
    // two triangles sharing the edge (1, 2)
    let tris = vec![(0, 1, 2), (2, 1, 3)];
    let (out, mids) = subdivide(&tris, 4);
    assert_eq!(mids, vec![(0, 1), (1, 2), (0, 2), (1, 3), (2, 3)]);
    assert_eq!(
        out,
        vec![(0, 4, 6), (1, 5, 4), (2, 6, 5), (4, 5, 6), (2, 5, 8), (1, 7, 5), (3, 8, 7), (5, 7, 8)]
    );
}

#[test]
fn merge_keeps_parts_in_order_and_shifts_later_indices() {
    let parts = vec![
        ShapeMeshData { vertices: vec!['a', 'b', 'c'], indices: vec![0, 1, 2] },
        ShapeMeshData { vertices: vec!['d'], indices: vec![0, 0, 0] },
    ];
    let merged = merge_mesh_data(&parts);
    assert_eq!(merged.vertices, vec!['a', 'b', 'c', 'd']);
    assert_eq!(merged.indices, vec![0, 1, 2, 3, 3, 3]);
    let none: Vec<ShapeMeshData<char>> = Vec::new();
    let empty = merge_mesh_data(&none);
    assert!(empty.vertices.is_empty() && empty.indices.is_empty());
}

#[test]
fn builder_collects_shapes_in_order() {
    let mut builder: ShapeBuilder<&str> = ShapeBuilder::new();
    assert!(builder.is_empty());
    builder.add("cube").add("sphere");
    assert_eq!(builder.shapes(), &vec!["cube", "sphere"]);
}

#[test]
fn obj_model_indices_are_offset_by_earlier_vertices() {
    let mut indices = vec![0, 1, 2];
    append_model_indices(&mut indices, &[0, 2, 1], 3);
    assert_eq!(indices, vec![0, 1, 2, 3, 5, 4]);
}

#[test]
fn framebuffers_are_recreated_only_on_size_change() {
    let size = UVec2::new(800, 600);
    assert_eq!(framebuffer_action(Some(size), size), FramebufferAction::Reuse);
    assert_eq!(framebuffer_action(Some(UVec2::new(800, 601)), size), FramebufferAction::Create);
    assert_eq!(framebuffer_action(None, size), FramebufferAction::Create);
    assert_eq!(FrameBufferKey::default(), FrameBufferKey::Depth);
}

#[test]
fn merge_of_two_one_vertex_parts_names_each_vertex() {
    let parts = vec![
        ShapeMeshData { vertices: vec![7u8], indices: vec![0] },
        ShapeMeshData { vertices: vec![9u8], indices: vec![0] },
    ];
    let merged = merge_mesh_data(&parts);
    assert_eq!(merged.vertices, vec![7, 9]);
    assert_eq!(merged.indices, vec![0, 1]);
}

#[test]
fn merge_of_built_shapes_keeps_every_index_in_range() {
    let cube = ShapeMeshData { vertices: vec![0u8; 24], indices: cube_indices() };
    let cone = ShapeMeshData { vertices: vec![0u8; 3 * 8 + 4], indices: cone_indices(8) };
    let merged = merge_mesh_data(&vec![cube, cone]);
    assert_eq!(merged.vertices.len(), 24 + 28);
    assert_eq!(merged.indices[36], cone_indices(8)[0] + 24);
    assert!(merged.indices.iter().all(|&i| (i as usize) < merged.vertices.len()));
}
