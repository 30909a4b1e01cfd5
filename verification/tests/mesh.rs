use qone::mesh::{build_mesh, mesh_buildable, MeshVertex};
use qone::types::{BoundBox, Edge, Face, Model, Surface, Vertex, TEX_DEBUG, TEX_DEFAULT, TEX_SKY};

fn model(face_id: i32, face_num: i32) -> Model {
    Model {
        bound: BoundBox { min: [0; 3], max: [0; 3] },
        origin: [0; 3],
        node_id0: 0,
        node_id1: 0,
        node_id2: 0,
        node_id3: 0,
        num_leafs: 0,
        face_id,
        face_num,
    }
}

fn face(ledge_id: i32, ledge_num: u16, texinfo_id: u16) -> Face {
    Face {
        plane_id: 0,
        side: 0,
        ledge_id,
        ledge_num,
        texinfo_id,
        typelight: 0,
        baselight: 0,
        light: [0, 0],
        lightmap: -1,
    }
}

fn surface(texture_id: u32) -> Surface {
    Surface {
        vector_s: [0; 3],
        dist_s: 0,
        vector_t: [0; 3],
        dist_t: 0,
        texture_id,
        animated: 0,
    }
}

fn mv(face: usize, vertex: u16) -> MeshVertex {
    MeshVertex { face, vertex }
}

#[test]
fn square_face_becomes_two_triangles() {
    // A square 0-1-2-3 given by four edges, the last one reversed.
    let vertices = vec![Vertex { x: 0, y: 0, z: 0 }; 4];
    let edges = vec![
        Edge { vertex0: 0, vertex1: 0 },
        Edge { vertex0: 0, vertex1: 1 },
        Edge { vertex0: 1, vertex1: 2 },
        Edge { vertex0: 2, vertex1: 3 },
        Edge { vertex0: 0, vertex1: 3 },
    ];
    let ledges = vec![1, 2, 3, -4];
    let faces = vec![face(0, 4, 0)];
    let surfaces = vec![surface(0)];
    let models = vec![model(0, 1)];
    let tex_types = vec![TEX_DEFAULT];
    assert!(mesh_buildable(&models, &vertices, &faces, &edges, &ledges, &surfaces, &tex_types));
    let (verts, offsets) =
        build_mesh(&models, &vertices, &faces, &edges, &ledges, &surfaces, &tex_types);
    // corner list: 0 1 | 1 2 | 2 3 | 3 0; triangles (c0, c2, c3), (c0, c4, c5), (c0, c6, c7)
    assert_eq!(
        verts,
        vec![mv(0, 0), mv(0, 1), mv(0, 2), mv(0, 0), mv(0, 2), mv(0, 3), mv(0, 0), mv(0, 3), mv(0, 0)]
    );
    assert_eq!(offsets, vec![9]);
}

#[test]
fn triangles_are_grouped_by_texture_and_debug_faces_skipped() {
    let vertices = vec![Vertex { x: 0, y: 0, z: 0 }; 6];
    let edges = vec![
        Edge { vertex0: 0, vertex1: 0 },
        Edge { vertex0: 0, vertex1: 1 },
        Edge { vertex0: 1, vertex1: 2 },
        Edge { vertex0: 3, vertex1: 4 },
        Edge { vertex0: 4, vertex1: 5 },
    ];
    let ledges = vec![1, 2, 3, 4];
    // face 0: texture 1 (sky); face 1: texture 0 (default); face 2: debug
    let faces = vec![face(0, 2, 1), face(2, 2, 0), face(0, 0, 2)];
    let surfaces = vec![surface(0), surface(1), surface(2)];
    let models = vec![model(0, 2), model(2, 1)];
    let tex_types = vec![TEX_DEFAULT, TEX_SKY, TEX_DEBUG];
    assert!(mesh_buildable(&models, &vertices, &faces, &edges, &ledges, &surfaces, &tex_types));
    let (verts, offsets) =
        build_mesh(&models, &vertices, &faces, &edges, &ledges, &surfaces, &tex_types);
    assert_eq!(offsets, vec![3, 3, 0]);
    assert_eq!(verts, vec![mv(1, 3), mv(1, 4), mv(1, 5), mv(0, 0), mv(0, 1), mv(0, 2)]);
}

#[test]
fn bad_references_are_refused() {
    let vertices = vec![Vertex { x: 0, y: 0, z: 0 }; 2];
    let edges = vec![Edge { vertex0: 0, vertex1: 1 }, Edge { vertex0: 1, vertex1: 5 }];
    let ledges = vec![0, 1];
    let surfaces = vec![surface(0)];
    let tex_types = vec![TEX_DEFAULT];
    // vertex 5 does not exist
    let faces = vec![face(0, 2, 0)];
    assert!(!mesh_buildable(&vec![model(0, 1)], &vertices, &faces, &edges, &ledges, &surfaces, &tex_types));
    // face 3 does not exist
    assert!(!mesh_buildable(&vec![model(3, 1)], &vertices, &faces, &edges, &ledges, &surfaces, &tex_types));
    // a face without edges
    let empty = vec![face(0, 0, 0)];
    assert!(!mesh_buildable(&vec![model(0, 1)], &vertices, &empty, &edges, &ledges, &surfaces, &tex_types));
    // the face range overflows
    assert!(!mesh_buildable(&vec![model(i32::MAX, 1)], &vertices, &faces, &edges, &ledges, &surfaces, &tex_types));
    // a model with no faces is fine
    assert!(mesh_buildable(&vec![model(7, 0)], &vertices, &faces, &edges, &ledges, &surfaces, &tex_types));
}
