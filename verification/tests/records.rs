use qone::le_bytes::{read_i16, read_i32, read_u16, read_u32};
use qone::types::{
    lump_fits, parse_data, ClipNode, Edge, Entry, Face, Header, Model, Plane, Surface, Vertex,
    HEADER_SIZE,
};

#[test]
fn little_endian_reads() {
    let b: Vec<u8> = vec![0x34, 0x12, 0xff, 0xff, 0xfe, 0xff, 0xff, 0xff, 0x00, 0x80];
    assert_eq!(read_u16(&b, 0), 0x1234);
    assert_eq!(read_i16(&b, 2), -1);
    assert_eq!(read_u16(&b, 2), 0xffff);
    assert_eq!(read_i32(&b, 4), -2);
    assert_eq!(read_u32(&b, 4), 0xffff_fffe);
    assert_eq!(read_i16(&b, 8), i16::MIN);
    assert_eq!(read_u32(&b, 0), 0xffff_1234);
}

#[test]
fn header_lists_lumps_in_file_order() {
    let mut b = vec![0u8; HEADER_SIZE];
    b[0] = 29;
    for k in 0..15usize {
        let off = 4 + 8 * k;
        b[off] = (10 + k) as u8;
        b[off + 4] = (100 + k) as u8;
    }
    let h = Header::parse(&b);
    assert_eq!(h.version, 29);
    assert_eq!(h.entities, Entry { offset: 10, size: 100 });
    assert_eq!(h.planes, Entry { offset: 11, size: 101 });
    assert_eq!(h.miptex, Entry { offset: 12, size: 102 });
    assert_eq!(h.vertices, Entry { offset: 13, size: 103 });
    assert_eq!(h.faces, Entry { offset: 17, size: 107 });
    assert_eq!(h.clipnodes, Entry { offset: 19, size: 109 });
    assert_eq!(h.models, Entry { offset: 24, size: 114 });
}

#[test]
fn lump_records_drop_the_partial_tail() {
    // Two edges and one stray byte, after two bytes of padding.
    let b: Vec<u8> = vec![9, 9, 1, 0, 2, 0, 3, 1, 4, 0, 7];
    let e = Entry { offset: 2, size: 9 };
    assert!(lump_fits(e, &b));
    let edges: Vec<Edge> = parse_data(e, &b);
    assert_eq!(edges, vec![Edge { vertex0: 1, vertex1: 2 }, Edge { vertex0: 259, vertex1: 4 }]);
}

#[test]
fn lump_bounds_are_checked() {
    let b = vec![0u8; 16];
    assert!(lump_fits(Entry { offset: 0, size: 16 }, &b));
    assert!(!lump_fits(Entry { offset: 1, size: 16 }, &b));
    assert!(!lump_fits(Entry { offset: -1, size: 4 }, &b));
    assert!(!lump_fits(Entry { offset: 4, size: -4 }, &b));
    assert!(!lump_fits(Entry { offset: i32::MAX, size: 1 }, &b));
}

#[test]
fn face_record_layout() {
    let b: Vec<u8> = vec![
        1, 0, 0, 0, 5, 0, 0, 0, 4, 0, 7, 0, 0xa, 0xb, 0xc, 0xd, 0xff, 0xff, 0xff, 0xff,
    ];
    let faces: Vec<Face> = parse_data(Entry { offset: 0, size: 20 }, &b);
    assert_eq!(
        faces,
        vec![Face {
            plane_id: 1,
            side: 0,
            ledge_id: 5,
            ledge_num: 4,
            texinfo_id: 7,
            typelight: 0xa,
            baselight: 0xb,
            light: [0xc, 0xd],
            lightmap: -1,
        }]
    );
}

#[test]
fn float_fields_keep_their_bits() {
    let mut b = Vec::new();
    for x in [1.5f32, -2.0, 0.25] {
        b.extend_from_slice(&x.to_le_bytes());
    }
    let v: Vec<Vertex> = parse_data(Entry { offset: 0, size: 12 }, &b);
    assert_eq!(f32::from_bits(v[0].x), 1.5);
    assert_eq!(f32::from_bits(v[0].y), -2.0);
    assert_eq!(f32::from_bits(v[0].z), 0.25);
}

#[test]
fn plane_clipnode_surface_model_layouts() {
    let mut b = Vec::new();
    // plane
    for x in [0.0f32, 0.0, 1.0, 64.0] {
        b.extend_from_slice(&x.to_le_bytes());
    }
    b.extend_from_slice(&2i32.to_le_bytes());
    // clip node
    b.extend_from_slice(&7u32.to_le_bytes());
    b.extend_from_slice(&(-1i16).to_le_bytes());
    b.extend_from_slice(&3i16.to_le_bytes());
    let planes: Vec<Plane> = parse_data(Entry { offset: 0, size: 20 }, &b);
    assert_eq!(f32::from_bits(planes[0].normal[2]), 1.0);
    assert_eq!(f32::from_bits(planes[0].dist), 64.0);
    assert_eq!(planes[0].ptype, 2);
    let clips: Vec<ClipNode> = parse_data(Entry { offset: 20, size: 8 }, &b);
    assert_eq!(clips, vec![ClipNode { plane_num: 7, front: -1, back: 3 }]);

    let mut s = Vec::new();
    for _ in 0..8 {
        s.extend_from_slice(&0.5f32.to_le_bytes());
    }
    s.extend_from_slice(&12u32.to_le_bytes());
    s.extend_from_slice(&0u32.to_le_bytes());
    let surf: Vec<Surface> = parse_data(Entry { offset: 0, size: 40 }, &s);
    assert_eq!(surf[0].texture_id, 12);
    assert_eq!(f32::from_bits(surf[0].dist_t), 0.5);

    let mut m = vec![0u8; 36];
    for x in [10i32, 11, 12, 13, 14, 15, 16] {
        m.extend_from_slice(&x.to_le_bytes());
    }
    let models: Vec<Model> = parse_data(Entry { offset: 0, size: 64 }, &m);
    assert_eq!(models[0].node_id0, 10);
    assert_eq!(models[0].node_id1, 11);
    assert_eq!(models[0].num_leafs, 14);
    assert_eq!(models[0].face_id, 15);
    assert_eq!(models[0].face_num, 16);
}
