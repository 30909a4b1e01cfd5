use qone::bsp::BspData;
use qone::texture::Colour;
use qone::types::{EntityInfo, TEX_DEFAULT};

/// Lays out a level file: header, then the lumps in header order.
fn level_file(lumps: [Vec<u8>; 15]) -> Vec<u8> {
    let mut out = vec![0u8; 124];
    out[0] = 29;
    let mut pos = 124usize;
    let mut body = Vec::new();
    for (k, l) in lumps.iter().enumerate() {
        let at = 4 + 8 * k;
        out[at..at + 4].copy_from_slice(&(pos as i32).to_le_bytes());
        out[at + 4..at + 8].copy_from_slice(&(l.len() as i32).to_le_bytes());
        body.extend_from_slice(l);
        pos += l.len();
    }
    out.extend_from_slice(&body);
    out
}

fn i32s(v: &[i32]) -> Vec<u8> {
    v.iter().flat_map(|x| x.to_le_bytes()).collect()
}

fn sample_level(entities: &str) -> Vec<u8> {
    // lumps: entities planes miptex vertices visilist nodes texinfo faces
    //        lightmaps clipnodes leaves lface edges ledges models
    let mut miptex = i32s(&[1, 8]);
    let mut name = [0u8; 16];
    name[..4].copy_from_slice(b"wall");
    miptex.extend_from_slice(&name);
    miptex.extend_from_slice(&i32s(&[1, 1, 40, 0, 0, 0]));
    miptex.push(0);
    let vertices: Vec<u8> = [0.0f32, 0.0, 0.0, 64.0, 0.0, 0.0, 0.0, 64.0, 0.0]
        .iter()
        .flat_map(|x| x.to_le_bytes())
        .collect();
    let mut texinfo = vec![0u8; 32];
    texinfo.extend_from_slice(&i32s(&[0, 0]));
    let mut faces = vec![0u8; 4];
    faces.extend_from_slice(&i32s(&[0]));
    faces.extend_from_slice(&[3, 0, 0, 0, 0, 0, 0, 0]);
    faces.extend_from_slice(&i32s(&[-1]));
    let edges: Vec<u8> = vec![0, 0, 1, 0, 1, 0, 2, 0, 2, 0, 0, 0];
    let ledges = i32s(&[0, 1, 2]);
    let mut models = vec![0u8; 36];
    models.extend_from_slice(&i32s(&[0, 0, 0, 0, 0, 0, 1]));
    level_file([
        entities.as_bytes().to_vec(),
        vec![],
        miptex,
        vertices,
        vec![],
        vec![],
        texinfo,
        faces,
        vec![7, 7],
        vec![],
        vec![],
        vec![],
        edges,
        ledges,
        models,
    ])
}

#[test]
fn whole_level_is_read() {
    let bytes = sample_level("{ \"classname\" \"worldspawn\" }\n{ \"model\" \"*1\" }\n");
    let palette = vec![Colour { r: 9, g: 8, b: 7 }];
    let d = BspData::try_parse(&bytes, &palette).expect("the level is readable");
    assert_eq!(d.header.version, 29);
    assert_eq!(d.vertices.len(), 3);
    assert_eq!(f32::from_bits(d.vertices[1].x), 64.0);
    assert_eq!(d.faces.len(), 1);
    assert_eq!(d.edges.len(), 3);
    assert_eq!(d.ledges, vec![0, 1, 2]);
    assert_eq!(d.light_maps, vec![7, 7]);
    assert_eq!(d.textures.len(), 1);
    assert_eq!(d.textures[0].tex_type, TEX_DEFAULT);
    assert_eq!(d.textures[0].texels.len(), 1);
    assert_eq!(d.entity_info.len(), 2);
    assert_eq!(d.entity_info[1], EntityInfo { type_e: 1, render_debug: -1, collide: 1 });
    assert_eq!(d.collidable, vec![0, 1]);
    assert_eq!(d.render_offsets, vec![6]);
    let corners: Vec<u16> = d.render_verts.iter().map(|v| v.vertex).collect();
    assert_eq!(corners, vec![0, 1, 2, 0, 2, 0]);
    let direct = BspData::parse(&bytes, &palette);
    assert_eq!(direct.collidable, d.collidable);
}

#[test]
fn truncated_level_is_refused() {
    let bytes = sample_level("{ }");
    let palette = vec![Colour { r: 0, g: 0, b: 0 }];
    assert!(BspData::parsable(&bytes, &palette));
    assert!(!BspData::parsable(&bytes[..bytes.len() - 1], &palette));
    assert!(BspData::try_parse(&bytes[..100], &palette).is_none());
}

#[test]
fn level_with_bad_entity_list_is_refused() {
    let bytes = sample_level("{ \"model\" \"*x\" }");
    let palette = vec![Colour { r: 0, g: 0, b: 0 }];
    assert!(BspData::try_parse(&bytes, &palette).is_none());
}

#[test]
fn level_with_short_palette_is_refused() {
    let bytes = sample_level("");
    assert!(BspData::try_parse(&bytes, &vec![]).is_none());
}
