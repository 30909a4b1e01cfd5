use qone::texture::{
    palette_from_bytes, parse_textures, texture_type, textures_readable, Colour, ColourAlpha,
    TextureData,
};
use qone::types::{Entry, MipTex, TEX_DEBUG, TEX_DEFAULT, TEX_FLUID, TEX_SKY};

fn mip(name: &str, width: u32, height: u32) -> MipTex {
    let mut n = [0u8; 16];
    n[..name.len()].copy_from_slice(name.as_bytes());
    MipTex { name: n, width, height, offset_1: 40, offset_2: 0, offset_4: 0, offset_8: 0 }
}

#[test]
fn add_alpha_makes_opaque() {
    let mut c = Colour { r: 1, g: 2, b: 3 };
    assert_eq!(c.add_alpha(), ColourAlpha { r: 1, g: 2, b: 3, a: 255 });
    assert_eq!(c, Colour { r: 1, g: 2, b: 3 });
}

#[test]
fn palette_triples() {
    let p = palette_from_bytes(&[1, 2, 3, 4, 5, 6]);
    assert_eq!(p, vec![Colour { r: 1, g: 2, b: 3 }, Colour { r: 4, g: 5, b: 6 }]);
    assert!(palette_from_bytes(&[]).is_empty());
}

#[test]
fn texture_kinds_by_name() {
    assert_eq!(texture_type(&mip("clip", 16, 16)), TEX_DEBUG);
    assert_eq!(texture_type(&mip("trigger", 16, 16)), TEX_DEBUG);
    assert_eq!(texture_type(&mip("wall1", 0, 16)), TEX_DEBUG);
    assert_eq!(texture_type(&mip("sky4", 16, 16)), TEX_SKY);
    assert_eq!(texture_type(&mip("*water0", 16, 16)), TEX_FLUID);
    assert_eq!(texture_type(&mip("wbrick1_5", 16, 16)), TEX_DEFAULT);
    // "clip" wins over "sky"
    assert_eq!(texture_type(&mip("skyclip", 16, 16)), TEX_DEBUG);
}

fn texture_lump() -> Vec<u8> {
    // directory: count 2, offsets 12 and 60
    let mut b = Vec::new();
    b.extend_from_slice(&2i32.to_le_bytes());
    b.extend_from_slice(&12i32.to_le_bytes());
    b.extend_from_slice(&60i32.to_le_bytes());
    // texture 0 at 12: "sky1", 2x2, image right after the header
    let m0 = mip("sky1", 2, 2);
    b.extend_from_slice(&m0.name);
    for x in [2u32, 2, 40, 0, 0, 0] {
        b.extend_from_slice(&x.to_le_bytes());
    }
    b.extend_from_slice(&[0, 1, 1, 0]);
    b.extend_from_slice(&[0, 0, 0, 0]);
    // texture 1 at 60: "*lava", 1x1
    let m1 = mip("*lava", 1, 1);
    b.extend_from_slice(&m1.name);
    for x in [1u32, 1, 40, 0, 0, 0] {
        b.extend_from_slice(&x.to_le_bytes());
    }
    b.push(1);
    b
}

#[test]
fn textures_are_read_and_coloured() {
    let b = texture_lump();
    let palette = vec![Colour { r: 0, g: 0, b: 0 }, Colour { r: 200, g: 100, b: 50 }];
    let e = Entry { offset: 0, size: b.len() as i32 };
    assert!(textures_readable(e, &b, &palette));
    let t = parse_textures(e, &b, &palette);
    assert_eq!(t.len(), 2);
    assert_eq!(t[0].tex_type, TEX_SKY);
    assert_eq!(t[0].mip_tex.width, 2);
    let black = ColourAlpha { r: 0, g: 0, b: 0, a: 255 };
    let orange = ColourAlpha { r: 200, g: 100, b: 50, a: 255 };
    assert_eq!(t[0].texels, vec![black, orange, orange, black]);
    assert_eq!(t[1].tex_type, TEX_FLUID);
    assert_eq!(t[1].texels, vec![orange]);
}

#[test]
fn texel_outside_palette_is_refused() {
    let b = texture_lump();
    let palette = vec![Colour { r: 0, g: 0, b: 0 }];
    let e = Entry { offset: 0, size: b.len() as i32 };
    assert!(!textures_readable(e, &b, &palette));
}

#[test]
fn invalid_name_is_refused() {
    let mut b = texture_lump();
    b[12] = 0xff;
    let palette = vec![Colour { r: 0, g: 0, b: 0 }, Colour { r: 1, g: 1, b: 1 }];
    let e = Entry { offset: 0, size: b.len() as i32 };
    assert!(!textures_readable(e, &b, &palette));
}

#[test]
fn negative_count_means_no_textures() {
    let b: Vec<u8> = (-3i32).to_le_bytes().to_vec();
    let e = Entry { offset: 0, size: 4 };
    assert!(textures_readable(e, &b, &vec![]));
    assert!(parse_textures(e, &b, &vec![]).is_empty());
}

#[test]
fn rgba_bytes_interleaves_channels() {
    let t = TextureData {
        mip_tex: MipTex { name: [0; 16], width: 2, height: 1, offset_1: 0, offset_2: 0, offset_4: 0, offset_8: 0 },
        tex_type: TEX_DEFAULT,
        texels: vec![
            ColourAlpha { r: 1, g: 2, b: 3, a: 255 },
            ColourAlpha { r: 4, g: 5, b: 6, a: 7 },
        ],
    };
    assert_eq!(t.rgba_bytes(), vec![1, 2, 3, 255, 4, 5, 6, 7]);
}
