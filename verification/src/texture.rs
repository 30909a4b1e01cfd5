//! The palette and the textures stored in a level: palette decoding, the
//! kind of each texture (from its name), and its texels as RGBA colours.

use vstd::prelude::*;
use crate::le_bytes::{read_i32, spec_i32};
use crate::text::{chars_of, contains, contains_in, utf8_str};
use crate::types::{
    Entry, MipTex, Record, TEX_DEBUG, TEX_DEFAULT, TEX_FLUID, TEX_SKY,
};

verus! {

/// A colour of the palette.
#[derive(Clone, Copy, Debug, PartialEq, Eq)]
pub struct Colour {
    pub r: u8,
    pub g: u8,
    pub b: u8,
}

/// A colour with opacity.
#[derive(Clone, Copy, Debug, PartialEq, Eq)]
pub struct ColourAlpha {
    pub r: u8,
    pub g: u8,
    pub b: u8,
    pub a: u8,
}

/// The colour `c`, fully opaque.
pub open spec fn opaque(c: Colour) -> ColourAlpha {
    ColourAlpha { r: c.r, g: c.g, b: c.b, a: 255 }
}

impl Colour {
    /// The colour, fully opaque.
    pub fn add_alpha(&mut self) -> (r: ColourAlpha)
        ensures
            r == opaque(*old(self)),
            *final(self) == *old(self),
    {
        ColourAlpha { r: self.r, g: self.g, b: self.b, a: 255 }
    }
}

/// The palette stored in `b`: one colour per three bytes (red, green, blue).
pub open spec fn spec_palette(b: Seq<u8>) -> Seq<Colour> {
    Seq::new(b.len() / 3, |i: int| Colour { r: b[3 * i], g: b[3 * i + 1], b: b[3 * i + 2] })
}

/// Decodes a palette file: consecutive red, green, blue bytes.
pub fn palette_from_bytes(bytes: &[u8]) -> (r: Vec<Colour>)
    requires
        bytes@.len() % 3 == 0,
    ensures
        r@ == spec_palette(bytes@),
{
    let n = bytes.len() / 3;
    let mut colours: Vec<Colour> = Vec::new();
    let mut i: usize = 0;
    while i < n
        invariant
            n == bytes@.len() / 3,
            bytes@.len() == bytes.len(),
            i <= n,
            colours@.len() == i,
            forall|k: int|
                0 <= k < i ==> colours@[k] == #[trigger] spec_palette(bytes@)[k],
        decreases n - i,
    {
        let p = 3 * i;
        colours.push(Colour { r: bytes[p], g: bytes[p + 1], b: bytes[p + 2] });
        i = i + 1;
    }
    assert(colours@ =~= spec_palette(bytes@));
    colours
}

/// A texture of the level, ready to be uploaded: its header, its kind and
/// its texels (one opaque palette colour per byte of the full-size image).
pub struct TextureData {
    pub mip_tex: MipTex,
    pub tex_type: i32,
    pub texels: Vec<ColourAlpha>,
}

pub open spec fn clip_word() -> Seq<char> {
    seq!['c', 'l', 'i', 'p']
}

pub open spec fn trigger_name() -> Seq<char> {
    seq!['t', 'r', 'i', 'g', 'g', 'e', 'r']
}

pub open spec fn sky_word() -> Seq<char> {
    seq!['s', 'k', 'y']
}

pub open spec fn star() -> Seq<char> {
    seq!['*']
}

/// The kind of a texture named `name` with `size` texels: debug for clip and
/// trigger textures and empty ones, then sky, then liquid ('*'), else default.
pub open spec fn spec_tex_type(name: Seq<char>, size: int) -> i32 {
    if contains(name, clip_word()) || contains(name, trigger_name()) || size == 0 {
        TEX_DEBUG
    } else if contains(name, sky_word()) {
        TEX_SKY
    } else if contains(name, star()) {
        TEX_FLUID
    } else {
        TEX_DEFAULT
    }
}

/// The characters of a texture name (all 16 bytes, padding included).
pub open spec fn name_chars(m: MipTex) -> Seq<char> {
    vstd::utf8::decode_utf8(m.name@)
}

/// The kind of the texture described by `m`.
pub fn texture_type(m: &MipTex) -> (r: i32)
    requires
        vstd::utf8::valid_utf8(m.name@),
        m.width * m.height <= u32::MAX,
    ensures
        r == spec_tex_type(name_chars(*m), m.width * m.height),
{
    let name = match utf8_str(m.name.as_slice()) {
        Some(s) => s,
        None => {
            assert(false);
            ""
        },
    };
    let cs = chars_of(name);
    let n = cs.len();
    let clip: Vec<char> = vec!['c', 'l', 'i', 'p'];
    let trig: Vec<char> = vec!['t', 'r', 'i', 'g', 'g', 'e', 'r'];
    let sky: Vec<char> = vec!['s', 'k', 'y'];
    let st: Vec<char> = vec!['*'];
    assert(clip@ =~= clip_word());
    assert(trig@ =~= trigger_name());
    assert(sky@ =~= sky_word());
    assert(st@ =~= star());
    assert(cs@.subrange(0, n as int) =~= cs@);
    let size = m.width * m.height;
    if contains_in(&cs, 0, n, &clip) || contains_in(&cs, 0, n, &trig) || size == 0 {
        TEX_DEBUG
    } else if contains_in(&cs, 0, n, &sky) {
        TEX_SKY
    } else if contains_in(&cs, 0, n, &st) {
        TEX_FLUID
    } else {
        TEX_DEFAULT
    }
}

/// The number of textures the directory at `e` announces (none when negative).
pub open spec fn tex_count(e: Entry, b: Seq<u8>) -> int {
    let n = spec_i32(b, e.offset as int);
    if n < 0 {
        0
    } else {
        n
    }
}

/// The offset, within the lump, of the `i`-th texture.
pub open spec fn tex_dir_offset(e: Entry, b: Seq<u8>, i: int) -> int {
    spec_i32(b, e.offset + 4 * (i + 1))
}

/// The header of the `i`-th texture.
pub open spec fn tex_mip(e: Entry, b: Seq<u8>, i: int) -> MipTex {
    MipTex::spec_decode(b, e.offset + tex_dir_offset(e, b, i))
}

/// Where the full-size image of the `i`-th texture starts.
pub open spec fn tex_data_start(e: Entry, b: Seq<u8>, i: int) -> int {
    e.offset + tex_mip(e, b, i).offset_1 + tex_dir_offset(e, b, i)
}

/// The number of texels of the full-size image of the `i`-th texture.
pub open spec fn tex_size(e: Entry, b: Seq<u8>, i: int) -> int {
    tex_mip(e, b, i).width * tex_mip(e, b, i).height
}

/// The `i`-th texture can be read: its directory slot, header, name and
/// image lie in the file, its size fits 32 bits, its name is UTF-8 and each
/// of its texels indexes the palette.
pub open spec fn texture_ok(e: Entry, b: Seq<u8>, palette_len: int, i: int) -> bool {
    let o = tex_dir_offset(e, b, i);
    let m = tex_mip(e, b, i);
    let start = tex_data_start(e, b, i);
    &&& e.offset + 4 * (i + 2) <= b.len()
    &&& 0 <= o
    &&& e.offset + o <= i32::MAX
    &&& e.offset + o + 40 <= b.len()
    &&& m.width * m.height <= u32::MAX
    &&& vstd::utf8::valid_utf8(m.name@)
    &&& start + tex_size(e, b, i) <= b.len()
    &&& forall|k: int| start <= k < start + tex_size(e, b, i) ==> (b[k] as int) < palette_len
}

/// The texture lump at `e` can be read with a palette of `palette_len` colours.
pub open spec fn textures_ok(e: Entry, b: Seq<u8>, palette_len: int) -> bool {
    &&& 0 <= e.offset
    &&& e.offset + 4 <= b.len()
    &&& forall|i: int| 0 <= i < tex_count(e, b) ==> #[trigger] texture_ok(e, b, palette_len, i)
}

/// The texels of the `i`-th texture.
pub open spec fn spec_texels(e: Entry, b: Seq<u8>, palette: Seq<Colour>, i: int) -> Seq<
    ColourAlpha,
> {
    Seq::new(
        tex_size(e, b, i) as nat,
        |k: int| opaque(palette[b[tex_data_start(e, b, i) + k] as int]),
    )
}

/// `t` is the `i`-th texture of the lump at `e`.
pub open spec fn is_texture(
    t: TextureData,
    e: Entry,
    b: Seq<u8>,
    palette: Seq<Colour>,
    i: int,
) -> bool {
    &&& t.mip_tex == tex_mip(e, b, i)
    &&& t.tex_type == spec_tex_type(name_chars(tex_mip(e, b, i)), tex_size(e, b, i))
    &&& t.texels@ == spec_texels(e, b, palette, i)
}

/// Whether the `i`-th texture can be read.
fn texture_readable(entry: Entry, bytes: &[u8], palette_len: usize, i: usize) -> (r: bool)
    requires
        0 <= entry.offset,
        i < tex_count(entry, bytes@),
    ensures
        r == texture_ok(entry, bytes@, palette_len as int, i as int),
{
    let len = bytes.len();
    let off = entry.offset as usize;
    if off > len || 4 * (i as u128 + 2) > (len - off) as u128 {
        return false;
    }
    let o = read_i32(bytes, off + 4 * (i + 1));
    if o < 0 || entry.offset as i64 + o as i64 > i32::MAX as i64 {
        return false;
    }
    let mpos = off + o as usize;
    if mpos > len || 40 > len - mpos {
        return false;
    }
    let m = MipTex::decode(bytes, mpos);
    assert(m.width as int * m.height as int <= 0xffff_ffff * 0xffff_ffff) by (nonlinear_arith)
        requires
            m.width <= 0xffff_ffff,
            m.height <= 0xffff_ffff,
    ;
    if m.width as u64 * m.height as u64 > u32::MAX as u64 {
        return false;
    }
    if utf8_str(m.name.as_slice()).is_none() {
        return false;
    }
    let size = (m.width as u64 * m.height as u64) as usize;
    let start64 = off as u64 + m.offset_1 as u64 + o as u64;
    if start64 > len as u64 || size > len - start64 as usize {
        return false;
    }
    let start = start64 as usize;
    let mut k: usize = start;
    while k < start + size
        invariant
            start <= k <= start + size <= len,
            len == bytes@.len(),
            start == tex_data_start(entry, bytes@, i as int),
            size == tex_size(entry, bytes@, i as int),
            forall|j: int| start <= j < k ==> (bytes@[j] as int) < palette_len,
        decreases start + size - k,
    {
        if bytes[k] as usize >= palette_len {
            return false;
        }
        k = k + 1;
    }
    true
}

/// Whether `parse_textures` can read the texture lump at `entry`.
pub fn textures_readable(entry: Entry, bytes: &[u8], palette: &Vec<Colour>) -> (r: bool)
    ensures
        r == textures_ok(entry, bytes@, palette@.len() as int),
{
    let len = bytes.len();
    if entry.offset < 0 || entry.offset as usize > len || 4 > len - entry.offset as usize {
        return false;
    }
    let n = read_i32(bytes, entry.offset as usize);
    let count: usize = if n < 0 {
        0
    } else {
        n as usize
    };
    let mut i: usize = 0;
    while i < count
        invariant
            0 <= entry.offset,
            entry.offset + 4 <= bytes@.len(),
            count == tex_count(entry, bytes@),
            i <= count,
            forall|j: int| 0 <= j < i ==> #[trigger] texture_ok(entry, bytes@, palette@.len() as int, j),
        decreases count - i,
    {
        if !texture_readable(entry, bytes, palette.len(), i) {
            return false;
        }
        i = i + 1;
    }
    true
}

/// Reads the texture lump at `entry`: for each texture its header, its kind
/// and its texels coloured through `palette`.
pub fn parse_textures(entry: Entry, bytes: &[u8], palette: &Vec<Colour>) -> (r: Vec<TextureData>)
    requires
        textures_ok(entry, bytes@, palette@.len() as int),
    ensures
        r@.len() == tex_count(entry, bytes@),
        forall|i: int| 0 <= i < r@.len() ==> is_texture(#[trigger] r@[i], entry, bytes@, palette@, i),
{
    let off = entry.offset as usize;
    let len = bytes.len();
    let n = read_i32(bytes, off);
    let count: usize = if n < 0 {
        0
    } else {
        n as usize
    };
    let mut textures: Vec<TextureData> = Vec::new();
    let mut i: usize = 0;
    while i < count
        invariant
            textures_ok(entry, bytes@, palette@.len() as int),
            off == entry.offset,
            len == bytes@.len(),
            count == tex_count(entry, bytes@),
            i <= count,
            textures@.len() == i,
            forall|j: int|
                0 <= j < i ==> is_texture(#[trigger] textures@[j], entry, bytes@, palette@, j),
        decreases count - i,
    {
        assert(texture_ok(entry, bytes@, palette@.len() as int, i as int));
        let o = read_i32(bytes, off + 4 * (i + 1));
        let mpos = off + o as usize;
        let m = MipTex::decode(bytes, mpos);
        let tex_type = texture_type(&m);
        let size = (m.width * m.height) as usize;
        let start = off + m.offset_1 as usize + o as usize;
        let mut texels: Vec<ColourAlpha> = Vec::new();
        let mut k: usize = 0;
        while k < size
            invariant
                start == tex_data_start(entry, bytes@, i as int),
                size == tex_size(entry, bytes@, i as int),
                start + size <= bytes@.len(),
                len == bytes@.len(),
                forall|j: int|
                    start <= j < start + size ==> (bytes@[j] as int) < palette@.len(),
                k <= size,
                texels@.len() == k,
                forall|j: int|
                    0 <= j < k ==> texels@[j] == #[trigger] spec_texels(
                        entry,
                        bytes@,
                        palette@,
                        i as int,
                    )[j],
            decreases size - k,
        {
            let ind = bytes[start + k] as usize;
            let mut c = palette[ind];
            texels.push(c.add_alpha());
            k = k + 1;
        }
        assert(texels@ =~= spec_texels(entry, bytes@, palette@, i as int));
        textures.push(TextureData { mip_tex: m, tex_type, texels });
        i = i + 1;
    }
    textures
}

/// The bytes of `texels`: red, green, blue and alpha of each texel in turn.
pub open spec fn spec_rgba(texels: Seq<ColourAlpha>) -> Seq<u8> {
    Seq::new(
        4 * texels.len(),
        |j: int|
            {
                let c = texels[j / 4];
                if j % 4 == 0 {
                    c.r
                } else if j % 4 == 1 {
                    c.g
                } else if j % 4 == 2 {
                    c.b
                } else {
                    c.a
                }
            },
    )
}

impl TextureData {
    /// The texels as bytes for upload: red, green, blue and alpha of each
    /// texel in turn.
    pub fn rgba_bytes(&self) -> (r: Vec<u8>)
        requires
            4 * self.texels@.len() <= usize::MAX,
        ensures
            r@ == spec_rgba(self.texels@),
    {
        let n = self.texels.len();
        let mut out: Vec<u8> = Vec::new();
        let mut i: usize = 0;
        while i < n
            invariant
                n == self.texels@.len(),
                4 * n <= usize::MAX,
                i <= n,
                out@.len() == 4 * i,
                forall|j: int| 0 <= j < 4 * i ==> out@[j] == #[trigger] spec_rgba(self.texels@)[j],
            decreases n - i,
        {
            let c = self.texels[i];
            out.push(c.r);
            out.push(c.g);
            out.push(c.b);
            out.push(c.a);
            assert forall|j: int| 4 * i <= j < 4 * i + 4 implies out@[j] == #[trigger] spec_rgba(
                self.texels@,
            )[j] by {
                assert(j / 4 == i as int);
            }
            i = i + 1;
        }
        assert(out@ =~= spec_rgba(self.texels@));
        out
    }
}

/// Every texel of a texture is fully opaque.
pub proof fn lemma_texels_opaque(e: Entry, b: Seq<u8>, palette: Seq<Colour>, i: int)
    ensures
        forall|k: int|
            0 <= k < spec_texels(e, b, palette, i).len() ==> (#[trigger] spec_texels(
                e,
                b,
                palette,
                i,
            )[k]).a == 255,
{
}

} // verus!
