//! The records of the BSP (version 29) level format, decoded from
//! little-endian bytes. Fields that the format stores as 32-bit floats are
//! held here as their IEEE-754 bit patterns (`f32::from_bits` recovers them).

use vstd::prelude::*;
use crate::le_bytes::{read_i16, read_i32, read_u16, read_u32, spec_i16, spec_i32, spec_u16, spec_u32};

verus! {

/// Texture kind: drawn only for debugging (clip, trigger, or empty textures).
pub const TEX_DEBUG: i32 = 0;
/// Texture kind: sky.
pub const TEX_SKY: i32 = 1;
/// Texture kind: liquid surface.
pub const TEX_FLUID: i32 = 2;
/// Texture kind: ordinary wall texture.
pub const TEX_DEFAULT: i32 = 3;

/// A record of fixed size that can be decoded from the bytes of a lump.
pub trait Record: Sized {
    /// The size of one record in bytes.
    spec fn spec_size() -> nat;

    /// The record stored at `pos` in `b`.
    spec fn spec_decode(b: Seq<u8>, pos: int) -> Self;

    /// The size of one record in bytes.
    fn size() -> (n: usize)
        ensures
            n as nat == Self::spec_size(),
            n > 0,
    ;

    /// Decodes the record stored at `pos`.
    fn decode(bytes: &[u8], pos: usize) -> (r: Self)
        requires
            pos + Self::spec_size() <= bytes.len(),
        ensures
            r == Self::spec_decode(bytes@, pos as int),
    ;
}

/// Where a lump lies in the file: byte offset and byte length.
#[derive(Clone, Copy, Debug, PartialEq, Eq)]
pub struct Entry {
    pub offset: i32,
    pub size: i32,
}

/// An edge: the indices of its two vertices.
#[derive(Clone, Copy, Debug, PartialEq, Eq)]
pub struct Edge {
    pub vertex0: u16,
    pub vertex1: u16,
}

/// A face of the level geometry.
#[derive(Clone, Copy, Debug, PartialEq, Eq)]
pub struct Face {
    pub plane_id: u16,
    pub side: u16,
    /// First entry of the face's edges in the edge list.
    pub ledge_id: i32,
    /// Number of edges of the face.
    pub ledge_num: u16,
    pub texinfo_id: u16,
    pub typelight: u8,
    pub baselight: u8,
    pub light: [u8; 2],
    pub lightmap: i32,
}

/// A vertex; each coordinate is the bit pattern of an `f32`.
#[derive(Clone, Copy, Debug, PartialEq, Eq)]
pub struct Vertex {
    pub x: u32,
    pub y: u32,
    pub z: u32,
}

/// A bounding box; each coordinate is the bit pattern of an `f32`.
#[derive(Clone, Copy, Debug, PartialEq, Eq)]
pub struct BoundBox {
    pub min: [u32; 3],
    pub max: [u32; 3],
}

/// A model (the world or a brush entity).
#[derive(Clone, Copy, Debug, PartialEq, Eq)]
pub struct Model {
    pub bound: BoundBox,
    /// Bit patterns of the `f32` origin.
    pub origin: [u32; 3],
    pub node_id0: i32,
    pub node_id1: i32,
    pub node_id2: i32,
    pub node_id3: i32,
    pub num_leafs: i32,
    /// First face of the model.
    pub face_id: i32,
    /// Number of faces of the model.
    pub face_num: i32,
}

/// A bounding box with 16-bit integer corners.
#[derive(Clone, Copy, Debug, PartialEq, Eq)]
pub struct BoundBoxShort {
    pub min: [i16; 3],
    pub max: [i16; 3],
}

/// A node of the rendering BSP tree.
#[derive(Clone, Copy, Debug, PartialEq, Eq)]
pub struct Node {
    pub plane_id: i32,
    pub front: u16,
    pub back: u16,
    pub bboxs: BoundBoxShort,
    pub face_id: u16,
    pub face_num: u16,
}

/// A leaf of the rendering BSP tree.
#[derive(Clone, Copy, Debug, PartialEq, Eq)]
pub struct Leaf {
    pub ltype: i32,
    pub vislist: i32,
    pub bound: BoundBoxShort,
    pub lface_id: u16,
    pub lface_num: u16,
    pub sndwater: u8,
    pub sndsky: u8,
    pub sndslime: u8,
    pub sndlava: u8,
}

/// A plane; `normal` and `dist` are bit patterns of `f32`s.
#[derive(Clone, Copy, Debug, PartialEq, Eq)]
pub struct Plane {
    pub normal: [u32; 3],
    pub dist: u32,
    pub ptype: i32,
}

/// A node of a clipping hull.
#[derive(Clone, Copy, Debug, PartialEq, Eq)]
pub struct ClipNode {
    pub plane_num: u32,
    pub front: i16,
    pub back: i16,
}

/// Texture projection of a face; the vectors and distances are bit
/// patterns of `f32`s.
#[derive(Clone, Copy, Debug, PartialEq, Eq)]
pub struct Surface {
    pub vector_s: [u32; 3],
    pub dist_s: u32,
    pub vector_t: [u32; 3],
    pub dist_t: u32,
    pub texture_id: u32,
    pub animated: u32,
}

/// The header of a texture in the texture lump.
#[derive(Clone, Copy, Debug, PartialEq, Eq)]
pub struct MipTex {
    pub name: [u8; 16],
    pub width: u32,
    pub height: u32,
    pub offset_1: u32,
    pub offset_2: u32,
    pub offset_4: u32,
    pub offset_8: u32,
}

/// The header of a BSP file: version and the location of each lump.
#[derive(Clone, Copy, Debug, PartialEq, Eq)]
pub struct Header {
    pub version: i32,
    pub entities: Entry,
    pub planes: Entry,
    pub miptex: Entry,
    pub vertices: Entry,
    pub visilist: Entry,
    pub nodes: Entry,
    pub texinfo: Entry,
    pub faces: Entry,
    pub lightmaps: Entry,
    pub clipnodes: Entry,
    pub leaves: Entry,
    pub lface: Entry,
    pub edges: Entry,
    pub ledges: Entry,
    pub models: Entry,
}

/// What the entity list says of one entity.
#[derive(Clone, Copy, Debug, PartialEq, Eq)]
pub struct EntityInfo {
    /// The model number of the entity, or -1 when it names none.
    pub type_e: i32,
    pub render_debug: i32,
    /// 1 for an entity that blocks the player, -1 for a trigger.
    pub collide: i32,
}

/// A node of the BSP2 format.
#[derive(Clone, Copy, Debug, PartialEq, Eq)]
pub struct Node2 {
    pub plane_num: i32,
    pub children: [i32; 2],
    pub mins: [u16; 3],
    pub maxs: [u16; 3],
    pub first_face: u32,
    pub num_faces: u32,
}

/// A clipping node of the BSP2 format.
#[derive(Clone, Copy, Debug, PartialEq, Eq)]
pub struct ClipNode2 {
    pub plane_num: i32,
    pub children: [i32; 2],
}

/// An edge of the BSP2 format.
#[derive(Clone, Copy, Debug, PartialEq, Eq)]
pub struct Edge2 {
    pub v: [u32; 2],
}

/// A face of the BSP2 format.
#[derive(Clone, Copy, Debug, PartialEq, Eq)]
pub struct Face2 {
    pub plane_num: i32,
    pub side: i32,
    pub first_edge: i32,
    pub num_edges: i32,
    pub tex_info: i32,
    pub styles: [u8; 4],
    pub light_ofs: i32,
}

/// A leaf of the BSP2 format.
#[derive(Clone, Copy, Debug, PartialEq, Eq)]
pub struct Leaf2 {
    pub contents: i32,
    pub visofs: i32,
    pub mins: [u16; 3],
    pub maxs: [u16; 3],
    pub first_mark_surface: u32,
    pub num_mark_surfaces: u32,
    pub ambient_level: [u8; 4],
}

// ---------------------------------------------------------------------------
// Decoding

pub open spec fn spec_entry(b: Seq<u8>, p: int) -> Entry {
    Entry { offset: spec_i32(b, p) as i32, size: spec_i32(b, p + 4) as i32 }
}

fn read_entry(bytes: &[u8], pos: usize) -> (r: Entry)
    requires
        pos + 8 <= bytes.len(),
    ensures
        r == spec_entry(bytes@, pos as int),
{
    Entry { offset: read_i32(bytes, pos), size: read_i32(bytes, pos + 4) }
}

pub open spec fn spec_bits3(b: Seq<u8>, p: int) -> [u32; 3] {
    [spec_u32(b, p) as u32, spec_u32(b, p + 4) as u32, spec_u32(b, p + 8) as u32]
}

fn read_bits3(bytes: &[u8], pos: usize) -> (r: [u32; 3])
    requires
        pos + 12 <= bytes.len(),
    ensures
        r == spec_bits3(bytes@, pos as int),
{
    [read_u32(bytes, pos), read_u32(bytes, pos + 4), read_u32(bytes, pos + 8)]
}

pub open spec fn spec_box_short(b: Seq<u8>, p: int) -> BoundBoxShort {
    BoundBoxShort {
        min: [spec_i16(b, p) as i16, spec_i16(b, p + 2) as i16, spec_i16(b, p + 4) as i16],
        max: [spec_i16(b, p + 6) as i16, spec_i16(b, p + 8) as i16, spec_i16(b, p + 10) as i16],
    }
}

fn read_box_short(bytes: &[u8], pos: usize) -> (r: BoundBoxShort)
    requires
        pos + 12 <= bytes.len(),
    ensures
        r == spec_box_short(bytes@, pos as int),
{
    BoundBoxShort {
        min: [read_i16(bytes, pos), read_i16(bytes, pos + 2), read_i16(bytes, pos + 4)],
        max: [read_i16(bytes, pos + 6), read_i16(bytes, pos + 8), read_i16(bytes, pos + 10)],
    }
}

impl Record for u8 {
    open spec fn spec_size() -> nat {
        1
    }

    open spec fn spec_decode(b: Seq<u8>, pos: int) -> u8 {
        b[pos]
    }

    fn size() -> (n: usize) {
        1
    }

    fn decode(bytes: &[u8], pos: usize) -> (r: u8) {
        bytes[pos]
    }
}

impl Record for i32 {
    open spec fn spec_size() -> nat {
        4
    }

    open spec fn spec_decode(b: Seq<u8>, pos: int) -> i32 {
        spec_i32(b, pos) as i32
    }

    fn size() -> (n: usize) {
        4
    }

    fn decode(bytes: &[u8], pos: usize) -> (r: i32) {
        read_i32(bytes, pos)
    }
}

impl Record for Edge {
    open spec fn spec_size() -> nat {
        4
    }

    open spec fn spec_decode(b: Seq<u8>, p: int) -> Edge {
        Edge { vertex0: spec_u16(b, p) as u16, vertex1: spec_u16(b, p + 2) as u16 }
    }

    fn size() -> (n: usize) {
        4
    }

    fn decode(bytes: &[u8], pos: usize) -> (r: Edge) {
        Edge { vertex0: read_u16(bytes, pos), vertex1: read_u16(bytes, pos + 2) }
    }
}

impl Record for Face {
    open spec fn spec_size() -> nat {
        20
    }

    open spec fn spec_decode(b: Seq<u8>, p: int) -> Face {
        Face {
            plane_id: spec_u16(b, p) as u16,
            side: spec_u16(b, p + 2) as u16,
            ledge_id: spec_i32(b, p + 4) as i32,
            ledge_num: spec_u16(b, p + 8) as u16,
            texinfo_id: spec_u16(b, p + 10) as u16,
            typelight: b[p + 12],
            baselight: b[p + 13],
            light: [b[p + 14], b[p + 15]],
            lightmap: spec_i32(b, p + 16) as i32,
        }
    }

    fn size() -> (n: usize) {
        20
    }

    fn decode(bytes: &[u8], pos: usize) -> (r: Face) {
        Face {
            plane_id: read_u16(bytes, pos),
            side: read_u16(bytes, pos + 2),
            ledge_id: read_i32(bytes, pos + 4),
            ledge_num: read_u16(bytes, pos + 8),
            texinfo_id: read_u16(bytes, pos + 10),
            typelight: bytes[pos + 12],
            baselight: bytes[pos + 13],
            light: [bytes[pos + 14], bytes[pos + 15]],
            lightmap: read_i32(bytes, pos + 16),
        }
    }
}

impl Record for Vertex {
    open spec fn spec_size() -> nat {
        12
    }

    open spec fn spec_decode(b: Seq<u8>, p: int) -> Vertex {
        Vertex {
            x: spec_u32(b, p) as u32,
            y: spec_u32(b, p + 4) as u32,
            z: spec_u32(b, p + 8) as u32,
        }
    }

    fn size() -> (n: usize) {
        12
    }

    fn decode(bytes: &[u8], pos: usize) -> (r: Vertex) {
        Vertex {
            x: read_u32(bytes, pos),
            y: read_u32(bytes, pos + 4),
            z: read_u32(bytes, pos + 8),
        }
    }
}

impl Record for Model {
    open spec fn spec_size() -> nat {
        64
    }

    open spec fn spec_decode(b: Seq<u8>, p: int) -> Model {
        Model {
            bound: BoundBox { min: spec_bits3(b, p), max: spec_bits3(b, p + 12) },
            origin: spec_bits3(b, p + 24),
            node_id0: spec_i32(b, p + 36) as i32,
            node_id1: spec_i32(b, p + 40) as i32,
            node_id2: spec_i32(b, p + 44) as i32,
            node_id3: spec_i32(b, p + 48) as i32,
            num_leafs: spec_i32(b, p + 52) as i32,
            face_id: spec_i32(b, p + 56) as i32,
            face_num: spec_i32(b, p + 60) as i32,
        }
    }

    fn size() -> (n: usize) {
        64
    }

    fn decode(bytes: &[u8], pos: usize) -> (r: Model) {
        Model {
            bound: BoundBox { min: read_bits3(bytes, pos), max: read_bits3(bytes, pos + 12) },
            origin: read_bits3(bytes, pos + 24),
            node_id0: read_i32(bytes, pos + 36),
            node_id1: read_i32(bytes, pos + 40),
            node_id2: read_i32(bytes, pos + 44),
            node_id3: read_i32(bytes, pos + 48),
            num_leafs: read_i32(bytes, pos + 52),
            face_id: read_i32(bytes, pos + 56),
            face_num: read_i32(bytes, pos + 60),
        }
    }
}

impl Record for Node {
    open spec fn spec_size() -> nat {
        24
    }

    open spec fn spec_decode(b: Seq<u8>, p: int) -> Node {
        Node {
            plane_id: spec_i32(b, p) as i32,
            front: spec_u16(b, p + 4) as u16,
            back: spec_u16(b, p + 6) as u16,
            bboxs: spec_box_short(b, p + 8),
            face_id: spec_u16(b, p + 20) as u16,
            face_num: spec_u16(b, p + 22) as u16,
        }
    }

    fn size() -> (n: usize) {
        24
    }

    fn decode(bytes: &[u8], pos: usize) -> (r: Node) {
        Node {
            plane_id: read_i32(bytes, pos),
            front: read_u16(bytes, pos + 4),
            back: read_u16(bytes, pos + 6),
            bboxs: read_box_short(bytes, pos + 8),
            face_id: read_u16(bytes, pos + 20),
            face_num: read_u16(bytes, pos + 22),
        }
    }
}

impl Record for Leaf {
    open spec fn spec_size() -> nat {
        28
    }

    open spec fn spec_decode(b: Seq<u8>, p: int) -> Leaf {
        Leaf {
            ltype: spec_i32(b, p) as i32,
            vislist: spec_i32(b, p + 4) as i32,
            bound: spec_box_short(b, p + 8),
            lface_id: spec_u16(b, p + 20) as u16,
            lface_num: spec_u16(b, p + 22) as u16,
            sndwater: b[p + 24],
            sndsky: b[p + 25],
            sndslime: b[p + 26],
            sndlava: b[p + 27],
        }
    }

    fn size() -> (n: usize) {
        28
    }

    fn decode(bytes: &[u8], pos: usize) -> (r: Leaf) {
        Leaf {
            ltype: read_i32(bytes, pos),
            vislist: read_i32(bytes, pos + 4),
            bound: read_box_short(bytes, pos + 8),
            lface_id: read_u16(bytes, pos + 20),
            lface_num: read_u16(bytes, pos + 22),
            sndwater: bytes[pos + 24],
            sndsky: bytes[pos + 25],
            sndslime: bytes[pos + 26],
            sndlava: bytes[pos + 27],
        }
    }
}

impl Record for Plane {
    open spec fn spec_size() -> nat {
        20
    }

    open spec fn spec_decode(b: Seq<u8>, p: int) -> Plane {
        Plane {
            normal: spec_bits3(b, p),
            dist: spec_u32(b, p + 12) as u32,
            ptype: spec_i32(b, p + 16) as i32,
        }
    }

    fn size() -> (n: usize) {
        20
    }

    fn decode(bytes: &[u8], pos: usize) -> (r: Plane) {
        Plane {
            normal: read_bits3(bytes, pos),
            dist: read_u32(bytes, pos + 12),
            ptype: read_i32(bytes, pos + 16),
        }
    }
}

impl Record for ClipNode {
    open spec fn spec_size() -> nat {
        8
    }

    open spec fn spec_decode(b: Seq<u8>, p: int) -> ClipNode {
        ClipNode {
            plane_num: spec_u32(b, p) as u32,
            front: spec_i16(b, p + 4) as i16,
            back: spec_i16(b, p + 6) as i16,
        }
    }

    fn size() -> (n: usize) {
        8
    }

    fn decode(bytes: &[u8], pos: usize) -> (r: ClipNode) {
        ClipNode {
            plane_num: read_u32(bytes, pos),
            front: read_i16(bytes, pos + 4),
            back: read_i16(bytes, pos + 6),
        }
    }
}

impl Record for Surface {
    open spec fn spec_size() -> nat {
        40
    }

    open spec fn spec_decode(b: Seq<u8>, p: int) -> Surface {
        Surface {
            vector_s: spec_bits3(b, p),
            dist_s: spec_u32(b, p + 12) as u32,
            vector_t: spec_bits3(b, p + 16),
            dist_t: spec_u32(b, p + 28) as u32,
            texture_id: spec_u32(b, p + 32) as u32,
            animated: spec_u32(b, p + 36) as u32,
        }
    }

    fn size() -> (n: usize) {
        40
    }

    fn decode(bytes: &[u8], pos: usize) -> (r: Surface) {
        Surface {
            vector_s: read_bits3(bytes, pos),
            dist_s: read_u32(bytes, pos + 12),
            vector_t: read_bits3(bytes, pos + 16),
            dist_t: read_u32(bytes, pos + 28),
            texture_id: read_u32(bytes, pos + 32),
            animated: read_u32(bytes, pos + 36),
        }
    }
}

impl Record for MipTex {
    open spec fn spec_size() -> nat {
        40
    }

    open spec fn spec_decode(b: Seq<u8>, p: int) -> MipTex {
        MipTex {
            name: [
                b[p],
                b[p + 1],
                b[p + 2],
                b[p + 3],
                b[p + 4],
                b[p + 5],
                b[p + 6],
                b[p + 7],
                b[p + 8],
                b[p + 9],
                b[p + 10],
                b[p + 11],
                b[p + 12],
                b[p + 13],
                b[p + 14],
                b[p + 15],
            ],
            width: spec_u32(b, p + 16) as u32,
            height: spec_u32(b, p + 20) as u32,
            offset_1: spec_u32(b, p + 24) as u32,
            offset_2: spec_u32(b, p + 28) as u32,
            offset_4: spec_u32(b, p + 32) as u32,
            offset_8: spec_u32(b, p + 36) as u32,
        }
    }

    fn size() -> (n: usize) {
        40
    }

    fn decode(bytes: &[u8], pos: usize) -> (r: MipTex) {
        MipTex {
            name: [
                bytes[pos],
                bytes[pos + 1],
                bytes[pos + 2],
                bytes[pos + 3],
                bytes[pos + 4],
                bytes[pos + 5],
                bytes[pos + 6],
                bytes[pos + 7],
                bytes[pos + 8],
                bytes[pos + 9],
                bytes[pos + 10],
                bytes[pos + 11],
                bytes[pos + 12],
                bytes[pos + 13],
                bytes[pos + 14],
                bytes[pos + 15],
            ],
            width: read_u32(bytes, pos + 16),
            height: read_u32(bytes, pos + 20),
            offset_1: read_u32(bytes, pos + 24),
            offset_2: read_u32(bytes, pos + 28),
            offset_4: read_u32(bytes, pos + 32),
            offset_8: read_u32(bytes, pos + 36),
        }
    }
}

/// The size of the header in bytes.
pub const HEADER_SIZE: usize = 124;

impl Header {
    /// The header stored at the start of `b`.
    pub open spec fn spec_parse(b: Seq<u8>) -> Header {
        Header {
            version: spec_i32(b, 0) as i32,
            entities: spec_entry(b, 4),
            planes: spec_entry(b, 12),
            miptex: spec_entry(b, 20),
            vertices: spec_entry(b, 28),
            visilist: spec_entry(b, 36),
            nodes: spec_entry(b, 44),
            texinfo: spec_entry(b, 52),
            faces: spec_entry(b, 60),
            lightmaps: spec_entry(b, 68),
            clipnodes: spec_entry(b, 76),
            leaves: spec_entry(b, 84),
            lface: spec_entry(b, 92),
            edges: spec_entry(b, 100),
            ledges: spec_entry(b, 108),
            models: spec_entry(b, 116),
        }
    }

    /// Decodes the header at the start of a BSP file.
    pub fn parse(bytes: &[u8]) -> (h: Header)
        requires
            HEADER_SIZE <= bytes.len(),
        ensures
            h == Header::spec_parse(bytes@),
    {
        Header {
            version: read_i32(bytes, 0),
            entities: read_entry(bytes, 4),
            planes: read_entry(bytes, 12),
            miptex: read_entry(bytes, 20),
            vertices: read_entry(bytes, 28),
            visilist: read_entry(bytes, 36),
            nodes: read_entry(bytes, 44),
            texinfo: read_entry(bytes, 52),
            faces: read_entry(bytes, 60),
            lightmaps: read_entry(bytes, 68),
            clipnodes: read_entry(bytes, 76),
            leaves: read_entry(bytes, 84),
            lface: read_entry(bytes, 92),
            edges: read_entry(bytes, 100),
            ledges: read_entry(bytes, 108),
            models: read_entry(bytes, 116),
        }
    }
}


/// The entry of lump `k` of a BSP file: two little-endian 32-bit integers
/// (offset, then size) at byte `4 + 8 * k`, right after the version.
pub open spec fn lump_entry_at(b: Seq<u8>, k: int) -> Entry {
    Entry { offset: spec_i32(b, 4 + 8 * k) as i32, size: spec_i32(b, 8 + 8 * k) as i32 }
}

/// The header lists the version, then the fifteen lumps in the BSP29
/// order: entities, planes, textures, vertices, visibility, nodes, texture
/// info, faces, light maps, clip nodes, leaves, face list, edges, edge list
/// and models.
pub proof fn lemma_header_lump_order(b: Seq<u8>)
    ensures
        Header::spec_parse(b).version == spec_i32(b, 0) as i32,
        Header::spec_parse(b).entities == lump_entry_at(b, 0),
        Header::spec_parse(b).planes == lump_entry_at(b, 1),
        Header::spec_parse(b).miptex == lump_entry_at(b, 2),
        Header::spec_parse(b).vertices == lump_entry_at(b, 3),
        Header::spec_parse(b).visilist == lump_entry_at(b, 4),
        Header::spec_parse(b).nodes == lump_entry_at(b, 5),
        Header::spec_parse(b).texinfo == lump_entry_at(b, 6),
        Header::spec_parse(b).faces == lump_entry_at(b, 7),
        Header::spec_parse(b).lightmaps == lump_entry_at(b, 8),
        Header::spec_parse(b).clipnodes == lump_entry_at(b, 9),
        Header::spec_parse(b).leaves == lump_entry_at(b, 10),
        Header::spec_parse(b).lface == lump_entry_at(b, 11),
        Header::spec_parse(b).edges == lump_entry_at(b, 12),
        Header::spec_parse(b).ledges == lump_entry_at(b, 13),
        Header::spec_parse(b).models == lump_entry_at(b, 14),
{
}

/// The byte layout of the records: each field is the little-endian value
/// at its offset in the record, fields in declaration order, the three
/// coordinates of a vector one after another (x at +0, y at +4, z at +8);
/// and the size of each record.
pub proof fn lemma_record_layouts(b: Seq<u8>, p: int)
    ensures
        ({
            let v = Vertex::spec_decode(b, p);
            &&& v.x == spec_u32(b, p) as u32
            &&& v.y == spec_u32(b, p + 4) as u32
            &&& v.z == spec_u32(b, p + 8) as u32
        }),
        ({
            let pl = Plane::spec_decode(b, p);
            &&& pl.normal[0] == spec_u32(b, p) as u32
            &&& pl.normal[1] == spec_u32(b, p + 4) as u32
            &&& pl.normal[2] == spec_u32(b, p + 8) as u32
            &&& pl.dist == spec_u32(b, p + 12) as u32
            &&& pl.ptype == spec_i32(b, p + 16) as i32
        }),
        ({
            let e = Edge::spec_decode(b, p);
            &&& e.vertex0 == spec_u16(b, p) as u16
            &&& e.vertex1 == spec_u16(b, p + 2) as u16
        }),
        ({
            let f = Face::spec_decode(b, p);
            &&& f.plane_id == spec_u16(b, p) as u16
            &&& f.side == spec_u16(b, p + 2) as u16
            &&& f.ledge_id == spec_i32(b, p + 4) as i32
            &&& f.ledge_num == spec_u16(b, p + 8) as u16
            &&& f.texinfo_id == spec_u16(b, p + 10) as u16
            &&& f.typelight == b[p + 12]
            &&& f.baselight == b[p + 13]
            &&& f.light[0] == b[p + 14]
            &&& f.light[1] == b[p + 15]
            &&& f.lightmap == spec_i32(b, p + 16) as i32
        }),
        ({
            let c = ClipNode::spec_decode(b, p);
            &&& c.plane_num == spec_u32(b, p) as u32
            &&& c.front == spec_i16(b, p + 4) as i16
            &&& c.back == spec_i16(b, p + 6) as i16
        }),
        ({
            let m = Model::spec_decode(b, p);
            &&& m.bound.min[0] == spec_u32(b, p) as u32
            &&& m.bound.min[1] == spec_u32(b, p + 4) as u32
            &&& m.bound.min[2] == spec_u32(b, p + 8) as u32
            &&& m.bound.max[0] == spec_u32(b, p + 12) as u32
            &&& m.bound.max[1] == spec_u32(b, p + 16) as u32
            &&& m.bound.max[2] == spec_u32(b, p + 20) as u32
            &&& m.origin[0] == spec_u32(b, p + 24) as u32
            &&& m.origin[1] == spec_u32(b, p + 28) as u32
            &&& m.origin[2] == spec_u32(b, p + 32) as u32
            &&& m.node_id0 == spec_i32(b, p + 36) as i32
            &&& m.node_id1 == spec_i32(b, p + 40) as i32
            &&& m.node_id2 == spec_i32(b, p + 44) as i32
            &&& m.node_id3 == spec_i32(b, p + 48) as i32
            &&& m.num_leafs == spec_i32(b, p + 52) as i32
            &&& m.face_id == spec_i32(b, p + 56) as i32
            &&& m.face_num == spec_i32(b, p + 60) as i32
        }),
        ({
            let sf = Surface::spec_decode(b, p);
            &&& sf.vector_s[0] == spec_u32(b, p) as u32
            &&& sf.vector_s[1] == spec_u32(b, p + 4) as u32
            &&& sf.vector_s[2] == spec_u32(b, p + 8) as u32
            &&& sf.dist_s == spec_u32(b, p + 12) as u32
            &&& sf.vector_t[0] == spec_u32(b, p + 16) as u32
            &&& sf.vector_t[1] == spec_u32(b, p + 20) as u32
            &&& sf.vector_t[2] == spec_u32(b, p + 24) as u32
            &&& sf.dist_t == spec_u32(b, p + 28) as u32
            &&& sf.texture_id == spec_u32(b, p + 32) as u32
            &&& sf.animated == spec_u32(b, p + 36) as u32
        }),
        ({
            let n = Node::spec_decode(b, p);
            &&& n.plane_id == spec_i32(b, p) as i32
            &&& n.front == spec_u16(b, p + 4) as u16
            &&& n.back == spec_u16(b, p + 6) as u16
            &&& n.bboxs.min[0] == spec_i16(b, p + 8) as i16
            &&& n.bboxs.min[1] == spec_i16(b, p + 10) as i16
            &&& n.bboxs.min[2] == spec_i16(b, p + 12) as i16
            &&& n.bboxs.max[0] == spec_i16(b, p + 14) as i16
            &&& n.bboxs.max[1] == spec_i16(b, p + 16) as i16
            &&& n.bboxs.max[2] == spec_i16(b, p + 18) as i16
            &&& n.face_id == spec_u16(b, p + 20) as u16
            &&& n.face_num == spec_u16(b, p + 22) as u16
        }),
        ({
            let l = Leaf::spec_decode(b, p);
            &&& l.ltype == spec_i32(b, p) as i32
            &&& l.vislist == spec_i32(b, p + 4) as i32
            &&& l.bound.min[0] == spec_i16(b, p + 8) as i16
            &&& l.bound.min[1] == spec_i16(b, p + 10) as i16
            &&& l.bound.min[2] == spec_i16(b, p + 12) as i16
            &&& l.bound.max[0] == spec_i16(b, p + 14) as i16
            &&& l.bound.max[1] == spec_i16(b, p + 16) as i16
            &&& l.bound.max[2] == spec_i16(b, p + 18) as i16
            &&& l.lface_id == spec_u16(b, p + 20) as u16
            &&& l.lface_num == spec_u16(b, p + 22) as u16
            &&& l.sndwater == b[p + 24]
            &&& l.sndsky == b[p + 25]
            &&& l.sndslime == b[p + 26]
            &&& l.sndlava == b[p + 27]
        }),
        ({
            let t = MipTex::spec_decode(b, p);
            &&& forall|i: int| 0 <= i < 16 ==> t.name[i] == b[p + i]
            &&& t.width == spec_u32(b, p + 16) as u32
            &&& t.height == spec_u32(b, p + 20) as u32
            &&& t.offset_1 == spec_u32(b, p + 24) as u32
            &&& t.offset_2 == spec_u32(b, p + 28) as u32
            &&& t.offset_4 == spec_u32(b, p + 32) as u32
            &&& t.offset_8 == spec_u32(b, p + 36) as u32
        }),
        i32::spec_decode(b, p) == spec_i32(b, p) as i32,
        u8::spec_decode(b, p) == b[p],
        Vertex::spec_size() == 12 && Plane::spec_size() == 20 && Edge::spec_size() == 4,
        Face::spec_size() == 20 && ClipNode::spec_size() == 8 && Model::spec_size() == 64,
        Surface::spec_size() == 40 && Node::spec_size() == 24 && Leaf::spec_size() == 28,
        MipTex::spec_size() == 40 && i32::spec_size() == 4 && u8::spec_size() == 1,
{
    let t = MipTex::spec_decode(b, p);
    assert forall|i: int| 0 <= i < 16 implies t.name[i] == b[p + i] by {}
}

// ---------------------------------------------------------------------------
// Lumps

/// The lump described by `e` lies inside a file of `len` bytes.
pub open spec fn lump_in_bounds(e: Entry, len: int) -> bool {
    &&& 0 <= e.offset
    &&& 0 <= e.size
    &&& e.offset + e.size <= i32::MAX
    &&& e.offset + e.size <= len
}

/// Whether the lump described by `e` lies inside `bytes`.
pub fn lump_fits(e: Entry, bytes: &[u8]) -> (r: bool)
    ensures
        r == lump_in_bounds(e, bytes@.len() as int),
{
    e.offset >= 0 && e.size >= 0 && (e.offset as i64 + e.size as i64) <= i32::MAX as i64 && (
    e.offset as i64 + e.size as i64) as usize <= bytes.len()
}

/// The records of the lump `e`: as many whole records as fit in its size,
/// one after another from its offset.
pub open spec fn spec_lump<T: Record>(e: Entry, b: Seq<u8>) -> Seq<T> {
    Seq::new(
        (e.size as nat) / T::spec_size(),
        |i: int| T::spec_decode(b, e.offset + i * T::spec_size()),
    )
}

/// Decodes the records of the lump `entry`.
pub fn parse_data<T: Record>(entry: Entry, bytes: &[u8]) -> (r: Vec<T>)
    requires
        lump_in_bounds(entry, bytes@.len() as int),
    ensures
        r@ == spec_lump::<T>(entry, bytes@),
{
    let n = T::size();
    let start = entry.offset as usize;
    let size = entry.size as usize;
    let count = size / n;
    assert(count * n <= size) by (nonlinear_arith)
        requires
            count == size / n,
            n > 0,
    ;
    let mut out: Vec<T> = Vec::new();
    let mut i: usize = 0;
    let mut pos: usize = start;
    while i < count
        invariant
            n as nat == T::spec_size(),
            n > 0,
            count == (entry.size as nat) / T::spec_size(),
            count * n <= size,
            size == entry.size,
            start == entry.offset,
            start + size <= bytes.len(),
            i <= count,
            pos == start + i * n,
            out@.len() == i,
            forall|k: int|
                0 <= k < i ==> out@[k] == T::spec_decode(bytes@, entry.offset + k * T::spec_size()),
        decreases count - i,
    {
        assert(pos + n <= start + size) by (nonlinear_arith)
            requires
                pos == start + i * n,
                i < count,
                count * n <= size,
        ;
        let rec = T::decode(bytes, pos);
        out.push(rec);
        assert(pos + n == start + (i + 1) * n) by (nonlinear_arith)
            requires
                pos == start + i * n,
        ;
        pos = pos + n;
        i = i + 1;
    }
    assert(out@ =~= spec_lump::<T>(entry, bytes@));
    out
}

} // verus!

verus! {

/// Leaf contents: open space.
pub const CONTENTS_EMPTY: i32 = -1;
/// Leaf contents: solid.
pub const CONTENTS_SOLID: i32 = -2;
/// Leaf contents: water (contents at or below this value are liquids).
pub const CONTENTS_WATER: i32 = -3;
/// Leaf contents: clip brush.
pub const CONTENTS_CLIP: i32 = -8;

} // verus!
