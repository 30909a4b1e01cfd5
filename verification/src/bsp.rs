//! Reading a whole level: the header, every lump the viewer uses, the
//! textures, the entity list and the mesh layout.

use vstd::prelude::*;
use crate::entities::{
    entities_ok, entities_scannable, entity_count, extract_entities, spec_collidable,
    spec_entity_info,
};
use crate::mesh::{build_mesh, is_mesh_of, mesh_buildable, mesh_ok, MeshVertex};
use crate::text::utf8_str;
use crate::texture::{
    name_chars, parse_textures, spec_tex_type, tex_count, tex_mip, tex_size, textures_ok,
    textures_readable, is_texture, Colour, TextureData,
};
use crate::types::{
    lump_fits, lump_in_bounds, parse_data, spec_lump, ClipNode, Edge, EntityInfo, Face, Header,
    Leaf, Model, Node, Plane, Surface, Vertex, HEADER_SIZE,
};

verus! {

/// Everything the viewer reads from a level file.
pub struct BspData {
    pub header: Header,
    pub vertices: Vec<Vertex>,
    pub faces: Vec<Face>,
    pub edges: Vec<Edge>,
    pub models: Vec<Model>,
    pub ledges: Vec<i32>,
    pub light_maps: Vec<u8>,
    pub textures: Vec<TextureData>,
    pub surfaces: Vec<Surface>,
    pub nodes: Vec<Node>,
    pub leafs: Vec<Leaf>,
    pub planes: Vec<Plane>,
    pub clip_nodes: Vec<ClipNode>,
    pub entity_info: Vec<EntityInfo>,
    pub collidable: Vec<i32>,
    pub render_verts: Vec<MeshVertex>,
    pub render_offsets: Vec<u32>,
}

/// The header of the file `b`.
pub open spec fn hdr(b: Seq<u8>) -> Header {
    Header::spec_parse(b)
}

/// The bytes of the entity list.
pub open spec fn entity_bytes(b: Seq<u8>) -> Seq<u8> {
    spec_lump::<u8>(hdr(b).entities, b)
}

/// The text of the entity list.
pub open spec fn entity_text(b: Seq<u8>) -> Seq<char> {
    vstd::utf8::decode_utf8(entity_bytes(b))
}

/// The kind of each texture of the file.
pub open spec fn spec_tex_types(b: Seq<u8>) -> Seq<i32> {
    let e = hdr(b).miptex;
    Seq::new(
        tex_count(e, b) as nat,
        |i: int| spec_tex_type(name_chars(tex_mip(e, b, i)), tex_size(e, b, i)),
    )
}

/// Every lump the viewer reads lies in the file.
pub open spec fn lumps_ok(b: Seq<u8>) -> bool {
    let h = hdr(b);
    let n = b.len() as int;
    &&& HEADER_SIZE <= b.len()
    &&& lump_in_bounds(h.vertices, n)
    &&& lump_in_bounds(h.faces, n)
    &&& lump_in_bounds(h.edges, n)
    &&& lump_in_bounds(h.models, n)
    &&& lump_in_bounds(h.ledges, n)
    &&& lump_in_bounds(h.lightmaps, n)
    &&& lump_in_bounds(h.texinfo, n)
    &&& lump_in_bounds(h.nodes, n)
    &&& lump_in_bounds(h.leaves, n)
    &&& lump_in_bounds(h.planes, n)
    &&& lump_in_bounds(h.clipnodes, n)
    &&& lump_in_bounds(h.entities, n)
}

/// The level file `b` can be read with a palette of `palette_len` colours:
/// its lumps lie in the file, its textures can be read, its entity list is
/// UTF-8 text that can be scanned, and its mesh can be laid out.
pub open spec fn bsp_ok(b: Seq<u8>, palette_len: int) -> bool {
    let h = hdr(b);
    &&& lumps_ok(b)
    &&& textures_ok(h.miptex, b, palette_len)
    &&& vstd::utf8::valid_utf8(entity_bytes(b))
    &&& entities_ok(entity_text(b))
    &&& mesh_ok(
        spec_lump::<Model>(h.models, b),
        spec_lump::<Vertex>(h.vertices, b).len() as int,
        spec_lump::<Face>(h.faces, b),
        spec_lump::<Edge>(h.edges, b),
        spec_lump::<i32>(h.ledges, b),
        spec_lump::<Surface>(h.texinfo, b),
        spec_tex_types(b),
    )
}

/// `d` is what the viewer reads from the file `b` with `palette`.
pub open spec fn is_bsp_of(d: BspData, b: Seq<u8>, palette: Seq<Colour>) -> bool {
    let h = hdr(b);
    &&& d.header == h
    &&& d.vertices@ == spec_lump::<Vertex>(h.vertices, b)
    &&& d.faces@ == spec_lump::<Face>(h.faces, b)
    &&& d.edges@ == spec_lump::<Edge>(h.edges, b)
    &&& d.models@ == spec_lump::<Model>(h.models, b)
    &&& d.ledges@ == spec_lump::<i32>(h.ledges, b)
    &&& d.light_maps@ == spec_lump::<u8>(h.lightmaps, b)
    &&& d.surfaces@ == spec_lump::<Surface>(h.texinfo, b)
    &&& d.nodes@ == spec_lump::<Node>(h.nodes, b)
    &&& d.leafs@ == spec_lump::<Leaf>(h.leaves, b)
    &&& d.planes@ == spec_lump::<Plane>(h.planes, b)
    &&& d.clip_nodes@ == spec_lump::<ClipNode>(h.clipnodes, b)
    &&& d.textures@.len() == tex_count(h.miptex, b)
    &&& forall|i: int|
        0 <= i < d.textures@.len() ==> is_texture(#[trigger] d.textures@[i], h.miptex, b, palette, i)
    &&& d.entity_info@ == spec_entity_info(entity_text(b))
    &&& d.collidable@ == spec_collidable(entity_text(b), entity_count(entity_text(b)))
    &&& is_mesh_of(
        d.render_verts@,
        d.render_offsets@,
        d.models@,
        d.faces@,
        d.edges@,
        d.ledges@,
        d.surfaces@,
        spec_tex_types(b),
    )
}

/// The kinds of `textures`.
fn texture_kinds(textures: &Vec<TextureData>, Ghost(b): Ghost<Seq<u8>>, Ghost(palette): Ghost<Seq<Colour>>) -> (r: Vec<i32>)
    requires
        textures@.len() == tex_count(hdr(b).miptex, b),
        forall|i: int|
            0 <= i < textures@.len() ==> is_texture(#[trigger] textures@[i], hdr(b).miptex, b, palette, i),
    ensures
        r@ == spec_tex_types(b),
{
    let mut r: Vec<i32> = Vec::new();
    let mut i: usize = 0;
    while i < textures.len()
        invariant
            textures@.len() == tex_count(hdr(b).miptex, b),
            forall|k: int|
                0 <= k < textures@.len() ==> is_texture(#[trigger] textures@[k], hdr(b).miptex, b, palette, k),
            i <= textures@.len(),
            r@ == spec_tex_types(b).take(i as int),
        decreases textures@.len() - i,
    {
        assert(is_texture(textures@[i as int], hdr(b).miptex, b, palette, i as int));
        r.push(textures[i].tex_type);
        assert(r@ =~= spec_tex_types(b).take(i + 1));
        i = i + 1;
    }
    assert(r@ =~= spec_tex_types(b));
    r
}

/// Whether every lump the viewer reads lies in `bytes`.
fn lumps_fit(bytes: &[u8]) -> (r: bool)
    ensures
        r == lumps_ok(bytes@),
{
    if bytes.len() < HEADER_SIZE {
        return false;
    }
    let h = Header::parse(bytes);
    lump_fits(h.vertices, bytes) && lump_fits(h.faces, bytes) && lump_fits(h.edges, bytes)
        && lump_fits(h.models, bytes) && lump_fits(h.ledges, bytes) && lump_fits(
        h.lightmaps,
        bytes,
    ) && lump_fits(h.texinfo, bytes) && lump_fits(h.nodes, bytes) && lump_fits(h.leaves, bytes)
        && lump_fits(h.planes, bytes) && lump_fits(h.clipnodes, bytes) && lump_fits(
        h.entities,
        bytes,
    )
}

impl BspData {
    /// Reads a level file: the header, the lumps, the textures (coloured
    /// through `palette`), the entity list and the mesh layout.
    pub fn parse(bytes: &[u8], palette: &Vec<Colour>) -> (r: BspData)
        requires
            bsp_ok(bytes@, palette@.len() as int),
        ensures
            is_bsp_of(r, bytes@, palette@),
    {
        let header = Header::parse(bytes);
        let vertices: Vec<Vertex> = parse_data(header.vertices, bytes);
        let faces: Vec<Face> = parse_data(header.faces, bytes);
        let edges: Vec<Edge> = parse_data(header.edges, bytes);
        let models: Vec<Model> = parse_data(header.models, bytes);
        let ledges: Vec<i32> = parse_data(header.ledges, bytes);
        let light_maps: Vec<u8> = parse_data(header.lightmaps, bytes);
        let textures = parse_textures(header.miptex, bytes, palette);
        let surfaces: Vec<Surface> = parse_data(header.texinfo, bytes);
        let nodes: Vec<Node> = parse_data(header.nodes, bytes);
        let leafs: Vec<Leaf> = parse_data(header.leaves, bytes);
        let planes: Vec<Plane> = parse_data(header.planes, bytes);
        let clip_nodes: Vec<ClipNode> = parse_data(header.clipnodes, bytes);
        let entities: Vec<u8> = parse_data(header.entities, bytes);
        let text = match utf8_str(entities.as_slice()) {
            Some(s) => s,
            None => {
                assert(false);
                ""
            },
        };
        let (entity_info, collidable) = extract_entities(text);
        let tex_types = texture_kinds(&textures, Ghost(bytes@), Ghost(palette@));
        let (render_verts, render_offsets) = build_mesh(
            &models,
            &vertices,
            &faces,
            &edges,
            &ledges,
            &surfaces,
            &tex_types,
        );
        BspData {
            header,
            vertices,
            faces,
            edges,
            models,
            ledges,
            light_maps,
            textures,
            surfaces,
            nodes,
            leafs,
            planes,
            clip_nodes,
            entity_info,
            collidable,
            render_verts,
            render_offsets,
        }
    }

    /// Whether `parse` can read the level file `bytes` with `palette`.
    pub fn parsable(bytes: &[u8], palette: &Vec<Colour>) -> (r: bool)
        ensures
            r == bsp_ok(bytes@, palette@.len() as int),
    {
        if !lumps_fit(bytes) {
            return false;
        }
        let header = Header::parse(bytes);
        if !textures_readable(header.miptex, bytes, palette) {
            return false;
        }
        let entities: Vec<u8> = parse_data(header.entities, bytes);
        let text = match utf8_str(entities.as_slice()) {
            Some(s) => s,
            None => {
                return false;
            },
        };
        if !entities_scannable(text) {
            return false;
        }
        let vertices: Vec<Vertex> = parse_data(header.vertices, bytes);
        let faces: Vec<Face> = parse_data(header.faces, bytes);
        let edges: Vec<Edge> = parse_data(header.edges, bytes);
        let models: Vec<Model> = parse_data(header.models, bytes);
        let ledges: Vec<i32> = parse_data(header.ledges, bytes);
        let surfaces: Vec<Surface> = parse_data(header.texinfo, bytes);
        let textures = parse_textures(header.miptex, bytes, palette);
        let tex_types = texture_kinds(&textures, Ghost(bytes@), Ghost(palette@));
        mesh_buildable(&models, &vertices, &faces, &edges, &ledges, &surfaces, &tex_types)
    }

    /// Reads a level file, or answers `None` when `parse` cannot read it.
    pub fn try_parse(bytes: &[u8], palette: &Vec<Colour>) -> (r: Option<BspData>)
        ensures
            r is Some <==> bsp_ok(bytes@, palette@.len() as int),
            r matches Some(d) ==> is_bsp_of(d, bytes@, palette@),
    {
        if BspData::parsable(bytes, palette) {
            Some(BspData::parse(bytes, palette))
        } else {
            None
        }
    }
}

} // verus!
