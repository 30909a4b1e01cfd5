//! Planning the draw calls of a frame: one call per texture with vertices,
//! in texture order, each with the pipeline for its kind of texture; the
//! calls for transparent textures are kept back and issued last, with the
//! default pipeline.

use vstd::prelude::*;
use crate::mesh::{all_tex_verts, face_order, is_mesh_of, tex_verts, MeshVertex};
use crate::types::{Edge, Face, Model, Surface, TEX_DEFAULT, TEX_FLUID, TEX_SKY};

verus! {

/// The render pipelines of the level.
#[derive(Clone, Copy, Debug, PartialEq, Eq)]
pub enum Pipeline {
    Default,
    Sky,
    Fluid,
    Debug,
}

/// A draw call: the pipeline, the texture to bind, and the vertex range
/// `start..end` of the level's vertex buffer.
#[derive(Clone, Copy, Debug, PartialEq, Eq)]
pub struct DrawCall {
    pub pipeline: Pipeline,
    pub texture: usize,
    pub start: u32,
    pub end: u32,
}

/// The pipeline for a texture of kind `tex_type`.
pub open spec fn spec_pipeline_for(tex_type: i32) -> Pipeline {
    if tex_type == TEX_SKY {
        Pipeline::Sky
    } else if tex_type == TEX_FLUID {
        Pipeline::Fluid
    } else if tex_type == TEX_DEFAULT {
        Pipeline::Default
    } else {
        Pipeline::Debug
    }
}

/// The pipeline for a texture of kind `tex_type`.
pub fn pipeline_for(tex_type: i32) -> (r: Pipeline)
    ensures
        r == spec_pipeline_for(tex_type),
{
    if tex_type == TEX_SKY {
        Pipeline::Sky
    } else if tex_type == TEX_FLUID {
        Pipeline::Fluid
    } else if tex_type == TEX_DEFAULT {
        Pipeline::Default
    } else {
        Pipeline::Debug
    }
}

/// The number of vertices of the first `n` textures.
pub open spec fn offset_sum(counts: Seq<u32>, n: int) -> int
    decreases n,
{
    if n <= 0 {
        0
    } else {
        offset_sum(counts, n - 1) + counts[n - 1]
    }
}

/// The draw call of texture `i` when it is drawn with `p`.
pub open spec fn draw_of(counts: Seq<u32>, i: int, p: Pipeline) -> DrawCall {
    DrawCall {
        pipeline: p,
        texture: i as usize,
        start: offset_sum(counts, i) as u32,
        end: offset_sum(counts, i + 1) as u32,
    }
}

/// The calls for the opaque textures among the first `n`.
pub open spec fn opaque_draws(counts: Seq<u32>, tex_types: Seq<i32>, transparent: Seq<bool>, n: int) -> Seq<
    DrawCall,
>
    decreases n,
{
    if n <= 0 {
        seq![]
    } else {
        let prev = opaque_draws(counts, tex_types, transparent, n - 1);
        if counts[n - 1] != 0 && !transparent[n - 1] {
            prev.push(draw_of(counts, n - 1, spec_pipeline_for(tex_types[n - 1])))
        } else {
            prev
        }
    }
}

/// The calls for the transparent textures among the first `n`.
pub open spec fn transparent_draws(counts: Seq<u32>, transparent: Seq<bool>, n: int) -> Seq<DrawCall>
    decreases n,
{
    if n <= 0 {
        seq![]
    } else {
        let prev = transparent_draws(counts, transparent, n - 1);
        if counts[n - 1] != 0 && transparent[n - 1] {
            prev.push(draw_of(counts, n - 1, Pipeline::Default))
        } else {
            prev
        }
    }
}

/// The draw calls of a frame.
pub open spec fn spec_draws(counts: Seq<u32>, tex_types: Seq<i32>, transparent: Seq<bool>) -> Seq<DrawCall> {
    opaque_draws(counts, tex_types, transparent, counts.len() as int) + transparent_draws(
        counts,
        transparent,
        counts.len() as int,
    )
}

proof fn lemma_offset_sum_monotone(counts: Seq<u32>, i: int, j: int)
    requires
        0 <= i <= j,
    ensures
        offset_sum(counts, i) <= offset_sum(counts, j),
    decreases j,
{
    if i < j {
        lemma_offset_sum_monotone(counts, i, j - 1);
    }
}

/// Plans the draw calls of a frame. `render_offsets[i]` is the number of
/// vertices of texture `i` (they follow those of texture `i - 1` in the
/// vertex buffer); `tex_types[i]` and `transparent[i]` describe texture `i`.
pub fn plan_draws(render_offsets: &Vec<u32>, tex_types: &Vec<i32>, transparent: &Vec<bool>) -> (r: Vec<
    DrawCall,
>)
    requires
        tex_types@.len() >= render_offsets@.len(),
        transparent@.len() >= render_offsets@.len(),
        offset_sum(render_offsets@, render_offsets@.len() as int) <= u32::MAX,
    ensures
        r@ == spec_draws(render_offsets@, tex_types@, transparent@),
{
    let ghost counts = render_offsets@;
    let n = render_offsets.len();
    let mut draws: Vec<DrawCall> = Vec::new();
    let mut later: Vec<DrawCall> = Vec::new();
    let mut offset: u32 = 0;
    let mut i: usize = 0;
    while i < n
        invariant
            counts == render_offsets@,
            n == counts.len(),
            tex_types@.len() >= n,
            transparent@.len() >= n,
            offset_sum(counts, n as int) <= u32::MAX,
            i <= n,
            offset == offset_sum(counts, i as int),
            draws@ == opaque_draws(counts, tex_types@, transparent@, i as int),
            later@ == transparent_draws(counts, transparent@, i as int),
        decreases n - i,
    {
        proof {
            lemma_offset_sum_monotone(counts, i + 1, n as int);
        }
        let count = render_offsets[i];
        if count != 0 {
            let end = offset + count;
            if transparent[i] {
                later.push(DrawCall { pipeline: Pipeline::Default, texture: i, start: offset, end });
            } else {
                draws.push(
                    DrawCall { pipeline: pipeline_for(tex_types[i]), texture: i, start: offset, end },
                );
            }
            offset = end;
        }
        i = i + 1;
    }
    draws.append(&mut later);
    draws
}


// ---------------------------------------------------------------------------
// Laws

proof fn lemma_draw_shape(counts: Seq<u32>, tex_types: Seq<i32>, transparent: Seq<bool>, n: int)
    requires
        0 <= n <= counts.len(),
        counts.len() <= usize::MAX,
    ensures
        forall|k: int|
            0 <= k < opaque_draws(counts, tex_types, transparent, n).len() ==> {
                let d = #[trigger] opaque_draws(counts, tex_types, transparent, n)[k];
                &&& 0 <= d.texture < n
                &&& counts[d.texture as int] != 0
                &&& d.start == offset_sum(counts, d.texture as int) as u32
                &&& d.end == offset_sum(counts, d.texture + 1) as u32
            },
        forall|k: int|
            0 <= k < transparent_draws(counts, transparent, n).len() ==> {
                let d = #[trigger] transparent_draws(counts, transparent, n)[k];
                &&& 0 <= d.texture < n
                &&& counts[d.texture as int] != 0
                &&& d.start == offset_sum(counts, d.texture as int) as u32
                &&& d.end == offset_sum(counts, d.texture + 1) as u32
            },
    decreases n,
{
    if n > 0 {
        lemma_draw_shape(counts, tex_types, transparent, n - 1);
        let po = opaque_draws(counts, tex_types, transparent, n - 1);
        let pt = transparent_draws(counts, transparent, n - 1);
        assert(((n - 1) as usize) as int == n - 1);
        assert forall|k: int| 0 <= k < opaque_draws(counts, tex_types, transparent, n).len() implies {
            let d = #[trigger] opaque_draws(counts, tex_types, transparent, n)[k];
            &&& 0 <= d.texture < n
            &&& counts[d.texture as int] != 0
            &&& d.start == offset_sum(counts, d.texture as int) as u32
            &&& d.end == offset_sum(counts, d.texture + 1) as u32
        } by {
            if k < po.len() {
                assert(opaque_draws(counts, tex_types, transparent, n)[k] == po[k]);
            }
        }
        assert forall|k: int| 0 <= k < transparent_draws(counts, transparent, n).len() implies {
            let d = #[trigger] transparent_draws(counts, transparent, n)[k];
            &&& 0 <= d.texture < n
            &&& counts[d.texture as int] != 0
            &&& d.start == offset_sum(counts, d.texture as int) as u32
            &&& d.end == offset_sum(counts, d.texture + 1) as u32
        } by {
            if k < pt.len() {
                assert(transparent_draws(counts, transparent, n)[k] == pt[k]);
            }
        }
    }
}

proof fn lemma_mesh_prefix(
    faces: Seq<Face>,
    edges: Seq<Edge>,
    ledges: Seq<i32>,
    surfaces: Seq<Surface>,
    tex_types: Seq<i32>,
    order: Seq<int>,
    t: nat,
    n: nat,
)
    requires
        t <= n,
    ensures
        all_tex_verts(faces, edges, ledges, surfaces, tex_types, order, t).len() <= all_tex_verts(
            faces,
            edges,
            ledges,
            surfaces,
            tex_types,
            order,
            n,
        ).len(),
        all_tex_verts(faces, edges, ledges, surfaces, tex_types, order, n).take(
            all_tex_verts(faces, edges, ledges, surfaces, tex_types, order, t).len() as int,
        ) == all_tex_verts(faces, edges, ledges, surfaces, tex_types, order, t),
    decreases n,
{
    if t < n {
        lemma_mesh_prefix(faces, edges, ledges, surfaces, tex_types, order, t, (n - 1) as nat);
        let a = all_tex_verts(faces, edges, ledges, surfaces, tex_types, order, (n - 1) as nat);
        let b = tex_verts(faces, edges, ledges, surfaces, tex_types, order, n - 1);
        let p = all_tex_verts(faces, edges, ledges, surfaces, tex_types, order, t);
        assert((a + b).take(p.len() as int) =~= a.take(p.len() as int));
    } else {
        let a = all_tex_verts(faces, edges, ledges, surfaces, tex_types, order, n);
        assert(a.take(a.len() as int) =~= a);
    }
}

proof fn lemma_offsets_are_lengths(
    offsets: Seq<u32>,
    faces: Seq<Face>,
    edges: Seq<Edge>,
    ledges: Seq<i32>,
    surfaces: Seq<Surface>,
    tex_types: Seq<i32>,
    order: Seq<int>,
    n: nat,
)
    requires
        n <= offsets.len(),
        forall|t: int|
            0 <= t < offsets.len() ==> offsets[t] == (tex_verts(
                faces,
                edges,
                ledges,
                surfaces,
                tex_types,
                order,
                t,
            ).len() as u32),
        all_tex_verts(faces, edges, ledges, surfaces, tex_types, order, n).len() <= u32::MAX,
    ensures
        offset_sum(offsets, n as int) == all_tex_verts(
            faces,
            edges,
            ledges,
            surfaces,
            tex_types,
            order,
            n,
        ).len(),
    decreases n,
{
    if n > 0 {
        lemma_offsets_are_lengths(
            offsets,
            faces,
            edges,
            ledges,
            surfaces,
            tex_types,
            order,
            (n - 1) as nat,
        );
    }
}

/// Drawing the planned calls over the mesh of a level draws, for each call,
/// exactly the triangles that the mesh holds for its texture: the vertex
/// range of the call is the slice of the mesh built for that texture.
pub proof fn lemma_draws_match_mesh(
    verts: Seq<MeshVertex>,
    offsets: Seq<u32>,
    models: Seq<Model>,
    faces: Seq<Face>,
    edges: Seq<Edge>,
    ledges: Seq<i32>,
    surfaces: Seq<Surface>,
    tex_types: Seq<i32>,
    transparent: Seq<bool>,
)
    requires
        is_mesh_of(verts, offsets, models, faces, edges, ledges, surfaces, tex_types),
        tex_types.len() <= usize::MAX,
        verts.len() <= u32::MAX,
    ensures
        offset_sum(offsets, offsets.len() as int) == verts.len(),
        forall|k: int|
            0 <= k < spec_draws(offsets, tex_types, transparent).len() ==> {
                let d = #[trigger] spec_draws(offsets, tex_types, transparent)[k];
                &&& 0 <= d.texture < tex_types.len()
                &&& d.start <= d.end <= verts.len()
                &&& verts.subrange(d.start as int, d.end as int) == tex_verts(
                    faces,
                    edges,
                    ledges,
                    surfaces,
                    tex_types,
                    face_order(models),
                    d.texture as int,
                )
            },
{
    let order = face_order(models);
    let n = offsets.len();
    lemma_offsets_are_lengths(offsets, faces, edges, ledges, surfaces, tex_types, order, n);
    lemma_draw_shape(offsets, tex_types, transparent, n as int);
    let op = opaque_draws(offsets, tex_types, transparent, n as int);
    let tr = transparent_draws(offsets, transparent, n as int);
    assert forall|k: int| 0 <= k < spec_draws(offsets, tex_types, transparent).len() implies {
        let d = #[trigger] spec_draws(offsets, tex_types, transparent)[k];
        &&& 0 <= d.texture < tex_types.len()
        &&& d.start <= d.end <= verts.len()
        &&& verts.subrange(d.start as int, d.end as int) == tex_verts(
            faces,
            edges,
            ledges,
            surfaces,
            tex_types,
            order,
            d.texture as int,
        )
    } by {
        let d = spec_draws(offsets, tex_types, transparent)[k];
        if k < op.len() {
            assert(d == op[k]);
        } else {
            assert(d == tr[k - op.len()]);
        }
        let i = d.texture as int;
        let a = all_tex_verts(faces, edges, ledges, surfaces, tex_types, order, i as nat);
        let a1 = all_tex_verts(faces, edges, ledges, surfaces, tex_types, order, (i + 1) as nat);
        let b = tex_verts(faces, edges, ledges, surfaces, tex_types, order, i);
        lemma_mesh_prefix(faces, edges, ledges, surfaces, tex_types, order, i as nat, n);
        lemma_mesh_prefix(faces, edges, ledges, surfaces, tex_types, order, (i + 1) as nat, n);
        lemma_offsets_are_lengths(offsets, faces, edges, ledges, surfaces, tex_types, order, i as nat);
        lemma_offsets_are_lengths(
            offsets,
            faces,
            edges,
            ledges,
            surfaces,
            tex_types,
            order,
            (i + 1) as nat,
        );
        assert(a1 == a + b);
        assert(verts.subrange(a.len() as int, a1.len() as int) =~= b) by {
            assert(verts.take(a1.len() as int) == a1);
            assert forall|j: int| 0 <= j < b.len() implies verts.subrange(
                a.len() as int,
                a1.len() as int,
            )[j] == b[j] by {
                assert(verts.take(a1.len() as int)[a.len() + j] == a1[a.len() + j]);
                assert(a1[a.len() + j] == b[j]);
            }
        }
    }
}

proof fn lemma_opaque_list(counts: Seq<u32>, tex_types: Seq<i32>, transparent: Seq<bool>, n: int)
    requires
        0 <= n <= counts.len(),
        counts.len() <= usize::MAX,
    ensures
        ({
            let od = opaque_draws(counts, tex_types, transparent, n);
            &&& forall|k: int|
                0 <= k < od.len() ==> {
                    let d = #[trigger] od[k];
                    &&& 0 <= d.texture < n
                    &&& counts[d.texture as int] != 0
                    &&& !transparent[d.texture as int]
                    &&& d.pipeline == spec_pipeline_for(tex_types[d.texture as int])
                }
            &&& forall|k1: int, k2: int|
                0 <= k1 < k2 < od.len() ==> (#[trigger] od[k1]).texture < (#[trigger] od[k2]).texture
            &&& forall|i: int|
                0 <= i < n && counts[i] != 0 && !transparent[i] ==> exists|k: int|
                    0 <= k < od.len() && (#[trigger] od[k]).texture == i
        }),
    decreases n,
{
    if n > 0 {
        lemma_opaque_list(counts, tex_types, transparent, n - 1);
        let po = opaque_draws(counts, tex_types, transparent, n - 1);
        let od = opaque_draws(counts, tex_types, transparent, n);
        assert(((n - 1) as usize) as int == n - 1);
        assert forall|k: int| 0 <= k < po.len() implies od[k] == po[k] by {}
        assert forall|i: int| 0 <= i < n && counts[i] != 0 && !transparent[i] implies exists|k: int|
            0 <= k < od.len() && (#[trigger] od[k]).texture == i by {
            if i < n - 1 {
                let k = choose|k: int| 0 <= k < po.len() && (#[trigger] po[k]).texture == i;
                assert(od[k] == po[k]);
            } else {
                assert(od[po.len() as int].texture == i);
            }
        }
    }
}

proof fn lemma_transparent_list(counts: Seq<u32>, transparent: Seq<bool>, n: int)
    requires
        0 <= n <= counts.len(),
        counts.len() <= usize::MAX,
    ensures
        ({
            let td = transparent_draws(counts, transparent, n);
            &&& forall|k: int|
                0 <= k < td.len() ==> {
                    let d = #[trigger] td[k];
                    &&& 0 <= d.texture < n
                    &&& counts[d.texture as int] != 0
                    &&& transparent[d.texture as int]
                    &&& d.pipeline == Pipeline::Default
                }
            &&& forall|k1: int, k2: int|
                0 <= k1 < k2 < td.len() ==> (#[trigger] td[k1]).texture < (#[trigger] td[k2]).texture
            &&& forall|i: int|
                0 <= i < n && counts[i] != 0 && transparent[i] ==> exists|k: int|
                    0 <= k < td.len() && (#[trigger] td[k]).texture == i
        }),
    decreases n,
{
    if n > 0 {
        lemma_transparent_list(counts, transparent, n - 1);
        let pt = transparent_draws(counts, transparent, n - 1);
        let td = transparent_draws(counts, transparent, n);
        assert(((n - 1) as usize) as int == n - 1);
        assert forall|k: int| 0 <= k < pt.len() implies td[k] == pt[k] by {}
        assert forall|i: int| 0 <= i < n && counts[i] != 0 && transparent[i] implies exists|k: int|
            0 <= k < td.len() && (#[trigger] td[k]).texture == i by {
            if i < n - 1 {
                let k = choose|k: int| 0 <= k < pt.len() && (#[trigger] pt[k]).texture == i;
                assert(td[k] == pt[k]);
            } else {
                assert(td[pt.len() as int].texture == i);
            }
        }
    }
}

/// A frame draws every texture that has vertices exactly once and no
/// other: opaque textures first, in texture order, each with the pipeline
/// of its kind, then the transparent ones, in texture order, with the
/// default pipeline.
pub proof fn lemma_each_texture_drawn_once(counts: Seq<u32>, tex_types: Seq<i32>, transparent: Seq<bool>)
    requires
        tex_types.len() >= counts.len(),
        transparent.len() >= counts.len(),
        counts.len() <= usize::MAX,
    ensures
        ({
            let ds = spec_draws(counts, tex_types, transparent);
            &&& forall|i: int|
                0 <= i < counts.len() && counts[i] != 0 ==> exists|k: int|
                    0 <= k < ds.len() && (#[trigger] ds[k]).texture == i
            &&& forall|k: int|
                0 <= k < ds.len() ==> {
                    let d = #[trigger] ds[k];
                    &&& 0 <= d.texture < counts.len()
                    &&& counts[d.texture as int] != 0
                    &&& d.pipeline == (if transparent[d.texture as int] {
                        Pipeline::Default
                    } else {
                        spec_pipeline_for(tex_types[d.texture as int])
                    })
                }
            &&& forall|k1: int, k2: int|
                0 <= k1 < k2 < ds.len() ==> (#[trigger] ds[k1]).texture != (#[trigger] ds[k2]).texture
            &&& forall|k1: int, k2: int|
                0 <= k1 < k2 < ds.len() && transparent[(#[trigger] ds[k1]).texture as int]
                    ==> transparent[(#[trigger] ds[k2]).texture as int]
        }),
{
    let n = counts.len() as int;
    lemma_opaque_list(counts, tex_types, transparent, n);
    lemma_transparent_list(counts, transparent, n);
    let od = opaque_draws(counts, tex_types, transparent, n);
    let td = transparent_draws(counts, transparent, n);
    let ds = spec_draws(counts, tex_types, transparent);
    assert(ds == od + td);
    assert forall|k: int| 0 <= k < od.len() implies ds[k] == od[k] by {}
    assert forall|k: int| od.len() <= k < ds.len() implies ds[k] == td[k - od.len()] by {}
    assert forall|i: int| 0 <= i < counts.len() && counts[i] != 0 implies exists|k: int|
        0 <= k < ds.len() && (#[trigger] ds[k]).texture == i by {
        if transparent[i] {
            let k = choose|k: int| 0 <= k < td.len() && (#[trigger] td[k]).texture == i;
            assert(ds[od.len() + k] == td[k]);
        } else {
            let k = choose|k: int| 0 <= k < od.len() && (#[trigger] od[k]).texture == i;
            assert(ds[k] == od[k]);
        }
    }
    assert forall|k: int| 0 <= k < ds.len() implies {
        let d = #[trigger] ds[k];
        &&& 0 <= d.texture < counts.len()
        &&& counts[d.texture as int] != 0
        &&& d.pipeline == (if transparent[d.texture as int] {
            Pipeline::Default
        } else {
            spec_pipeline_for(tex_types[d.texture as int])
        })
    } by {
        if k < od.len() {
            assert(ds[k] == od[k]);
        } else {
            assert(ds[k] == td[k - od.len()]);
        }
    }
    assert forall|k1: int, k2: int| 0 <= k1 < k2 < ds.len() implies (#[trigger] ds[k1]).texture
        != (#[trigger] ds[k2]).texture by {
        if k2 < od.len() {
            assert(od[k1].texture < od[k2].texture);
        } else if k1 >= od.len() {
            assert(td[k1 - od.len()].texture < td[k2 - od.len()].texture);
        } else {
            assert(ds[k1] == od[k1]);
            assert(ds[k2] == td[k2 - od.len()]);
        }
    }
    assert forall|k1: int, k2: int|
        0 <= k1 < k2 < ds.len() && transparent[(#[trigger] ds[k1]).texture as int] implies transparent[(
        #[trigger] ds[k2]).texture as int] by {
        if k1 < od.len() {
            assert(ds[k1] == od[k1]);
        } else {
            assert(ds[k2] == td[k2 - od.len()]);
        }
    }
}

} // verus!
