//! The layout of the level mesh: which vertices, in which order, make up the
//! triangles drawn with each texture.
//!
//! Each face is a convex polygon given by a run of signed edge references;
//! it is drawn as a triangle fan around its first corner. The triangles of
//! all faces are grouped by texture, textures in index order and faces in
//! model order; faces with a debug texture are left out.

use vstd::prelude::*;
use crate::types::{Edge, Face, Model, Surface, Vertex, TEX_DEBUG};

verus! {

/// A corner of a triangle: the face it belongs to and the index of its
/// vertex.
#[derive(Clone, Copy, Debug, PartialEq, Eq)]
pub struct MeshVertex {
    pub face: usize,
    pub vertex: u16,
}

/// The faces of model `m`, in order.
pub open spec fn face_range(m: Model) -> Seq<int> {
    Seq::new(
        if m.face_num > 0 {
            m.face_num as nat
        } else {
            0
        },
        |k: int| m.face_id + k,
    )
}

/// The faces of all `models`, model after model.
pub open spec fn face_order(models: Seq<Model>) -> Seq<int>
    decreases models.len(),
{
    if models.len() == 0 {
        seq![]
    } else {
        face_order(models.drop_last()) + face_range(models.last())
    }
}

/// The texture of face `f`.
pub open spec fn face_tex(faces: Seq<Face>, surfaces: Seq<Surface>, f: int) -> int {
    surfaces[faces[f].texinfo_id as int].texture_id as int
}

/// The edge index that an edge reference designates.
pub open spec fn edge_index(e: i32) -> int {
    if e < 0 {
        -(e as int)
    } else {
        e as int
    }
}

/// The `k`-th entry of the corner list of face `f`: each edge of the face
/// contributes its two vertices, reversed when the reference is negative.
pub open spec fn corner(faces: Seq<Face>, edges: Seq<Edge>, ledges: Seq<i32>, f: int, k: int) -> u16 {
    let e = ledges[faces[f].ledge_id + k / 2];
    let edge = edges[edge_index(e)];
    if (k % 2 == 0) == (e < 0) {
        edge.vertex1
    } else {
        edge.vertex0
    }
}

/// Which corner-list entry the `t`-th vertex of the fan of a face uses: the
/// `l`-th triangle (from 1) is entry 0, entry 2l and entry 2l+1.
pub open spec fn fan_entry(t: int) -> int {
    if t % 3 == 0 {
        0
    } else if t % 3 == 1 {
        2 * (t / 3 + 1)
    } else {
        2 * (t / 3 + 1) + 1
    }
}

/// The triangle fan of face `f`.
pub open spec fn fan(faces: Seq<Face>, edges: Seq<Edge>, ledges: Seq<i32>, f: int) -> Seq<MeshVertex> {
    Seq::new(
        (3 * (faces[f].ledge_num - 1)) as nat,
        |t: int| MeshVertex { face: f as usize, vertex: corner(faces, edges, ledges, f, fan_entry(t)) },
    )
}

/// The vertices drawn with texture `t` for the faces `order`.
pub open spec fn tex_verts(
    faces: Seq<Face>,
    edges: Seq<Edge>,
    ledges: Seq<i32>,
    surfaces: Seq<Surface>,
    tex_types: Seq<i32>,
    order: Seq<int>,
    t: int,
) -> Seq<MeshVertex>
    decreases order.len(),
{
    if order.len() == 0 {
        seq![]
    } else {
        let f = order.last();
        let prev = tex_verts(faces, edges, ledges, surfaces, tex_types, order.drop_last(), t);
        if face_tex(faces, surfaces, f) == t && tex_types[t] != TEX_DEBUG {
            prev + fan(faces, edges, ledges, f)
        } else {
            prev
        }
    }
}

/// The vertices of textures `0..n`, texture after texture.
pub open spec fn all_tex_verts(
    faces: Seq<Face>,
    edges: Seq<Edge>,
    ledges: Seq<i32>,
    surfaces: Seq<Surface>,
    tex_types: Seq<i32>,
    order: Seq<int>,
    n: nat,
) -> Seq<MeshVertex>
    decreases n,
{
    if n == 0 {
        seq![]
    } else {
        all_tex_verts(faces, edges, ledges, surfaces, tex_types, order, (n - 1) as nat) + tex_verts(
            faces,
            edges,
            ledges,
            surfaces,
            tex_types,
            order,
            n - 1,
        )
    }
}

/// The edges and vertices of face `f` can be read and it has a corner.
pub open spec fn face_geom_ok(
    faces: Seq<Face>,
    edges: Seq<Edge>,
    ledges: Seq<i32>,
    n_vertices: int,
    f: int,
) -> bool {
    let fc = faces[f];
    &&& fc.ledge_num >= 1
    &&& 0 <= fc.ledge_id
    &&& fc.ledge_id + fc.ledge_num <= ledges.len()
    &&& fc.ledge_id + fc.ledge_num - 1 <= i32::MAX
    &&& forall|l: int|
        0 <= l < fc.ledge_num ==> {
            let e = #[trigger] ledges[fc.ledge_id + l];
            &&& e != i32::MIN
            &&& edge_index(e) < edges.len()
            &&& edges[edge_index(e)].vertex0 < n_vertices
            &&& edges[edge_index(e)].vertex1 < n_vertices
        }
}

/// Face `f` exists, its surface and texture exist, and when it is drawn its
/// geometry can be read.
pub open spec fn face_ok(
    faces: Seq<Face>,
    edges: Seq<Edge>,
    ledges: Seq<i32>,
    n_vertices: int,
    surfaces: Seq<Surface>,
    tex_types: Seq<i32>,
    f: int,
) -> bool {
    &&& 0 <= f < faces.len()
    &&& (faces[f].texinfo_id as int) < surfaces.len()
    &&& face_tex(faces, surfaces, f) < tex_types.len()
    &&& tex_types[face_tex(faces, surfaces, f)] != TEX_DEBUG ==> face_geom_ok(
        faces,
        edges,
        ledges,
        n_vertices,
        f,
    )
}

/// The face range of every model can be computed in 32 bits.
pub open spec fn models_ok(models: Seq<Model>) -> bool {
    forall|m: int|
        0 <= m < models.len() ==> i32::MIN <= (#[trigger] models[m]).face_id + models[m].face_num
            <= i32::MAX
}

/// The mesh of the level can be built.
pub open spec fn mesh_ok(
    models: Seq<Model>,
    n_vertices: int,
    faces: Seq<Face>,
    edges: Seq<Edge>,
    ledges: Seq<i32>,
    surfaces: Seq<Surface>,
    tex_types: Seq<i32>,
) -> bool {
    &&& models_ok(models)
    &&& forall|k: int|
        0 <= k < face_order(models).len() ==> face_ok(
            faces,
            edges,
            ledges,
            n_vertices,
            surfaces,
            tex_types,
            #[trigger] face_order(models)[k],
        )
}

// ---------------------------------------------------------------------------

proof fn lemma_fan_step(faces: Seq<Face>, edges: Seq<Edge>, ledges: Seq<i32>, f: int, l: int)
    requires
        1 <= l,
        l < faces[f].ledge_num,
    ensures
        fan(faces, edges, ledges, f).take(3 * l) == fan(faces, edges, ledges, f).take(3 * (l - 1))
            + seq![
            MeshVertex { face: f as usize, vertex: corner(faces, edges, ledges, f, 0) },
            MeshVertex { face: f as usize, vertex: corner(faces, edges, ledges, f, 2 * l) },
            MeshVertex { face: f as usize, vertex: corner(faces, edges, ledges, f, 2 * l + 1) },
        ],
{
    let fa = fan(faces, edges, ledges, f);
    let t0 = 3 * (l - 1);
    assert(t0 % 3 == 0 && t0 / 3 == l - 1) by (nonlinear_arith)
        requires
            t0 == 3 * (l - 1),
    ;
    assert((t0 + 1) % 3 == 1 && (t0 + 1) / 3 == l - 1) by (nonlinear_arith)
        requires
            t0 == 3 * (l - 1),
    ;
    assert((t0 + 2) % 3 == 2 && (t0 + 2) / 3 == l - 1) by (nonlinear_arith)
        requires
            t0 == 3 * (l - 1),
    ;
    assert(fa.take(3 * l) =~= fa.take(3 * (l - 1)) + seq![fa[t0], fa[t0 + 1], fa[t0 + 2]]);
}

/// The triangle fan of face `f`, or `None` when its geometry cannot be read.
fn face_fan(
    faces: &Vec<Face>,
    edges: &Vec<Edge>,
    ledges: &Vec<i32>,
    n_vertices: usize,
    f: usize,
) -> (r: Option<Vec<MeshVertex>>)
    requires
        f < faces@.len(),
    ensures
        r is Some <==> face_geom_ok(faces@, edges@, ledges@, n_vertices as int, f as int),
        r matches Some(v) ==> v@ == fan(faces@, edges@, ledges@, f as int),
{
    let face = faces[f];
    let n = face.ledge_num as usize;
    if n < 1 || face.ledge_id < 0 || face.ledge_id as i64 + n as i64 - 1 > i32::MAX as i64 {
        return None;
    }
    let base = face.ledge_id as usize;
    if base > ledges.len() || n > ledges.len() - base {
        return None;
    }
    // The corner list: two entries per edge.
    let mut coords: Vec<u16> = Vec::new();
    let mut l: usize = 0;
    while l < n
        invariant
            face == faces@[f as int],
            n == face.ledge_num,
            base == face.ledge_id,
            base + n <= ledges@.len(),
            n >= 1,
            l <= n,
            coords@.len() == 2 * l,
            forall|k: int|
                0 <= k < 2 * l ==> coords@[k] == #[trigger] corner(faces@, edges@, ledges@, f as int, k),
            forall|j: int|
                0 <= j < l ==> {
                    let e = #[trigger] ledges@[face.ledge_id + j];
                    &&& e != i32::MIN
                    &&& edge_index(e) < edges@.len()
                    &&& edges@[edge_index(e)].vertex0 < n_vertices
                    &&& edges@[edge_index(e)].vertex1 < n_vertices
                },
        decreases n - l,
    {
        let e = ledges[base + l];
        if e == i32::MIN {
            return None;
        }
        let idx: usize = if e < 0 {
            (-e) as usize
        } else {
            e as usize
        };
        if idx >= edges.len() {
            return None;
        }
        let edge = edges[idx];
        if edge.vertex0 as usize >= n_vertices || edge.vertex1 as usize >= n_vertices {
            return None;
        }
        assert((2 * l) / 2 == l && (2 * l) % 2 == 0 && (2 * l + 1) / 2 == l && (2 * l + 1) % 2
            == 1) by (nonlinear_arith);
        if e < 0 {
            coords.push(edge.vertex1);
            coords.push(edge.vertex0);
        } else {
            coords.push(edge.vertex0);
            coords.push(edge.vertex1);
        }
        l = l + 1;
    }
    assert(face_geom_ok(faces@, edges@, ledges@, n_vertices as int, f as int));
    let mut out: Vec<MeshVertex> = Vec::new();
    let c0 = coords[0];
    let mut l: usize = 1;
    while l < n
        invariant
            face == faces@[f as int],
            n == face.ledge_num,
            n >= 1,
            coords@.len() == 2 * n,
            forall|k: int|
                0 <= k < 2 * n ==> coords@[k] == #[trigger] corner(faces@, edges@, ledges@, f as int, k),
            c0 == coords@[0],
            1 <= l <= n,
            out@ == fan(faces@, edges@, ledges@, f as int).take(3 * (l - 1)),
        decreases n - l,
    {
        proof {
            lemma_fan_step(faces@, edges@, ledges@, f as int, l as int);
        }
        out.push(MeshVertex { face: f, vertex: c0 });
        out.push(MeshVertex { face: f, vertex: coords[2 * l] });
        out.push(MeshVertex { face: f, vertex: coords[2 * l + 1] });
        l = l + 1;
    }
    assert(fan(faces@, edges@, ledges@, f as int).take(3 * (n - 1)) =~= fan(
        faces@,
        edges@,
        ledges@,
        f as int,
    ));
    Some(out)
}


proof fn lemma_face_order_prefix(models: Seq<Model>, m: int)
    requires
        0 <= m <= models.len(),
    ensures
        face_order(models.take(m)).len() <= face_order(models).len(),
        forall|k: int|
            0 <= k < face_order(models.take(m)).len() ==> #[trigger] face_order(models.take(m))[k]
                == face_order(models)[k],
    decreases models.len(),
{
    if m == models.len() {
        assert(models.take(m) =~= models);
    } else {
        assert(models.drop_last().take(m) =~= models.take(m));
        lemma_face_order_prefix(models.drop_last(), m);
    }
}

/// Every vertex reference of `verts` names an existing face, drawn with a
/// texture that is not a debug texture, and an existing vertex.
pub open spec fn refs_ok(
    verts: Seq<MeshVertex>,
    n_vertices: int,
    faces: Seq<Face>,
    surfaces: Seq<Surface>,
    tex_types: Seq<i32>,
) -> bool {
    forall|k: int|
        0 <= k < verts.len() ==> {
            let v = #[trigger] verts[k];
            &&& v.face < faces.len()
            &&& (faces[v.face as int].texinfo_id as int) < surfaces.len()
            &&& 0 <= face_tex(faces, surfaces, v.face as int) < tex_types.len()
            &&& tex_types[face_tex(faces, surfaces, v.face as int)] != TEX_DEBUG
            &&& v.vertex < n_vertices
        }
}

proof fn lemma_fan_refs(
    faces: Seq<Face>,
    edges: Seq<Edge>,
    ledges: Seq<i32>,
    n_vertices: int,
    surfaces: Seq<Surface>,
    tex_types: Seq<i32>,
    f: int,
)
    requires
        faces.len() <= usize::MAX,
        face_ok(faces, edges, ledges, n_vertices, surfaces, tex_types, f),
        tex_types[face_tex(faces, surfaces, f)] != TEX_DEBUG,
    ensures
        refs_ok(fan(faces, edges, ledges, f), n_vertices, faces, surfaces, tex_types),
{
    let fa = fan(faces, edges, ledges, f);
    let n = faces[f].ledge_num as int;
    assert forall|t: int| 0 <= t < fa.len() implies {
        let v = #[trigger] fa[t];
        &&& v.face < faces.len()
        &&& (faces[v.face as int].texinfo_id as int) < surfaces.len()
        &&& 0 <= face_tex(faces, surfaces, v.face as int) < tex_types.len()
        &&& tex_types[face_tex(faces, surfaces, v.face as int)] != TEX_DEBUG
        &&& v.vertex < n_vertices
    } by {
        let k = fan_entry(t);
        assert(0 <= k < 2 * n && 0 <= k / 2 < n) by (nonlinear_arith)
            requires
                0 <= t < 3 * (n - 1),
                k == (if t % 3 == 0 {
                    0
                } else if t % 3 == 1 {
                    2 * (t / 3 + 1)
                } else {
                    2 * (t / 3 + 1) + 1
                }),
        ;
        let e = ledges[faces[f].ledge_id + k / 2];
        assert(e == ledges[faces[f].ledge_id + k / 2]);
    }
}

proof fn lemma_tex_verts_refs(
    faces: Seq<Face>,
    edges: Seq<Edge>,
    ledges: Seq<i32>,
    n_vertices: int,
    surfaces: Seq<Surface>,
    tex_types: Seq<i32>,
    order: Seq<int>,
    t: int,
)
    requires
        faces.len() <= usize::MAX,
        forall|k: int|
            0 <= k < order.len() ==> face_ok(
                faces,
                edges,
                ledges,
                n_vertices,
                surfaces,
                tex_types,
                #[trigger] order[k],
            ),
    ensures
        refs_ok(
            tex_verts(faces, edges, ledges, surfaces, tex_types, order, t),
            n_vertices,
            faces,
            surfaces,
            tex_types,
        ),
    decreases order.len(),
{
    if order.len() > 0 {
        let f = order.last();
        assert(face_ok(faces, edges, ledges, n_vertices, surfaces, tex_types, order[order.len() - 1]));
        lemma_tex_verts_refs(faces, edges, ledges, n_vertices, surfaces, tex_types, order.drop_last(), t);
        let prev = tex_verts(faces, edges, ledges, surfaces, tex_types, order.drop_last(), t);
        if face_tex(faces, surfaces, f) == t && tex_types[t] != TEX_DEBUG {
            lemma_fan_refs(faces, edges, ledges, n_vertices, surfaces, tex_types, f);
            let fa = fan(faces, edges, ledges, f);
            assert forall|k: int| 0 <= k < (prev + fa).len() implies {
                let v = #[trigger] (prev + fa)[k];
                &&& v.face < faces.len()
                &&& (faces[v.face as int].texinfo_id as int) < surfaces.len()
                &&& 0 <= face_tex(faces, surfaces, v.face as int) < tex_types.len()
                &&& tex_types[face_tex(faces, surfaces, v.face as int)] != TEX_DEBUG
                &&& v.vertex < n_vertices
            } by {
                if k < prev.len() {
                    assert((prev + fa)[k] == prev[k]);
                } else {
                    assert((prev + fa)[k] == fa[k - prev.len()]);
                }
            }
        }
    }
}

proof fn lemma_all_tex_verts_refs(
    faces: Seq<Face>,
    edges: Seq<Edge>,
    ledges: Seq<i32>,
    n_vertices: int,
    surfaces: Seq<Surface>,
    tex_types: Seq<i32>,
    order: Seq<int>,
    n: nat,
)
    requires
        faces.len() <= usize::MAX,
        forall|k: int|
            0 <= k < order.len() ==> face_ok(
                faces,
                edges,
                ledges,
                n_vertices,
                surfaces,
                tex_types,
                #[trigger] order[k],
            ),
    ensures
        refs_ok(
            all_tex_verts(faces, edges, ledges, surfaces, tex_types, order, n),
            n_vertices,
            faces,
            surfaces,
            tex_types,
        ),
    decreases n,
{
    if n > 0 {
        lemma_all_tex_verts_refs(faces, edges, ledges, n_vertices, surfaces, tex_types, order, (n - 1) as nat);
        lemma_tex_verts_refs(faces, edges, ledges, n_vertices, surfaces, tex_types, order, n - 1);
        let a = all_tex_verts(faces, edges, ledges, surfaces, tex_types, order, (n - 1) as nat);
        let b = tex_verts(faces, edges, ledges, surfaces, tex_types, order, n - 1);
        assert forall|k: int| 0 <= k < (a + b).len() implies {
            let v = #[trigger] (a + b)[k];
            &&& v.face < faces.len()
            &&& (faces[v.face as int].texinfo_id as int) < surfaces.len()
            &&& 0 <= face_tex(faces, surfaces, v.face as int) < tex_types.len()
            &&& tex_types[face_tex(faces, surfaces, v.face as int)] != TEX_DEBUG
            &&& v.vertex < n_vertices
        } by {
            if k < a.len() {
                assert((a + b)[k] == a[k]);
            } else {
                assert((a + b)[k] == b[k - a.len()]);
            }
        }
    }
}

/// The mesh of a level refers only to existing faces that are drawn (their
/// texture is not a debug texture) and to existing vertices.
pub proof fn lemma_mesh_refs(
    verts: Seq<MeshVertex>,
    offsets: Seq<u32>,
    models: Seq<Model>,
    n_vertices: int,
    faces: Seq<Face>,
    edges: Seq<Edge>,
    ledges: Seq<i32>,
    surfaces: Seq<Surface>,
    tex_types: Seq<i32>,
)
    requires
        faces.len() <= usize::MAX,
        mesh_ok(models, n_vertices, faces, edges, ledges, surfaces, tex_types),
        is_mesh_of(verts, offsets, models, faces, edges, ledges, surfaces, tex_types),
    ensures
        refs_ok(verts, n_vertices, faces, surfaces, tex_types),
{
    lemma_all_tex_verts_refs(
        faces,
        edges,
        ledges,
        n_vertices,
        surfaces,
        tex_types,
        face_order(models),
        tex_types.len(),
    );
}

/// The mesh layout, or `None` when the mesh cannot be built.
fn build_mesh_checked(
    models: &Vec<Model>,
    vertices: &Vec<Vertex>,
    faces: &Vec<Face>,
    edges: &Vec<Edge>,
    ledges: &Vec<i32>,
    surfaces: &Vec<Surface>,
    tex_types: &Vec<i32>,
) -> (r: Option<(Vec<MeshVertex>, Vec<u32>)>)
    ensures
        r is Some <==> mesh_ok(
            models@,
            vertices@.len() as int,
            faces@,
            edges@,
            ledges@,
            surfaces@,
            tex_types@,
        ),
        r matches Some(p) ==> is_mesh_of(
            p.0@,
            p.1@,
            models@,
            faces@,
            edges@,
            ledges@,
            surfaces@,
            tex_types@,
        ),
{
    let n_vertices = vertices.len();
    let n_tex = tex_types.len();
    let mut all_verts: Vec<Vec<MeshVertex>> = Vec::new();
    let mut t: usize = 0;
    while t < n_tex
        invariant
            t <= n_tex,
            all_verts@.len() == t,
            forall|k: int| 0 <= k < t ==> (#[trigger] all_verts@[k])@ == Seq::<MeshVertex>::empty(),
        decreases n_tex - t,
    {
        all_verts.push(Vec::new());
        t = t + 1;
    }
    let ghost fs = faces@;
    let ghost es = edges@;
    let ghost ls = ledges@;
    let ghost ss = surfaces@;
    let ghost tt = tex_types@;
    let ghost mut order: Seq<int> = seq![];
    assert(models@.take(0) =~= Seq::<Model>::empty());
    let mut m: usize = 0;
    while m < models.len()
        invariant
            m <= models@.len(),
            n_tex == tex_types@.len(),
            n_vertices == vertices@.len(),
            fs == faces@,
            es == edges@,
            ls == ledges@,
            ss == surfaces@,
            tt == tex_types@,
            order == face_order(models@.take(m as int)),
            forall|k: int| 0 <= k < m ==> i32::MIN <= (#[trigger] models@[k]).face_id
                + models@[k].face_num <= i32::MAX,
            forall|k: int|
                0 <= k < order.len() ==> face_ok(fs, es, ls, n_vertices as int, ss, tt, #[trigger] order[k]),
            all_verts@.len() == n_tex,
            forall|k: int|
                0 <= k < n_tex ==> (#[trigger] all_verts@[k])@ == tex_verts(fs, es, ls, ss, tt, order, k),
        decreases models@.len() - m,
    {
        let model = models[m];
        let last64 = model.face_id as i64 + model.face_num as i64;
        if last64 < i32::MIN as i64 || last64 > i32::MAX as i64 {
            return None;
        }
        let first = model.face_id;
        let last = last64 as i32;
        let ghost base = order;
        let mut j: i32 = first;
        while j < last
            invariant
                m < models@.len(),
                model == models@[m as int],
                first == model.face_id,
                last == model.face_id + model.face_num,
                first <= j,
                j <= last || j == first,
                n_tex == tex_types@.len(),
                n_vertices == vertices@.len(),
                fs == faces@,
                es == edges@,
                ls == ledges@,
                ss == surfaces@,
                tt == tex_types@,
                base == face_order(models@.take(m as int)),
                order == base + Seq::new((j - first) as nat, |k: int| first + k),
                forall|k: int|
                    0 <= k < order.len() ==> face_ok(fs, es, ls, n_vertices as int, ss, tt, #[trigger] order[k]),
                all_verts@.len() == n_tex,
                forall|k: int|
                    0 <= k < n_tex ==> (#[trigger] all_verts@[k])@ == tex_verts(fs, es, ls, ss, tt, order, k),
            decreases last - j,
        {
            let ghost pos = order.len();
            proof {
                assert(models@.take(m + 1).drop_last() =~= models@.take(m as int));
                assert(models@.take(m + 1).last() == model);
                assert(face_order(models@.take(m + 1)) == base + face_range(model));
                assert(face_order(models@.take(m + 1))[pos as int] == j);
                lemma_face_order_prefix(models@, m + 1);
            }
            if j < 0 || j as usize >= faces.len() {
                return None;
            }
            let f = j as usize;
            let face = faces[f];
            let ti = face.texinfo_id as usize;
            if ti >= surfaces.len() {
                return None;
            }
            let tex = surfaces[ti].texture_id as usize;
            if tex >= n_tex {
                return None;
            }
            let ghost next = order.push(j as int);
            assert(next.drop_last() =~= order);
            if tex_types[tex] != TEX_DEBUG {
                match face_fan(faces, edges, ledges, n_vertices, f) {
                    None => {
                        return None;
                    },
                    Some(mut fv) => {
                        all_verts[tex].append(&mut fv);
                    },
                }
            }
            proof {
                order = next;
                assert(order =~= base + Seq::new((j + 1 - first) as nat, |k: int| first + k));
            }
            j = j + 1;
        }
        proof {
            assert(models@.take(m + 1).drop_last() =~= models@.take(m as int));
            assert(models@.take(m + 1).last() == model);
            assert(order =~= face_order(models@.take(m + 1)));
        }
        m = m + 1;
    }
    assert(models@.take(models@.len() as int) =~= models@);
    let mut render_verts: Vec<MeshVertex> = Vec::new();
    let mut render_offsets: Vec<u32> = Vec::new();
    let mut t: usize = 0;
    while t < n_tex
        invariant
            t <= n_tex,
            n_tex == tex_types@.len(),
            fs == faces@,
            es == edges@,
            ls == ledges@,
            ss == surfaces@,
            tt == tex_types@,
            order == face_order(models@),
            all_verts@.len() == n_tex,
            forall|k: int|
                0 <= k < n_tex ==> (#[trigger] all_verts@[k])@ == tex_verts(fs, es, ls, ss, tt, order, k),
            render_verts@ == all_tex_verts(fs, es, ls, ss, tt, order, t as nat),
            render_offsets@.len() == t,
            forall|k: int|
                0 <= k < t ==> render_offsets@[k] == (tex_verts(fs, es, ls, ss, tt, order, k).len() as u32),
        decreases n_tex - t,
    {
        let ghost before = render_verts@;
        let count = all_verts[t].len();
        let mut k: usize = 0;
        while k < count
            invariant
                t < n_tex,
                all_verts@.len() == n_tex,
                count == all_verts@[t as int]@.len(),
                k <= count,
                render_verts@ == before + all_verts@[t as int]@.take(k as int),
            decreases count - k,
        {
            assert(all_verts@[t as int]@.take(k + 1) =~= all_verts@[t as int]@.take(k as int).push(
                all_verts@[t as int]@[k as int],
            ));
            render_verts.push(all_verts[t][k]);
            k = k + 1;
        }
        assert(all_verts@[t as int]@.take(count as int) =~= all_verts@[t as int]@);
        render_offsets.push(count as u32);
        t = t + 1;
    }
    Some((render_verts, render_offsets))
}

/// `verts` and `offsets` are the mesh layout of the level: the triangle
/// vertices of each texture in turn, and how many vertices each texture has.
pub open spec fn is_mesh_of(
    verts: Seq<MeshVertex>,
    offsets: Seq<u32>,
    models: Seq<Model>,
    faces: Seq<Face>,
    edges: Seq<Edge>,
    ledges: Seq<i32>,
    surfaces: Seq<Surface>,
    tex_types: Seq<i32>,
) -> bool {
    let order = face_order(models);
    &&& verts == all_tex_verts(faces, edges, ledges, surfaces, tex_types, order, tex_types.len())
    &&& offsets.len() == tex_types.len()
    &&& forall|t: int|
        0 <= t < offsets.len() ==> offsets[t] == (tex_verts(
            faces,
            edges,
            ledges,
            surfaces,
            tex_types,
            order,
            t,
        ).len() as u32)
}

/// Lays out the level mesh: for each texture in index order, the triangle
/// fans of the faces drawn with it, in model order; and for each texture the
/// number of vertices it contributes. Faces with a debug texture are left
/// out.
pub fn build_mesh(
    models: &Vec<Model>,
    vertices: &Vec<Vertex>,
    faces: &Vec<Face>,
    edges: &Vec<Edge>,
    ledges: &Vec<i32>,
    surfaces: &Vec<Surface>,
    tex_types: &Vec<i32>,
) -> (r: (Vec<MeshVertex>, Vec<u32>))
    requires
        mesh_ok(
            models@,
            vertices@.len() as int,
            faces@,
            edges@,
            ledges@,
            surfaces@,
            tex_types@,
        ),
    ensures
        is_mesh_of(r.0@, r.1@, models@, faces@, edges@, ledges@, surfaces@, tex_types@),
        refs_ok(r.0@, vertices@.len() as int, faces@, surfaces@, tex_types@),
{
    match build_mesh_checked(models, vertices, faces, edges, ledges, surfaces, tex_types) {
        Some(p) => {
            let nf = faces.len();
            proof {
                lemma_mesh_refs(
                    p.0@,
                    p.1@,
                    models@,
                    vertices@.len() as int,
                    faces@,
                    edges@,
                    ledges@,
                    surfaces@,
                    tex_types@,
                );
            }
            p
        },
        None => {
            assert(false);
            (Vec::new(), Vec::new())
        },
    }
}

/// Whether `build_mesh` can lay out the mesh of these records.
pub fn mesh_buildable(
    models: &Vec<Model>,
    vertices: &Vec<Vertex>,
    faces: &Vec<Face>,
    edges: &Vec<Edge>,
    ledges: &Vec<i32>,
    surfaces: &Vec<Surface>,
    tex_types: &Vec<i32>,
) -> (r: bool)
    ensures
        r == mesh_ok(
            models@,
            vertices@.len() as int,
            faces@,
            edges@,
            ledges@,
            surfaces@,
            tex_types@,
        ),
{
    build_mesh_checked(models, vertices, faces, edges, ledges, surfaces, tex_types).is_some()
}

/// The number of vertices that the faces `order` with texture `t` make
/// when drawn: a face of `n` edges is a fan of `n - 1` triangles, three
/// vertices each.
pub open spec fn fan_vertex_total(faces: Seq<Face>, surfaces: Seq<Surface>, order: Seq<int>, t: int) -> int
    decreases order.len(),
{
    if order.len() == 0 {
        0
    } else {
        let f = order.last();
        fan_vertex_total(faces, surfaces, order.drop_last(), t) + if surfaces[faces[f].texinfo_id as int].texture_id
            == t {
            3 * (faces[f].ledge_num - 1)
        } else {
            0
        }
    }
}

proof fn lemma_tex_count_order(
    faces: Seq<Face>,
    edges: Seq<Edge>,
    ledges: Seq<i32>,
    n_vertices: int,
    surfaces: Seq<Surface>,
    tex_types: Seq<i32>,
    order: Seq<int>,
    t: int,
)
    requires
        0 <= t < tex_types.len(),
        forall|k: int|
            0 <= k < order.len() ==> face_ok(
                faces,
                edges,
                ledges,
                n_vertices,
                surfaces,
                tex_types,
                #[trigger] order[k],
            ),
    ensures
        tex_verts(faces, edges, ledges, surfaces, tex_types, order, t).len() == (if tex_types[t]
            == TEX_DEBUG {
            0
        } else {
            fan_vertex_total(faces, surfaces, order, t)
        }),
    decreases order.len(),
{
    if order.len() > 0 {
        let o = order.drop_last();
        assert forall|k: int| 0 <= k < o.len() implies face_ok(
            faces,
            edges,
            ledges,
            n_vertices,
            surfaces,
            tex_types,
            #[trigger] o[k],
        ) by {
            assert(o[k] == order[k]);
        }
        lemma_tex_count_order(faces, edges, ledges, n_vertices, surfaces, tex_types, o, t);
        let f = order.last();
        assert(face_ok(faces, edges, ledges, n_vertices, surfaces, tex_types, order[order.len() - 1]));
        if face_tex(faces, surfaces, f) == t && tex_types[t] != TEX_DEBUG {
            assert(faces[f].ledge_num >= 1);
        }
    }
}

/// Every face of the models whose texture is not a debug texture is drawn
/// whole: the vertex count of texture `t` is three per triangle of the fans
/// of all its faces, whatever kind of texture it is (sky, liquid, wall);
/// only debug textures get no vertices.
pub proof fn lemma_texture_vertex_count(
    verts: Seq<MeshVertex>,
    offsets: Seq<u32>,
    models: Seq<Model>,
    n_vertices: int,
    faces: Seq<Face>,
    edges: Seq<Edge>,
    ledges: Seq<i32>,
    surfaces: Seq<Surface>,
    tex_types: Seq<i32>,
    t: int,
)
    requires
        mesh_ok(models, n_vertices, faces, edges, ledges, surfaces, tex_types),
        is_mesh_of(verts, offsets, models, faces, edges, ledges, surfaces, tex_types),
        0 <= t < tex_types.len(),
    ensures
        tex_verts(faces, edges, ledges, surfaces, tex_types, face_order(models), t).len() == (if tex_types[t]
            == TEX_DEBUG {
            0
        } else {
            fan_vertex_total(faces, surfaces, face_order(models), t)
        }),
        offsets[t] == (if tex_types[t] == TEX_DEBUG {
            0
        } else {
            fan_vertex_total(faces, surfaces, face_order(models), t)
        }) as u32,
{
    lemma_tex_count_order(faces, edges, ledges, n_vertices, surfaces, tex_types, face_order(models), t);
    assert(offsets[t] == (tex_verts(
        faces,
        edges,
        ledges,
        surfaces,
        tex_types,
        face_order(models),
        t,
    ).len() as u32));
}

/// The vertex at which edge reference `e` starts: a negative reference
/// walks edge `-e` backwards.
pub open spec fn edge_start(edges: Seq<Edge>, e: i32) -> u16 {
    if e < 0 {
        edges[-(e as int)].vertex1
    } else {
        edges[e as int].vertex0
    }
}

/// The vertex at which edge reference `e` ends.
pub open spec fn edge_end(edges: Seq<Edge>, e: i32) -> u16 {
    if e < 0 {
        edges[-(e as int)].vertex0
    } else {
        edges[e as int].vertex1
    }
}

/// A face of `n` edges is drawn as `n - 1` triangles around the start of its
/// first edge: triangle `l` (from 1) is that vertex, then the start and the
/// end of the face's `l`-th edge (from 0), each corner tagged with the face.
pub proof fn lemma_fan_triangles(faces: Seq<Face>, edges: Seq<Edge>, ledges: Seq<i32>, f: int, l: int)
    requires
        0 <= f < faces.len(),
        faces[f].ledge_num >= 1,
        1 <= l < faces[f].ledge_num,
    ensures
        ({
            let fan = fan(faces, edges, ledges, f);
            let e0 = ledges[faces[f].ledge_id as int];
            let el = ledges[faces[f].ledge_id + l];
            &&& fan.len() == 3 * (faces[f].ledge_num - 1)
            &&& fan[3 * l - 3] == (MeshVertex { face: f as usize, vertex: edge_start(edges, e0) })
            &&& fan[3 * l - 2] == (MeshVertex { face: f as usize, vertex: edge_start(edges, el) })
            &&& fan[3 * l - 1] == (MeshVertex { face: f as usize, vertex: edge_end(edges, el) })
        }),
{
    let a = 3 * l - 3;
    assert(a % 3 == 0 && (a + 1) % 3 == 1 && (a + 2) % 3 == 2 && (a + 1) / 3 == l - 1 && (a + 2) / 3
        == l - 1) by (nonlinear_arith)
        requires
            a == 3 * l - 3,
            l >= 1,
    ;
    assert(fan_entry(a) == 0);
    assert(fan_entry(a + 1) == 2 * l);
    assert(fan_entry(a + 2) == 2 * l + 1);
    assert((2 * l) / 2 == l && (2 * l + 1) / 2 == l && (2 * l) % 2 == 0 && (2 * l + 1) % 2 == 1)
        by (nonlinear_arith);
}

} // verus!
