//! Geometric features of a mesh.
use vstd::prelude::*;
use crate::error::{is_geometry_failed, Model3DError};
use crate::float_bits::{f32_bits_gt, f32_bits_lt, f32_lt, lemma_f32_lt_transitive};
use crate::mesh::{spec_face_count, MeshData};

verus! {

/// The running minimum of coordinate `axis` over `vs`, by binary32 `<`:
/// a later coordinate replaces the current one only when it is smaller.
pub open spec fn bbox_min_of(vs: Seq<[u32; 3]>, axis: int) -> u32
    decreases vs.len(),
{
    if vs.len() <= 1 {
        vs[0][axis]
    } else {
        let m = bbox_min_of(vs.drop_last(), axis);
        if f32_lt(vs.last()[axis], m) { vs.last()[axis] } else { m }
    }
}

/// The running maximum of coordinate `axis` over `vs`, by binary32 `>`.
pub open spec fn bbox_max_of(vs: Seq<[u32; 3]>, axis: int) -> u32
    decreases vs.len(),
{
    if vs.len() <= 1 {
        vs[0][axis]
    } else {
        let m = bbox_max_of(vs.drop_last(), axis);
        if f32_lt(m, vs.last()[axis]) { vs.last()[axis] } else { m }
    }
}

/// No coordinate is below the bounding-box minimum (by binary32 `<`), and the
/// minimum is the coordinate of one of the vertices.
pub proof fn lemma_bbox_min_is_lower_bound(vs: Seq<[u32; 3]>, axis: int)
    requires
        vs.len() > 0,
        0 <= axis < 3,
    ensures
        forall|k: int| 0 <= k < vs.len() ==> !f32_lt(#[trigger] vs[k][axis], bbox_min_of(vs, axis)),
        exists|k: int| 0 <= k < vs.len() && bbox_min_of(vs, axis) == #[trigger] vs[k][axis],
    decreases vs.len(),
{
    if vs.len() > 1 {
        let pre = vs.drop_last();
        lemma_bbox_min_is_lower_bound(pre, axis);
        let m = bbox_min_of(pre, axis);
        let j = choose|j: int| 0 <= j < pre.len() && m == #[trigger] pre[j][axis];
        assert(vs[j][axis] == pre[j][axis]);
        assert forall|k: int| 0 <= k < vs.len() implies !f32_lt(#[trigger] vs[k][axis], bbox_min_of(vs, axis)) by {
            if k < vs.len() - 1 {
                assert(vs[k][axis] == pre[k][axis]);
                if f32_lt(vs.last()[axis], m) && f32_lt(vs[k][axis], vs.last()[axis]) {
                    lemma_f32_lt_transitive(vs[k][axis], vs.last()[axis], m);
                }
            }
        }
        if f32_lt(vs.last()[axis], m) {
            assert(bbox_min_of(vs, axis) == vs[vs.len() - 1][axis]);
        }
    } else {
        assert(bbox_min_of(vs, axis) == vs[0][axis]);
    }
}

/// No coordinate is above the bounding-box maximum (by binary32 `<`), and the
/// maximum is the coordinate of one of the vertices.
pub proof fn lemma_bbox_max_is_upper_bound(vs: Seq<[u32; 3]>, axis: int)
    requires
        vs.len() > 0,
        0 <= axis < 3,
    ensures
        forall|k: int| 0 <= k < vs.len() ==> !f32_lt(bbox_max_of(vs, axis), #[trigger] vs[k][axis]),
        exists|k: int| 0 <= k < vs.len() && bbox_max_of(vs, axis) == #[trigger] vs[k][axis],
    decreases vs.len(),
{
    if vs.len() > 1 {
        let pre = vs.drop_last();
        lemma_bbox_max_is_upper_bound(pre, axis);
        let m = bbox_max_of(pre, axis);
        let j = choose|j: int| 0 <= j < pre.len() && m == #[trigger] pre[j][axis];
        assert(vs[j][axis] == pre[j][axis]);
        assert forall|k: int| 0 <= k < vs.len() implies !f32_lt(bbox_max_of(vs, axis), #[trigger] vs[k][axis]) by {
            if k < vs.len() - 1 {
                assert(vs[k][axis] == pre[k][axis]);
                if f32_lt(m, vs.last()[axis]) && f32_lt(vs.last()[axis], vs[k][axis]) {
                    lemma_f32_lt_transitive(m, vs.last()[axis], vs[k][axis]);
                }
            }
        }
        if f32_lt(m, vs.last()[axis]) {
            assert(bbox_max_of(vs, axis) == vs[vs.len() - 1][axis]);
        }
    } else {
        assert(bbox_max_of(vs, axis) == vs[0][axis]);
    }
}

/// The integer and bit-pattern geometric features of a mesh: counts, bounding
/// box, topology and which attributes it carries.
#[derive(Clone, Copy)]
pub struct GeometryFeatures {
    pub vertices_count: u64,
    pub faces_count: u64,
    pub edges_count: u64,
    pub bbox_min: [u32; 3],
    pub bbox_max: [u32; 3],
    pub is_manifold: bool,
    pub is_closed: bool,
    pub has_normals: bool,
    pub has_uvs: bool,
    pub has_colors: bool,
}

/// The edge estimate for `faces` triangles: three per face, each shared by two.
pub open spec fn estimated_edges(faces: int) -> int {
    (faces * 3) / 2
}

/// The Euler characteristic `V - E + F` with the edge estimate.
pub open spec fn euler_characteristic(m: MeshData) -> int {
    m.vertices@.len() - estimated_edges(spec_face_count(m)) + spec_face_count(m)
}

/// A mesh counts as closed when its Euler characteristic is within 2 of 0.
pub open spec fn spec_is_closed(m: MeshData) -> bool {
    -2 <= euler_characteristic(m) <= 2
}

/// A mesh counts as manifold when it has a vertex and a face.
pub open spec fn spec_is_manifold(m: MeshData) -> bool {
    m.vertices@.len() > 0 && spec_face_count(m) > 0
}

/// The triangles that the volume and area sums take: consecutive vertex
/// triples, as many as there are faces and whole triples of vertices.
pub open spec fn spec_summed_triangles(m: MeshData) -> int {
    let t = m.vertices@.len() / 3;
    if spec_face_count(m) < t { spec_face_count(m) } else { t as int }
}

/// A mesh has as many faces as whole triples of its indices, or of its
/// vertices when it has no indices; the edge estimate `e` of `f` faces is the
/// whole part of `3f / 2`.
pub proof fn lemma_faces_and_edges_are_whole_counts(m: MeshData, f: int)
    requires
        f >= 0,
    ensures
        spec_face_count(m) >= 0,
        m.indices matches Some(ix) ==> 3 * spec_face_count(m) <= ix@.len() < 3 * spec_face_count(m) + 3,
        m.indices is None ==> 3 * spec_face_count(m) <= m.vertices@.len() < 3 * spec_face_count(m) + 3,
        2 * estimated_edges(f) <= 3 * f < 2 * estimated_edges(f) + 2,
{
}

/// A mesh counts as closed exactly when `V - E + F`, with `V` its vertices, `F`
/// its faces and `E` the whole part of `3F / 2`, lies within 2 of 0: a closed
/// sphere-like mesh (2) and a closed torus (0) both count as closed.
pub proof fn lemma_closed_when_euler_characteristic_near_zero(m: MeshData, e: int)
    requires
        2 * e <= 3 * spec_face_count(m) < 2 * e + 2,
    ensures
        spec_is_closed(m) <==> -2 <= m.vertices@.len() - e + spec_face_count(m) <= 2,
        spec_is_manifold(m) <==> m.vertices@.len() > 0 && spec_face_count(m) > 0,
{
}

/// `g` holds the features of the non-empty mesh `m`.
pub open spec fn features_of(m: MeshData, g: GeometryFeatures) -> bool {
    &&& g.vertices_count == m.vertices@.len()
    &&& g.faces_count == spec_face_count(m)
    &&& g.edges_count == estimated_edges(spec_face_count(m))
    &&& forall|axis: int| 0 <= axis < 3 ==> g.bbox_min[axis] == bbox_min_of(m.vertices@, axis)
    &&& forall|axis: int| 0 <= axis < 3 ==> g.bbox_max[axis] == bbox_max_of(m.vertices@, axis)
    &&& g.is_manifold == spec_is_manifold(m)
    &&& g.is_closed == spec_is_closed(m)
    &&& g.has_normals == m.normals is Some
    &&& g.has_uvs == m.uvs is Some
    &&& g.has_colors == m.colors is Some
}

/// Analyzes geometry properties of 3D meshes.
pub struct GeometryAnalyzer;

impl GeometryAnalyzer {
    /// Extracts the features of a mesh; a mesh without vertices has none.
    pub fn analyze(mesh: &MeshData) -> (r: Result<GeometryFeatures, Model3DError>)
        ensures
            mesh.vertices@.len() == 0 ==> (r matches Err(e) && is_geometry_failed(e, "Mesh has no vertices"@)),
            mesh.vertices@.len() > 0 ==> (r matches Ok(g) && features_of(*mesh, g)),
    {
        if mesh.vertices.len() == 0 {
            return Err(Model3DError::GeometryAnalysisFailed("Mesh has no vertices".to_owned()));
        }
        let vertices_count = mesh.vertices.len() as u64;
        let faces_count = mesh.face_count() as u64;
        let (bbox_min, bbox_max) = Self::calculate_bounding_box(&mesh.vertices);
        let edges_count = Self::estimate_edges(faces_count);
        let (is_manifold, is_closed) = Self::check_topology(mesh);
        Ok(GeometryFeatures {
            vertices_count,
            faces_count,
            edges_count,
            bbox_min,
            bbox_max,
            is_manifold,
            is_closed,
            has_normals: mesh.normals.is_some(),
            has_uvs: mesh.uvs.is_some(),
            has_colors: mesh.colors.is_some(),
        })
    }

    /// The edge estimate `faces * 3 / 2` of a triangle mesh.
    pub fn estimate_edges(faces: u64) -> (r: u64)
        requires
            faces * 3 <= u64::MAX,
        ensures
            r == estimated_edges(faces as int),
    {
        faces * 3 / 2
    }

    /// Topology by the Euler characteristic: (manifold, closed).
    pub fn check_topology(mesh: &MeshData) -> (r: (bool, bool))
        ensures
            r.0 == spec_is_manifold(*mesh),
            r.1 == spec_is_closed(*mesh),
    {
        let vertex_count = mesh.vertices.len();
        let face_count = mesh.face_count();
        let expected_edges = (face_count as u128 * 3) / 2;
        let euler_char: i128 = vertex_count as i128 - expected_edges as i128 + face_count as i128;
        let is_closed = -2 <= euler_char && euler_char <= 2;
        let is_manifold = vertex_count > 0 && face_count > 0;
        (is_manifold, is_closed)
    }

    /// How many consecutive vertex triples the volume and surface-area sums
    /// take: the face count, but no more than the whole triples of vertices.
    pub fn summed_triangle_count(mesh: &MeshData) -> (r: usize)
        ensures
            r == spec_summed_triangles(*mesh),
            3 * r <= mesh.vertices@.len(),
    {
        let face_count = mesh.face_count();
        let triples = mesh.vertices.len() / 3;
        if face_count < triples { face_count } else { triples }
    }

    /// The axis-aligned bounding box of a non-empty vertex list.
    pub fn calculate_bounding_box(vertices: &Vec<[u32; 3]>) -> (r: ([u32; 3], [u32; 3]))
        requires
            vertices.len() > 0,
        ensures
            forall|axis: int| 0 <= axis < 3 ==> r.0[axis] == bbox_min_of(vertices@, axis),
            forall|axis: int| 0 <= axis < 3 ==> r.1[axis] == bbox_max_of(vertices@, axis),
    {
        let mut min: [u32; 3] = vertices[0];
        let mut max: [u32; 3] = vertices[0];
        let n = vertices.len();
        let mut k: usize = 1;
        while k < n
            invariant
                1 <= k <= n,
                n == vertices.len(),
                forall|axis: int| 0 <= axis < 3 ==> min[axis] == bbox_min_of(vertices@.take(k as int), axis),
                forall|axis: int| 0 <= axis < 3 ==> max[axis] == bbox_max_of(vertices@.take(k as int), axis),
            decreases n - k,
        {
            let v = vertices[k];
            let ghost pre = vertices@.take(k as int);
            assert(vertices@.take(k + 1).drop_last() =~= pre);
            assert(vertices@.take(k + 1).last() == v);
            let mut i: usize = 0;
            while i < 3
                invariant
                    0 <= i <= 3,
                    1 <= k < n,
                    n == vertices.len(),
                    v == vertices@[k as int],
                    vertices@.take(k + 1).drop_last() == pre,
                    vertices@.take(k + 1).last() == v,
                    forall|axis: int| 0 <= axis < i ==> min[axis] == bbox_min_of(vertices@.take(k + 1), axis),
                    forall|axis: int| i <= axis < 3 ==> min[axis] == bbox_min_of(pre, axis),
                    forall|axis: int| 0 <= axis < i ==> max[axis] == bbox_max_of(vertices@.take(k + 1), axis),
                    forall|axis: int| i <= axis < 3 ==> max[axis] == bbox_max_of(pre, axis),
                decreases 3 - i,
            {
                let ghost old_min = min;
                let ghost old_max = max;
                if f32_bits_lt(v[i], min[i]) {
                    min[i] = v[i];
                }
                if f32_bits_gt(v[i], max[i]) {
                    max[i] = v[i];
                }
                assert(vertices@.take(k + 1).len() == k + 1);
                assert(old_min[i as int] == bbox_min_of(pre, i as int));
                assert(bbox_min_of(vertices@.take(k + 1), i as int) == (if f32_lt(v[i as int], bbox_min_of(pre, i as int)) { v[i as int] } else { bbox_min_of(pre, i as int) }));
                assert(old_max[i as int] == bbox_max_of(pre, i as int));
                assert(bbox_max_of(vertices@.take(k + 1), i as int) == (if f32_lt(bbox_max_of(pre, i as int), v[i as int]) { v[i as int] } else { bbox_max_of(pre, i as int) }));
                assert(min[i as int] == bbox_min_of(vertices@.take(k + 1), i as int));
                assert(max[i as int] == bbox_max_of(vertices@.take(k + 1), i as int));
                assert(forall|axis: int| 0 <= axis < 3 && axis != i ==> min[axis] == old_min[axis]);
                i += 1;
            }
            k += 1;
        }
        assert(vertices@.take(n as int) =~= vertices@);
        (min, max)
    }
}

} // verus!
