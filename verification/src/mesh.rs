//! Mesh data as parsed from a 3D model file.
use vstd::prelude::*;

verus! {

/// Mesh data parsed from a 3D format. Coordinates are binary32 bit patterns.
#[derive(Clone)]
pub struct MeshData {
    pub vertices: Vec<[u32; 3]>,
    pub normals: Option<Vec<[u32; 3]>>,
    pub uvs: Option<Vec<[u32; 2]>>,
    pub indices: Option<Vec<u32>>,
    pub colors: Option<Vec<[u32; 3]>>,
}

/// The number of faces of a mesh: a third of its indices when it has them,
/// else a third of its vertices.
pub open spec fn spec_face_count(m: MeshData) -> int {
    match m.indices {
        Some(ix) => (ix@.len() / 3) as int,
        None => (m.vertices@.len() / 3) as int,
    }
}

/// `m` holds no vertex and no optional attribute.
pub open spec fn is_empty_mesh(m: MeshData) -> bool {
    &&& m.vertices@.len() == 0
    &&& m.normals is None
    &&& m.uvs is None
    &&& m.indices is None
    &&& m.colors is None
}

impl MeshData {
    /// An empty mesh.
    pub fn new() -> (r: Self)
        ensures
            is_empty_mesh(r),
    {
        MeshData { vertices: Vec::new(), normals: None, uvs: None, indices: None, colors: None }
    }

    /// The number of vertices.
    pub fn vertex_count(&self) -> (r: usize)
        ensures
            r == self.vertices@.len(),
    {
        self.vertices.len()
    }

    /// The number of faces (triangles).
    pub fn face_count(&self) -> (r: usize)
        ensures
            r == spec_face_count(*self),
            r * 3 <= usize::MAX,
    {
        match &self.indices {
            Some(indices) => indices.len() / 3,
            None => self.vertices.len() / 3,
        }
    }
}

impl Default for MeshData {
    fn default() -> (r: Self)
        ensures
            is_empty_mesh(r),
    {
        Self::new()
    }
}

/// A parsed 3D model with its metadata.
#[derive(Clone)]
pub struct ParsedMesh {
    pub data: MeshData,
    pub format: String,
    pub materials_count: usize,
    pub textures_count: usize,
}

} // verus!
