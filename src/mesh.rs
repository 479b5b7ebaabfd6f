use vstd::prelude::*;

verus! {

/// Capacity of each pooled vertex buffer, in vertices.
pub const MAX_MESH_VERTICES: usize = 10000;

/// Capacity of each pooled index buffer, in indices.
pub const MAX_MESH_INDICES: usize = 5000;

/// One vertex as the shader reads it: position, texture coordinate, tint color, and the
/// dark color of two-color tinting. `T` is the scalar type of the components.
#[derive(Debug)]
pub struct VertexRecord<T> {
    pub position: [T; 2],
    pub uv: [T; 2],
    pub color: [T; 4],
    pub dark_color: [T; 4],
}

/// A mesh holds more vertices or indices than a pooled buffer takes.
#[derive(Clone, Copy, Debug, PartialEq, Eq, Structural)]
pub struct MeshOverflow {
    pub vertices: usize,
    pub indices: usize,
}

pub open spec fn mesh_fits(vertices: nat, indices: nat) -> bool {
    vertices <= MAX_MESH_VERTICES && indices <= MAX_MESH_INDICES
}

/// The vertex record at `i`, from the attribute lists of a mesh.
pub open spec fn record_at<T>(
    positions: Seq<[T; 2]>,
    uvs: Seq<[T; 2]>,
    colors: Seq<[T; 4]>,
    dark_colors: Seq<[T; 4]>,
    i: int,
) -> VertexRecord<T> {
    VertexRecord { position: positions[i], uv: uvs[i], color: colors[i], dark_color: dark_colors[i] }
}

/// The vertex records of one mesh, in attachment order, once it is known to fit the
/// pooled buffers; its indices then fit too.
pub fn build_vertices<T: Copy>(
    positions: &[[T; 2]],
    uvs: &[[T; 2]],
    colors: &[[T; 4]],
    dark_colors: &[[T; 4]],
    indices: &[u16],
) -> (r: Result<Vec<VertexRecord<T>>, MeshOverflow>)
    requires
        uvs@.len() >= positions@.len(),
        colors@.len() >= positions@.len(),
        dark_colors@.len() >= positions@.len(),
    ensures
        r is Ok <==> mesh_fits(positions@.len(), indices@.len()),
        r matches Err(e) ==> e == (MeshOverflow { vertices: positions@.len() as usize, indices: indices@.len() as usize }),
        r matches Ok(v) ==> {
            &&& v@.len() == positions@.len()
            &&& forall|i: int| 0 <= i < v@.len() ==> #[trigger] v@[i] == record_at(positions@, uvs@, colors@, dark_colors@, i)
        },
{
    let n = positions.len();
    if n > MAX_MESH_VERTICES || indices.len() > MAX_MESH_INDICES {
        return Err(MeshOverflow { vertices: n, indices: indices.len() });
    }
    let mut out: Vec<VertexRecord<T>> = Vec::with_capacity(n);
    let mut i: usize = 0;
    while i < n
        invariant
            n == positions@.len(),
            uvs@.len() >= n,
            colors@.len() >= n,
            dark_colors@.len() >= n,
            i <= n,
            out@.len() == i,
            forall|j: int| 0 <= j < i ==> #[trigger] out@[j] == record_at(positions@, uvs@, colors@, dark_colors@, j),
        decreases n - i,
    {
        out.push(VertexRecord { position: positions[i], uv: uvs[i], color: colors[i], dark_color: dark_colors[i] });
        i = i + 1;
    }
    Ok(out)
}

} // verus!
