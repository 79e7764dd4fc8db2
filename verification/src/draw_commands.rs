//! The draw commands of a shape part: which dynamic offset its mesh
//! uniform is bound with, and which draw call its mesh takes.

use vstd::prelude::*;

verus! {

/// What a phase item carries besides its entity: a dynamic offset into a
/// shared uniform buffer, a range of indirect parameters, or nothing.
#[derive(Debug, Clone, Copy, PartialEq, Eq, Structural)]
pub enum PhaseItemExtraIndex {
    NoIndex,
    DynamicOffset(u32),
    IndirectParametersIndex { start: u32, end: u32 },
}

/// The command that binds a part's mesh uniform.
pub struct SetPartMesh2dBindGroup;

impl SetPartMesh2dBindGroup {
    /// The dynamic offsets to bind the mesh uniform with: the item's own
    /// offset when it has one, none otherwise.
    pub fn dynamic_offsets(extra_index: PhaseItemExtraIndex) -> (r: Vec<u32>)
        ensures
            r@ == match extra_index {
                PhaseItemExtraIndex::DynamicOffset(o) => seq![o],
                _ => Seq::<u32>::empty(),
            },
    {
        let mut dynamic_offsets: Vec<u32> = Vec::new();
        if let PhaseItemExtraIndex::DynamicOffset(dynamic_offset) = extra_index {
            dynamic_offsets.push(dynamic_offset);
        }
        proof {
            assert(dynamic_offsets@ =~= match extra_index {
                PhaseItemExtraIndex::DynamicOffset(o) => seq![o],
                _ => Seq::<u32>::empty(),
            });
        }
        dynamic_offsets
    }
}

/// How a mesh's vertices are drawn: through an index buffer of `count`
/// indices, or in order.
#[derive(Debug, Clone, Copy, PartialEq, Eq, Structural)]
pub enum MeshBufferInfo {
    Indexed { count: u32 },
    NonIndexed,
}

/// The draw call of a part.
#[derive(Debug, Clone, Copy)]
pub enum DrawCall {
    /// Something the draw needs is missing: nothing is drawn.
    Skip,
    /// Draw the indices `indices.0..indices.1`, offset by `base_vertex`,
    /// for the instances `instances.0..instances.1`.
    Indexed { indices: (u32, u32), base_vertex: i32, instances: (u32, u32) },
    /// Draw the vertices `vertices.0..vertices.1` for the instances.
    NonIndexed { vertices: (u32, u32), instances: (u32, u32) },
}

/// The command that draws a part's mesh.
pub struct DrawPartMesh2d;

impl DrawPartMesh2d {
    /// The draw call for a part whose mesh (if its instance and mesh were
    /// found) has the given buffer layout, whose vertices (and indices)
    /// were allocated at the given places of the shared buffers, drawn for
    /// the item's batch of instances.
    pub fn draw_call(
        mesh: Option<MeshBufferInfo>,
        vertex_slice: Option<(u32, u32)>,
        index_slice_start: Option<u32>,
        batch_range: (u32, u32),
    ) -> (r: DrawCall)
        requires
            match (mesh, index_slice_start) {
                (Some(MeshBufferInfo::Indexed { count }), Some(start)) => start + count <= u32::MAX,
                _ => true,
            },
        ensures
            r == match (mesh, vertex_slice) {
                (Some(MeshBufferInfo::Indexed { count }), Some(vertices)) => match index_slice_start {
                    Some(start) => DrawCall::Indexed {
                        indices: (start, (start + count) as u32),
                        base_vertex: vertices.0 as i32,
                        instances: batch_range,
                    },
                    None => DrawCall::Skip,
                },
                (Some(MeshBufferInfo::NonIndexed), Some(vertices)) => DrawCall::NonIndexed { vertices, instances: batch_range },
                _ => DrawCall::Skip,
            },
    {
        let info = match mesh {
            Some(info) => info,
            None => return DrawCall::Skip,
        };
        let vertices = match vertex_slice {
            Some(v) => v,
            None => return DrawCall::Skip,
        };
        match info {
            MeshBufferInfo::Indexed { count } => {
                let start = match index_slice_start {
                    Some(s) => s,
                    None => return DrawCall::Skip,
                };
                DrawCall::Indexed { indices: (start, start + count), base_vertex: vertices.0 as i32, instances: batch_range }
            },
            MeshBufferInfo::NonIndexed => DrawCall::NonIndexed { vertices, instances: batch_range },
        }
    }
}

} // verus!
