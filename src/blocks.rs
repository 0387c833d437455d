//! Block types, their mesh groups and per-face texture layers.
use vstd::prelude::*;

verus! {

/// The kinds of voxel the world is made of. `Air` marks an empty cell.
#[derive(Clone, Copy, Debug, PartialEq, Eq, Hash, Structural)]
pub enum BlockType {
    Air,
    Dirt,
    Grass,
    Cobble,
    Bricks,
    Wood,
    Planks,
    Leaves,
    Sand,
    Gravel,
}

/// Number of layers in the block texture array.
pub const TEXTURE_LAYERS: u32 = 12;

/// Batching key: block types that share a render treatment.
#[derive(Clone, Copy, Debug, PartialEq, Eq, Hash, Structural)]
pub enum MeshGroup {
    NoMesh,
    Cube,
}

/// Render classification of a block type.
pub struct BlockProperties {
    pub mesh_group: MeshGroup,
}

/// One of the six faces of a unit cube.
#[derive(Clone, Copy, Debug, PartialEq, Eq, Structural)]
pub enum Face {
    Top,
    Bottom,
    Left,
    Right,
    Front,
    Back,
}

/// Every block but `Air` is drawn as a cube.
pub open spec fn mesh_group_of(b: BlockType) -> MeshGroup {
    match b {
        BlockType::Air => MeshGroup::NoMesh,
        _ => MeshGroup::Cube,
    }
}

/// A block is solid when it has a mesh group to be drawn with.
pub open spec fn is_renderable(b: BlockType) -> bool {
    mesh_group_of(b) != MeshGroup::NoMesh
}

/// The render classification of `block_type`.
pub fn properties(block_type: &BlockType) -> (r: BlockProperties)
    ensures
        r.mesh_group == mesh_group_of(*block_type),
{
    match block_type {
        BlockType::Air => BlockProperties { mesh_group: MeshGroup::NoMesh },
        _ => BlockProperties { mesh_group: MeshGroup::Cube },
    }
}

/// The mesh groups that produce geometry, in the order a chunk mesh lists them.
pub open spec fn renderable_groups() -> Seq<MeshGroup> {
    seq![MeshGroup::Cube]
}

/// Texture-array layer of each face of each block type.
/// `Air` has no texture and maps every face to layer 0.
pub open spec fn texture_layer_of(b: BlockType, f: Face) -> u32 {
    let side = match f {
        Face::Top | Face::Bottom => false,
        _ => true,
    };
    match b {
        BlockType::Air => 0,
        BlockType::Dirt => 1,
        BlockType::Grass => match f {
            Face::Top => 2,
            Face::Bottom => 1,
            _ => 3,
        },
        BlockType::Cobble => 4,
        BlockType::Planks => 5,
        BlockType::Sand => 6,
        BlockType::Bricks => 7,
        BlockType::Gravel => 8,
        BlockType::Leaves => 9,
        BlockType::Wood => if side { 11 } else { 10 },
    }
}

/// Texture-array layer used to draw face `face` of a `block` voxel.
pub fn texture_layer(block: BlockType, face: Face) -> (r: u32)
    ensures
        r == texture_layer_of(block, face),
        r < TEXTURE_LAYERS,
{
    match block {
        BlockType::Air => 0,
        BlockType::Dirt => 1,
        BlockType::Grass => match face {
            Face::Top => 2,
            Face::Bottom => 1,
            _ => 3,
        },
        BlockType::Cobble => 4,
        BlockType::Planks => 5,
        BlockType::Sand => 6,
        BlockType::Bricks => 7,
        BlockType::Gravel => 8,
        BlockType::Leaves => 9,
        BlockType::Wood => match face {
            Face::Top | Face::Bottom => 10,
            _ => 11,
        },
    }
}

} // verus!
