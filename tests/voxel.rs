use cobble::blocks::BlockType;
use cobble::voxel::{
    absolut_to_index, absolut_to_index_i32, chunk_shape, index_to_absolut, ChunkCoord, Position,
    VoxelChunk, VoxelError, VoxelIndex, WorldPos,
};

fn p(x: i64, y: i64, z: i64) -> Position {
    Position::new(x, y, z)
}

#[test]
fn in_chunk() {
    // Positions in thousandths of a voxel; chunks five voxels wide.
    let cases: [(Position, ChunkCoord); 20] = [
        (p(0, 0, 0), ChunkCoord::new(0, 0)),
        (p(-100, 0, -1), ChunkCoord::new(-1, -1)),
        (p(0, 6000, 0), ChunkCoord::new(0, 0)),
        (p(1000, 0, 1000), ChunkCoord::new(0, 0)),
        (p(4999, -3000, 4999), ChunkCoord::new(0, 0)),
        (p(5010, 1000, 5000), ChunkCoord::new(1, 1)),
        (p(9999, -1000, 9999), ChunkCoord::new(1, 1)),
        (p(25010, 1000, 24990), ChunkCoord::new(5, 4)),
        (p(-4990, -12000, 0), ChunkCoord::new(-1, 0)),
        (p(-5010, -12000, 0), ChunkCoord::new(-2, 0)),
        (p(-9990, -12000, -3500), ChunkCoord::new(-2, -1)),
        (p(-15010, -12000, 6000), ChunkCoord::new(-4, 1)),
        (p(5000, 0, 10000), ChunkCoord::new(1, 2)),
        (p(4000, 0, 9000), ChunkCoord::new(0, 1)),
        (p(-5100, 0, 0), ChunkCoord::new(-2, 0)),
        (p(-4900, 0, 0), ChunkCoord::new(-1, 0)),
        (p(-5000, 0, 0), ChunkCoord::new(-1, 0)),
        (p(-10100, 0, 0), ChunkCoord::new(-3, 0)),
        (p(-9900, 0, 0), ChunkCoord::new(-2, 0)),
        (p(-10000, 0, 0), ChunkCoord::new(-2, 0)),
    ];
    for (position, ref_chunk) in cases.iter() {
        assert_eq!(position.in_chunk(5), *ref_chunk, "position = {:?}", position);
    }
}

#[test]
fn coordinate_mapping_example() {
    assert_eq!(p(5010, 1000, 5000).in_chunk(5), ChunkCoord::new(1, 1));
    assert_eq!(p(-5010, -12000, 0).in_chunk(5), ChunkCoord::new(-2, 0));
}

#[test]
fn world_pos_in_chunk() {
    assert_eq!(WorldPos::new(-1, 3, 16).in_chunk(16), ChunkCoord::new(-1, 1));
    assert_eq!(WorldPos::new(15, 0, -16).in_chunk(16), ChunkCoord::new(0, -1));
}

#[test]
fn absolute_to_index_splits_position() {
    let (c, i) = absolut_to_index(&p(-500, 7250, 33999));
    assert_eq!(c, ChunkCoord::new(-1, 2));
    assert_eq!(i, VoxelIndex::new(15, 7, 1));
    // Below the floor the vertical index is 0.
    let (_, i) = absolut_to_index(&p(100, -2500, 100));
    assert_eq!(i.y, 0);
}

#[test]
fn absolute_index_round_trip() {
    let a = index_to_absolut(ChunkCoord::new(-2, 3), VoxelIndex::new(4, 9, 15));
    assert_eq!(a, WorldPos::new(-28, 9, 63));
    let (c, i) = absolut_to_index_i32(&a);
    assert_eq!(c, ChunkCoord::new(-2, 3));
    assert_eq!(i, VoxelIndex::new(4, 9, 15));
    let (_, i) = absolut_to_index_i32(&WorldPos::new(0, -1, 0));
    assert_eq!(i.y, 0);
}

#[test]
fn grid_bounds_checked() {
    let mut g = VoxelChunk::air([3, 4, 5]);
    assert_eq!(g.shape(), [3, 4, 5]);
    assert_eq!((g.width(), g.height(), g.depth()), (3, 4, 5));
    assert_eq!(g.get(2, 3, 4), Ok(BlockType::Air));
    assert_eq!(g.get(3, 0, 0), Err(VoxelError::IndexOutOfBounds));
    assert_eq!(g.get(0, 4, 0), Err(VoxelError::IndexOutOfBounds));
    assert_eq!(g.get(0, 0, 5), Err(VoxelError::IndexOutOfBounds));
    assert_eq!(g.set(1, 2, 3, BlockType::Sand), Ok(()));
    assert_eq!(g.get(1, 2, 3), Ok(BlockType::Sand));
    assert_eq!(g.get(2, 2, 3), Ok(BlockType::Air));
    assert_eq!(g.set(0, 0, 9, BlockType::Sand), Err(VoxelError::IndexOutOfBounds));
    assert_eq!(g.safe_get(1, 2, 3), Some(BlockType::Sand));
    assert_eq!(g.safe_get(-1, 2, 3), None);
    assert_eq!(g.safe_get(1, 2, 5), None);
}

#[test]
fn uniform_fill() {
    let g = VoxelChunk::new(chunk_shape(), 7u8);
    assert_eq!(g.cells.len(), 16 * 32 * 16);
    assert_eq!(g.get(15, 31, 15), Ok(7));
}

#[test]
fn indexed_cells_in_fixed_order() {
    let mut g = VoxelChunk::air([2, 3, 4]);
    g.set(1, 2, 3, BlockType::Wood).unwrap();
    let cells = g.indexed_iter();
    assert_eq!(cells.len(), 24);
    assert_eq!(cells[0], ((0, 0, 0), BlockType::Air));
    assert_eq!(cells[1].0, (0, 0, 1));
    assert_eq!(cells[4].0, (0, 1, 0));
    assert_eq!(cells[12].0, (1, 0, 0));
    assert_eq!(cells[23], ((1, 2, 3), BlockType::Wood));
    assert_eq!(g.indexed_iter(), cells);
}
