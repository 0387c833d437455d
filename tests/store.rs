use cobble::blocks::BlockType;
use cobble::store::NineSurroundChunk;
use cobble::voxel::{chunk_shape, ChunkCoord, GameChunk, Position, VoxelChunk, VoxelIndex, WorldPos};

fn air_chunk(x: i32, y: i32) -> GameChunk {
    GameChunk { voxel: VoxelChunk::air(chunk_shape()), index: ChunkCoord::new(x, y) }
}

#[test]
fn nine_surround_neighborhood() {
    let c = NineSurroundChunk::from_data(vec![air_chunk(1, 0)]);
    let position = Position::new(0, 9000, 0);

    let neighborhood = c.neighborhood(&position);
    const REF_NEIGBORHOOD: [(i32, i32); 9] =
        [(-1, 1), (0, 1), (1, 1), (-1, 0), (0, 0), (1, 0), (-1, -1), (0, -1), (1, -1)];
    for ref_chunk in REF_NEIGBORHOOD.iter() {
        assert!(neighborhood.contains(&ChunkCoord::new(ref_chunk.0, ref_chunk.1)));
    }
    let missing = c.missing_chunks(&position);
    assert!(!missing.contains(&ChunkCoord::new(1, 0)));
    assert_eq!(missing.len(), neighborhood.len() - 1);
}

#[test]
fn neighborhood_is_fixed_order_block() {
    let s = NineSurroundChunk::empty();
    let n = s.neighborhood(&Position::new(-17000, 0, 40000));
    let centre = ChunkCoord::new(-2, 2);
    assert_eq!(n.len(), 9);
    for (i, c) in n.iter().enumerate() {
        let i = i as i32;
        assert_eq!(*c, ChunkCoord::new(centre.x - 1 + i % 3, centre.y - 1 + i / 3));
    }
    for a in 0..9 {
        for b in 0..9 {
            if a != b {
                assert_ne!(n[a], n[b]);
            }
        }
    }
}

#[test]
fn missing_chunks_from_origin() {
    let s = NineSurroundChunk::from_data(vec![air_chunk(1, 0)]);
    let missing = s.missing_chunks(&Position::new(0, 0, 0));
    let expected: Vec<ChunkCoord> = s
        .neighborhood(&Position::new(0, 0, 0))
        .into_iter()
        .filter(|c| *c != ChunkCoord::new(1, 0))
        .collect();
    assert_eq!(missing.len(), 8);
    assert_eq!(missing, expected);
}

#[test]
fn age_counts_ticks_after_reset() {
    let mut s = NineSurroundChunk::empty();
    let c = ChunkCoord::new(3, -4);
    assert!(s.insert(c, air_chunk(3, -4)));
    s.increment_age();
    s.increment_age();
    assert_eq!(s.age(c), Some(2));
    s.reset_age(c);
    for _ in 0..7 {
        s.increment_age();
    }
    assert_eq!(s.age(c), Some(7));
    for _ in 0..300 {
        s.increment_age();
    }
    assert_eq!(s.age(c), Some(255));
    // Resetting an absent chunk changes nothing.
    s.reset_age(ChunkCoord::new(0, 0));
    assert_eq!(s.age(ChunkCoord::new(0, 0)), None);
}

#[test]
fn too_old_lists_chunks_past_threshold() {
    let mut s = NineSurroundChunk::empty();
    s.insert(ChunkCoord::new(0, 0), air_chunk(0, 0));
    s.increment_age();
    s.increment_age();
    s.insert(ChunkCoord::new(1, 0), air_chunk(1, 0));
    s.increment_age();
    assert_eq!(s.too_old(2), vec![ChunkCoord::new(0, 0)]);
    assert_eq!(s.too_old(0).len(), 2);
    assert!(s.too_old(3).is_empty());
}

#[test]
fn insert_replace_remove() {
    let mut s = NineSurroundChunk::empty();
    let c = ChunkCoord::new(2, 2);
    assert!(s.insert(c, air_chunk(9, 9)));
    assert_eq!(s.len(), 1);
    assert_eq!(s.chunk(c).map(|g| g.index), Some(c));
    s.increment_age();
    assert!(!s.insert(c, air_chunk(2, 2)));
    assert_eq!(s.age(c), Some(0));
    assert_eq!(s.len(), 1);
    assert!(s.remove(c));
    assert!(!s.remove(c));
    assert_eq!(s.len(), 0);
    assert!(!s.contains(c));
}

#[test]
fn point_query_fails_closed() {
    let mut s = NineSurroundChunk::empty();
    s.insert(ChunkCoord::new(0, 0), air_chunk(0, 0));
    assert!(s.set_block(ChunkCoord::new(0, 0), VoxelIndex::new(3, 4, 5), BlockType::Bricks));
    assert!(!s.set_block(ChunkCoord::new(0, 0), VoxelIndex::new(3, 32, 5), BlockType::Bricks));
    assert!(!s.set_block(ChunkCoord::new(5, 0), VoxelIndex::new(3, 4, 5), BlockType::Bricks));
    assert_eq!(s.get(&Position::new(3500, 4999, 5001)), Some(BlockType::Bricks));
    assert_eq!(s.get(&Position::new(2500, 4999, 5001)), Some(BlockType::Air));
    assert_eq!(s.get(&Position::new(3500, 32000, 5001)), None);
    assert_eq!(s.get(&Position::new(3500, -1, 5001)), None);
    assert_eq!(s.get(&Position::new(-3500, 4000, 5001)), None);
    assert_eq!(s.block(ChunkCoord::new(0, 0), VoxelIndex::new(3, 4, 5)), Some(BlockType::Bricks));
    assert_eq!(s.block_at_voxel(&WorldPos::new(3, 4, 5)), Some(BlockType::Bricks));
    assert_eq!(s.block_at_voxel(&WorldPos::new(3, -1, 5)), None);
}
