use cobble::blocks::BlockType;
use cobble::raycast::{intersect_box, raycast_voxel, RayDistance, RaycastSelection};
use cobble::store::NineSurroundChunk;
use cobble::voxel::{chunk_shape, ChunkCoord, GameChunk, Position, VoxelChunk, VoxelIndex, WorldPos};

fn store_with(blocks: &[(usize, usize, usize)]) -> NineSurroundChunk {
    let mut g = VoxelChunk::air(chunk_shape());
    for (x, y, z) in blocks {
        g.set(*x, *y, *z, BlockType::Dirt).unwrap();
    }
    NineSurroundChunk::from_data(vec![GameChunk { voxel: g, index: ChunkCoord::new(0, 0) }])
}

#[test]
fn straight_down_hits_top_face() {
    let s = store_with(&[(8, 5, 8)]);
    let r = raycast_voxel(&Position::new(8500, 8000, 8500), &Position::new(0, -1000, 0), &s);
    assert_eq!(r, Some((ChunkCoord::new(0, 0), VoxelIndex::new(8, 5, 8), WorldPos::new(0, 1, 0))));
}

#[test]
fn selection_is_idempotent() {
    let s = store_with(&[(8, 5, 8), (9, 5, 8), (8, 4, 8)]);
    let o = Position::new(7300, 7100, 8500);
    let d = Position::new(577, -577, 0);
    let a = raycast_voxel(&o, &d, &s);
    let b = raycast_voxel(&o, &d, &s);
    assert_eq!(a, b);
    assert!(a.is_some());
}

#[test]
fn nearest_voxel_wins() {
    let s = store_with(&[(8, 5, 8), (8, 3, 8)]);
    let r = raycast_voxel(&Position::new(8500, 8000, 8500), &Position::new(0, -1000, 0), &s);
    assert_eq!(r.map(|h| h.1), Some(VoxelIndex::new(8, 5, 8)));
}

#[test]
fn out_of_reach_and_unloaded_are_skipped() {
    let s = store_with(&[(8, 0, 8)]);
    // Seven voxels above the top face: beyond reach.
    assert_eq!(raycast_voxel(&Position::new(8500, 8000, 8500), &Position::new(0, -1000, 0), &s), None);
    // Looking into a chunk that is not resident.
    let far = raycast_voxel(&Position::new(-3500, 5000, 8500), &Position::new(0, -1000, 0), &s);
    assert_eq!(far, None);
    // Looking away.
    assert_eq!(raycast_voxel(&Position::new(8500, 7000, 8500), &Position::new(0, 1000, 0), &store_with(&[(8, 5, 8)])), None);
}

#[test]
fn box_intersection() {
    let centre = Position::new(500, 500, 500);
    let hit = intersect_box(&centre, &Position::new(500, 3000, 500), &Position::new(0, -1000, 0));
    assert_eq!(hit, Some((RayDistance { num: 2000, den: 1000 }, WorldPos::new(0, 1, 0))));
    let side = intersect_box(&centre, &Position::new(-1500, 400, 600), &Position::new(2000, 0, 0));
    assert_eq!(side, Some((RayDistance { num: 1500, den: 2000 }, WorldPos::new(-1, 0, 0))));
    let miss = intersect_box(&centre, &Position::new(-1500, 1400, 600), &Position::new(2000, 0, 0));
    assert_eq!(miss, None);
    let behind = intersect_box(&centre, &Position::new(500, 3000, 500), &Position::new(0, 1000, 0));
    assert_eq!(behind, None);
}

#[test]
fn selection_drops_normals_outside_world() {
    let s = RaycastSelection::from_hit(Some((ChunkCoord::new(0, 0), VoxelIndex::new(1, 0, 1), WorldPos::new(0, -1, 0))));
    assert_eq!(s.looking_at, Some((ChunkCoord::new(0, 0), VoxelIndex::new(1, 0, 1))));
    assert_eq!(s.normal, None);
    let t = RaycastSelection::from_hit(Some((ChunkCoord::new(0, 0), VoxelIndex::new(1, 31, 1), WorldPos::new(0, 1, 0))));
    assert_eq!(t.normal, None);
    let u = RaycastSelection::from_hit(Some((ChunkCoord::new(0, 0), VoxelIndex::new(1, 31, 1), WorldPos::new(1, 0, 0))));
    assert_eq!(u.normal, Some(WorldPos::new(1, 0, 0)));
    let n = RaycastSelection::from_hit(None);
    assert!(n.looking_at.is_none() && n.normal.is_none());
    let store = store_with(&[(8, 5, 8)]);
    let sel = RaycastSelection::select(&Position::new(8500, 8000, 8500), &Position::new(0, -1000, 0), &store);
    assert_eq!(sel.normal, Some(WorldPos::new(0, 1, 0)));
}
