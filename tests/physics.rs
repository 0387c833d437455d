use cobble::blocks::BlockType;
use cobble::physics::{group_env, group_floor, group_player, group_player_sensor};
use cobble::physics::{collider_center, sensor_position, collider_offset, is_floor_contact, COLLIDER_FLOOR_0_ID, COLLIDER_SENSOR_ID};
use cobble::store::NineSurroundChunk;
use cobble::voxel::{chunk_shape, ChunkCoord, GameChunk, Position, VoxelChunk, VoxelIndex, WorldPos};
use cobble::world::PlayerPosition;

#[test]
fn collider_offsets() {
    assert_eq!(collider_offset(0), Some(WorldPos::new(0, 1, 0)));
    assert_eq!(collider_offset(10), Some(WorldPos::new(1, 0, 0)));
    assert_eq!(collider_offset(26), Some(WorldPos::new(-1, -1, 1)));
    assert_eq!(collider_offset(COLLIDER_FLOOR_0_ID), Some(WorldPos::new(0, -2, 0)));
    assert_eq!(collider_offset(COLLIDER_SENSOR_ID), None);
}

#[test]
fn colliders_follow_solid_voxels() {
    let mut g = VoxelChunk::air(chunk_shape());
    g.set(4, 3, 4, BlockType::Dirt).unwrap();
    let s = NineSurroundChunk::from_data(vec![GameChunk { voxel: g, index: ChunkCoord::new(0, 0) }]);
    let player = PlayerPosition {
        absolut: Position::new(4500, 5200, 4500),
        chunk: ChunkCoord::new(0, 0),
        index: VoxelIndex::new(4, 5, 4),
    };
    assert_eq!(collider_center(COLLIDER_FLOOR_0_ID, &player, &s), Some(Position::new(4500, 3500, 4500)));
    assert_eq!(collider_center(13, &player, &s), None);
    assert_eq!(collider_center(COLLIDER_SENSOR_ID, &player, &s), None);
}

#[test]
fn floor_contact() {
    assert!(is_floor_contact(2, 4));
    assert!(is_floor_contact(4, 2));
    assert!(!is_floor_contact(3, 4));
    assert!(!is_floor_contact(2, 1));
}

#[test]
fn collision_groups() {
    let (player, sensor, floor, env) = (group_player(), group_player_sensor(), group_floor(), group_env());
    // Player sensor can only interact with the floor
    assert!(player.test(env));
    assert!(env.test(player));
    assert!(player.test(floor));
    assert!(floor.test(player));
    assert!(floor.test(sensor));
    assert!(sensor.test(floor));
    assert!(!sensor.test(player));
    assert!(!player.test(sensor));
    assert!(!sensor.test(env));
    assert!(!env.test(sensor));
}

#[test]
fn sensor_sits_below_observer() {
    let player = PlayerPosition {
        absolut: Position::new(4500, 5200, -700),
        chunk: ChunkCoord::new(0, -1),
        index: VoxelIndex::new(4, 5, 15),
    };
    assert_eq!(sensor_position(&player), Position::new(4500, 3700, -700));
}
