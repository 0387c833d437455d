//! Where the colliders around the observer go, and which collision groups meet.
use vstd::prelude::*;

use crate::blocks::BlockType;
use crate::store::{block_in, NineSurroundChunk};
use crate::voxel::{
    absolute_fits, absolute_of, index_to_absolut, ChunkCoord, Position, VoxelIndex, WorldPos,
    CHUNK_HEIGHT, CHUNK_WIDTH,
};
use crate::world::PlayerPosition;

verus! {

/// Tag of the observer's body.
pub const COLLIDER_PLAYER_UD: u128 = 1;

/// Tag of the floor collider right under the observer.
pub const COLLIDER_ENV_FLOOR_UD: u128 = 2;

/// Tag of the other block colliders.
pub const COLLIDER_ENV_OTHER_UD: u128 = 3;

/// Tag of the sensor that detects ground contact.
pub const COLLIDER_PLAYER_SENSOR_UD: u128 = 4;

/// Id of the floor collider; ids below it are the 27 colliders around the observer.
pub const COLLIDER_FLOOR_0_ID: u16 = 27;

/// Id of the ground-contact sensor.
pub const COLLIDER_SENSOR_ID: u16 = 28;

/// Lateral offset of the colliders of each layer, by id modulo 9.
pub open spec fn lateral_offset(k: int) -> (int, int) {
    if k == 0 {
        (0, 0)
    } else if k == 1 {
        (1, 0)
    } else if k == 2 {
        (0, 1)
    } else if k == 3 {
        (1, 1)
    } else if k == 4 {
        (-1, 0)
    } else if k == 5 {
        (0, -1)
    } else if k == 6 {
        (-1, -1)
    } else if k == 7 {
        (1, -1)
    } else {
        (-1, 1)
    }
}

/// Offset from the observer's voxel of the block collider `id`: ids `0..27`
/// form three layers of nine (above, level, below), and the floor collider
/// sits two voxels below. Other ids are not block colliders.
pub open spec fn collider_offset_of(id: int) -> Option<(int, int, int)> {
    if id == COLLIDER_FLOOR_0_ID {
        Some((0, -2, 0))
    } else if 0 <= id < COLLIDER_FLOOR_0_ID {
        let v = if id / 9 == 0 {
            1
        } else if id / 9 == 1 {
            0
        } else {
            -1
        };
        let l = lateral_offset(id % 9);
        Some((l.0, v, l.1))
    } else {
        None
    }
}

/// Offset from the observer's voxel of the block collider `id`.
pub fn collider_offset(id: u16) -> (r: Option<WorldPos>)
    ensures
        match collider_offset_of(id as int) {
            Some(o) => r == Some(WorldPos { x: o.0 as i32, y: o.1 as i32, z: o.2 as i32 }),
            None => r is None,
        },
{
    if id == COLLIDER_FLOOR_0_ID {
        return Some(WorldPos { x: 0, y: -2, z: 0 });
    }
    if id > COLLIDER_FLOOR_0_ID {
        return None;
    }
    let v: i32 = if id / 9 == 0 {
        1
    } else if id / 9 == 1 {
        0
    } else {
        -1
    };
    let k = id % 9;
    let (a, b): (i32, i32) = if k == 0 {
        (0, 0)
    } else if k == 1 {
        (1, 0)
    } else if k == 2 {
        (0, 1)
    } else if k == 3 {
        (1, 1)
    } else if k == 4 {
        (-1, 0)
    } else if k == 5 {
        (0, -1)
    } else if k == 6 {
        (-1, -1)
    } else if k == 7 {
        (1, -1)
    } else {
        (-1, 1)
    };
    Some(WorldPos { x: a, y: v, z: b })
}

/// The voxel block collider `id` covers: the observer's voxel plus the
/// collider's offset, if that fits an `i32`.
pub open spec fn collider_voxel_of(id: int, player: PlayerPosition) -> Option<(int, int, int)> {
    match collider_offset_of(id) {
        None => None,
        Some(o) => {
            let a = absolute_of(player.chunk, player.index);
            let p = (a.0 + o.0, a.1 + o.1, a.2 + o.2);
            if absolute_fits(player.chunk, player.index) && i32::MIN <= p.0 <= i32::MAX
                && i32::MIN <= p.1 <= i32::MAX && i32::MIN <= p.2 <= i32::MAX {
                Some(p)
            } else {
                None
            }
        },
    }
}

/// Where block collider `id` goes, as the centre of the voxel it covers: only
/// when that voxel holds a block other than `Air` in a resident chunk.
/// Otherwise the collider is parked out of the way (`None`).
pub fn collider_center(id: u16, player: &PlayerPosition, chunk_store: &NineSurroundChunk) -> (r:
    Option<Position>)
    requires
        chunk_store.wf(),
    ensures
        match collider_voxel_of(id as int, *player) {
            None => r is None,
            Some(p) => {
                let c = ChunkCoord {
                    x: (p.0 / CHUNK_WIDTH as int) as i32,
                    y: (p.2 / CHUNK_WIDTH as int) as i32,
                };
                let i = VoxelIndex {
                    x: (p.0 % CHUNK_WIDTH as int) as u32,
                    y: p.1 as u32,
                    z: (p.2 % CHUNK_WIDTH as int) as u32,
                };
                if 0 <= p.1 < CHUNK_HEIGHT && chunk_store.grids().dom().contains(c) && block_in(
                    chunk_store.grids(),
                    c,
                    i,
                ) != BlockType::Air {
                    r == Some(
                        Position {
                            x: (p.0 * 1000 + 500) as i64,
                            y: (p.1 * 1000 + 500) as i64,
                            z: (p.2 * 1000 + 500) as i64,
                        },
                    )
                } else {
                    r is None
                }
            },
        },
{
    let o = match collider_offset(id) {
        Some(o) => o,
        None => return None,
    };
    let ax = player.chunk.x as i64 * CHUNK_WIDTH as i64 + player.index.x as i64;
    let ay = player.index.y as i64;
    let az = player.chunk.y as i64 * CHUNK_WIDTH as i64 + player.index.z as i64;
    let lo = i32::MIN as i64;
    let hi = i32::MAX as i64;
    if ax < lo || ax > hi || ay > hi || az < lo || az > hi {
        return None;
    }
    let px = ax + o.x as i64;
    let py = ay + o.y as i64;
    let pz = az + o.z as i64;
    if px < lo || px > hi || py < lo || py > hi || pz < lo || pz > hi {
        return None;
    }
    let a = index_to_absolut(player.chunk, player.index);
    let v = WorldPos { x: a.x + o.x, y: a.y + o.y, z: a.z + o.z };
    match chunk_store.block_at_voxel(&v) {
        Some(b) => {
            if b != BlockType::Air {
                Some(Position { x: px * 1000 + 500, y: py * 1000 + 500, z: pz * 1000 + 500 })
            } else {
                None
            }
        },
        None => None,
    }
}

/// How far below the observer's position the ground sensor sits, in position
/// units (one and a half voxels).
pub const SENSOR_DROP: i64 = 1500;

/// Where the ground sensor goes: the observer's position lowered by one and a
/// half voxels.
pub fn sensor_position(player: &PlayerPosition) -> (r: Position)
    requires
        player.absolut.wf(),
    ensures
        r.x == player.absolut.x,
        r.y == player.absolut.y - SENSOR_DROP,
        r.z == player.absolut.z,
{
    Position { x: player.absolut.x, y: player.absolut.y - SENSOR_DROP, z: player.absolut.z }
}

/// Whether a contact between colliders tagged `a` and `b` is the ground
/// sensor touching the floor collider.
pub fn is_floor_contact(a: u128, b: u128) -> (r: bool)
    ensures
        r == ((a == COLLIDER_ENV_FLOOR_UD || b == COLLIDER_ENV_FLOOR_UD) && (a
            == COLLIDER_PLAYER_SENSOR_UD || b == COLLIDER_PLAYER_SENSOR_UD)),
{
    (a == COLLIDER_ENV_FLOOR_UD || b == COLLIDER_ENV_FLOOR_UD) && (a == COLLIDER_PLAYER_SENSOR_UD
        || b == COLLIDER_PLAYER_SENSOR_UD)
}

/// Which collision groups a collider belongs to, and which it interacts with.
#[derive(Clone, Copy, Debug, PartialEq, Eq, Structural)]
pub struct CollisionGroups {
    pub memberships: u32,
    pub filter: u32,
}

impl CollisionGroups {
    pub open spec fn new_spec(memberships: u32, filter: u32) -> CollisionGroups {
        CollisionGroups { memberships, filter }
    }

    pub fn new(memberships: u32, filter: u32) -> (r: CollisionGroups)
        ensures
            r == CollisionGroups::new_spec(memberships, filter),
    {
        CollisionGroups { memberships, filter }
    }

    /// Two colliders interact when each belongs to a group the other accepts.
    pub open spec fn interacts(self, rhs: CollisionGroups) -> bool {
        (self.memberships & rhs.filter) != 0 && (rhs.memberships & self.filter) != 0
    }

    /// Whether colliders of these groups interact.
    pub fn test(self, rhs: CollisionGroups) -> (r: bool)
        ensures
            r == self.interacts(rhs),
    {
        (self.memberships & rhs.filter) != 0 && (rhs.memberships & self.filter) != 0
    }
}

/// The ground sensor touches the floor collider and neither the observer's
/// body nor the other block colliders; the body collides with both kinds of
/// block collider.
pub proof fn lemma_sensor_touches_floor_only()
    ensures
        CollisionGroups::new_spec(0b0000110, 0b000010).interacts(CollisionGroups::new_spec(0b0000111, 0b000111)),
        !CollisionGroups::new_spec(0b0000110, 0b000010).interacts(CollisionGroups::new_spec(0b0000101, 0b000001)),
        !CollisionGroups::new_spec(0b0000110, 0b000010).interacts(CollisionGroups::new_spec(0b0000101, 0b000111)),
        CollisionGroups::new_spec(0b0000101, 0b000001).interacts(CollisionGroups::new_spec(0b0000111, 0b000111)),
        CollisionGroups::new_spec(0b0000101, 0b000001).interacts(CollisionGroups::new_spec(0b0000101, 0b000111)),
{
    assert(
        (6u32 & 7u32) != 0 && (7u32 & 2u32) != 0
        && (6u32 & 1u32) == 0
        && (5u32 & 2u32) == 0
        && (5u32 & 7u32) != 0 && (7u32 & 1u32) != 0
        && (5u32 & 7u32) != 0 && (5u32 & 1u32) != 0
    ) by (bit_vector);
}

/// The observer's body: collides with the floor and the other block colliders.
pub fn group_player() -> (r: CollisionGroups)
    ensures
        r == CollisionGroups::new_spec(0b0000101, 0b000001),
{
    CollisionGroups::new(0b0000101, 0b000001)
}

/// The ground sensor: touches the floor collider only.
pub fn group_player_sensor() -> (r: CollisionGroups)
    ensures
        r == CollisionGroups::new_spec(0b0000110, 0b000010),
{
    CollisionGroups::new(0b0000110, 0b000010)
}

/// The floor collider under the observer.
pub fn group_floor() -> (r: CollisionGroups)
    ensures
        r == CollisionGroups::new_spec(0b0000111, 0b000111),
{
    CollisionGroups::new(0b0000111, 0b000111)
}

/// The other block colliders around the observer.
pub fn group_env() -> (r: CollisionGroups)
    ensures
        r == CollisionGroups::new_spec(0b0000101, 0b000111),
{
    CollisionGroups::new(0b0000101, 0b000111)
}

} // verus!
