//! Selecting the voxel a ray points at, in exact integer arithmetic.
use vstd::prelude::*;

use crate::blocks::BlockType;
use crate::store::{block_in, NineSurroundChunk};
use crate::voxel::{
    floor_div, floor_mod, lemma_chunk_of_units_bounds, linear_index, voxel_of, ChunkCoord,
    Position, VoxelIndex, WorldPos, CHUNK_HEIGHT, CHUNK_WIDTH, UNITS_PER_VOXEL,
};

verus! {

/// How far, in ray-parameter units, a voxel may be and still be selected.
pub const MAX_REACH: i128 = 6;

/// Half the edge of a voxel, in position units.
pub const BOX_RADIUS: i128 = 500;

/// Largest magnitude of a box centre or ray origin coordinate that `intersect_box` accepts.
pub const MAX_BOX_COORD: i64 = 4_000_000_000_000;

/// The exact ray parameter `num / den` of a hit, with `den > 0`.
#[derive(Clone, Copy, Debug, PartialEq, Eq, Structural)]
pub struct RayDistance {
    pub num: i128,
    pub den: i128,
}

/// A hit: ray parameter numerator and (positive) denominator, and the outward
/// normal of the face that was hit.
pub type SlabHit = (int, int, (int, int, int));

/// A selectable voxel: its distance as `(num, den)`, its chunk and index, and the hit normal.
pub type Candidate = (int, int, ChunkCoord, VoxelIndex, (int, int, int));

pub open spec fn neg_sign(d: int) -> int {
    if d > 0 {
        -1
    } else if d < 0 {
        1
    } else {
        0
    }
}

pub open spec fn abs(a: int) -> int {
    if a < 0 {
        -a
    } else {
        a
    }
}

/// Numerator, over `da`, of the ray parameter at which the ray meets the face of
/// the box (centred at the origin of `r`) that faces it across the axis `a`.
pub open spec fn entry_num(ra: int, da: int) -> int {
    neg_sign(da) * BOX_RADIUS - ra
}

/// Whether the ray from relative origin `r`, direction `d`, enters the box
/// through its face across axis `a`: the axis is not parallel to the ray, the
/// meeting point lies ahead of the origin, and inside the face along the two
/// other axes `b` and `c`.
pub open spec fn face_hit(ra: int, da: int, rb: int, db: int, rc: int, dc: int) -> bool {
    let n = entry_num(ra, da);
    &&& da != 0
    &&& n * da >= 0
    &&& abs(rb * da + db * n) < BOX_RADIUS * abs(da)
    &&& abs(rc * da + dc * n) < BOX_RADIUS * abs(da)
}

/// The fraction `n / d` with a positive denominator.
pub open spec fn positive_fraction(n: int, d: int) -> (int, int) {
    if d < 0 {
        (-n, -d)
    } else {
        (n, d)
    }
}

/// Slab test of a ray from relative origin `r` (the box centre subtracted),
/// direction `d`, against a unit box: the first of the x, y and z faces facing
/// the ray that it passes through, with the parameter of the meeting point and
/// the face's outward normal.
pub open spec fn slab_hit(r: (int, int, int), d: (int, int, int)) -> Option<SlabHit> {
    if face_hit(r.0, d.0, r.1, d.1, r.2, d.2) {
        let f = positive_fraction(entry_num(r.0, d.0), d.0);
        Some((f.0, f.1, (neg_sign(d.0), 0, 0)))
    } else if face_hit(r.1, d.1, r.2, d.2, r.0, d.0) {
        let f = positive_fraction(entry_num(r.1, d.1), d.1);
        Some((f.0, f.1, (0, neg_sign(d.1), 0)))
    } else if face_hit(r.2, d.2, r.0, d.0, r.1, d.1) {
        let f = positive_fraction(entry_num(r.2, d.2), d.2);
        Some((f.0, f.1, (0, 0, neg_sign(d.2))))
    } else {
        None
    }
}

pub open spec fn within(p: Position, bound: int) -> bool {
    abs(p.x as int) <= bound && abs(p.y as int) <= bound && abs(p.z as int) <= bound
}

proof fn lemma_mul_bound(a: int, b: int, ba: int, bb: int)
    requires
        abs(a) <= ba,
        abs(b) <= bb,
    ensures
        abs(a * b) <= ba * bb,
        -(ba * bb) <= a * b <= ba * bb,
{
    assert(abs(a * b) == abs(a) * abs(b)) by (nonlinear_arith);
    assert(abs(a) * abs(b) <= ba * bb) by (nonlinear_arith)
        requires
            0 <= abs(a) <= ba,
            0 <= abs(b) <= bb,
    ;
}

fn abs128(a: i128) -> (r: i128)
    requires
        a > i128::MIN,
    ensures
        r == abs(a as int),
{
    if a < 0 {
        -a
    } else {
        a
    }
}

fn neg_sign128(d: i128) -> (r: i128)
    ensures
        r == neg_sign(d as int),
{
    if d > 0 {
        -1
    } else if d < 0 {
        1
    } else {
        0
    }
}

/// One axis of the slab test, in exact integer arithmetic.
fn test_face(ra: i128, da: i128, rb: i128, db: i128, rc: i128, dc: i128) -> (r: bool)
    requires
        abs(ra as int) <= 8_000_000_000_001,
        abs(rb as int) <= 8_000_000_000_001,
        abs(rc as int) <= 8_000_000_000_001,
        abs(da as int) <= 9_223_372_036_854_775_808,
        abs(db as int) <= 9_223_372_036_854_775_808,
        abs(dc as int) <= 9_223_372_036_854_775_808,
    ensures
        r == face_hit(ra as int, da as int, rb as int, db as int, rc as int, dc as int),
{
    if da == 0 {
        return false;
    }
    let n = neg_sign128(da) * BOX_RADIUS - ra;
    let ghost big: int = 9_223_372_036_854_775_808;
    let ghost rbig: int = 8_000_000_000_501;
    proof {
        lemma_mul_bound(n as int, da as int, rbig, big);
        lemma_mul_bound(rb as int, da as int, rbig, big);
        lemma_mul_bound(db as int, n as int, big, rbig);
        lemma_mul_bound(rc as int, da as int, rbig, big);
        lemma_mul_bound(dc as int, n as int, big, rbig);
        assert(rbig * big < 0x1000_0000_0000_0000_0000_0000_0000);
    }
    if n * da < 0 {
        return false;
    }
    let lim = BOX_RADIUS * abs128(da);
    abs128(rb * da + db * n) < lim && abs128(rc * da + dc * n) < lim
}

/// Intersect a ray with the unit voxel box centred at `box_center` (slab method).
/// Returns the ray parameter of the entry point and the outward normal of the
/// face the ray enters through, or `None` if the ray misses the box or meets it
/// only behind its origin.
pub fn intersect_box(box_center: &Position, ray_origin: &Position, ray_dir: &Position) -> (r:
    Option<(RayDistance, WorldPos)>)
    requires
        within(*box_center, MAX_BOX_COORD as int),
        within(*ray_origin, MAX_BOX_COORD as int),
    ensures
        match slab_hit(
            (
                ray_origin.x - box_center.x,
                ray_origin.y - box_center.y,
                ray_origin.z - box_center.z,
            ),
            (ray_dir.x as int, ray_dir.y as int, ray_dir.z as int),
        ) {
            None => r is None,
            Some(h) => match r {
                Some((dist, normal)) => dist.num == h.0 && dist.den == h.1 && (
                    normal.x as int,
                    normal.y as int,
                    normal.z as int,
                ) == h.2,
                None => false,
            },
        },
{
    let rx = ray_origin.x as i128 - box_center.x as i128;
    let ry = ray_origin.y as i128 - box_center.y as i128;
    let rz = ray_origin.z as i128 - box_center.z as i128;
    let dx = ray_dir.x as i128;
    let dy = ray_dir.y as i128;
    let dz = ray_dir.z as i128;
    if test_face(rx, dx, ry, dy, rz, dz) {
        let d = fraction(neg_sign128(dx) * BOX_RADIUS - rx, dx);
        Some((d, WorldPos { x: neg_sign128(dx) as i32, y: 0, z: 0 }))
    } else if test_face(ry, dy, rz, dz, rx, dx) {
        let d = fraction(neg_sign128(dy) * BOX_RADIUS - ry, dy);
        Some((d, WorldPos { x: 0, y: neg_sign128(dy) as i32, z: 0 }))
    } else if test_face(rz, dz, rx, dx, ry, dy) {
        let d = fraction(neg_sign128(dz) * BOX_RADIUS - rz, dz);
        Some((d, WorldPos { x: 0, y: 0, z: neg_sign128(dz) as i32 }))
    } else {
        None
    }
}

fn fraction(n: i128, d: i128) -> (r: RayDistance)
    requires
        abs(n as int) <= 8_000_000_000_501,
        abs(d as int) <= 9_223_372_036_854_775_808,
    ensures
        (r.num as int, r.den as int) == positive_fraction(n as int, d as int),
{
    if d < 0 {
        RayDistance { num: -n, den: -d }
    } else {
        RayDistance { num: n, den: d }
    }
}

/// Number of cells searched around the ray origin: 11 along each axis.
pub const SEARCH_CELLS: usize = 1331;

/// The voxel holding a position.
pub open spec fn origin_voxel(o: Position) -> (int, int, int) {
    (voxel_of(o.x as int), voxel_of(o.y as int), voxel_of(o.z as int))
}

/// Offset of the `k`-th searched cell from the origin voxel, each axis in `-5..=5`,
/// `x` slowest and `z` fastest.
pub open spec fn search_offset(k: int) -> (int, int, int) {
    (k / 121 - 5, (k / 11) % 11 - 5, k % 11 - 5)
}

/// The `k`-th searched cell as a selectable voxel, if it is inside the world's
/// vertical extent, the ray enters it within reach, its chunk is resident and
/// it is not `Air`.
pub open spec fn candidate(
    origin: Position,
    dir: Position,
    grids: Map<ChunkCoord, Seq<BlockType>>,
    k: int,
) -> Option<Candidate> {
    let ov = origin_voxel(origin);
    let off = search_offset(k);
    let v = (ov.0 + off.0, ov.1 + off.1, ov.2 + off.2);
    if v.1 < 0 || v.1 >= CHUNK_HEIGHT {
        None
    } else {
        let center = (v.0 * 1000 + 500, v.1 * 1000 + 500, v.2 * 1000 + 500);
        match slab_hit(
            (origin.x - center.0, origin.y - center.1, origin.z - center.2),
            (dir.x as int, dir.y as int, dir.z as int),
        ) {
            None => None,
            Some(h) => {
                let c = ChunkCoord {
                    x: (v.0 / CHUNK_WIDTH as int) as i32,
                    y: (v.2 / CHUNK_WIDTH as int) as i32,
                };
                let i = VoxelIndex {
                    x: (v.0 % CHUNK_WIDTH as int) as u32,
                    y: v.1 as u32,
                    z: (v.2 % CHUNK_WIDTH as int) as u32,
                };
                if 0 <= h.0 && h.0 <= MAX_REACH * h.1 && grids.dom().contains(c) && block_in(
                    grids,
                    c,
                    i,
                ) != BlockType::Air {
                    Some((h.0, h.1, c, i, h.2))
                } else {
                    None
                }
            },
        }
    }
}

/// Whether candidate `a` lies strictly closer along the ray than `b`.
pub open spec fn closer(a: Candidate, b: Candidate) -> bool {
    a.0 * b.1 < b.0 * a.1
}

/// The closest candidate among the first `k` searched cells; on equal
/// distances the one found first.
pub open spec fn best_upto(
    origin: Position,
    dir: Position,
    grids: Map<ChunkCoord, Seq<BlockType>>,
    k: int,
) -> Option<Candidate>
    decreases k,
{
    if k <= 0 {
        None
    } else {
        let prev = best_upto(origin, dir, grids, k - 1);
        match candidate(origin, dir, grids, k - 1) {
            Some(c) => if prev is None || closer(c, prev->0) {
                Some(c)
            } else {
                prev
            },
            None => prev,
        }
    }
}

/// The voxel a ray selects among the resident chunks `grids`: its chunk,
/// index and the normal of the face the ray enters through.
pub open spec fn selection_of(
    origin: Position,
    dir: Position,
    grids: Map<ChunkCoord, Seq<BlockType>>,
) -> Option<(ChunkCoord, VoxelIndex, (int, int, int))> {
    match best_upto(origin, dir, grids, SEARCH_CELLS as int) {
        Some(c) => Some((c.2, c.3, c.4)),
        None => None,
    }
}

proof fn lemma_slab_bounds(r: (int, int, int), d: (int, int, int))
    requires
        abs(r.0) <= 8_000_000_000_001,
        abs(r.1) <= 8_000_000_000_001,
        abs(r.2) <= 8_000_000_000_001,
        abs(d.0) <= 9_223_372_036_854_775_808,
        abs(d.1) <= 9_223_372_036_854_775_808,
        abs(d.2) <= 9_223_372_036_854_775_808,
    ensures
        slab_hit(r, d) is Some ==> ({
            let h = slab_hit(r, d)->0;
            &&& abs(h.0) <= 8_000_000_000_501
            &&& 0 < h.1 <= 9_223_372_036_854_775_808
            &&& abs(h.2.0) <= 1 && abs(h.2.1) <= 1 && abs(h.2.2) <= 1
        }),
{
}

/// The closest non-`Air` voxel of a resident chunk that the ray from `ray_origin`
/// along `ray_direction` enters within reach, searching the 11 by 11 by 11 cells
/// around the origin voxel. Cells of chunks that are not resident are skipped.
pub fn raycast_voxel(ray_origin: &Position, ray_direction: &Position, chunk_store: &NineSurroundChunk) -> (r:
    Option<(ChunkCoord, VoxelIndex, WorldPos)>)
    requires
        ray_origin.wf(),
        chunk_store.wf(),
    ensures
        match selection_of(*ray_origin, *ray_direction, chunk_store.grids()) {
            None => r is None,
            Some(s) => match r {
                Some((c, i, n)) => c == s.0 && i == s.1 && (n.x as int, n.y as int, n.z as int)
                    == s.2,
                None => false,
            },
        },
{
    let ghost grids = chunk_store.grids();
    proof {
        lemma_chunk_of_units_bounds(ray_origin.x as int, 1);
        lemma_chunk_of_units_bounds(ray_origin.y as int, 1);
        lemma_chunk_of_units_bounds(ray_origin.z as int, 1);
    }
    let ox = floor_div(ray_origin.x, UNITS_PER_VOXEL);
    let oy = floor_div(ray_origin.y, UNITS_PER_VOXEL);
    let oz = floor_div(ray_origin.z, UNITS_PER_VOXEL);
    let mut best: Option<(RayDistance, ChunkCoord, VoxelIndex, WorldPos)> = None;
    let mut k: usize = 0;
    while k < SEARCH_CELLS
        invariant
            ray_origin.wf(),
            chunk_store.wf(),
            grids == chunk_store.grids(),
            (ox as int, oy as int, oz as int) == origin_voxel(*ray_origin),
            -2_000_000_001 <= ox <= 2_000_000_000,
            -2_000_000_001 <= oy <= 2_000_000_000,
            -2_000_000_001 <= oz <= 2_000_000_000,
            k <= SEARCH_CELLS,
            match best {
                None => best_upto(*ray_origin, *ray_direction, grids, k as int) is None,
                Some((d, c, i, n)) => {
                    &&& best_upto(*ray_origin, *ray_direction, grids, k as int) == Some(
                        (d.num as int, d.den as int, c, i, (n.x as int, n.y as int, n.z as int)),
                    )
                    &&& abs(d.num as int) <= 8_000_000_000_501
                    &&& 0 < d.den <= 9_223_372_036_854_775_808
                },
            },
        decreases SEARCH_CELLS - k,
    {
        let vx = ox + (k / 121) as i64 - 5;
        let vy = oy + ((k / 11) % 11) as i64 - 5;
        let vz = oz + (k % 11) as i64 - 5;
        let ghost prev = best_upto(*ray_origin, *ray_direction, grids, k as int);
        let ghost cand = candidate(*ray_origin, *ray_direction, grids, k as int);
        assert(best_upto(*ray_origin, *ray_direction, grids, k + 1) == match cand {
            Some(c) => if prev is None || closer(c, prev->0) {
                Some(c)
            } else {
                prev
            },
            None => prev,
        });
        if vy >= 0 && vy < CHUNK_HEIGHT as i64 {
            let center = Position { x: vx * 1000 + 500, y: vy * 1000 + 500, z: vz * 1000 + 500 };
            let hit = intersect_box(&center, ray_origin, ray_direction);
            proof {
                lemma_slab_bounds(
                    (
                        ray_origin.x - center.x,
                        ray_origin.y - center.y,
                        ray_origin.z - center.z,
                    ),
                    (ray_direction.x as int, ray_direction.y as int, ray_direction.z as int),
                );
            }
            if let Some((dist, normal)) = hit {
                let c = ChunkCoord { x: floor_div(vx, 16) as i32, y: floor_div(vz, 16) as i32 };
                let i = VoxelIndex {
                    x: floor_mod(vx, 16) as u32,
                    y: vy as u32,
                    z: floor_mod(vz, 16) as u32,
                };
                if dist.num >= 0 && dist.num <= MAX_REACH * dist.den {
                    let nearer = match best {
                        None => true,
                        Some((b, _, _, _)) => {
                            proof {
                                lemma_mul_bound(
                                    dist.num as int,
                                    b.den as int,
                                    8_000_000_000_501,
                                    9_223_372_036_854_775_808,
                                );
                                lemma_mul_bound(
                                    b.num as int,
                                    dist.den as int,
                                    8_000_000_000_501,
                                    9_223_372_036_854_775_808,
                                );
                            }
                            dist.num * b.den < b.num * dist.den
                        },
                    };
                    if nearer {
                        match chunk_store.block(c, i) {
                            Some(block) => {
                                if block != BlockType::Air {
                                    best = Some((dist, c, i, normal));
                                }
                            },
                            None => {},
                        }
                    }
                }
            }
        }
        k = k + 1;
    }
    match best {
        Some((_, c, i, n)) => Some((c, i, n)),
        None => None,
    }
}

/// Selecting is a function of the ray and of the resident voxels alone: two
/// stores holding the same chunks give the same selection for the same ray.
pub proof fn lemma_selection_deterministic(
    origin: Position,
    dir: Position,
    a: NineSurroundChunk,
    b: NineSurroundChunk,
)
    requires
        a.grids() == b.grids(),
    ensures
        selection_of(origin, dir, a.grids()) == selection_of(origin, dir, b.grids()),
{
}

/// What the observer is looking at: the targeted voxel, and the normal of the
/// targeted face unless it points out of the world's vertical extent.
#[derive(Clone, Copy, Debug)]
pub struct RaycastSelection {
    pub looking_at: Option<(ChunkCoord, VoxelIndex)>,
    pub normal: Option<WorldPos>,
}

impl RaycastSelection {
    /// Nothing targeted.
    pub fn none() -> (r: RaycastSelection)
        ensures
            r.looking_at is None && r.normal is None,
    {
        RaycastSelection { looking_at: None, normal: None }
    }

    /// The selection for a raycast result; a normal pointing below the floor
    /// from the bottom layer, or above the top layer, is dropped.
    pub fn from_hit(hit: Option<(ChunkCoord, VoxelIndex, WorldPos)>) -> (r: RaycastSelection)
        ensures
            match hit {
                None => r.looking_at is None && r.normal is None,
                Some((c, i, n)) => {
                    &&& r.looking_at == Some((c, i))
                    &&& r.normal == if (i.y == 0 && n.y < 0) || (i.y >= CHUNK_HEIGHT - 1 && n.y
                        > 0) {
                        None::<WorldPos>
                    } else {
                        Some(n)
                    }
                },
            },
    {
        match hit {
            None => RaycastSelection { looking_at: None, normal: None },
            Some((c, i, n)) => {
                let normal = if (i.y == 0 && n.y < 0) || (i.y as usize >= CHUNK_HEIGHT - 1 && n.y
                    > 0) {
                    None
                } else {
                    Some(n)
                };
                RaycastSelection { looking_at: Some((c, i)), normal }
            },
        }
    }

    /// Cast the ray and build the selection from what it hits.
    pub fn select(ray_origin: &Position, ray_direction: &Position, chunk_store: &NineSurroundChunk) -> (r:
        RaycastSelection)
        requires
            ray_origin.wf(),
            chunk_store.wf(),
        ensures
            match selection_of(*ray_origin, *ray_direction, chunk_store.grids()) {
                None => r.looking_at is None && r.normal is None,
                Some(s) => r.looking_at == Some((s.0, s.1)) && match r.normal {
                    Some(n) => (n.x as int, n.y as int, n.z as int) == s.2,
                    None => (s.1.y == 0 && s.2.1 < 0) || (s.1.y >= CHUNK_HEIGHT - 1 && s.2.1 > 0),
                },
            },
    {
        RaycastSelection::from_hit(raycast_voxel(ray_origin, ray_direction, chunk_store))
    }
}

} // verus!
