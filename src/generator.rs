//! Filling a chunk from the noise samples of its columns: terrain, bedrock and trees.
use vstd::prelude::*;

use crate::blocks::BlockType;
use crate::voxel::{linear_index, ChunkCoord, GameChunk, VoxelChunk, CHUNK_HEIGHT, CHUNK_WIDTH};

verus! {

/// Number of tree placement attempts per column.
pub const TREE_ATTEMPTS: usize = 3;

/// Vertical extent of a canopy above the trunk.
pub const CANOPY_HEIGHT: usize = 4;

/// Number of entries of a canopy mask: 4 layers of 8 by 8 cells.
pub const CANOPY_CELLS: usize = 256;

/// What the noise fields say about one column `(x, z)` of a chunk.
pub struct ColumnSample {
    /// Terrain height, before clamping to the chunk.
    pub height: usize,
    /// Whether the sand mix sample lies above one half: the column is all sand.
    pub sand: bool,
    /// Least height at which the top voxel becomes grass.
    pub grass_level: i64,
    /// Least height at which the column is dirt rather than gravel.
    pub dirt_level: i64,
    /// Outcome of each tree density test, in attempt order.
    pub tree_attempts: [bool; 3],
    /// Trunk height of a tree planted here.
    pub trunk_height: usize,
    /// Leaf mask of a tree planted here: entry `(dy * 8 + a + 4) * 8 + b + 4`
    /// says whether the leaf at layer `dy` above the trunk top and lateral offset
    /// `(a, b)`, both in `-4..4`, is grown. Missing entries mean no leaf.
    pub canopy: Vec<bool>,
}

/// A cell write: linear cell index and the block written there.
pub type CellWrite = (int, BlockType);

pub open spec fn clamp(v: int, lo: int, hi: int) -> int {
    if v < lo {
        lo
    } else if v > hi {
        hi
    } else {
        v
    }
}

/// Height of a column: its sample clamped to `[2, CHUNK_HEIGHT - 1]`.
pub open spec fn column_height(s: ColumnSample) -> int {
    clamp(s.height as int, 2, CHUNK_HEIGHT - 1)
}

/// The terrain block at height `y` of a column, before trees: cobble bedrock at
/// the bottom, air above the column height, sand throughout a sand column,
/// otherwise grass on top where the grass test passes, then dirt or gravel.
pub open spec fn terrain_block(s: ColumnSample, y: int) -> BlockType {
    let h = column_height(s);
    if y >= h {
        BlockType::Air
    } else if y == 0 {
        BlockType::Cobble
    } else if s.sand {
        BlockType::Sand
    } else if y + 1 == h && h >= s.grass_level {
        BlockType::Grass
    } else if h >= s.dirt_level {
        BlockType::Dirt
    } else {
        BlockType::Gravel
    }
}

/// Index of column `(x, z)` in a chunk's list of column samples.
pub open spec fn column_index(x: int, z: int) -> int {
    x * CHUNK_WIDTH + z
}

/// The chunk's grid before trees, in flat storage order.
pub open spec fn terrain_grid(samples: Seq<ColumnSample>) -> Seq<BlockType> {
    Seq::new(
        (CHUNK_WIDTH * CHUNK_HEIGHT * CHUNK_WIDTH) as nat,
        |i: int|
            terrain_block(
                samples[column_index(i % 16, i / 512)],
                (i / 16) % 32,
            ),
    )
}

/// Whether a tree grows in column `(x, z)`: not sand, away from the two-voxel
/// border of the chunk, and one of the density attempts succeeded.
pub open spec fn grows_tree_at(s: ColumnSample, x: int, z: int) -> bool {
    &&& !s.sand
    &&& 2 <= x < CHUNK_WIDTH - 2
    &&& 2 <= z < CHUNK_WIDTH - 2
    &&& (s.tree_attempts[0] || s.tree_attempts[1] || s.tree_attempts[2])
}

/// Top of the trunk (exclusive) and top of the canopy (exclusive), within the chunk.
pub open spec fn canopy_span_of(s: ColumnSample) -> (int, int) {
    let h = column_height(s);
    (
        clamp(h + s.trunk_height, 0, CHUNK_HEIGHT - 1),
        clamp(h + s.trunk_height + CANOPY_HEIGHT, 0, CHUNK_HEIGHT - 1),
    )
}

pub open spec fn leaf_grown(s: ColumnSample, k: int) -> bool {
    0 <= k < s.canopy@.len() && s.canopy@[k]
}

pub open spec fn cell(x: int, y: int, z: int) -> int {
    linear_index(CHUNK_WIDTH as int, CHUNK_HEIGHT as int, x, y, z)
}

/// The cell the `k`-th canopy entry of a tree at column `(x, z)` with trunk top
/// `lower` writes: lateral offsets mirrored and clamped into the chunk.
pub open spec fn leaf_cell(x: int, z: int, lower: int, k: int) -> int {
    let a = (k / 8) % 8 - 4;
    let b = k % 8 - 4;
    cell(clamp(x - a, 0, CHUNK_WIDTH - 1), lower + k / 64, clamp(z - b, 0, CHUNK_WIDTH - 1))
}

/// The leaf writes of the first `k` canopy entries.
pub open spec fn leaf_writes(s: ColumnSample, x: int, z: int, lower: int, k: int) -> Seq<CellWrite>
    decreases k,
{
    if k <= 0 {
        Seq::empty()
    } else {
        let prev = leaf_writes(s, x, z, lower, k - 1);
        if leaf_grown(s, k - 1) {
            prev.push((leaf_cell(x, z, lower, k - 1), BlockType::Leaves))
        } else {
            prev
        }
    }
}

/// Writes of the tree in column `(x, z)`: the trunk bottom-up, then the canopy.
pub open spec fn tree_writes(s: ColumnSample, x: int, z: int) -> Seq<CellWrite> {
    if !grows_tree_at(s, x, z) {
        Seq::empty()
    } else {
        let h = column_height(s);
        let (lower, upper) = canopy_span_of(s);
        let trunk = Seq::new(
            (if lower > h {
                lower - h
            } else {
                0
            }) as nat,
            |i: int| (cell(x, h + i, z), BlockType::Wood),
        );
        trunk + leaf_writes(s, x, z, lower, (upper - lower) * 64)
    }
}

/// Tree writes of the first `n` columns, column by column.
pub open spec fn forest_writes(samples: Seq<ColumnSample>, n: int) -> Seq<CellWrite>
    decreases n,
{
    if n <= 0 {
        Seq::empty()
    } else {
        forest_writes(samples, n - 1) + tree_writes(samples[n - 1], (n - 1) / 16, (n - 1) % 16)
    }
}

/// Apply writes in order; a later write to a cell replaces an earlier one.
pub open spec fn apply_writes(g: Seq<BlockType>, ws: Seq<CellWrite>) -> Seq<BlockType>
    decreases ws.len(),
{
    if ws.len() == 0 {
        g
    } else {
        apply_writes(g, ws.drop_last()).update(ws.last().0, ws.last().1)
    }
}

/// The generated grid: the terrain, then every column's tree in column order.
pub open spec fn generated_grid(samples: Seq<ColumnSample>) -> Seq<BlockType> {
    apply_writes(terrain_grid(samples), forest_writes(samples, 256))
}

fn clamp_usize(v: usize, lo: usize, hi: usize) -> (r: usize)
    requires
        lo <= hi,
    ensures
        r == clamp(v as int, lo as int, hi as int),
{
    if v < lo {
        lo
    } else if v > hi {
        hi
    } else {
        v
    }
}

/// Height of a column, clamped into the chunk.
pub fn column_height_of(s: &ColumnSample) -> (r: usize)
    ensures
        r == column_height(*s),
        2 <= r < CHUNK_HEIGHT,
{
    clamp_usize(s.height, 2, CHUNK_HEIGHT - 1)
}

/// The terrain block at height `y` of a column.
pub fn terrain_block_of(s: &ColumnSample, y: usize) -> (r: BlockType)
    ensures
        r == terrain_block(*s, y as int),
{
    let h = column_height_of(s);
    if y >= h {
        BlockType::Air
    } else if y == 0 {
        BlockType::Cobble
    } else if s.sand {
        BlockType::Sand
    } else if y + 1 == h && h as i64 >= s.grass_level {
        BlockType::Grass
    } else if h as i64 >= s.dirt_level {
        BlockType::Dirt
    } else {
        BlockType::Gravel
    }
}

/// Whether a tree grows in column `(x, z)`.
pub fn grows_tree(s: &ColumnSample, x: usize, z: usize) -> (r: bool)
    ensures
        r == grows_tree_at(*s, x as int, z as int),
{
    let mut hit = false;
    let mut attempt: usize = 0;
    while attempt < TREE_ATTEMPTS
        invariant
            attempt <= TREE_ATTEMPTS,
            hit == (exists|i: int| 0 <= i < attempt && s.tree_attempts[i]),
        decreases TREE_ATTEMPTS - attempt,
    {
        if s.tree_attempts[attempt] {
            hit = true;
        }
        attempt = attempt + 1;
    }
    proof {
        if s.tree_attempts[0] || s.tree_attempts[1] || s.tree_attempts[2] {
            if s.tree_attempts[0] {
                assert(0 <= 0 < 3 && s.tree_attempts[0]);
            } else if s.tree_attempts[1] {
                assert(0 <= 1 < 3 && s.tree_attempts[1]);
            } else {
                assert(0 <= 2 < 3 && s.tree_attempts[2]);
            }
        }
    }
    assert(hit == (s.tree_attempts[0] || s.tree_attempts[1] || s.tree_attempts[2]));
    !s.sand && x >= 2 && x < CHUNK_WIDTH - 2 && z >= 2 && z < CHUNK_WIDTH - 2 && hit
}

/// Trunk top (exclusive) and canopy top (exclusive) of a tree in this column.
pub fn canopy_span(s: &ColumnSample) -> (r: (usize, usize))
    ensures
        (r.0 as int, r.1 as int) == canopy_span_of(*s),
        r.0 <= r.1 < CHUNK_HEIGHT,
{
    let h = column_height_of(s);
    let top = CHUNK_HEIGHT - 1;
    let lower = if s.trunk_height >= top - h {
        top
    } else {
        h + s.trunk_height
    };
    let upper = if s.trunk_height >= top - h || s.trunk_height + CANOPY_HEIGHT >= top - h {
        top
    } else {
        h + s.trunk_height + CANOPY_HEIGHT
    };
    (lower, upper)
}

proof fn lemma_apply_push(g: Seq<BlockType>, ws: Seq<CellWrite>, w: CellWrite)
    ensures
        apply_writes(g, ws.push(w)) == apply_writes(g, ws).update(w.0, w.1),
{
    assert(ws.push(w).drop_last() =~= ws);
}

proof fn lemma_apply_append(g: Seq<BlockType>, a: Seq<CellWrite>, b: Seq<CellWrite>)
    ensures
        apply_writes(g, a + b) == apply_writes(apply_writes(g, a), b),
    decreases b.len(),
{
    if b.len() == 0 {
        assert(a + b =~= a);
    } else {
        lemma_apply_append(g, a, b.drop_last());
        assert((a + b).drop_last() =~= a + b.drop_last());
        assert((a + b).last() == b.last());
    }
}

/// Write `b` at cell `i`.
fn write_cell(cells: &mut Vec<BlockType>, i: usize, b: BlockType, ws: Ghost<Seq<CellWrite>>, g: Ghost<Seq<BlockType>>)
    requires
        old(cells)@ == apply_writes(g@, ws@),
        i < old(cells)@.len(),
    ensures
        final(cells)@ == apply_writes(g@, ws@.push((i as int, b))),
        final(cells)@.len() == old(cells)@.len(),
{
    cells.set(i, b);
    proof {
        lemma_apply_push(g@, ws@, (i as int, b));
    }
}

/// Plant the tree of column `(x, z)`, if one grows there, into a chunk's cells.
fn plant_tree(cells: &mut Vec<BlockType>, s: &ColumnSample, x: usize, z: usize)
    requires
        old(cells)@.len() == CHUNK_WIDTH * CHUNK_HEIGHT * CHUNK_WIDTH,
        x < CHUNK_WIDTH,
        z < CHUNK_WIDTH,
    ensures
        final(cells)@ == apply_writes(old(cells)@, tree_writes(*s, x as int, z as int)),
        final(cells)@.len() == old(cells)@.len(),
{
    let ghost g0 = cells@;
    if !grows_tree(s, x, z) {
        return;
    }
    let h = column_height_of(s);
    let (lower, upper) = canopy_span(s);
    let ghost trunk = Seq::new(
        (if lower > h {
            lower - h
        } else {
            0
        }) as nat,
        |i: int| (cell(x as int, h + i, z as int), BlockType::Wood),
    );
    let mut y: usize = h;
    proof {
        assert(trunk.take(0) =~= Seq::<CellWrite>::empty());
    }
    while y < lower
        invariant
            h <= y,
            y <= lower || y == h,
            lower < CHUNK_HEIGHT,
            x < CHUNK_WIDTH,
            z < CHUNK_WIDTH,
            cells@.len() == CHUNK_WIDTH * CHUNK_HEIGHT * CHUNK_WIDTH,
            trunk.len() == if lower > h {
                lower - h
            } else {
                0
            },
            forall|i: int| 0 <= i < trunk.len() ==> #[trigger] trunk[i] == (cell(x as int, h + i, z as int), BlockType::Wood),
            cells@ == apply_writes(g0, trunk.take(y - h)),
        decreases lower - y,
    {
        let i = x + 16 * (y + 32 * z);
        proof {
            crate::voxel::lemma_linear_index_bounds(16, 32, 16, x as int, y as int, z as int);
            assert(trunk.take(y - h + 1) =~= trunk.take(y - h).push(trunk[y - h]));
        }
        write_cell(cells, i, BlockType::Wood, Ghost(trunk.take(y - h)), Ghost(g0));
        y = y + 1;
    }
    proof {
        assert(trunk.take(trunk.len() as int) =~= trunk);
        if lower <= h {
            assert(trunk.take(y - h) =~= trunk);
        }
    }
    let n: usize = (upper - lower) * 64;
    let mut k: usize = 0;
    assert(trunk + leaf_writes(*s, x as int, z as int, lower as int, 0) =~= trunk);
    while k < n
        invariant
            k <= n,
            n == (upper - lower) * 64,
            lower <= upper < CHUNK_HEIGHT,
            x < CHUNK_WIDTH,
            z < CHUNK_WIDTH,
            cells@.len() == CHUNK_WIDTH * CHUNK_HEIGHT * CHUNK_WIDTH,
            cells@ == apply_writes(g0, trunk + leaf_writes(*s, x as int, z as int, lower as int, k as int)),
        decreases n - k,
    {
        let ghost ws = trunk + leaf_writes(*s, x as int, z as int, lower as int, k as int);
        if k < s.canopy.len() && s.canopy[k] {
            let a: i64 = ((k / 8) % 8) as i64 - 4;
            let b: i64 = (k % 8) as i64 - 4;
            let lx = clamp_i64(x as i64 - a, 0, 15) as usize;
            let lz = clamp_i64(z as i64 - b, 0, 15) as usize;
            assert(k / 64 < upper - lower) by (nonlinear_arith)
                requires
                    k < (upper - lower) * 64,
            ;
            let ly = lower + k / 64;
            let i = lx + 16 * (ly + 32 * lz);
            proof {
                crate::voxel::lemma_linear_index_bounds(16, 32, 16, lx as int, ly as int, lz as int);
                assert(i as int == leaf_cell(x as int, z as int, lower as int, k as int));
                assert(ws.push((i as int, BlockType::Leaves)) =~= trunk + leaf_writes(
                    *s,
                    x as int,
                    z as int,
                    lower as int,
                    k + 1,
                ));
            }
            write_cell(cells, i, BlockType::Leaves, Ghost(ws), Ghost(g0));
        } else {
            assert(ws =~= trunk + leaf_writes(*s, x as int, z as int, lower as int, k + 1));
        }
        k = k + 1;
    }
}

fn clamp_i64(v: i64, lo: i64, hi: i64) -> (r: i64)
    requires
        lo <= hi,
    ensures
        r == clamp(v as int, lo as int, hi as int),
{
    if v < lo {
        lo
    } else if v > hi {
        hi
    } else {
        v
    }
}

/// Fill the chunk at `at` from the noise samples of its columns (column
/// `(x, z)` at `x * CHUNK_WIDTH + z`): terrain and bedrock first, then the
/// trees column by column. Every position is clamped into the chunk before it
/// is written. The result depends on the coordinate and the samples alone.
pub fn generate(at: ChunkCoord, samples: &Vec<ColumnSample>) -> (r: GameChunk)
    requires
        samples@.len() == CHUNK_WIDTH * CHUNK_WIDTH,
    ensures
        generated_chunk(at, samples@, r),
{
    let ghost t = terrain_grid(samples@);
    let total: usize = CHUNK_WIDTH * CHUNK_HEIGHT * CHUNK_WIDTH;
    let mut cells: Vec<BlockType> = Vec::with_capacity(total);
    let mut i: usize = 0;
    while i < total
        invariant
            total == 8192,
            i <= total,
            samples@.len() == 256,
            t == terrain_grid(samples@),
            cells@ == t.take(i as int),
        decreases total - i,
    {
        let x = i % 16;
        let y = (i / 16) % 32;
        let z = i / 512;
        let b = terrain_block_of(&samples[x * 16 + z], y);
        cells.push(b);
        i = i + 1;
        assert(cells@ =~= t.take(i as int));
    }
    assert(t.take(8192) =~= t);
    assert(forest_writes(samples@, 0) =~= Seq::<CellWrite>::empty());
    let mut ci: usize = 0;
    while ci < 256
        invariant
            ci <= 256,
            samples@.len() == 256,
            cells@.len() == 8192,
            cells@ == apply_writes(t, forest_writes(samples@, ci as int)),
        decreases 256 - ci,
    {
        let x = ci / 16;
        let z = ci % 16;
        let ghost before = cells@;
        plant_tree(&mut cells, &samples[ci], x, z);
        proof {
            lemma_apply_append(
                t,
                forest_writes(samples@, ci as int),
                tree_writes(samples@[ci as int], x as int, z as int),
            );
        }
        ci = ci + 1;
    }
    GameChunk {
        voxel: VoxelChunk { cells, width: CHUNK_WIDTH, height: CHUNK_HEIGHT, depth: CHUNK_WIDTH },
        index: at,
    }
}

/// What `generate` returns for chunk `at` and column samples `samples`: a
/// chunk of the default shape at `at` whose grid is the generated one.
pub open spec fn generated_chunk(at: ChunkCoord, samples: Seq<ColumnSample>, r: GameChunk) -> bool {
    &&& r.wf()
    &&& r.index == at
    &&& r.voxel.cells@ == generated_grid(samples)
}

/// Generation is deterministic: two chunks generated for the same coordinate
/// from the same samples have the same coordinate, the same shape and the same
/// block in every cell.
pub proof fn lemma_generation_deterministic(
    at: ChunkCoord,
    samples: Seq<ColumnSample>,
    r1: GameChunk,
    r2: GameChunk,
)
    requires
        generated_chunk(at, samples, r1),
        generated_chunk(at, samples, r2),
    ensures
        r1.index == r2.index,
        r1.voxel.width == r2.voxel.width && r1.voxel.height == r2.voxel.height
            && r1.voxel.depth == r2.voxel.depth,
        r1.voxel.cells@ == r2.voxel.cells@,
        forall|x: int, y: int, z: int|
            r1.voxel.in_bounds(x, y, z) ==> #[trigger] r1.voxel.at(x, y, z) == r2.voxel.at(x, y, z),
{
}

} // verus!
