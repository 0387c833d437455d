//! Fixed-shape voxel grids, chunks and the mapping between world positions,
//! chunk coordinates and voxel indices.
use vstd::prelude::*;

use crate::blocks::BlockType;

verus! {

/// Lateral edge length of a world chunk, in voxels.
pub const CHUNK_WIDTH: usize = 16;

/// Vertical extent of a world chunk (and of the world), in voxels.
pub const CHUNK_HEIGHT: usize = 32;

/// Resolution of a `Position`: one voxel edge spans this many units.
pub const UNITS_PER_VOXEL: i64 = 1000;

/// Largest magnitude of a `Position` coordinate, in units (two billion voxels).
pub const MAX_POSITION: i64 = 2_000_000_000_000;

/// Lateral coordinate of a chunk; `y` runs along the world's z axis.
#[derive(Clone, Copy, Debug, PartialEq, Eq, Hash, Structural)]
pub struct ChunkCoord {
    pub x: i32,
    pub y: i32,
}

/// Index of a voxel inside its chunk.
#[derive(Clone, Copy, Debug, PartialEq, Eq, Hash, Structural)]
pub struct VoxelIndex {
    pub x: u32,
    pub y: u32,
    pub z: u32,
}

/// Absolute integer coordinate of a voxel, or an integer offset such as a face normal.
#[derive(Clone, Copy, Debug, PartialEq, Eq, Hash, Structural)]
pub struct WorldPos {
    pub x: i32,
    pub y: i32,
    pub z: i32,
}

/// A point in the world, or a direction, in fixed point: `UNITS_PER_VOXEL`
/// units per voxel edge.
#[derive(Clone, Copy, Debug, PartialEq, Eq, Hash, Structural)]
pub struct Position {
    pub x: i64,
    pub y: i64,
    pub z: i64,
}

/// Failure of a bounds-checked grid access.
#[derive(Clone, Copy, Debug, PartialEq, Eq, Structural)]
pub enum VoxelError {
    IndexOutOfBounds,
}

impl ChunkCoord {
    pub fn new(x: i32, y: i32) -> (r: ChunkCoord)
        ensures
            r.x == x && r.y == y,
    {
        ChunkCoord { x, y }
    }
}

impl VoxelIndex {
    pub fn new(x: u32, y: u32, z: u32) -> (r: VoxelIndex)
        ensures
            r.x == x && r.y == y && r.z == z,
    {
        VoxelIndex { x, y, z }
    }
}

impl WorldPos {
    pub fn new(x: i32, y: i32, z: i32) -> (r: WorldPos)
        ensures
            r.x == x && r.y == y && r.z == z,
    {
        WorldPos { x, y, z }
    }

    /// The chunk, for chunks `width` voxels wide, that holds this voxel.
    pub fn in_chunk(&self, width: u32) -> (r: ChunkCoord)
        requires
            width > 0,
        ensures
            r.x == self.x as int / width as int,
            r.y == self.z as int / width as int,
    {
        proof {
            assert(-2147483648 <= self.x as int / width as int <= 2147483647) by (nonlinear_arith)
                requires
                    -2147483648 <= self.x <= 2147483647,
                    width > 0,
            ;
            assert(-2147483648 <= self.z as int / width as int <= 2147483647) by (nonlinear_arith)
                requires
                    -2147483648 <= self.z <= 2147483647,
                    width > 0,
            ;
        }
        ChunkCoord {
            x: floor_div(self.x as i64, width as i64) as i32,
            y: floor_div(self.z as i64, width as i64) as i32,
        }
    }
}

/// Absolute voxel coordinate of voxel `index` of chunk `chunk`.
pub open spec fn absolute_of(chunk: ChunkCoord, index: VoxelIndex) -> (int, int, int) {
    (
        chunk.x * CHUNK_WIDTH as int + index.x,
        index.y as int,
        chunk.y * CHUNK_WIDTH as int + index.z,
    )
}

/// Whether the absolute coordinate of `index` in `chunk` fits in an `i32`.
pub open spec fn absolute_fits(chunk: ChunkCoord, index: VoxelIndex) -> bool {
    let a = absolute_of(chunk, index);
    &&& i32::MIN <= a.0 <= i32::MAX
    &&& a.1 <= i32::MAX
    &&& i32::MIN <= a.2 <= i32::MAX
}

/// Convert a chunk coordinate and voxel index to an absolute voxel coordinate.
pub fn index_to_absolut(chunk: ChunkCoord, index: VoxelIndex) -> (r: WorldPos)
    requires
        absolute_fits(chunk, index),
    ensures
        (r.x as int, r.y as int, r.z as int) == absolute_of(chunk, index),
{
    let x = chunk.x as i64 * CHUNK_WIDTH as i64 + index.x as i64;
    let z = chunk.y as i64 * CHUNK_WIDTH as i64 + index.z as i64;
    WorldPos { x: x as i32, y: index.y as i32, z: z as i32 }
}

/// Split an absolute position into its chunk and the voxel index inside it.
/// Positions below the world floor get vertical index 0.
pub fn absolut_to_index(position: &Position) -> (r: (ChunkCoord, VoxelIndex))
    requires
        position.wf(),
    ensures
        r.0.x == chunk_of_units(position.x as int, CHUNK_WIDTH as int),
        r.0.y == chunk_of_units(position.z as int, CHUNK_WIDTH as int),
        r.1.x == voxel_of(position.x as int) % CHUNK_WIDTH as int,
        r.1.y == if voxel_of(position.y as int) < 0 { 0 } else { voxel_of(position.y as int) },
        r.1.z == voxel_of(position.z as int) % CHUNK_WIDTH as int,
{
    proof {
        lemma_chunk_of_units_bounds(position.x as int, CHUNK_WIDTH as int);
        lemma_chunk_of_units_bounds(position.y as int, CHUNK_WIDTH as int);
        lemma_chunk_of_units_bounds(position.z as int, CHUNK_WIDTH as int);
    }
    let chunk = position.in_chunk(CHUNK_WIDTH as u32);
    let vx = floor_div(position.x, UNITS_PER_VOXEL);
    let vy = floor_div(position.y, UNITS_PER_VOXEL);
    let vz = floor_div(position.z, UNITS_PER_VOXEL);
    let iy: u32 = if vy < 0 {
        0
    } else {
        vy as u32
    };
    (
        chunk,
        VoxelIndex {
            x: floor_mod(vx, CHUNK_WIDTH as i64) as u32,
            y: iy,
            z: floor_mod(vz, CHUNK_WIDTH as i64) as u32,
        },
    )
}

/// Split an absolute voxel coordinate into its chunk and the voxel index inside it.
/// Coordinates below the world floor get vertical index 0.
pub fn absolut_to_index_i32(position: &WorldPos) -> (r: (ChunkCoord, VoxelIndex))
    ensures
        r.0.x == position.x as int / CHUNK_WIDTH as int,
        r.0.y == position.z as int / CHUNK_WIDTH as int,
        r.1.x == position.x as int % CHUNK_WIDTH as int,
        r.1.y == if position.y < 0 { 0 } else { position.y as int },
        r.1.z == position.z as int % CHUNK_WIDTH as int,
        absolute_of(r.0, r.1) == (position.x as int, r.1.y as int, position.z as int),
{
    let chunk = position.in_chunk(CHUNK_WIDTH as u32);
    let iy: u32 = if position.y < 0 {
        0
    } else {
        position.y as u32
    };
    let ix = floor_mod(position.x as i64, CHUNK_WIDTH as i64);
    let iz = floor_mod(position.z as i64, CHUNK_WIDTH as i64);
    proof {
        vstd::arithmetic::div_mod::lemma_fundamental_div_mod(position.x as int, CHUNK_WIDTH as int);
        vstd::arithmetic::div_mod::lemma_fundamental_div_mod(position.z as int, CHUNK_WIDTH as int);
    }
    (chunk, VoxelIndex { x: ix as u32, y: iy, z: iz as u32 })
}

/// The voxel coordinate (floor) of a position coordinate in units.
pub open spec fn voxel_of(u: int) -> int {
    u / (UNITS_PER_VOXEL as int)
}

/// Which chunk a coordinate in units falls in, for chunks `width` voxels wide:
/// the floor of the voxel coordinate divided by the width.
pub open spec fn chunk_of_units(u: int, width: int) -> int {
    voxel_of(u) / width
}

impl Position {
    pub open spec fn wf(&self) -> bool {
        &&& -MAX_POSITION <= self.x <= MAX_POSITION
        &&& -MAX_POSITION <= self.y <= MAX_POSITION
        &&& -MAX_POSITION <= self.z <= MAX_POSITION
    }

    pub fn new(x: i64, y: i64, z: i64) -> (r: Position)
        ensures
            r.x == x && r.y == y && r.z == z,
    {
        Position { x, y, z }
    }

    /// The chunk, for chunks `width` voxels wide, that holds this position:
    /// the floor of each lateral coordinate divided by the chunk width.
    pub fn in_chunk(&self, width: u32) -> (r: ChunkCoord)
        requires
            self.wf(),
            width > 0,
        ensures
            r.x == chunk_of_units(self.x as int, width as int),
            r.y == chunk_of_units(self.z as int, width as int),
    {
        proof {
            lemma_chunk_of_units_bounds(self.x as int, width as int);
            lemma_chunk_of_units_bounds(self.z as int, width as int);
        }
        let vx = floor_div(self.x, UNITS_PER_VOXEL);
        let vz = floor_div(self.z, UNITS_PER_VOXEL);
        ChunkCoord { x: floor_div(vx, width as i64) as i32, y: floor_div(vz, width as i64) as i32 }
    }
}

/// Chunk indices of in-range positions fit an `i32` with room for a neighbour on each side.
pub proof fn lemma_chunk_of_units_bounds(u: int, width: int)
    requires
        -MAX_POSITION <= u <= MAX_POSITION,
        width > 0,
    ensures
        -2_000_000_001 <= chunk_of_units(u, width) <= 2_000_000_000,
        -2_000_000_001 <= voxel_of(u) <= 2_000_000_000,
{
    let v = u / 1000;
    assert(-2_000_000_001 <= v <= 2_000_000_000) by (nonlinear_arith)
        requires
            -2_000_000_000_000 <= u <= 2_000_000_000_000,
            v == u / 1000,
    ;
    assert(-2_000_000_001 <= v / width <= 2_000_000_000) by (nonlinear_arith)
        requires
            -2_000_000_001 <= v <= 2_000_000_000,
            width > 0,
    ;
}

/// Floor division: the quotient rounded toward negative infinity.
pub fn floor_div(a: i64, b: i64) -> (r: i64)
    requires
        b > 0,
    ensures
        r == a as int / b as int,
{
    proof {
        assert(a >= 0 ==> 0 <= (a as int) / (b as int) <= (a as int)) by (nonlinear_arith)
            requires
                b > 0,
        ;
        assert(a < 0 ==> (a as int) <= (a as int) / (b as int) < 0) by (nonlinear_arith)
            requires
                b > 0,
        ;
    }
    match a.checked_div_euclid(b) {
        Some(q) => q,
        None => 0,
    }
}

/// Floor remainder: always in `0..b`.
pub fn floor_mod(a: i64, b: i64) -> (r: i64)
    requires
        b > 0,
    ensures
        r == a as int % b as int,
        0 <= r < b,
{
    match a.checked_rem_euclid(b) {
        Some(m) => m,
        None => 0,
    }
}

/// Dense fixed-shape grid, stored flat with `x` varying fastest:
/// cell `(x, y, z)` lives at `x + width * (y + height * z)`.
pub struct VoxelChunk<T> {
    pub cells: Vec<T>,
    pub width: usize,
    pub height: usize,
    pub depth: usize,
}

/// Position of cell `(x, y, z)` in the flat storage of a `w` by `h` grid.
pub open spec fn linear_index(w: int, h: int, x: int, y: int, z: int) -> int {
    x + w * (y + h * z)
}

pub proof fn lemma_linear_index_bounds(w: int, h: int, d: int, x: int, y: int, z: int)
    requires
        0 <= x < w,
        0 <= y < h,
        0 <= z < d,
    ensures
        0 <= linear_index(w, h, x, y, z) < w * h * d,
        0 <= h * z <= y + h * z,
        y + h * z < h * d <= w * h * d,
        0 <= w * (y + h * z) <= linear_index(w, h, x, y, z),
{
    assert(0 <= h * z <= y + h * z) by (nonlinear_arith)
        requires
            0 <= y < h,
            0 <= z < d,
    ;
    assert(y + h * z < h * d <= w * h * d) by (nonlinear_arith)
        requires
            0 <= x < w,
            0 <= y < h,
            0 <= z < d,
    ;
    assert(0 <= w * (y + h * z)) by (nonlinear_arith)
        requires
            0 <= x < w,
            0 <= y + h * z,
    ;
    assert(0 <= x + w * (y + h * z) < w * h * d) by (nonlinear_arith)
        requires
            0 <= x < w,
            0 <= y < h,
            0 <= z < d,
    ;
}

pub proof fn lemma_linear_index_injective(
    w: int,
    h: int,
    x1: int,
    y1: int,
    z1: int,
    x2: int,
    y2: int,
    z2: int,
)
    requires
        0 <= x1 < w,
        0 <= y1 < h,
        0 <= z1,
        0 <= x2 < w,
        0 <= y2 < h,
        0 <= z2,
        linear_index(w, h, x1, y1, z1) == linear_index(w, h, x2, y2, z2),
    ensures
        x1 == x2 && y1 == y2 && z1 == z2,
{
    let r1 = y1 + h * z1;
    let r2 = y2 + h * z2;
    assert(x1 == x2 && r1 == r2) by (nonlinear_arith)
        requires
            0 <= x1 < w,
            0 <= x2 < w,
            r1 >= 0,
            r2 >= 0,
            x1 + w * r1 == x2 + w * r2,
    ;
    assert(y1 == y2 && z1 == z2) by (nonlinear_arith)
        requires
            0 <= y1 < h,
            0 <= y2 < h,
            z1 >= 0,
            z2 >= 0,
            y1 + h * z1 == y2 + h * z2,
    ;
}

impl<T: Copy> VoxelChunk<T> {
    pub open spec fn wf(&self) -> bool {
        self.cells@.len() == self.width * self.height * self.depth
    }

    pub open spec fn in_bounds(&self, x: int, y: int, z: int) -> bool {
        0 <= x < self.width && 0 <= y < self.height && 0 <= z < self.depth
    }

    pub open spec fn idx(&self, x: int, y: int, z: int) -> int {
        linear_index(self.width as int, self.height as int, x, y, z)
    }

    /// The value of cell `(x, y, z)`.
    pub open spec fn at(&self, x: int, y: int, z: int) -> T {
        self.cells@[self.idx(x, y, z)]
    }

    pub proof fn lemma_idx(&self, x: int, y: int, z: int)
        requires
            self.wf(),
            self.in_bounds(x, y, z),
        ensures
            0 <= self.idx(x, y, z) < self.cells@.len(),
            0 <= self.height * z <= y + self.height * z,
            y + self.height * z < self.cells@.len(),
            0 <= self.width * (y + self.height * z) <= self.idx(x, y, z),
    {
        lemma_linear_index_bounds(
            self.width as int,
            self.height as int,
            self.depth as int,
            x,
            y,
            z,
        );
    }

    /// A grid of the given shape with every cell set to `fill`.
    pub fn new(size: [usize; 3], fill: T) -> (r: VoxelChunk<T>)
        requires
            size[0] * size[1] * size[2] <= usize::MAX,
        ensures
            r.wf(),
            r.width == size[0] && r.height == size[1] && r.depth == size[2],
            forall|i: int| 0 <= i < r.cells@.len() ==> r.cells@[i] == fill,
    {
        let w = size[0];
        let h = size[1];
        let d = size[2];
        assert(w * h <= w * h * d || d == 0) by (nonlinear_arith)
            requires
                w >= 0,
                h >= 0,
                d >= 0,
        ;
        let n: usize = if d == 0 {
            0
        } else {
            w * h * d
        };
        proof {
            if d == 0 {
                assert(w * h * d == 0) by (nonlinear_arith)
                    requires
                        d == 0,
                ;
            }
        }
        let mut cells: Vec<T> = Vec::with_capacity(n);
        let mut i: usize = 0;
        while i < n
            invariant
                i <= n,
                cells@.len() == i,
                forall|j: int| 0 <= j < i ==> cells@[j] == fill,
            decreases n - i,
        {
            cells.push(fill);
            i = i + 1;
        }
        VoxelChunk { cells, width: w, height: h, depth: d }
    }

    pub fn shape(&self) -> (r: [usize; 3])
        ensures
            r[0] == self.width && r[1] == self.height && r[2] == self.depth,
    {
        [self.width, self.height, self.depth]
    }

    pub fn width(&self) -> (r: usize)
        ensures
            r == self.width,
    {
        self.width
    }

    pub fn height(&self) -> (r: usize)
        ensures
            r == self.height,
    {
        self.height
    }

    pub fn depth(&self) -> (r: usize)
        ensures
            r == self.depth,
    {
        self.depth
    }

    /// The cell at `(x, y, z)`, or `IndexOutOfBounds` when it lies outside the shape.
    pub fn get(&self, x: usize, y: usize, z: usize) -> (r: Result<T, VoxelError>)
        requires
            self.wf(),
        ensures
            self.in_bounds(x as int, y as int, z as int) ==> r == Ok::<T, VoxelError>(
                self.at(x as int, y as int, z as int),
            ),
            !self.in_bounds(x as int, y as int, z as int) ==> r == Err::<T, VoxelError>(
                VoxelError::IndexOutOfBounds,
            ),
    {
        if x >= self.width || y >= self.height || z >= self.depth {
            return Err(VoxelError::IndexOutOfBounds);
        }
        let _n = self.cells.len();
        proof {
            self.lemma_idx(x as int, y as int, z as int);
        }
        Ok(self.cells[x + self.width * (y + self.height * z)])
    }

    /// Overwrite the cell at `(x, y, z)`; out-of-shape indices leave the grid unchanged.
    pub fn set(&mut self, x: usize, y: usize, z: usize, value: T) -> (r: Result<(), VoxelError>)
        requires
            old(self).wf(),
        ensures
            final(self).wf(),
            final(self).width == old(self).width,
            final(self).height == old(self).height,
            final(self).depth == old(self).depth,
            old(self).in_bounds(x as int, y as int, z as int) ==> r == Ok::<(), VoxelError>(())
                && final(self).cells@ == old(self).cells@.update(
                old(self).idx(x as int, y as int, z as int),
                value,
            ),
            !old(self).in_bounds(x as int, y as int, z as int) ==> r == Err::<(), VoxelError>(
                VoxelError::IndexOutOfBounds,
            ) && final(self).cells@ == old(self).cells@,
    {
        if x >= self.width || y >= self.height || z >= self.depth {
            return Err(VoxelError::IndexOutOfBounds);
        }
        let _n = self.cells.len();
        proof {
            self.lemma_idx(x as int, y as int, z as int);
        }
        let i = x + self.width * (y + self.height * z);
        self.cells.set(i, value);
        Ok(())
    }

    /// The cell at a signed index, or `None` outside the shape.
    pub fn safe_get(&self, x: i32, y: i32, z: i32) -> (r: Option<T>)
        requires
            self.wf(),
        ensures
            self.in_bounds(x as int, y as int, z as int) ==> r == Some(
                self.at(x as int, y as int, z as int),
            ),
            !self.in_bounds(x as int, y as int, z as int) ==> r is None,
    {
        if x < 0 || y < 0 || z < 0 {
            return None;
        }
        match self.get(x as usize, y as usize, z as usize) {
            Ok(v) => Some(v),
            Err(_) => None,
        }
    }
    /// The `k`-th cell in enumeration order: `x` slowest, `z` fastest.
    pub open spec fn enum_cell(&self, k: int) -> (int, int, int) {
        (
            k / (self.height * self.depth) as int,
            (k / self.depth as int) % (self.height as int),
            k % (self.depth as int),
        )
    }

    /// Entry `e` is the `k`-th cell in enumeration order, with its value.
    pub open spec fn enum_entry(&self, k: int, e: ((usize, usize, usize), T)) -> bool {
        let c = self.enum_cell(k);
        &&& self.in_bounds(c.0, c.1, c.2)
        &&& e.0 == (c.0 as usize, c.1 as usize, c.2 as usize)
        &&& e.1 == self.at(c.0, c.1, c.2)
    }

    pub proof fn lemma_enum_cell(&self, k: int)
        requires
            self.wf(),
            0 <= k < self.cells@.len(),
        ensures
            self.in_bounds(self.enum_cell(k).0, self.enum_cell(k).1, self.enum_cell(k).2),
            0 < self.height * self.depth <= self.cells@.len(),
    {
        let w = self.width as int;
        let h = self.height as int;
        let d = self.depth as int;
        let hd = self.height * self.depth;
        assert(hd == h * d);
        assert(w * h * d == w * (h * d)) by (nonlinear_arith);
        assert(h > 0 && d > 0 && hd > 0) by (nonlinear_arith)
            requires
                0 <= k < w * h * d,
                w >= 0,
                h >= 0,
                d >= 0,
                hd == h * d,
        ;
        assert(hd <= w * hd) by (nonlinear_arith)
            requires
                0 <= k < w * hd,
                hd > 0,
        ;
        assert(0 <= k / hd < w) by (nonlinear_arith)
            requires
                0 <= k < w * hd,
                hd > 0,
        ;
        assert(0 <= (k / d) % h < h) by (nonlinear_arith)
            requires
                k >= 0,
                d > 0,
                h > 0,
        ;
        assert(0 <= k % d < d) by (nonlinear_arith)
            requires
                k >= 0,
                d > 0,
        ;
    }

    /// Every cell with its index, in enumeration order (`x` slowest, `z`
    /// fastest); the same order on every call.
    pub fn indexed_iter(&self) -> (r: Vec<((usize, usize, usize), T)>)
        requires
            self.wf(),
        ensures
            r@.len() == self.cells@.len(),
            forall|k: int|
                0 <= k < r@.len() ==> self.enum_entry(k, #[trigger] r@[k]),
    {
        let n = self.cells.len();
        let mut out: Vec<((usize, usize, usize), T)> = Vec::with_capacity(n);
        let mut k: usize = 0;
        while k < n
            invariant
                self.wf(),
                n == self.cells@.len(),
                k <= n,
                out@.len() == k,
                forall|j: int|
                    0 <= j < k ==> self.enum_entry(j, #[trigger] out@[j]),
            decreases n - k,
        {
            proof {
                self.lemma_enum_cell(k as int);
            }
            let hd = self.height * self.depth;
            let x = k / hd;
            let y = (k / self.depth) % self.height;
            let z = k % self.depth;
            let v = match self.get(x, y, z) {
                Ok(v) => v,
                Err(_) => self.cells[0],
            };
            let ghost prev = out@;
            assert(x as int == self.enum_cell(k as int).0);
            assert(y as int == self.enum_cell(k as int).1);
            assert(z as int == self.enum_cell(k as int).2);
            out.push(((x, y, z), v));
            proof {
                assert forall|j: int|
                    0 <= j < k + 1 implies self.enum_entry(j, #[trigger] out@[j]) by {
                    if j == k {
                        assert(out@[j] == ((x, y, z), v));
                    } else {
                        assert(out@[j] == prev[j]);
                    }
                }
            }
            k = k + 1;
        }
        out
    }
}

impl VoxelChunk<BlockType> {
    /// An all-`Air` grid of the given shape.
    pub fn air(size: [usize; 3]) -> (r: VoxelChunk<BlockType>)
        requires
            size[0] * size[1] * size[2] <= usize::MAX,
        ensures
            r.wf(),
            r.width == size[0] && r.height == size[1] && r.depth == size[2],
            forall|i: int| 0 <= i < r.cells@.len() ==> r.cells@[i] == BlockType::Air,
    {
        VoxelChunk::new(size, BlockType::Air)
    }
}

/// The default shape of a world chunk.
pub fn chunk_shape() -> (r: [usize; 3])
    ensures
        r[0] == CHUNK_WIDTH && r[1] == CHUNK_HEIGHT && r[2] == CHUNK_WIDTH,
{
    [CHUNK_WIDTH, CHUNK_HEIGHT, CHUNK_WIDTH]
}

/// A chunk of the world: its voxel grid and its coordinate.
pub struct GameChunk {
    pub voxel: VoxelChunk<BlockType>,
    pub index: ChunkCoord,
}

impl GameChunk {
    /// A well-formed world chunk has the default chunk shape.
    pub open spec fn wf(&self) -> bool {
        &&& self.voxel.wf()
        &&& self.voxel.width == CHUNK_WIDTH
        &&& self.voxel.height == CHUNK_HEIGHT
        &&& self.voxel.depth == CHUNK_WIDTH
    }
}

} // verus!
