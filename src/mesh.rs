//! Face-culled geometry of a chunk.
use vstd::prelude::*;

use crate::blocks::{
    is_renderable, mesh_group_of, properties, texture_layer, texture_layer_of, BlockType, Face,
    MeshGroup,
};
use crate::voxel::{GameChunk, VoxelChunk, WorldPos, CHUNK_HEIGHT, CHUNK_WIDTH};

verus! {

/// A texture coordinate of a quad corner.
#[derive(Clone, Copy, Debug, PartialEq, Eq, Structural)]
pub struct Uv {
    pub u: i32,
    pub v: i32,
}

/// Geometry of one mesh group of a chunk: four vertices per emitted face,
/// each with position, outward normal, texture coordinate and texture layer,
/// and six triangle-list indices per face.
pub struct MeshData {
    pub positions: Vec<WorldPos>,
    pub normals: Vec<WorldPos>,
    pub uvs: Vec<Uv>,
    pub indices: Vec<u32>,
    pub layer: Vec<u32>,
}

/// A face of a voxel: its cell `(x, y, z)` and which face.
pub type FaceRef = (int, int, int, Face);

/// The order in which the faces of a voxel are visited.
pub open spec fn face_order(f: int) -> Face {
    if f == 0 {
        Face::Top
    } else if f == 1 {
        Face::Bottom
    } else if f == 2 {
        Face::Front
    } else if f == 3 {
        Face::Back
    } else if f == 4 {
        Face::Left
    } else {
        Face::Right
    }
}

/// Position of a face in `face_order`.
pub open spec fn face_num(face: Face) -> int {
    match face {
        Face::Top => 0,
        Face::Bottom => 1,
        Face::Front => 2,
        Face::Back => 3,
        Face::Left => 4,
        Face::Right => 5,
    }
}

/// Outward unit normal of a face.
pub open spec fn normal_of(face: Face) -> (int, int, int) {
    match face {
        Face::Top => (0, 1, 0),
        Face::Bottom => (0, -1, 0),
        Face::Front => (-1, 0, 0),
        Face::Back => (1, 0, 0),
        Face::Left => (0, 0, -1),
        Face::Right => (0, 0, 1),
    }
}

/// The face on the other side of a shared boundary.
pub open spec fn opposite(face: Face) -> Face {
    match face {
        Face::Top => Face::Bottom,
        Face::Bottom => Face::Top,
        Face::Front => Face::Back,
        Face::Back => Face::Front,
        Face::Left => Face::Right,
        Face::Right => Face::Left,
    }
}

/// Whether the cell across `face` of `(x, y, z)` lies in the grid and is drawn.
pub open spec fn neighbor_solid(g: VoxelChunk<BlockType>, x: int, y: int, z: int, face: Face) -> bool {
    let n = normal_of(face);
    g.in_bounds(x + n.0, y + n.1, z + n.2) && is_renderable(g.at(x + n.0, y + n.1, z + n.2))
}

/// A face is emitted when its voxel is drawn and the cell across it is empty,
/// not drawn, or outside the chunk.
pub open spec fn face_visible(g: VoxelChunk<BlockType>, x: int, y: int, z: int, face: Face) -> bool {
    is_renderable(g.at(x, y, z)) && !neighbor_solid(g, x, y, z, face)
}

/// The `k`-th cell in enumeration order: `x` slowest, `z` fastest.
pub open spec fn cell_of(g: VoxelChunk<BlockType>, k: int) -> (int, int, int) {
    (k / (g.height * g.depth), (k / g.depth as int) % (g.height as int), k % (g.depth as int))
}

/// The `q`-th (cell, face) pair: six faces per cell, cells in enumeration order.
pub open spec fn pair_of(g: VoxelChunk<BlockType>, q: int) -> FaceRef {
    let c = cell_of(g, q / 6);
    (c.0, c.1, c.2, face_order(q % 6))
}

/// Number of (cell, face) pairs of a grid.
pub open spec fn pair_count(g: VoxelChunk<BlockType>) -> int {
    g.width * g.height * g.depth * 6
}

/// The emitted faces among the first `q` pairs, in order.
pub open spec fn visible_faces_upto(g: VoxelChunk<BlockType>, q: int) -> Seq<FaceRef>
    decreases q,
{
    if q <= 0 {
        Seq::empty()
    } else {
        let prev = visible_faces_upto(g, q - 1);
        let p = pair_of(g, q - 1);
        if face_visible(g, p.0, p.1, p.2, p.3) {
            prev.push(p)
        } else {
            prev
        }
    }
}

/// All emitted faces of a grid, in enumeration order.
pub open spec fn visible_faces(g: VoxelChunk<BlockType>) -> Seq<FaceRef> {
    visible_faces_upto(g, pair_count(g))
}

pub open spec fn wpos(x: int, y: int, z: int) -> WorldPos {
    WorldPos { x: x as i32, y: y as i32, z: z as i32 }
}

/// The four corners of a face of the voxel at `(x, y, z)`: a corner `c`, then
/// `c + a + b`, `c + a` and `c + b` for the face's two edge directions `a`, `b`.
pub open spec fn quad_points(e: FaceRef) -> Seq<WorldPos> {
    let (x, y, z) = (e.0, e.1, e.2);
    match e.3 {
        Face::Top => seq![wpos(x, y + 1, z), wpos(x + 1, y + 1, z + 1), wpos(x + 1, y + 1, z), wpos(x, y + 1, z + 1)],
        Face::Bottom => seq![wpos(x, y, z), wpos(x + 1, y, z + 1), wpos(x, y, z + 1), wpos(x + 1, y, z)],
        Face::Front => seq![wpos(x, y, z), wpos(x, y + 1, z + 1), wpos(x, y + 1, z), wpos(x, y, z + 1)],
        Face::Back => seq![wpos(x + 1, y, z), wpos(x + 1, y + 1, z + 1), wpos(x + 1, y, z + 1), wpos(x + 1, y + 1, z)],
        Face::Left => seq![wpos(x, y, z), wpos(x + 1, y + 1, z), wpos(x + 1, y, z), wpos(x, y + 1, z)],
        Face::Right => seq![wpos(x, y, z + 1), wpos(x + 1, y + 1, z + 1), wpos(x, y + 1, z + 1), wpos(x + 1, y, z + 1)],
    }
}

/// The two canonical texture quads: one for top, front and right faces, one for the others.
pub open spec fn face_uvs(face: Face) -> Seq<Uv> {
    match face {
        Face::Top | Face::Front | Face::Right => seq![
            Uv { u: 0, v: 0 },
            Uv { u: 1, v: -1i32 },
            Uv { u: 0, v: -1i32 },
            Uv { u: 1, v: 0 },
        ],
        _ => seq![Uv { u: 0, v: 1 }, Uv { u: -1i32, v: 0 }, Uv { u: -1i32, v: 1 }, Uv { u: 0, v: 0 }],
    }
}

/// The two triangles of the `n`-th face, over its four vertices.
pub open spec fn face_indices(n: int) -> Seq<u32> {
    let c = 4 * n;
    seq![c as u32, (c + 1) as u32, (c + 2) as u32, (c + 1) as u32, c as u32, (c + 3) as u32]
}

pub open spec fn normal_pos(face: Face) -> WorldPos {
    let n = normal_of(face);
    wpos(n.0, n.1, n.2)
}

pub open spec fn mesh_positions(fs: Seq<FaceRef>) -> Seq<WorldPos>
    decreases fs.len(),
{
    if fs.len() == 0 {
        Seq::empty()
    } else {
        mesh_positions(fs.drop_last()) + quad_points(fs.last())
    }
}

pub open spec fn mesh_normals(fs: Seq<FaceRef>) -> Seq<WorldPos>
    decreases fs.len(),
{
    if fs.len() == 0 {
        Seq::empty()
    } else {
        mesh_normals(fs.drop_last()) + seq![normal_pos(fs.last().3); 4]
    }
}

pub open spec fn mesh_uvs(fs: Seq<FaceRef>) -> Seq<Uv>
    decreases fs.len(),
{
    if fs.len() == 0 {
        Seq::empty()
    } else {
        mesh_uvs(fs.drop_last()) + face_uvs(fs.last().3)
    }
}

pub open spec fn mesh_layers(g: VoxelChunk<BlockType>, fs: Seq<FaceRef>) -> Seq<u32>
    decreases fs.len(),
{
    if fs.len() == 0 {
        Seq::empty()
    } else {
        let e = fs.last();
        mesh_layers(g, fs.drop_last()) + seq![texture_layer_of(g.at(e.0, e.1, e.2), e.3); 4]
    }
}

pub open spec fn mesh_indices(fs: Seq<FaceRef>) -> Seq<u32>
    decreases fs.len(),
{
    if fs.len() == 0 {
        Seq::empty()
    } else {
        mesh_indices(fs.drop_last()) + face_indices(fs.len() - 1)
    }
}

/// The buffers describe exactly the faces `fs` of grid `g`, in order.
pub open spec fn mesh_matches(m: MeshData, g: VoxelChunk<BlockType>, fs: Seq<FaceRef>) -> bool {
    &&& m.positions@ == mesh_positions(fs)
    &&& m.normals@ == mesh_normals(fs)
    &&& m.uvs@ == mesh_uvs(fs)
    &&& m.layer@ == mesh_layers(g, fs)
    &&& m.indices@ == mesh_indices(fs)
}

/// The face a face number stands for.
fn face_from_num(f: usize) -> (r: Face)
    requires
        f < 6,
    ensures
        r == face_order(f as int),
{
    if f == 0 {
        Face::Top
    } else if f == 1 {
        Face::Bottom
    } else if f == 2 {
        Face::Front
    } else if f == 3 {
        Face::Back
    } else if f == 4 {
        Face::Left
    } else {
        Face::Right
    }
}

/// Outward unit normal of a face.
pub fn face_normal(face: Face) -> (r: WorldPos)
    ensures
        r == normal_pos(face),
        (r.x as int, r.y as int, r.z as int) == normal_of(face),
{
    match face {
        Face::Top => WorldPos { x: 0, y: 1, z: 0 },
        Face::Bottom => WorldPos { x: 0, y: -1, z: 0 },
        Face::Front => WorldPos { x: -1, y: 0, z: 0 },
        Face::Back => WorldPos { x: 1, y: 0, z: 0 },
        Face::Left => WorldPos { x: 0, y: 0, z: -1 },
        Face::Right => WorldPos { x: 0, y: 0, z: 1 },
    }
}

/// The four vertices of a face of the voxel at `index`. The first two or the
/// last two are the corners the face's two triangles share.
pub fn quad_to_points(index: WorldPos, face: Face) -> (r: [WorldPos; 4])
    requires
        index.x < i32::MAX && index.y < i32::MAX && index.z < i32::MAX,
    ensures
        r@ == quad_points((index.x as int, index.y as int, index.z as int, face)),
{
    let (x, y, z) = (index.x, index.y, index.z);
    let r = match face {
        Face::Top => [wp(x, y + 1, z), wp(x + 1, y + 1, z + 1), wp(x + 1, y + 1, z), wp(x, y + 1, z + 1)],
        Face::Bottom => [wp(x, y, z), wp(x + 1, y, z + 1), wp(x, y, z + 1), wp(x + 1, y, z)],
        Face::Front => [wp(x, y, z), wp(x, y + 1, z + 1), wp(x, y + 1, z), wp(x, y, z + 1)],
        Face::Back => [wp(x + 1, y, z), wp(x + 1, y + 1, z + 1), wp(x + 1, y, z + 1), wp(x + 1, y + 1, z)],
        Face::Left => [wp(x, y, z), wp(x + 1, y + 1, z), wp(x + 1, y, z), wp(x, y + 1, z)],
        Face::Right => [wp(x, y, z + 1), wp(x + 1, y + 1, z + 1), wp(x, y + 1, z + 1), wp(x + 1, y, z + 1)],
    };
    assert(r@ =~= quad_points((index.x as int, index.y as int, index.z as int, face)));
    r
}

fn wp(x: i32, y: i32, z: i32) -> (r: WorldPos)
    ensures
        r == wpos(x as int, y as int, z as int),
{
    WorldPos { x, y, z }
}

fn uv(u: i32, v: i32) -> (r: Uv)
    ensures
        r == (Uv { u, v }),
{
    Uv { u, v }
}

/// The texture quad of a face.
fn uvs_for(face: Face) -> (r: [Uv; 4])
    ensures
        r@ == face_uvs(face),
{
    let r = match face {
        Face::Top | Face::Front | Face::Right => [uv(0, 0), uv(1, -1), uv(0, -1), uv(1, 0)],
        _ => [uv(0, 1), uv(-1, 0), uv(-1, 1), uv(0, 0)],
    };
    assert(r@ =~= face_uvs(face));
    r
}

/// Append the geometry of face `e` of block `block` to `m`, as face number `n`.
fn push_face(m: &mut MeshData, e: WorldPos, face: Face, block: BlockType, n: u32)
    requires
        e.x < i32::MAX && e.y < i32::MAX && e.z < i32::MAX,
        n < 1_000_000,
    ensures
        final(m).positions@ == old(m).positions@ + quad_points(
            (e.x as int, e.y as int, e.z as int, face),
        ),
        final(m).normals@ == old(m).normals@ + seq![normal_pos(face); 4],
        final(m).uvs@ == old(m).uvs@ + face_uvs(face),
        final(m).layer@ == old(m).layer@ + seq![texture_layer_of(block, face); 4],
        final(m).indices@ == old(m).indices@ + face_indices(n as int),
{
    let pts = quad_to_points(e, face);
    let normal = face_normal(face);
    let uvs = uvs_for(face);
    let layer = texture_layer(block, face);
    let ghost p0 = m.positions@;
    let ghost n0 = m.normals@;
    let ghost u0 = m.uvs@;
    let ghost l0 = m.layer@;
    let ghost i0 = m.indices@;
    let mut j: usize = 0;
    while j < 4
        invariant
            j <= 4,
            pts@ == quad_points((e.x as int, e.y as int, e.z as int, face)),
            uvs@ == face_uvs(face),
            normal == normal_pos(face),
            layer == texture_layer_of(block, face),
            m.positions@ == p0 + pts@.take(j as int),
            m.normals@ == n0 + seq![normal_pos(face); 4].take(j as int),
            m.uvs@ == u0 + uvs@.take(j as int),
            m.layer@ == l0 + seq![texture_layer_of(block, face); 4].take(j as int),
            m.indices@ == i0,
        decreases 4 - j,
    {
        m.positions.push(pts[j]);
        m.normals.push(normal);
        m.uvs.push(uvs[j]);
        m.layer.push(layer);
        j = j + 1;
        assert(m.positions@ =~= p0 + pts@.take(j as int));
        assert(m.normals@ =~= n0 + seq![normal_pos(face); 4].take(j as int));
        assert(m.uvs@ =~= u0 + uvs@.take(j as int));
        assert(m.layer@ =~= l0 + seq![texture_layer_of(block, face); 4].take(j as int));
    }
    assert(pts@.take(4) =~= pts@);
    assert(uvs@.take(4) =~= uvs@);
    assert(seq![normal_pos(face); 4].take(4) =~= seq![normal_pos(face); 4]);
    assert(seq![texture_layer_of(block, face); 4].take(4) =~= seq![texture_layer_of(block, face); 4]);
    let c: u32 = 4 * n;
    m.indices.push(c);
    m.indices.push(c + 1);
    m.indices.push(c + 2);
    m.indices.push(c + 1);
    m.indices.push(c);
    m.indices.push(c + 3);
    assert(m.indices@ =~= i0 + face_indices(n as int));
}

impl GameChunk {
    /// Build the chunk's face-culled geometry, one entry per drawn mesh group.
    /// A face of a drawn voxel is emitted only when the cell across it is not
    /// drawn or lies outside the chunk. A group whose voxels emit no face maps
    /// to `None`.
    pub fn build(&self) -> (r: Vec<(MeshGroup, Option<MeshData>)>)
        requires
            self.wf(),
        ensures
            r@.len() == 1,
            r@[0].0 == MeshGroup::Cube,
            visible_faces(self.voxel).len() == 0 ==> r@[0].1 is None,
            visible_faces(self.voxel).len() > 0 ==> r@[0].1 is Some && mesh_matches(
                r@[0].1->0,
                self.voxel,
                visible_faces(self.voxel),
            ),
    {
        let g = &self.voxel;
        let total: usize = CHUNK_WIDTH * CHUNK_HEIGHT * CHUNK_WIDTH * 6;
        let mut m = MeshData {
            positions: Vec::new(),
            normals: Vec::new(),
            uvs: Vec::new(),
            indices: Vec::new(),
            layer: Vec::new(),
        };
        let mut count: u32 = 0;
        let mut q: usize = 0;
        assert(mesh_matches(m, *g, visible_faces_upto(*g, 0)));
        while q < total
            invariant
                self.wf(),
                g == &self.voxel,
                total == pair_count(*g),
                q <= total,
                count as int == visible_faces_upto(*g, q as int).len(),
                count <= q,
                mesh_matches(m, *g, visible_faces_upto(*g, q as int)),
            decreases total - q,
        {
            let k = q / 6;
            let f = q % 6;
            let x = k / 512;
            let y = (k / 16) % 32;
            let z = k % 16;
            let face = face_from_num(f);
            assert(pair_of(*g, q as int) == (x as int, y as int, z as int, face));
            let ghost fs = visible_faces_upto(*g, q as int);
            proof {
                g.lemma_idx(x as int, y as int, z as int);
            }
            let block = g.cells[x + 16 * (y + 32 * z)];
            assert(block == g.at(x as int, y as int, z as int));
            if properties(&block).mesh_group != MeshGroup::NoMesh {
                let n = face_normal(face);
                let nb = g.safe_get(x as i32 + n.x, y as i32 + n.y, z as i32 + n.z);
                let hidden = match nb {
                    Some(b) => properties(&b).mesh_group != MeshGroup::NoMesh,
                    None => false,
                };
                assert(hidden == neighbor_solid(*g, x as int, y as int, z as int, face));
                if !hidden {
                    push_face(&mut m, wp(x as i32, y as i32, z as i32), face, block, count);
                    let ghost e = (x as int, y as int, z as int, face);
                    assert(fs.push(e).drop_last() =~= fs);
                    assert(visible_faces_upto(*g, q + 1) == fs.push(e));
                    count = count + 1;
                }
            }
            q = q + 1;
        }
        let mut out: Vec<(MeshGroup, Option<MeshData>)> = Vec::new();
        if count == 0 {
            out.push((MeshGroup::Cube, None));
        } else {
            out.push((MeshGroup::Cube, Some(m)));
        }
        out
    }
}

/// Number of the pair (cell `(x, y, z)`, `face`) in a world chunk's enumeration.
pub open spec fn pair_num(x: int, y: int, z: int, face: Face) -> int {
    (x * 512 + y * 16 + z) * 6 + face_num(face)
}

proof fn lemma_pair_decode(g: VoxelChunk<BlockType>, q: int)
    requires
        g.width == CHUNK_WIDTH && g.height == CHUNK_HEIGHT && g.depth == CHUNK_WIDTH,
        0 <= q < pair_count(g),
    ensures
        ({
            let e = pair_of(g, q);
            &&& g.in_bounds(e.0, e.1, e.2)
            &&& pair_num(e.0, e.1, e.2, e.3) == q
        }),
{
    let k = q / 6;
    let f = q % 6;
    assert(g.height * g.depth == 512);
    let x = k / 512;
    let y = (k / 16) % 32;
    let z = k % 16;
    assert(0 <= x < 16 && 0 <= y < 32 && 0 <= z < 16 && (x * 512 + y * 16 + z) == k) by (nonlinear_arith)
        requires
            0 <= q < 49152,
            k == q / 6,
            x == k / 512,
            y == (k / 16) % 32,
            z == k % 16,
    ;
    assert(k * 6 + f == q) by (nonlinear_arith)
        requires
            k == q / 6,
            f == q % 6,
    ;
    assert(face_num(face_order(f)) == f);
}

proof fn lemma_pair_encode(g: VoxelChunk<BlockType>, x: int, y: int, z: int, face: Face)
    requires
        g.width == CHUNK_WIDTH && g.height == CHUNK_HEIGHT && g.depth == CHUNK_WIDTH,
        g.in_bounds(x, y, z),
    ensures
        0 <= pair_num(x, y, z, face) < pair_count(g),
        pair_of(g, pair_num(x, y, z, face)) == (x, y, z, face),
{
    let f = face_num(face);
    let k = x * 512 + y * 16 + z;
    let q = k * 6 + f;
    assert(g.height * g.depth == 512);
    assert(0 <= q < 49152 && q / 6 == k && q % 6 == f) by (nonlinear_arith)
        requires
            0 <= x < 16,
            0 <= y < 32,
            0 <= z < 16,
            0 <= f < 6,
            k == x * 512 + y * 16 + z,
            q == k * 6 + f,
    ;
    assert(k / 512 == x && (k / 16) % 32 == y && k % 16 == z) by (nonlinear_arith)
        requires
            0 <= x < 16,
            0 <= y < 32,
            0 <= z < 16,
            k == x * 512 + y * 16 + z,
    ;
    assert(face_order(f) == face);
}

/// What the first `q` pairs emit: distinct faces, each visible and of a pair before `q`,
/// and every visible face of a pair before `q`.
proof fn lemma_upto(g: VoxelChunk<BlockType>, q: int)
    requires
        g.width == CHUNK_WIDTH && g.height == CHUNK_HEIGHT && g.depth == CHUNK_WIDTH,
        0 <= q <= pair_count(g),
    ensures
        visible_faces_upto(g, q).no_duplicates(),
        forall|e: FaceRef|
            visible_faces_upto(g, q).contains(e) ==> g.in_bounds(e.0, e.1, e.2) && face_visible(
                g,
                e.0,
                e.1,
                e.2,
                e.3,
            ) && pair_num(e.0, e.1, e.2, e.3) < q,
        forall|e: FaceRef|
            g.in_bounds(e.0, e.1, e.2) && face_visible(g, e.0, e.1, e.2, e.3) && pair_num(
                e.0,
                e.1,
                e.2,
                e.3,
            ) < q ==> visible_faces_upto(g, q).contains(e),
    decreases q,
{
    if q > 0 {
        lemma_upto(g, q - 1);
        lemma_pair_decode(g, q - 1);
        let prev = visible_faces_upto(g, q - 1);
        let p = pair_of(g, q - 1);
        let cur = visible_faces_upto(g, q);
        if face_visible(g, p.0, p.1, p.2, p.3) {
            assert(cur == prev.push(p));
            assert(!prev.contains(p));
            assert forall|a: int, b: int|
                0 <= a < cur.len() && 0 <= b < cur.len() && a != b implies cur[a] != cur[b] by {
                if a < prev.len() && b < prev.len() {
                } else if a < prev.len() {
                    assert(prev.contains(cur[a]));
                } else {
                    assert(prev.contains(cur[b]));
                }
            }
            assert forall|e: FaceRef| cur.contains(e) implies g.in_bounds(e.0, e.1, e.2)
                && face_visible(g, e.0, e.1, e.2, e.3) && pair_num(e.0, e.1, e.2, e.3) < q by {
                let i = choose|i: int| 0 <= i < cur.len() && cur[i] == e;
                if i < prev.len() {
                    assert(prev.contains(e));
                }
            }
            assert forall|e: FaceRef|
                g.in_bounds(e.0, e.1, e.2) && face_visible(g, e.0, e.1, e.2, e.3) && pair_num(
                    e.0,
                    e.1,
                    e.2,
                    e.3,
                ) < q implies cur.contains(e) by {
                if pair_num(e.0, e.1, e.2, e.3) < q - 1 {
                    assert(prev.contains(e));
                    let i = choose|i: int| 0 <= i < prev.len() && prev[i] == e;
                    assert(cur[i] == e);
                } else {
                    lemma_pair_encode(g, e.0, e.1, e.2, e.3);
                    assert(cur[cur.len() - 1] == e);
                }
            }
        } else {
            assert(cur == prev);
            assert forall|e: FaceRef|
                g.in_bounds(e.0, e.1, e.2) && face_visible(g, e.0, e.1, e.2, e.3) && pair_num(
                    e.0,
                    e.1,
                    e.2,
                    e.3,
                ) < q implies cur.contains(e) by {
                if pair_num(e.0, e.1, e.2, e.3) == q - 1 {
                    lemma_pair_encode(g, e.0, e.1, e.2, e.3);
                }
            }
        }
    }
}

/// Face culling within a chunk: a face of a drawn voxel is never emitted when
/// the cell across it is drawn, and is emitted exactly once when that cell is
/// empty or lies outside the chunk.
pub proof fn lemma_face_culling(chunk: GameChunk, x: int, y: int, z: int, face: Face)
    requires
        chunk.wf(),
        chunk.voxel.in_bounds(x, y, z),
        is_renderable(chunk.voxel.at(x, y, z)),
    ensures
        neighbor_solid(chunk.voxel, x, y, z, face) ==> !visible_faces(chunk.voxel).contains(
            (x, y, z, face),
        ),
        !neighbor_solid(chunk.voxel, x, y, z, face) ==> visible_faces(chunk.voxel).contains(
            (x, y, z, face),
        ),
        forall|i: int, j: int|
            0 <= i < visible_faces(chunk.voxel).len() && 0 <= j < visible_faces(chunk.voxel).len()
                && visible_faces(chunk.voxel)[i] == (x, y, z, face) && visible_faces(
                chunk.voxel,
            )[j] == (x, y, z, face) ==> i == j,
{
    let g = chunk.voxel;
    lemma_upto(g, pair_count(g));
    lemma_pair_encode(g, x, y, z, face);
}

/// Two adjacent drawn voxels emit no face on the boundary they share, from either side.
pub proof fn lemma_shared_face_hidden(chunk: GameChunk, x: int, y: int, z: int, face: Face)
    requires
        chunk.wf(),
        chunk.voxel.in_bounds(x, y, z),
        is_renderable(chunk.voxel.at(x, y, z)),
        chunk.voxel.in_bounds(x + normal_of(face).0, y + normal_of(face).1, z + normal_of(face).2),
        is_renderable(
            chunk.voxel.at(x + normal_of(face).0, y + normal_of(face).1, z + normal_of(face).2),
        ),
    ensures
        !visible_faces(chunk.voxel).contains((x, y, z, face)),
        !visible_faces(chunk.voxel).contains(
            (
                x + normal_of(face).0,
                y + normal_of(face).1,
                z + normal_of(face).2,
                opposite(face),
            ),
        ),
{
    let n = normal_of(face);
    lemma_face_culling(chunk, x, y, z, face);
    lemma_face_culling(chunk, x + n.0, y + n.1, z + n.2, opposite(face));
}

} // verus!
