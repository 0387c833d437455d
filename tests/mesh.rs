use cobble::blocks::{BlockType, Face, MeshGroup};
use cobble::mesh::{face_normal, quad_to_points, MeshData, Uv};
use cobble::voxel::{chunk_shape, ChunkCoord, GameChunk, VoxelChunk, WorldPos};

fn chunk_with(blocks: &[(usize, usize, usize, BlockType)]) -> GameChunk {
    let mut g = VoxelChunk::air(chunk_shape());
    for (x, y, z, b) in blocks {
        g.set(*x, *y, *z, *b).unwrap();
    }
    GameChunk { voxel: g, index: ChunkCoord::new(0, 0) }
}

fn cube_mesh(c: &GameChunk) -> Option<MeshData> {
    let mut r = c.build();
    assert_eq!(r.len(), 1);
    let (group, mesh) = r.pop().unwrap();
    assert_eq!(group, MeshGroup::Cube);
    mesh
}

fn face_count(m: &MeshData) -> usize {
    assert_eq!(m.positions.len() % 4, 0);
    assert_eq!(m.normals.len(), m.positions.len());
    assert_eq!(m.uvs.len(), m.positions.len());
    assert_eq!(m.layer.len(), m.positions.len());
    assert_eq!(m.indices.len(), m.positions.len() / 4 * 6);
    m.positions.len() / 4
}

#[test]
fn empty_chunk_has_no_geometry() {
    assert!(cube_mesh(&chunk_with(&[])).is_none());
}

#[test]
fn single_voxel_emits_six_faces() {
    let m = cube_mesh(&chunk_with(&[(8, 5, 8, BlockType::Grass)])).unwrap();
    assert_eq!(face_count(&m), 6);
    // Top face first, with its corners, normal, texture quad and layer.
    assert_eq!(
        m.positions[0..4].to_vec(),
        vec![WorldPos::new(8, 6, 8), WorldPos::new(9, 6, 9), WorldPos::new(9, 6, 8), WorldPos::new(8, 6, 9)]
    );
    assert!(m.normals[0..4].iter().all(|n| *n == WorldPos::new(0, 1, 0)));
    assert_eq!(m.uvs[1], Uv { u: 1, v: -1 });
    assert_eq!(m.layer[0..4].to_vec(), vec![2, 2, 2, 2]);
    // Bottom face second.
    assert!(m.normals[4..8].iter().all(|n| *n == WorldPos::new(0, -1, 0)));
    assert_eq!(m.layer[4], 1);
    assert_eq!(m.uvs[4], Uv { u: 0, v: 1 });
    assert_eq!(m.indices[0..12].to_vec(), vec![0, 1, 2, 1, 0, 3, 4, 5, 6, 5, 4, 7]);
    let normals: Vec<WorldPos> = (0..6).map(|f| m.normals[4 * f]).collect();
    assert_eq!(
        normals,
        vec![
            WorldPos::new(0, 1, 0),
            WorldPos::new(0, -1, 0),
            WorldPos::new(-1, 0, 0),
            WorldPos::new(1, 0, 0),
            WorldPos::new(0, 0, -1),
            WorldPos::new(0, 0, 1),
        ]
    );
}

#[test]
fn adjacent_voxels_cull_shared_faces() {
    let m = cube_mesh(&chunk_with(&[(3, 3, 3, BlockType::Dirt), (4, 3, 3, BlockType::Dirt)])).unwrap();
    assert_eq!(face_count(&m), 10);
    // No face lies on the plane x = 4 between the two voxels.
    for f in 0..10 {
        let quad = &m.positions[4 * f..4 * f + 4];
        assert!(!quad.iter().all(|p| p.x == 4));
    }
}

#[test]
fn chunk_boundary_faces_are_emitted() {
    let m = cube_mesh(&chunk_with(&[(0, 0, 0, BlockType::Cobble)])).unwrap();
    assert_eq!(face_count(&m), 6);
    let below = (0..6).filter(|f| m.normals[4 * f] == WorldPos::new(0, -1, 0)).count();
    assert_eq!(below, 1);
}

#[test]
fn remeshing_is_identical() {
    let c = chunk_with(&[(1, 1, 1, BlockType::Wood), (1, 2, 1, BlockType::Leaves), (9, 0, 2, BlockType::Sand)]);
    let a = cube_mesh(&c).unwrap();
    let b = cube_mesh(&c).unwrap();
    assert_eq!(a.positions, b.positions);
    assert_eq!(a.normals, b.normals);
    assert_eq!(a.uvs, b.uvs);
    assert_eq!(a.layer, b.layer);
    assert_eq!(a.indices, b.indices);
    assert_eq!(face_count(&a), 16);
}

#[test]
fn quad_corners() {
    let q = quad_to_points(WorldPos::new(1, 2, 3), Face::Back);
    assert_eq!(q, [WorldPos::new(2, 2, 3), WorldPos::new(2, 3, 4), WorldPos::new(2, 2, 4), WorldPos::new(2, 3, 3)]);
    assert_eq!(face_normal(Face::Left), WorldPos::new(0, 0, -1));
}
