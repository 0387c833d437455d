use cobble::blocks::BlockType;
use cobble::generator::{canopy_span, column_height_of, generate, grows_tree, terrain_block_of, ColumnSample};
use cobble::voxel::ChunkCoord;

fn flat(height: usize) -> ColumnSample {
    ColumnSample {
        height,
        sand: false,
        grass_level: 0,
        dirt_level: 0,
        tree_attempts: [false; 3],
        trunk_height: 0,
        canopy: Vec::new(),
    }
}

fn samples(f: impl Fn(usize, usize) -> ColumnSample) -> Vec<ColumnSample> {
    let mut v = Vec::new();
    for x in 0..16 {
        for z in 0..16 {
            v.push(f(x, z));
        }
    }
    v
}

#[test]
fn column_layers() {
    let s = flat(10);
    assert_eq!(terrain_block_of(&s, 0), BlockType::Cobble);
    assert_eq!(terrain_block_of(&s, 1), BlockType::Dirt);
    assert_eq!(terrain_block_of(&s, 8), BlockType::Dirt);
    assert_eq!(terrain_block_of(&s, 9), BlockType::Grass);
    assert_eq!(terrain_block_of(&s, 10), BlockType::Air);
    let high_grass = ColumnSample { grass_level: 11, dirt_level: 11, ..flat(10) };
    assert_eq!(terrain_block_of(&high_grass, 9), BlockType::Gravel);
    let no_grass = ColumnSample { grass_level: 11, ..flat(10) };
    assert_eq!(terrain_block_of(&no_grass, 9), BlockType::Dirt);
    let sand = ColumnSample { sand: true, ..flat(5) };
    assert_eq!(terrain_block_of(&sand, 0), BlockType::Cobble);
    assert_eq!(terrain_block_of(&sand, 4), BlockType::Sand);
}

#[test]
fn heights_are_clamped() {
    assert_eq!(column_height_of(&flat(0)), 2);
    assert_eq!(column_height_of(&flat(100)), 31);
    assert_eq!(column_height_of(&flat(12)), 12);
    let tall = ColumnSample { trunk_height: 40, ..flat(10) };
    assert_eq!(canopy_span(&tall), (31, 31));
    let tree = ColumnSample { trunk_height: 3, ..flat(10) };
    assert_eq!(canopy_span(&tree), (13, 17));
}

#[test]
fn tree_placement_rules() {
    let s = ColumnSample { tree_attempts: [false, true, false], ..flat(10) };
    assert!(grows_tree(&s, 5, 5));
    assert!(!grows_tree(&s, 1, 5));
    assert!(!grows_tree(&s, 5, 14));
    assert!(!grows_tree(&flat(10), 5, 5));
    let sand = ColumnSample { sand: true, tree_attempts: [true; 3], ..flat(10) };
    assert!(!grows_tree(&sand, 5, 5));
}

#[test]
fn generation_is_deterministic() {
    let make = || samples(|x, z| ColumnSample { height: 3 + (x * 7 + z * 3) % 20, sand: x == 3, ..flat(0) });
    let a = generate(ChunkCoord::new(4, -9), &make());
    let b = generate(ChunkCoord::new(4, -9), &make());
    assert_eq!(a.index, ChunkCoord::new(4, -9));
    assert_eq!(a.voxel.cells, b.voxel.cells);
}

#[test]
fn generated_terrain_and_tree() {
    let s = samples(|x, z| {
        if x == 5 && z == 5 {
            ColumnSample {
                tree_attempts: [false, false, true],
                trunk_height: 3,
                canopy: vec![true; 256],
                ..flat(10)
            }
        } else {
            flat(10)
        }
    });
    let c = generate(ChunkCoord::new(0, 0), &s);
    let g = &c.voxel;
    assert_eq!(g.shape(), [16, 32, 16]);
    assert_eq!(g.get(0, 0, 0), Ok(BlockType::Cobble));
    assert_eq!(g.get(15, 9, 15), Ok(BlockType::Grass));
    assert_eq!(g.get(15, 10, 15), Ok(BlockType::Air));
    for y in 10..13 {
        assert_eq!(g.get(5, y, 5), Ok(BlockType::Wood));
    }
    assert_eq!(g.get(5, 13, 5), Ok(BlockType::Leaves));
    assert_eq!(g.get(9, 16, 9), Ok(BlockType::Leaves));
    assert_eq!(g.get(2, 13, 2), Ok(BlockType::Leaves));
    assert_eq!(g.get(1, 13, 1), Ok(BlockType::Air));
    assert_eq!(g.get(5, 17, 5), Ok(BlockType::Air));
}

#[test]
fn canopy_is_clamped_into_chunk() {
    let s = samples(|x, z| {
        if x == 2 && z == 13 {
            ColumnSample { tree_attempts: [true, false, false], trunk_height: 1, canopy: vec![true; 256], ..flat(4) }
        } else {
            flat(4)
        }
    });
    let c = generate(ChunkCoord::new(0, 0), &s);
    // a = 3 would reach x = -1; it lands on x = 0. b = -4 would reach z = 17; it lands on z = 15.
    assert_eq!(c.voxel.get(0, 5, 15), Ok(BlockType::Leaves));
    assert_eq!(c.voxel.get(2, 4, 13), Ok(BlockType::Wood));
}
