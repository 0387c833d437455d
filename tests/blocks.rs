use cobble::blocks::{properties, texture_layer, BlockType, Face, MeshGroup};
use cobble::config::{DebugConfig, GameConfig, VideoConfig, WindowMode};

#[test]
fn mesh_groups() {
    assert_eq!(properties(&BlockType::Air).mesh_group, MeshGroup::NoMesh);
    assert_eq!(properties(&BlockType::Leaves).mesh_group, MeshGroup::Cube);
    assert_eq!(properties(&BlockType::Gravel).mesh_group, MeshGroup::Cube);
}

#[test]
fn texture_layers() {
    assert_eq!(texture_layer(BlockType::Grass, Face::Top), 2);
    assert_eq!(texture_layer(BlockType::Grass, Face::Bottom), 1);
    assert_eq!(texture_layer(BlockType::Grass, Face::Left), 3);
    assert_eq!(texture_layer(BlockType::Wood, Face::Bottom), 10);
    assert_eq!(texture_layer(BlockType::Wood, Face::Front), 11);
    assert_eq!(texture_layer(BlockType::Bricks, Face::Back), 7);
    assert_eq!(texture_layer(BlockType::Air, Face::Top), 0);
}

#[test]
fn config_defaults() {
    let v = VideoConfig::default();
    assert_eq!(v.msaa_samples, 4);
    assert_eq!(v.window_mode, WindowMode::Windowed);
    let d = DebugConfig::default();
    assert!(d.show_fps && d.show_selection && !d.show_colliders);
    let g = GameConfig::default();
    assert!(g.creative && !g.breakable_bedrock);
}
