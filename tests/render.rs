use cobble::blocks::MeshGroup;
use cobble::render::{MeshAction, MeshHandles};
use cobble::voxel::ChunkCoord;

#[test]
fn handles_create_replace_remove() {
    let mut h = MeshHandles::new();
    let a = ChunkCoord::new(0, 0);
    let b = ChunkCoord::new(1, 0);
    assert_eq!(h.upsert(a, MeshGroup::Cube), MeshAction::Create(a, MeshGroup::Cube, 0));
    assert_eq!(h.upsert(b, MeshGroup::Cube), MeshAction::Create(b, MeshGroup::Cube, 1));
    assert_eq!(h.upsert(a, MeshGroup::Cube), MeshAction::Replace(a, MeshGroup::Cube, 0));
    assert_eq!(h.remove_chunk(a), vec![MeshAction::Remove(a, MeshGroup::Cube, 0)]);
    assert!(h.remove_chunk(a).is_empty());
    assert_eq!(h.entries.len(), 1);
    assert_eq!(h.upsert(a, MeshGroup::Cube), MeshAction::Create(a, MeshGroup::Cube, 2));
}
