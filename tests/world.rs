use cobble::blocks::BlockType;
use cobble::config::GameConfig;
use cobble::generator::{generate, ColumnSample};
use cobble::inventory::{Inventory, Slot};
use cobble::raycast::RaycastSelection;
use cobble::voxel::{ChunkCoord, GameChunk, Position, VoxelIndex, WorldPos};
use cobble::world::{process_input, EventChunkCommand, ChunkEvent, EventChunkAction, PlayerAction, WorldController};

fn flat_chunk(c: ChunkCoord) -> GameChunk {
    let mut v = Vec::new();
    for _ in 0..256 {
        v.push(ColumnSample {
            height: 6,
            sand: false,
            grass_level: 0,
            dirt_level: 0,
            tree_attempts: [false; 3],
            trunk_height: 0,
            canopy: Vec::new(),
        });
    }
    generate(c, &v)
}

fn loaded_world(config: GameConfig) -> WorldController {
    let mut w = WorldController::new(config);
    let needed = w.chunks_to_generate();
    assert_eq!(needed.len(), 9);
    let generated: Vec<GameChunk> = needed.iter().map(|c| flat_chunk(*c)).collect();
    let events = w.chunk_load(generated);
    assert_eq!(events.len(), 9);
    assert!(events.iter().all(|e| matches!(e, ChunkEvent::Remesh(_))));
    w
}

fn cfg(creative: bool, breakable_bedrock: bool) -> GameConfig {
    GameConfig { creative, breakable_bedrock }
}

#[test]
fn startup_loads_origin_neighbourhood() {
    let w = loaded_world(cfg(true, false));
    assert_eq!(w.store.len(), 9);
    assert!(w.pending.is_empty());
    assert_eq!(w.store.age(ChunkCoord::new(-1, -1)), Some(1));
    assert_eq!(w.store.get(&Position::new(500, 0, 500)), Some(BlockType::Cobble));
    assert_eq!(w.store.get(&Position::new(500, 5000, 500)), Some(BlockType::Grass));
}

#[test]
fn bedrock_is_protected() {
    let mut w = loaded_world(cfg(true, false));
    let mut inv = Inventory::survival_preset();
    let c = ChunkCoord::new(0, 0);
    let req = vec![EventChunkAction::ModifyBlock(c, VoxelIndex::new(3, 0, 3), BlockType::Air, true)];
    let updates = w.voxel_action(&req, &mut inv);
    assert!(updates.is_empty());
    assert!(w.pending.is_empty());
    assert_eq!(w.store.block(c, VoxelIndex::new(3, 0, 3)), Some(BlockType::Cobble));
    assert_eq!(inv.slots[0], Slot::Empty);
}

#[test]
fn breakable_bedrock_can_be_replaced() {
    let mut w = loaded_world(cfg(false, true));
    let mut inv = Inventory::survival_preset();
    let c = ChunkCoord::new(0, 0);
    let req = vec![EventChunkAction::ModifyBlock(c, VoxelIndex::new(3, 0, 3), BlockType::Air, true)];
    assert_eq!(w.voxel_action(&req, &mut inv), vec![c]);
    assert_eq!(w.store.block(c, VoxelIndex::new(3, 0, 3)), Some(BlockType::Air));
    // The broken block is one block in the inventory.
    assert_eq!(inv.slots[0], Slot::Finite(BlockType::Cobble, 0));
    assert_eq!(w.pending, vec![EventChunkCommand::Update(c)]);
}

#[test]
fn updates_are_deduplicated() {
    let mut w = loaded_world(cfg(true, false));
    let mut inv = Inventory::creative_preset();
    let a = ChunkCoord::new(0, 0);
    let b = ChunkCoord::new(1, 1);
    let req = vec![
        EventChunkAction::ModifyBlock(a, VoxelIndex::new(1, 5, 1), BlockType::Air, true),
        EventChunkAction::ModifyBlock(b, VoxelIndex::new(1, 7, 1), BlockType::Bricks, false),
        EventChunkAction::ModifyBlock(a, VoxelIndex::new(2, 5, 1), BlockType::Air, true),
        EventChunkAction::ModifyBlock(ChunkCoord::new(7, 7), VoxelIndex::new(2, 5, 1), BlockType::Air, true),
        EventChunkAction::PickBlock(b, VoxelIndex::new(1, 7, 1)),
    ];
    assert_eq!(w.voxel_action(&req, &mut inv), vec![a, b]);
    assert_eq!(w.store.block(b, VoxelIndex::new(1, 7, 1)), Some(BlockType::Bricks));
    assert_eq!(inv.slots[0], Slot::Infinite(BlockType::Bricks));
    let events = w.chunk_load(Vec::new());
    assert_eq!(events, vec![ChunkEvent::Remesh(a), ChunkEvent::Remesh(b)]);
}

#[test]
fn pick_needs_creative_mode() {
    let mut w = loaded_world(cfg(false, false));
    let mut inv = Inventory::survival_preset();
    let req = vec![EventChunkAction::PickBlock(ChunkCoord::new(0, 0), VoxelIndex::new(1, 5, 1))];
    assert!(w.voxel_action(&req, &mut inv).is_empty());
    assert_eq!(inv.slots[0], Slot::Empty);
}

#[test]
fn command_errors_are_reported() {
    let mut w = loaded_world(cfg(true, false));
    let far = ChunkCoord::new(40, 40);
    w.pending.push(EventChunkCommand::Unload(far));
    w.pending.push(EventChunkCommand::Update(far));
    w.pending.push(EventChunkCommand::Load(far));
    w.pending.push(EventChunkCommand::Unload(ChunkCoord::new(0, 0)));
    w.pending.push(EventChunkCommand::Load(ChunkCoord::new(1, 1)));
    let events = w.chunk_load(Vec::new());
    assert_eq!(
        events,
        vec![
            ChunkEvent::DoubleUnload(far),
            ChunkEvent::MissingChunk(far),
            ChunkEvent::NotGenerated(far),
            ChunkEvent::RemoveMesh(ChunkCoord::new(0, 0)),
            ChunkEvent::Remesh(ChunkCoord::new(1, 1)),
        ]
    );
    assert_eq!(w.store.len(), 8);
    assert_eq!(w.store.age(ChunkCoord::new(1, 1)), Some(1));
    assert_eq!(w.store.age(ChunkCoord::new(1, 0)), Some(2));
}

#[test]
fn crossing_a_boundary_queues_loads() {
    let mut w = loaded_world(cfg(true, false));
    assert!(w.movement(&Position::new(8000, 9000, 3000)).is_empty());
    let loads = w.movement(&Position::new(16500, 9000, 3000));
    assert_eq!(w.last_chunk, ChunkCoord::new(1, 0));
    assert_eq!(w.position.index, VoxelIndex::new(0, 9, 3));
    assert_eq!(loads, vec![ChunkCoord::new(2, -1), ChunkCoord::new(2, 0), ChunkCoord::new(2, 1)]);
    assert_eq!(w.chunks_to_generate().len(), 3);
    let gen: Vec<GameChunk> = loads.iter().map(|c| flat_chunk(*c)).collect();
    let events = w.chunk_load(gen);
    assert_eq!(events.len(), 3);
    assert_eq!(w.store.len(), 12);
}

#[test]
fn input_actions_become_requests() {
    let mut inv = Inventory::creative_preset();
    let sel = RaycastSelection {
        looking_at: Some((ChunkCoord::new(0, 0), VoxelIndex::new(15, 5, 3))),
        normal: Some(WorldPos::new(1, 0, 0)),
    };
    assert_eq!(
        process_input(PlayerAction::Break, &sel, &mut inv),
        Some(EventChunkAction::ModifyBlock(ChunkCoord::new(0, 0), VoxelIndex::new(15, 5, 3), BlockType::Air, true))
    );
    assert_eq!(
        process_input(PlayerAction::Place, &sel, &mut inv),
        Some(EventChunkAction::ModifyBlock(ChunkCoord::new(1, 0), VoxelIndex::new(0, 5, 3), BlockType::Dirt, true))
    );
    assert_eq!(
        process_input(PlayerAction::PickBlock, &sel, &mut inv),
        Some(EventChunkAction::PickBlock(ChunkCoord::new(0, 0), VoxelIndex::new(15, 5, 3)))
    );
    assert_eq!(process_input(PlayerAction::SelectSlot(4), &sel, &mut inv), None);
    assert_eq!(inv.current_slot(), 4);
    assert_eq!(process_input(PlayerAction::SelectSlot(9), &sel, &mut inv), None);
    assert_eq!(inv.current_slot(), 4);
    let mut empty = Inventory::survival_preset();
    assert_eq!(process_input(PlayerAction::Place, &sel, &mut empty), None);
    let none = RaycastSelection::none();
    assert_eq!(process_input(PlayerAction::Break, &none, &mut inv), None);
}

#[test]
fn old_chunks_outside_neighbourhood_are_evicted() {
    let mut w = loaded_world(cfg(true, false));
    let far = ChunkCoord::new(5, 5);
    w.pending.push(EventChunkCommand::Load(far));
    w.chunk_load(vec![flat_chunk(far)]);
    for _ in 0..3 {
        w.chunk_load(Vec::new());
    }
    // One tick for the load itself, three more after it.
    assert_eq!(w.store.age(far), Some(4));
    assert!(w.queue_evictions(4).is_empty());
    assert_eq!(w.queue_evictions(3), vec![far]);
    assert_eq!(w.pending, vec![EventChunkCommand::Unload(far)]);
    assert_eq!(w.chunk_load(Vec::new()), vec![ChunkEvent::RemoveMesh(far)]);
    assert_eq!(w.store.len(), 9);
}
