use cobble::blocks::BlockType;
use cobble::inventory::{Inventory, Slot};

#[test]
fn presets() {
    let s = Inventory::survival_preset();
    assert_eq!(s.current_slot(), 0);
    assert!(s.slots.iter().all(|x| *x == Slot::Empty));
    let c = Inventory::creative_preset();
    assert_eq!(c.item(0), Some(BlockType::Dirt));
    assert_eq!(c.item(8), Some(BlockType::Leaves));
    assert_eq!(c.current_item(), Some(BlockType::Dirt));
}

#[test]
fn consume_finite_and_infinite() {
    let mut inv = Inventory::survival_preset();
    // One block absorbed into an empty slot: a stack of one.
    assert_eq!(inv.absorb(BlockType::Sand, 1), Some(0));
    assert_eq!(inv.slots[0], Slot::Finite(BlockType::Sand, 0));
    assert_eq!(inv.consume(0), Some(BlockType::Sand));
    assert_eq!(inv.slots[0], Slot::Empty);
    assert_eq!(inv.consume(0), None);
    assert_eq!(inv.absorb(BlockType::Sand, 2), Some(0));
    assert_eq!(inv.slots[0], Slot::Finite(BlockType::Sand, 1));
    assert_eq!(inv.consume_current_slot(), Some(BlockType::Sand));
    assert_eq!(inv.slots[0], Slot::Finite(BlockType::Sand, 0));
    assert_eq!(inv.consume_current_slot(), Some(BlockType::Sand));
    assert_eq!(inv.slots[0], Slot::Empty);
    let mut c = Inventory::creative_preset();
    c.switch_slot(3);
    assert_eq!(c.current_slot(), 3);
    assert_eq!(c.consume_current_slot(), Some(BlockType::Wood));
    assert_eq!(c.slots[3], Slot::Infinite(BlockType::Wood));
}

#[test]
fn absorb_picks_first_matching_slot() {
    let mut inv = Inventory::survival_preset();
    assert_eq!(inv.absorb(BlockType::Dirt, 2), Some(0));
    assert_eq!(inv.absorb(BlockType::Sand, 1), Some(1));
    assert_eq!(inv.absorb(BlockType::Dirt, 3), Some(0));
    assert_eq!(inv.slots[0], Slot::Finite(BlockType::Dirt, 4));
    assert_eq!(inv.absorb(BlockType::Dirt, u32::MAX), Some(0));
    assert_eq!(inv.slots[0], Slot::Finite(BlockType::Dirt, u32::MAX));
    let mut full = Inventory::creative_preset();
    assert_eq!(full.absorb(BlockType::Bricks, 1), Some(4));
    assert_eq!(full.absorb(BlockType::Air, 1), None);
}

#[test]
fn absorb_creative_replaces_active_slot() {
    let mut c = Inventory::creative_preset();
    c.switch_slot(6);
    assert_eq!(c.absorb_creative(BlockType::Cobble), Some(6));
    assert_eq!(c.slots[6], Slot::Infinite(BlockType::Cobble));
    assert_eq!(c.item(6), Some(BlockType::Cobble));
}
