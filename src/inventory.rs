//! The observer's block inventory.
use vstd::prelude::*;

use crate::blocks::BlockType;

verus! {

/// Number of inventory slots.
pub const SLOTS: usize = 9;

/// One inventory slot.
#[derive(Clone, Copy, Debug, PartialEq, Eq, Structural)]
pub enum Slot {
    Empty,
    /// A finite stack; the count is zero-based: `Finite(b, 0)` holds one block.
    Finite(BlockType, u32),
    Infinite(BlockType),
}

/// The observer's blocks: nine slots and the active one.
pub struct Inventory {
    pub slots: [Slot; 9],
    pub active_slot: usize,
}

/// The block a slot offers, if any.
pub open spec fn slot_item(s: Slot) -> Option<BlockType> {
    match s {
        Slot::Empty => None,
        Slot::Finite(b, _) => Some(b),
        Slot::Infinite(b) => Some(b),
    }
}

/// A slot after one block is taken from it.
pub open spec fn slot_after_consume(s: Slot) -> Slot {
    match s {
        Slot::Finite(b, n) => if n == 0 {
            Slot::Empty
        } else {
            Slot::Finite(b, (n - 1) as u32)
        },
        _ => s,
    }
}

/// Whether a slot can take blocks of type `b`: it is empty or already holds `b`.
pub open spec fn accepts(s: Slot, b: BlockType) -> bool {
    match s {
        Slot::Empty => true,
        Slot::Finite(c, _) => c == b,
        Slot::Infinite(c) => c == b,
    }
}

/// A slot after `quantity` (at least one) blocks of type `b` are put in: an
/// empty slot then holds exactly `quantity` blocks, and a stack grows by
/// `quantity` (the zero-based count saturates).
pub open spec fn slot_after_absorb(s: Slot, b: BlockType, quantity: u32) -> Slot {
    match s {
        Slot::Empty => Slot::Finite(b, (quantity - 1) as u32),
        Slot::Finite(c, n) => Slot::Finite(
            c,
            if n + quantity > u32::MAX {
                u32::MAX
            } else {
                (n + quantity) as u32
            },
        ),
        Slot::Infinite(c) => s,
    }
}

/// The first slot at or after `from` that accepts blocks of type `b`.
pub open spec fn first_accepting(slots: Seq<Slot>, b: BlockType, from: int) -> Option<int>
    decreases slots.len() - from,
{
    if from < 0 || from >= slots.len() {
        None
    } else if accepts(slots[from], b) {
        Some(from)
    } else {
        first_accepting(slots, b, from + 1)
    }
}

/// The slots after `quantity` blocks of type `b` are absorbed.
pub open spec fn slots_after_absorb(slots: Seq<Slot>, b: BlockType, quantity: u32) -> Seq<Slot> {
    match first_accepting(slots, b, 0) {
        Some(i) => slots.update(i, slot_after_absorb(slots[i], b, quantity)),
        None => slots,
    }
}

proof fn lemma_first_accepting(slots: Seq<Slot>, b: BlockType, from: int)
    requires
        0 <= from <= slots.len(),
    ensures
        match first_accepting(slots, b, from) {
            Some(i) => from <= i < slots.len() && accepts(slots[i], b) && forall|j: int|
                from <= j < i ==> !accepts(slots[j], b),
            None => forall|j: int| from <= j < slots.len() ==> !accepts(slots[j], b),
        },
    decreases slots.len() - from,
{
    if from < slots.len() && !accepts(slots[from], b) {
        lemma_first_accepting(slots, b, from + 1);
    }
}

/// The creative-mode slots.
pub open spec fn creative_slots() -> Seq<Slot> {
    seq![
        Slot::Infinite(BlockType::Dirt),
        Slot::Infinite(BlockType::Cobble),
        Slot::Infinite(BlockType::Planks),
        Slot::Infinite(BlockType::Wood),
        Slot::Infinite(BlockType::Bricks),
        Slot::Infinite(BlockType::Gravel),
        Slot::Infinite(BlockType::Sand),
        Slot::Infinite(BlockType::Grass),
        Slot::Infinite(BlockType::Leaves),
    ]
}

impl Inventory {
    pub open spec fn wf(&self) -> bool {
        self.active_slot < SLOTS
    }

    /// Nine empty slots, the first one active.
    pub fn survival_preset() -> (r: Inventory)
        ensures
            r.wf(),
            r.active_slot == 0,
            forall|i: int| 0 <= i < SLOTS ==> r.slots@[i] == Slot::Empty,
    {
        Inventory { slots: [Slot::Empty; 9], active_slot: 0 }
    }

    /// One infinite slot of each placeable block, the first one active.
    pub fn creative_preset() -> (r: Inventory)
        ensures
            r.wf(),
            r.active_slot == 0,
            r.slots@ == creative_slots(),
    {
        let r = Inventory {
            slots: [
                Slot::Infinite(BlockType::Dirt),
                Slot::Infinite(BlockType::Cobble),
                Slot::Infinite(BlockType::Planks),
                Slot::Infinite(BlockType::Wood),
                Slot::Infinite(BlockType::Bricks),
                Slot::Infinite(BlockType::Gravel),
                Slot::Infinite(BlockType::Sand),
                Slot::Infinite(BlockType::Grass),
                Slot::Infinite(BlockType::Leaves),
            ],
            active_slot: 0,
        };
        assert(r.slots@ =~= creative_slots());
        r
    }

    /// Make `slot` the active slot.
    pub fn switch_slot(&mut self, slot: usize)
        requires
            slot < SLOTS,
        ensures
            final(self).wf(),
            final(self).active_slot == slot,
            final(self).slots == old(self).slots,
    {
        self.active_slot = slot;
    }

    pub fn current_slot(&self) -> (r: usize)
        ensures
            r == self.active_slot,
    {
        self.active_slot
    }

    /// The block in `slot`, if any.
    pub fn item(&self, slot: usize) -> (r: Option<BlockType>)
        requires
            slot < SLOTS,
        ensures
            r == slot_item(self.slots@[slot as int]),
    {
        match self.slots[slot] {
            Slot::Finite(b, _) => Some(b),
            Slot::Infinite(b) => Some(b),
            Slot::Empty => None,
        }
    }

    /// The block in the active slot, if any.
    pub fn current_item(&self) -> (r: Option<BlockType>)
        requires
            self.wf(),
        ensures
            r == slot_item(self.slots@[self.active_slot as int]),
    {
        self.item(self.active_slot)
    }

    /// Take one block from `slot`: a finite stack shrinks and empties after its
    /// last block, an infinite one is unchanged. Returns the block, or `None`
    /// for an empty slot.
    pub fn consume(&mut self, slot: usize) -> (r: Option<BlockType>)
        requires
            slot < SLOTS,
        ensures
            r == slot_item(old(self).slots@[slot as int]),
            final(self).slots@ == old(self).slots@.update(
                slot as int,
                slot_after_consume(old(self).slots@[slot as int]),
            ),
            final(self).active_slot == old(self).active_slot,
    {
        let ghost pre = old(self).slots@;
        let s = self.slots[slot];
        let r = match s {
            Slot::Empty => None,
            Slot::Finite(b, n) => {
                if n == 0 {
                    self.slots[slot] = Slot::Empty;
                } else {
                    self.slots[slot] = Slot::Finite(b, n - 1);
                }
                Some(b)
            },
            Slot::Infinite(b) => Some(b),
        };
        assert(self.slots@ =~= pre.update(slot as int, slot_after_consume(pre[slot as int])));
        r
    }

    /// Take one block from the active slot.
    pub fn consume_current_slot(&mut self) -> (r: Option<BlockType>)
        requires
            old(self).wf(),
        ensures
            final(self).wf(),
            r == slot_item(old(self).slots@[old(self).active_slot as int]),
            final(self).slots@ == old(self).slots@.update(
                old(self).active_slot as int,
                slot_after_consume(old(self).slots@[old(self).active_slot as int]),
            ),
            final(self).active_slot == old(self).active_slot,
    {
        let a = self.active_slot;
        self.consume(a)
    }

    /// Put `quantity` blocks of type `block` into the first slot that is empty or
    /// already holds that block; returns that slot, or `None` if there is none.
    pub fn absorb(&mut self, block: BlockType, quantity: u32) -> (r: Option<usize>)
        requires
            quantity >= 1,
        ensures
            final(self).active_slot == old(self).active_slot,
            final(self).slots@ == slots_after_absorb(old(self).slots@, block, quantity),
            r == match first_accepting(old(self).slots@, block, 0) {
                Some(i) => Some(i as usize),
                None => None::<usize>,
            },
            match r {
                Some(i) => {
                    &&& i < SLOTS
                    &&& accepts(old(self).slots@[i as int], block)
                    &&& forall|j: int| 0 <= j < i ==> !accepts(old(self).slots@[j], block)
                    &&& final(self).slots@ == old(self).slots@.update(
                        i as int,
                        slot_after_absorb(old(self).slots@[i as int], block, quantity),
                    )
                },
                None => {
                    &&& forall|j: int| 0 <= j < SLOTS ==> !accepts(old(self).slots@[j], block)
                    &&& final(self).slots == old(self).slots
                },
            },
    {
        let ghost pre = old(self).slots@;
        proof {
            lemma_first_accepting(pre, block, 0);
            let f = first_accepting(pre, block, 0);
            assert forall|m: int|
                0 <= m < 9 && accepts(pre[m], block) && (forall|j: int|
                    0 <= j < m ==> !accepts(pre[j], block)) implies f == Some(m) by {
                if f is Some {
                    let k = f->0;
                    if m > k {
                        assert(!accepts(pre[k], block));
                    }
                }
            }
        }
        let mut i: usize = 0;
        while i < SLOTS
            invariant
                i <= SLOTS,
                self.slots == old(self).slots,
                self.active_slot == old(self).active_slot,
                pre == old(self).slots@,
                pre.len() == 9,
                quantity >= 1,
                forall|j: int| 0 <= j < i ==> !accepts(pre[j], block),
                forall|m: int|
                    0 <= m < 9 && accepts(pre[m], block) && (forall|j: int|
                        0 <= j < m ==> !accepts(pre[j], block)) ==> first_accepting(pre, block, 0)
                        == Some(m),
                match first_accepting(pre, block, 0) {
                    Some(k) => 0 <= k < 9 && accepts(pre[k], block),
                    None => true,
                },
            decreases SLOTS - i,
        {
            match self.slots[i] {
                Slot::Infinite(b) => {
                    if b == block {
                        assert(self.slots@ =~= pre.update(
                            i as int,
                            slot_after_absorb(pre[i as int], block, quantity),
                        ));
                        return Some(i);
                    }
                },
                Slot::Finite(b, n) => {
                    if b == block {
                        self.slots[i] = Slot::Finite(b, n.saturating_add(quantity));
                        assert(self.slots@ =~= pre.update(
                            i as int,
                            slot_after_absorb(pre[i as int], block, quantity),
                        ));
                        return Some(i);
                    }
                },
                Slot::Empty => {
                    self.slots[i] = Slot::Finite(block, quantity - 1);
                    assert(self.slots@ =~= pre.update(
                        i as int,
                        slot_after_absorb(pre[i as int], block, quantity),
                    ));
                    return Some(i);
                },
            }
            i = i + 1;
        }
        None
    }

    /// Replace the active slot with an infinite supply of `block`; returns the active slot.
    pub fn absorb_creative(&mut self, block: BlockType) -> (r: Option<usize>)
        requires
            old(self).wf(),
        ensures
            final(self).wf(),
            r == Some(old(self).active_slot),
            final(self).active_slot == old(self).active_slot,
            final(self).slots@ == old(self).slots@.update(
                old(self).active_slot as int,
                Slot::Infinite(block),
            ),
    {
        let a = self.active_slot;
        self.slots[a] = Slot::Infinite(block);
        assert(self.slots@ =~= old(self).slots@.update(a as int, Slot::Infinite(block)));
        Some(a)
    }
}

} // verus!
