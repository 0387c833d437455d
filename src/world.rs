//! The world controller: chunk commands, modification requests, observer
//! movement and input actions.
use vstd::prelude::*;

use crate::blocks::BlockType;
use crate::config::GameConfig;
use crate::inventory::{slot_after_consume, slot_item, slots_after_absorb, Inventory, Slot, SLOTS};
use crate::raycast::RaycastSelection;
use crate::store::{block_in, chunk_at, in_block, neighborhood_of, older, NineSurroundChunk};
use crate::voxel::{
    absolut_to_index, absolut_to_index_i32, absolute_of, index_to_absolut, linear_index, voxel_of,
    ChunkCoord, GameChunk, Position, VoxelIndex, WorldPos, CHUNK_HEIGHT, CHUNK_WIDTH,
};

verus! {

/// A request to change which chunks are resident, or to rebuild one's geometry.
#[derive(Clone, Copy, Debug, PartialEq, Eq, Structural)]
pub enum EventChunkCommand {
    Update(ChunkCoord),
    Load(ChunkCoord),
    Unload(ChunkCoord),
}

/// A voxel modification request from the interaction layer.
#[derive(Clone, Copy, Debug, PartialEq, Eq, Structural)]
pub enum EventChunkAction {
    /// Replace the voxel at an index of a chunk with a block type; with
    /// `absorb`, a block replaced by `Air` goes into the inventory.
    ModifyBlock(ChunkCoord, VoxelIndex, BlockType, bool),
    /// Copy the voxel at an index of a chunk into the active inventory slot.
    PickBlock(ChunkCoord, VoxelIndex),
}

/// What processing one chunk command produced, for the renderer or the log.
#[derive(Clone, Copy, Debug, PartialEq, Eq, Structural)]
pub enum ChunkEvent {
    /// The chunk was loaded or changed: its geometry is to be rebuilt.
    Remesh(ChunkCoord),
    /// The chunk was unloaded: its geometry is to be dropped.
    RemoveMesh(ChunkCoord),
    /// An unload named a chunk that was not resident; nothing changed.
    DoubleUnload(ChunkCoord),
    /// An update named a chunk that is not resident: the command order upstream is broken.
    MissingChunk(ChunkCoord),
    /// A load named a chunk for which no generated grid was handed in; it stays unloaded.
    NotGenerated(ChunkCoord),
}

/// Where the observer is: the absolute position, its chunk and its voxel index there.
#[derive(Clone, Copy, Debug, PartialEq, Eq, Structural)]
pub struct PlayerPosition {
    pub absolut: Position,
    pub chunk: ChunkCoord,
    pub index: VoxelIndex,
}

/// Owner of the chunk store: takes chunk commands and modification requests,
/// follows the observer, and hands out what the renderer must do.
pub struct WorldController {
    pub store: NineSurroundChunk,
    pub pending: Vec<EventChunkCommand>,
    pub last_chunk: ChunkCoord,
    pub position: PlayerPosition,
    pub config: GameConfig,
}

/// Resident grids, ages, and generated chunks not yet used.
pub type LoadState = (Map<ChunkCoord, Seq<BlockType>>, Map<ChunkCoord, u8>, Seq<GameChunk>);

/// Index of the first chunk among the first `n` of `gen` with coordinate `c`.
pub open spec fn first_generated(gen: Seq<GameChunk>, c: ChunkCoord, n: int) -> Option<int>
    decreases n,
{
    if n <= 0 {
        None
    } else {
        match first_generated(gen, c, n - 1) {
            Some(i) => Some(i),
            None => if gen[n - 1].index == c {
                Some(n - 1)
            } else {
                None
            },
        }
    }
}

/// Effect of one command: a load of a resident chunk resets its age; a load of
/// another takes the first generated chunk for it; an unload removes it; an
/// update only asks for new geometry.
pub open spec fn command_step(s: LoadState, cmd: EventChunkCommand) -> (LoadState, ChunkEvent) {
    let (grids, ages, gen) = s;
    match cmd {
        EventChunkCommand::Load(c) => if grids.dom().contains(c) {
            ((grids, ages.insert(c, 0u8), gen), ChunkEvent::Remesh(c))
        } else {
            match first_generated(gen, c, gen.len() as int) {
                Some(i) => (
                    (grids.insert(c, gen[i].voxel.cells@), ages.insert(c, 0u8), gen.remove(i)),
                    ChunkEvent::Remesh(c),
                ),
                None => (s, ChunkEvent::NotGenerated(c)),
            }
        },
        EventChunkCommand::Unload(c) => if grids.dom().contains(c) {
            ((grids.remove(c), ages.remove(c), gen), ChunkEvent::RemoveMesh(c))
        } else {
            (s, ChunkEvent::DoubleUnload(c))
        },
        EventChunkCommand::Update(c) => if grids.dom().contains(c) {
            (s, ChunkEvent::Remesh(c))
        } else {
            (s, ChunkEvent::MissingChunk(c))
        },
    }
}

/// The commands applied in arrival order, with the event of each.
pub open spec fn run_commands(s: LoadState, cmds: Seq<EventChunkCommand>) -> (LoadState, Seq<ChunkEvent>)
    decreases cmds.len(),
{
    if cmds.len() == 0 {
        (s, Seq::empty())
    } else {
        let (mid, evs) = run_commands(s, cmds.drop_last());
        let (next, e) = command_step(mid, cmds.last());
        (next, evs.push(e))
    }
}

/// Every age one tick older.
pub open spec fn aged(ages: Map<ChunkCoord, u8>) -> Map<ChunkCoord, u8> {
    Map::new(|c: ChunkCoord| ages.dom().contains(c), |c: ChunkCoord| older(ages[c]))
}

/// Resident grids, inventory slots, and chunks marked for an update.
pub type ActionState = (Map<ChunkCoord, Seq<BlockType>>, Seq<Slot>, Seq<ChunkCoord>);

pub open spec fn index_in_chunk(i: VoxelIndex) -> bool {
    i.x < CHUNK_WIDTH && i.y < CHUNK_HEIGHT && i.z < CHUNK_WIDTH
}

pub open spec fn cell_of_index(i: VoxelIndex) -> int {
    linear_index(CHUNK_WIDTH as int, CHUNK_HEIGHT as int, i.x as int, i.y as int, i.z as int)
}

/// Effect of one modification request. A replacement in the bottom layer is
/// rejected unless bedrock is breakable; one in a chunk that is not resident,
/// or outside the chunk, is ignored. An accepted replacement marks its chunk
/// for an update, once; breaking a block with `absorb` puts it into the
/// inventory. Picking copies the block into the active slot in creative mode.
pub open spec fn action_step(
    cfg: GameConfig,
    active: int,
    s: ActionState,
    req: EventChunkAction,
) -> ActionState {
    let (grids, slots, marked) = s;
    match req {
        EventChunkAction::ModifyBlock(c, i, b, absorb) => {
            if !cfg.breakable_bedrock && i.y == 0 {
                s
            } else if !grids.dom().contains(c) || !index_in_chunk(i) {
                s
            } else {
                let before = block_in(grids, c, i);
                (
                    grids.insert(c, grids[c].update(cell_of_index(i), b)),
                    if absorb && b == BlockType::Air {
                        slots_after_absorb(slots, before, 1)
                    } else {
                        slots
                    },
                    if marked.contains(c) {
                        marked
                    } else {
                        marked.push(c)
                    },
                )
            }
        },
        EventChunkAction::PickBlock(c, i) => {
            if cfg.creative && grids.dom().contains(c) && index_in_chunk(i) {
                (grids, slots.update(active, Slot::Infinite(block_in(grids, c, i))), marked)
            } else {
                s
            }
        },
    }
}

/// The requests applied in order.
pub open spec fn run_actions(
    cfg: GameConfig,
    active: int,
    s: ActionState,
    reqs: Seq<EventChunkAction>,
) -> ActionState
    decreases reqs.len(),
{
    if reqs.len() == 0 {
        s
    } else {
        action_step(cfg, active, run_actions(cfg, active, s, reqs.drop_last()), reqs.last())
    }
}

/// With unbreakable bedrock, a replacement in the bottom layer changes no
/// voxel, no inventory slot, and marks no chunk for an update.
pub proof fn lemma_bedrock_protected(
    cfg: GameConfig,
    active: int,
    s: ActionState,
    c: ChunkCoord,
    i: VoxelIndex,
    b: BlockType,
    absorb: bool,
)
    requires
        !cfg.breakable_bedrock,
        i.y == 0,
    ensures
        action_step(cfg, active, s, EventChunkAction::ModifyBlock(c, i, b, absorb)) == s,
{
}

impl WorldController {
    pub open spec fn wf(&self) -> bool {
        self.store.wf()
    }

    /// A world with no resident chunk whose observer stands at the origin; the
    /// origin's neighbourhood is queued for loading.
    pub fn new(config: GameConfig) -> (r: WorldController)
        ensures
            r.wf(),
            r.store.grids() == Map::<ChunkCoord, Seq<BlockType>>::empty(),
            r.config == config,
            r.last_chunk == (ChunkCoord { x: 0, y: 0 }),
            r.pending@ == neighborhood_of(ChunkCoord { x: 0, y: 0 }).map_values(
                |c: ChunkCoord| EventChunkCommand::Load(c),
            ),
    {
        let store = NineSurroundChunk::empty();
        let origin = Position { x: 0, y: 0, z: 0 };
        let missing = store.missing_chunks(&origin);
        let ghost nb = neighborhood_of(chunk_at(origin));
        proof {
            assert(chunk_at(origin) == ChunkCoord { x: 0, y: 0 });
            assert(nb.filter(|d: ChunkCoord| !store.is_loaded(d)) =~= nb) by {
                reveal(Seq::filter);
                assert forall|k: int| 0 <= k <= 9 implies nb.take(k).filter(
                    |d: ChunkCoord| !store.is_loaded(d),
                ) =~= nb.take(k) by {
                    lemma_filter_all(nb, |d: ChunkCoord| !store.is_loaded(d), k);
                }
                assert(nb.take(9) =~= nb);
            }
        }
        let mut pending: Vec<EventChunkCommand> = Vec::new();
        let mut i: usize = 0;
        while i < missing.len()
            invariant
                i <= missing@.len(),
                pending@ == missing@.take(i as int).map_values(|c: ChunkCoord| EventChunkCommand::Load(c)),
            decreases missing@.len() - i,
        {
            pending.push(EventChunkCommand::Load(missing[i]));
            i = i + 1;
            assert(pending@ =~= missing@.take(i as int).map_values(|c: ChunkCoord| EventChunkCommand::Load(c)));
        }
        assert(missing@.take(missing@.len() as int) =~= missing@);
        let zero = ChunkCoord { x: 0, y: 0 };
        WorldController {
            store,
            pending,
            last_chunk: zero,
            position: PlayerPosition {
                absolut: origin,
                chunk: zero,
                index: VoxelIndex { x: 0, y: 0, z: 0 },
            },
            config,
        }
    }
}

proof fn lemma_filter_all(s: Seq<ChunkCoord>, p: spec_fn(ChunkCoord) -> bool, k: int)
    requires
        0 <= k <= s.len(),
        forall|i: int| 0 <= i < s.len() ==> p(s[i]),
    ensures
        s.take(k).filter(p) == s.take(k),
    decreases k,
{
    reveal(Seq::filter);
    if k > 0 {
        lemma_filter_all(s, p, k - 1);
        assert(s.take(k).drop_last() =~= s.take(k - 1));
        assert(s.take(k - 1).push(s[k - 1]) =~= s.take(k));
    }
}

proof fn lemma_first_generated_stays(gen: Seq<GameChunk>, c: ChunkCoord, i: int, n: int)
    requires
        0 <= i < n,
        first_generated(gen, c, i + 1) == Some(i),
    ensures
        first_generated(gen, c, n) == Some(i),
    decreases n,
{
    if n > i + 1 {
        lemma_first_generated_stays(gen, c, i, n - 1);
    }
}

/// Position in `gen` of the first chunk with coordinate `c`.
fn find_generated(gen: &Vec<GameChunk>, c: ChunkCoord) -> (r: Option<usize>)
    ensures
        match r {
            Some(k) => k < gen@.len() && first_generated(gen@, c, gen@.len() as int) == Some(
                k as int,
            ) && gen@[k as int].index == c,
            None => first_generated(gen@, c, gen@.len() as int) is None,
        },
{
    let mut i: usize = 0;
    while i < gen.len()
        invariant
            i <= gen@.len(),
            first_generated(gen@, c, i as int) is None,
        decreases gen@.len() - i,
    {
        if gen[i].index == c {
            proof {
                lemma_first_generated_stays(gen@, c, i as int, gen@.len() as int);
            }
            return Some(i);
        }
        i = i + 1;
    }
    None
}

impl WorldController {
    /// Record where the observer is. When it has entered another chunk, queue a
    /// load for every chunk of its new neighbourhood that is not resident;
    /// returns those chunks.
    pub fn movement(&mut self, position: &Position) -> (r: Vec<ChunkCoord>)
        requires
            old(self).wf(),
            position.wf(),
        ensures
            final(self).wf(),
            final(self).store == old(self).store,
            final(self).config == old(self).config,
            final(self).position.absolut == *position,
            final(self).position.chunk == chunk_at(*position),
            final(self).position.index.x == voxel_of(position.x as int) % CHUNK_WIDTH as int,
            final(self).position.index.y == if voxel_of(position.y as int) < 0 {
                0
            } else {
                voxel_of(position.y as int)
            },
            final(self).position.index.z == voxel_of(position.z as int) % CHUNK_WIDTH as int,
            final(self).last_chunk == chunk_at(*position),
            chunk_at(*position) == old(self).last_chunk ==> r@.len() == 0,
            chunk_at(*position) != old(self).last_chunk ==> r@ == neighborhood_of(
                chunk_at(*position),
            ).filter(|d: ChunkCoord| !old(self).store.is_loaded(d)),
            final(self).pending@ == old(self).pending@ + r@.map_values(
                |c: ChunkCoord| EventChunkCommand::Load(c),
            ),
    {
        proof {
            crate::voxel::lemma_chunk_of_units_bounds(position.x as int, CHUNK_WIDTH as int);
            crate::voxel::lemma_chunk_of_units_bounds(position.z as int, CHUNK_WIDTH as int);
        }
        let (chunk, index) = absolut_to_index(position);
        assert(chunk == chunk_at(*position));
        self.position = PlayerPosition { absolut: *position, chunk, index };
        let mut loads: Vec<ChunkCoord> = Vec::new();
        if chunk != self.last_chunk {
            self.last_chunk = chunk;
            loads = self.store.missing_chunks(position);
        }
        let ghost p0 = self.pending@;
        let mut i: usize = 0;
        while i < loads.len()
            invariant
                self.store == old(self).store,
                self.config == old(self).config,
                self.last_chunk == chunk,
                self.position == (PlayerPosition { absolut: *position, chunk, index }),
                old(self).wf(),
                i <= loads@.len(),
                self.pending@ == p0 + loads@.take(i as int).map_values(
                    |c: ChunkCoord| EventChunkCommand::Load(c),
                ),
            decreases loads@.len() - i,
        {
            self.pending.push(EventChunkCommand::Load(loads[i]));
            i = i + 1;
            assert(self.pending@ =~= p0 + loads@.take(i as int).map_values(
                |c: ChunkCoord| EventChunkCommand::Load(c),
            ));
        }
        assert(loads@.take(loads@.len() as int) =~= loads@);
        loads
    }

    /// The distinct chunks that pending loads name and that are not resident:
    /// those a terrain generator has to produce before `chunk_load`.
    pub fn chunks_to_generate(&self) -> (r: Vec<ChunkCoord>)
        requires
            self.wf(),
        ensures
            r@.no_duplicates(),
            forall|c: ChunkCoord|
                r@.contains(c) <==> !self.store.is_loaded(c) && self.pending@.contains(
                    EventChunkCommand::Load(c),
                ),
    {
        let mut out: Vec<ChunkCoord> = Vec::new();
        let mut i: usize = 0;
        while i < self.pending.len()
            invariant
                self.wf(),
                i <= self.pending@.len(),
                out@.no_duplicates(),
                forall|c: ChunkCoord|
                    out@.contains(c) <==> !self.store.is_loaded(c) && self.pending@.take(
                        i as int,
                    ).contains(EventChunkCommand::Load(c)),
            decreases self.pending@.len() - i,
        {
            let ghost prev = out@;
            let ghost taken = self.pending@.take(i as int);
            assert(self.pending@.take(i as int + 1) =~= taken.push(self.pending@[i as int]));
            if let EventChunkCommand::Load(c) = self.pending[i] {
                if !self.store.contains(c) && !contains_coord(&out, c) {
                    out.push(c);
                    proof {
                        assert forall|a: int, b: int|
                            0 <= a < out@.len() && 0 <= b < out@.len() && a != b implies out@[a]
                            != out@[b] by {
                            if a < prev.len() && b < prev.len() {
                            } else if a < prev.len() {
                                assert(prev.contains(out@[a]));
                            } else {
                                assert(prev.contains(out@[b]));
                            }
                        }
                    }
                }
            }
            proof {
                let next = self.pending@.take(i as int + 1);
                assert forall|d: ChunkCoord|
                    out@.contains(d) <==> !self.store.is_loaded(d) && next.contains(
                        EventChunkCommand::Load(d),
                    ) by {
                    if next.contains(EventChunkCommand::Load(d)) {
                        let k = choose|k: int| 0 <= k < next.len() && next[k] == EventChunkCommand::Load(d);
                        if k < taken.len() {
                            assert(taken[k] == EventChunkCommand::Load(d));
                            assert(taken.contains(EventChunkCommand::Load(d)));
                        }
                    }
                    if taken.contains(EventChunkCommand::Load(d)) {
                        let k = choose|k: int| 0 <= k < taken.len() && taken[k] == EventChunkCommand::Load(d);
                        assert(next[k] == EventChunkCommand::Load(d));
                    }
                    if out@.contains(d) && !prev.contains(d) {
                        assert(out@[out@.len() - 1] == d);
                        assert(next[i as int] == EventChunkCommand::Load(d));
                    }
                    if prev.contains(d) {
                        let k = choose|k: int| 0 <= k < prev.len() && prev[k] == d;
                        assert(out@[k] == d);
                    }
                    if out@.contains(d) && out@.len() == prev.len() {
                        assert(out@ == prev);
                    }
                    if out@.contains(d) && out@.len() > prev.len() && out@[out@.len() - 1] != d {
                        let k = choose|k: int| 0 <= k < out@.len() && out@[k] == d;
                        assert(prev[k] == d);
                    }
                }
            }
            i = i + 1;
        }
        assert(self.pending@.take(self.pending@.len() as int) =~= self.pending@);
        out
    }

    /// Apply the pending commands in arrival order, then make every resident
    /// chunk one tick older. A load of an absent chunk takes the first chunk of
    /// `generated` with its coordinate. Returns the event of each command.
    pub fn chunk_load(&mut self, generated: Vec<GameChunk>) -> (r: Vec<ChunkEvent>)
        requires
            old(self).wf(),
            forall|i: int| 0 <= i < generated@.len() ==> (#[trigger] generated@[i]).wf(),
        ensures
            final(self).wf(),
            final(self).pending@.len() == 0,
            final(self).config == old(self).config,
            final(self).last_chunk == old(self).last_chunk,
            final(self).position == old(self).position,
            ({
                let (s, evs) = run_commands(
                    (old(self).store.grids(), old(self).store.ages(), generated@),
                    old(self).pending@,
                );
                &&& final(self).store.grids() == s.0
                &&& final(self).store.ages() == aged(s.1)
                &&& r@ == evs
            }),
    {
        let ghost s0: LoadState = (self.store.grids(), self.store.ages(), generated@);
        let mut gen = generated;
        let mut events: Vec<ChunkEvent> = Vec::new();
        let mut i: usize = 0;
        while i < self.pending.len()
            invariant
                self.store.wf(),
                self.pending == old(self).pending,
                self.config == old(self).config,
                self.last_chunk == old(self).last_chunk,
                self.position == old(self).position,
                s0 == (old(self).store.grids(), old(self).store.ages(), generated@),
                i <= self.pending@.len(),
                forall|k: int| 0 <= k < gen@.len() ==> (#[trigger] gen@[k]).wf(),
                run_commands(s0, self.pending@.take(i as int)) == (
                    (self.store.grids(), self.store.ages(), gen@),
                    events@,
                ),
            decreases self.pending@.len() - i,
        {
            let cmd = self.pending[i];
            let ghost before: LoadState = (self.store.grids(), self.store.ages(), gen@);
            assert(self.pending@.take(i as int + 1).drop_last() =~= self.pending@.take(i as int));
            match cmd {
                EventChunkCommand::Load(c) => {
                    if self.store.contains(c) {
                        self.store.reset_age(c);
                        events.push(ChunkEvent::Remesh(c));
                    } else {
                        match find_generated(&gen, c) {
                            Some(k) => {
                                let g = gen.remove(k);
                                self.store.insert(c, g);
                                events.push(ChunkEvent::Remesh(c));
                            },
                            None => {
                                events.push(ChunkEvent::NotGenerated(c));
                            },
                        }
                    }
                },
                EventChunkCommand::Unload(c) => {
                    if self.store.remove(c) {
                        events.push(ChunkEvent::RemoveMesh(c));
                    } else {
                        events.push(ChunkEvent::DoubleUnload(c));
                    }
                },
                EventChunkCommand::Update(c) => {
                    if self.store.contains(c) {
                        events.push(ChunkEvent::Remesh(c));
                    } else {
                        events.push(ChunkEvent::MissingChunk(c));
                    }
                },
            }
            i = i + 1;
        }
        assert(self.pending@.take(self.pending@.len() as int) =~= self.pending@);
        let ghost last = self.store.ages();
        self.store.increment_age();
        assert(self.store.ages() =~= aged(last));
        self.pending = Vec::new();
        events
    }
}

fn contains_coord(v: &Vec<ChunkCoord>, c: ChunkCoord) -> (r: bool)
    ensures
        r == v@.contains(c),
{
    let mut i: usize = 0;
    while i < v.len()
        invariant
            i <= v@.len(),
            forall|j: int| 0 <= j < i ==> v@[j] != c,
        decreases v@.len() - i,
    {
        if v[i] == c {
            return true;
        }
        i = i + 1;
    }
    false
}

impl WorldController {
    /// Apply modification requests in order, then queue one update for each
    /// chunk an accepted replacement changed, in the order first changed.
    /// Returns those chunks.
    pub fn voxel_action(&mut self, requests: &Vec<EventChunkAction>, inventory: &mut Inventory) -> (r:
        Vec<ChunkCoord>)
        requires
            old(self).wf(),
            old(inventory).wf(),
        ensures
            final(self).wf(),
            final(inventory).wf(),
            final(inventory).active_slot == old(inventory).active_slot,
            final(self).store.ages() == old(self).store.ages(),
            final(self).config == old(self).config,
            final(self).last_chunk == old(self).last_chunk,
            final(self).position == old(self).position,
            ({
                let s = run_actions(
                    old(self).config,
                    old(inventory).active_slot as int,
                    (old(self).store.grids(), old(inventory).slots@, Seq::empty()),
                    requests@,
                );
                &&& final(self).store.grids() == s.0
                &&& final(inventory).slots@ == s.1
                &&& r@ == s.2
            }),
            r@.no_duplicates(),
            final(self).pending@ == old(self).pending@ + r@.map_values(
                |c: ChunkCoord| EventChunkCommand::Update(c),
            ),
    {
        let cfg = self.config;
        let active = inventory.active_slot;
        let ghost s0: ActionState = (self.store.grids(), inventory.slots@, Seq::empty());
        let mut marked: Vec<ChunkCoord> = Vec::new();
        let mut i: usize = 0;
        while i < requests.len()
            invariant
                self.store.wf(),
                inventory.wf(),
                inventory.active_slot == active,
                active == old(inventory).active_slot,
                cfg == self.config,
                self.config == old(self).config,
                self.pending == old(self).pending,
                self.last_chunk == old(self).last_chunk,
                self.position == old(self).position,
                self.store.ages() == old(self).store.ages(),
                s0 == (old(self).store.grids(), old(inventory).slots@, Seq::<ChunkCoord>::empty()),
                i <= requests@.len(),
                marked@.no_duplicates(),
                run_actions(cfg, active as int, s0, requests@.take(i as int)) == (
                    self.store.grids(),
                    inventory.slots@,
                    marked@,
                ),
            decreases requests@.len() - i,
        {
            let req = requests[i];
            assert(requests@.take(i as int + 1).drop_last() =~= requests@.take(i as int));
            let ghost prev = marked@;
            match req {
                EventChunkAction::ModifyBlock(c, index, b, absorb) => {
                    if !cfg.breakable_bedrock && index.y == 0 {
                    } else {
                        match self.store.block(c, index) {
                            Some(before) => {
                                if absorb && b == BlockType::Air {
                                    let _ = inventory.absorb(before, 1);
                                }
                                let _ = self.store.set_block(c, index, b);
                                if !contains_coord(&marked, c) {
                                    marked.push(c);
                                    proof {
                                        assert forall|a: int, b2: int|
                                            0 <= a < marked@.len() && 0 <= b2 < marked@.len() && a
                                                != b2 implies marked@[a] != marked@[b2] by {
                                            if a < prev.len() && b2 < prev.len() {
                                            } else if a < prev.len() {
                                                assert(prev.contains(marked@[a]));
                                            } else {
                                                assert(prev.contains(marked@[b2]));
                                            }
                                        }
                                    }
                                }
                            },
                            None => {},
                        }
                    }
                },
                EventChunkAction::PickBlock(c, index) => {
                    if cfg.creative {
                        match self.store.block(c, index) {
                            Some(bk) => {
                                let _ = inventory.absorb_creative(bk);
                            },
                            None => {},
                        }
                    }
                },
            }
            i = i + 1;
        }
        assert(requests@.take(requests@.len() as int) =~= requests@);
        let ghost p0 = self.pending@;
        let ghost st = self.store;
        let mut k: usize = 0;
        while k < marked.len()
            invariant
                self.store == st,
                self.store.wf(),
                self.store.ages() == old(self).store.ages(),
                self.config == old(self).config,
                self.last_chunk == old(self).last_chunk,
                self.position == old(self).position,
                k <= marked@.len(),
                self.pending@ == p0 + marked@.take(k as int).map_values(
                    |c: ChunkCoord| EventChunkCommand::Update(c),
                ),
            decreases marked@.len() - k,
        {
            self.pending.push(EventChunkCommand::Update(marked[k]));
            k = k + 1;
            assert(self.pending@ =~= p0 + marked@.take(k as int).map_values(
                |c: ChunkCoord| EventChunkCommand::Update(c),
            ));
        }
        assert(marked@.take(marked@.len() as int) =~= marked@);
        marked
    }
}

/// An input action of the observer.
#[derive(Clone, Copy, Debug, PartialEq, Eq, Structural)]
pub enum PlayerAction {
    SelectSlot(usize),
    PickBlock,
    Place,
    Break,
}

/// The chunk and index of the cell next to voxel `i` of chunk `c` across the
/// face with normal `n`, when its absolute coordinate fits an `i32`.
pub open spec fn place_target(c: ChunkCoord, i: VoxelIndex, n: WorldPos) -> Option<(ChunkCoord, VoxelIndex)> {
    let a = absolute_of(c, i);
    let p = (a.0 + n.x, a.1 + n.y, a.2 + n.z);
    if i32::MIN <= p.0 <= i32::MAX && i32::MIN <= p.1 <= i32::MAX && i32::MIN <= p.2 <= i32::MAX
        && i32::MIN <= a.0 <= i32::MAX && a.1 <= i32::MAX && i32::MIN <= a.2 <= i32::MAX {
        Some(
            (
                ChunkCoord {
                    x: (p.0 / CHUNK_WIDTH as int) as i32,
                    y: (p.2 / CHUNK_WIDTH as int) as i32,
                },
                VoxelIndex {
                    x: (p.0 % CHUNK_WIDTH as int) as u32,
                    y: (if p.1 < 0 {
                        0
                    } else {
                        p.1
                    }) as u32,
                    z: (p.2 % CHUNK_WIDTH as int) as u32,
                },
            ),
        )
    } else {
        None
    }
}

fn checked_place_target(c: ChunkCoord, i: VoxelIndex, n: WorldPos) -> (r: Option<
    (ChunkCoord, VoxelIndex),
>)
    ensures
        r == place_target(c, i, n),
{
    let ax = c.x as i64 * CHUNK_WIDTH as i64 + i.x as i64;
    let ay = i.y as i64;
    let az = c.y as i64 * CHUNK_WIDTH as i64 + i.z as i64;
    let px = ax + n.x as i64;
    let py = ay + n.y as i64;
    let pz = az + n.z as i64;
    let lo = i32::MIN as i64;
    let hi = i32::MAX as i64;
    if px < lo || px > hi || py < lo || py > hi || pz < lo || pz > hi || ax < lo || ax > hi || ay
        > hi || az < lo || az > hi {
        return None;
    }
    let a = index_to_absolut(c, i);
    let p = WorldPos { x: a.x + n.x, y: a.y + n.y, z: a.z + n.z };
    Some(absolut_to_index_i32(&p))
}

/// Turn an input action into a modification request, using the current
/// selection. Selecting a slot switches the active slot (indices past the last
/// slot are ignored). Breaking targets the selected voxel with `Air`. Placing
/// takes a block from the active slot and targets the cell in front of the
/// selected face. Picking asks to copy the selected voxel.
pub fn process_input(action: PlayerAction, selection: &RaycastSelection, inventory: &mut Inventory) -> (r:
    Option<EventChunkAction>)
    requires
        old(inventory).wf(),
    ensures
        final(inventory).wf(),
        match action {
            PlayerAction::SelectSlot(n) => {
                &&& r is None
                &&& final(inventory).slots == old(inventory).slots
                &&& final(inventory).active_slot == if n < SLOTS {
                    n
                } else {
                    old(inventory).active_slot
                }
            },
            PlayerAction::PickBlock => {
                &&& *final(inventory) == *old(inventory)
                &&& r == match selection.looking_at {
                    Some((c, i)) => Some(EventChunkAction::PickBlock(c, i)),
                    None => None,
                }
            },
            PlayerAction::Break => {
                &&& *final(inventory) == *old(inventory)
                &&& r == match selection.looking_at {
                    Some((c, i)) => Some(
                        EventChunkAction::ModifyBlock(c, i, BlockType::Air, true),
                    ),
                    None => None,
                }
            },
            PlayerAction::Place => match (selection.looking_at, selection.normal) {
                (Some((c, i)), Some(n)) => match place_target(c, i, n) {
                    Some((tc, ti)) => {
                        let a = old(inventory).active_slot as int;
                        &&& final(inventory).active_slot == old(inventory).active_slot
                        &&& final(inventory).slots@ == old(inventory).slots@.update(
                            a,
                            slot_after_consume(old(inventory).slots@[a]),
                        )
                        &&& r == match slot_item(old(inventory).slots@[a]) {
                            Some(b) => Some(EventChunkAction::ModifyBlock(tc, ti, b, true)),
                            None => None,
                        }
                    },
                    None => r is None && *final(inventory) == *old(inventory),
                },
                _ => r is None && *final(inventory) == *old(inventory),
            },
        },
{
    match action {
        PlayerAction::SelectSlot(n) => {
            if n < SLOTS {
                inventory.switch_slot(n);
            }
            None
        },
        PlayerAction::PickBlock => match selection.looking_at {
            Some((c, i)) => Some(EventChunkAction::PickBlock(c, i)),
            None => None,
        },
        PlayerAction::Break => match selection.looking_at {
            Some((c, i)) => Some(EventChunkAction::ModifyBlock(c, i, BlockType::Air, true)),
            None => None,
        },
        PlayerAction::Place => match (selection.looking_at, selection.normal) {
            (Some((c, i)), Some(n)) => match checked_place_target(c, i, n) {
                Some((tc, ti)) => match inventory.consume_current_slot() {
                    Some(b) => Some(EventChunkAction::ModifyBlock(tc, ti, b, true)),
                    None => None,
                },
                None => None,
            },
            _ => None,
        },
    }
}

impl WorldController {
    /// Eviction policy: queue an unload for every resident chunk older than
    /// `threshold` ticks that lies outside the 3 by 3 neighbourhood of the
    /// observer's chunk. Returns those chunks.
    pub fn queue_evictions(&mut self, threshold: u8) -> (r: Vec<ChunkCoord>)
        requires
            old(self).wf(),
        ensures
            final(self).wf(),
            final(self).store == old(self).store,
            final(self).config == old(self).config,
            final(self).last_chunk == old(self).last_chunk,
            final(self).position == old(self).position,
            r@.no_duplicates(),
            forall|c: ChunkCoord|
                r@.contains(c) <==> old(self).store.is_loaded(c) && old(self).store.ages()[c]
                    > threshold && !in_block(old(self).last_chunk, c),
            final(self).pending@ == old(self).pending@ + r@.map_values(
                |c: ChunkCoord| EventChunkCommand::Unload(c),
            ),
    {
        let old_ones = self.store.too_old(threshold);
        let centre = self.last_chunk;
        let mut out: Vec<ChunkCoord> = Vec::new();
        let mut i: usize = 0;
        while i < old_ones.len()
            invariant
                i <= old_ones@.len(),
                centre == old(self).last_chunk,
                forall|c: ChunkCoord|
                    old_ones@.contains(c) <==> self.store.is_loaded(c) && self.store.ages()[c]
                        > threshold,
                self.store == old(self).store,
                old_ones@.no_duplicates(),
                out@.no_duplicates(),
                forall|d: ChunkCoord| #[trigger]
                    out@.contains(d) <==> old_ones@.take(i as int).contains(d) && !in_block(
                        centre,
                        d,
                    ),
            decreases old_ones@.len() - i,
        {
            let c = old_ones[i];
            let ghost prev = out@;
            let ghost taken = old_ones@.take(i as int);
            assert(old_ones@.take(i as int + 1) =~= taken.push(c));
            let near = c.x as i64 >= centre.x as i64 - 1 && c.x as i64 <= centre.x as i64 + 1
                && c.y as i64 >= centre.y as i64 - 1 && c.y as i64 <= centre.y as i64 + 1;
            if !near {
                proof {
                    assert(!taken.contains(c)) by {
                        if taken.contains(c) {
                            let k = choose|k: int| 0 <= k < taken.len() && taken[k] == c;
                            assert(old_ones@[k] == old_ones@[i as int]);
                        }
                    }
                }
                assert(!prev.contains(c));
                out.push(c);
                proof {
                    assert forall|a: int, b: int|
                        0 <= a < out@.len() && 0 <= b < out@.len() && a != b implies out@[a]
                        != out@[b] by {
                        if a < prev.len() && b < prev.len() {
                        } else if a < prev.len() {
                            assert(prev.contains(out@[a]));
                        } else {
                            assert(prev.contains(out@[b]));
                        }
                    }
                }
            }
            proof {
                let next = taken.push(c);
                assert forall|d: ChunkCoord|
                    out@.contains(d) <==> next.contains(d) && !in_block(centre, d) by {
                    if next.contains(d) && d != c {
                        let k = choose|k: int| 0 <= k < next.len() && next[k] == d;
                        assert(taken[k] == d);
                    }
                    if taken.contains(d) {
                        let k = choose|k: int| 0 <= k < taken.len() && taken[k] == d;
                        assert(next[k] == d);
                    }
                    if prev.contains(d) {
                        let k = choose|k: int| 0 <= k < prev.len() && prev[k] == d;
                        assert(out@[k] == d);
                    }
                    if out@.contains(d) {
                        let k = choose|k: int| 0 <= k < out@.len() && out@[k] == d;
                        if k < prev.len() {
                            assert(prev[k] == d);
                        } else {
                            assert(d == c);
                            assert(next[next.len() - 1] == d);
                        }
                    }
                    if d == c && !in_block(centre, d) {
                        assert(out@[out@.len() - 1] == d);
                    }
                }
            }
            i = i + 1;
        }
        assert(old_ones@.take(old_ones@.len() as int) =~= old_ones@);
        let ghost p0 = self.pending@;
        let ghost st = self.store;
        let mut k: usize = 0;
        while k < out.len()
            invariant
                self.store == st,
                st == old(self).store,
                self.store.wf(),
                self.config == old(self).config,
                self.last_chunk == old(self).last_chunk,
                self.position == old(self).position,
                k <= out@.len(),
                self.pending@ == p0 + out@.take(k as int).map_values(
                    |c: ChunkCoord| EventChunkCommand::Unload(c),
                ),
            decreases out@.len() - k,
        {
            self.pending.push(EventChunkCommand::Unload(out[k]));
            k = k + 1;
            assert(self.pending@ =~= p0 + out@.take(k as int).map_values(
                |c: ChunkCoord| EventChunkCommand::Unload(c),
            ));
        }
        assert(out@.take(out@.len() as int) =~= out@);
        out
    }
}

} // verus!
