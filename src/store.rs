//! The resident chunks around the observer, with their ages.
use vstd::prelude::*;

use crate::blocks::BlockType;
use crate::voxel::{
    absolut_to_index, absolut_to_index_i32, chunk_of_units, lemma_chunk_of_units_bounds,
    linear_index, voxel_of, ChunkCoord, GameChunk, Position, VoxelIndex, WorldPos, CHUNK_HEIGHT,
    CHUNK_WIDTH,
};

verus! {

/// The chunks resident around the observer, each with its age in ticks since it was loaded.
/// `data[i]` is keyed by its own coordinate and `age[i]` is its age.
pub struct NineSurroundChunk {
    pub data: Vec<GameChunk>,
    pub age: Vec<u8>,
}

/// One tick older, saturating at the counter's maximum.
pub open spec fn older(a: u8) -> u8 {
    if a == u8::MAX {
        a
    } else {
        (a + 1) as u8
    }
}

/// The 3 by 3 block of chunks centred on `c`, row by row:
/// entry `i` is offset by `i % 3 - 1` along x and `i / 3 - 1` along y.
pub open spec fn neighborhood_of(c: ChunkCoord) -> Seq<ChunkCoord> {
    Seq::new(
        9,
        |i: int| ChunkCoord { x: (c.x + i % 3 - 1) as i32, y: (c.y + i / 3 - 1) as i32 },
    )
}

/// Whether `d` lies in the 3 by 3 block centred on `c`.
pub open spec fn in_block(c: ChunkCoord, d: ChunkCoord) -> bool {
    c.x - 1 <= d.x <= c.x + 1 && c.y - 1 <= d.y <= c.y + 1
}

/// The chunk holding a position, with the world's chunk width.
pub open spec fn chunk_at(p: Position) -> ChunkCoord {
    ChunkCoord {
        x: chunk_of_units(p.x as int, CHUNK_WIDTH as int) as i32,
        y: chunk_of_units(p.z as int, CHUNK_WIDTH as int) as i32,
    }
}


/// `after` is `before` one tick later: the same chunks, each one tick older.
pub open spec fn ticked(before: NineSurroundChunk, after: NineSurroundChunk) -> bool {
    &&& after.grids() == before.grids()
    &&& after.ages().dom() == before.ages().dom()
    &&& forall|c: ChunkCoord| #[trigger]
        before.is_loaded(c) ==> after.ages()[c] == older(before.ages()[c])
}

/// Ages count ticks: once a resident chunk's age is reset, `n` ticks with no
/// load in between leave its age at `n`, up to the counter's maximum.
pub proof fn lemma_age_counts_ticks(states: Seq<NineSurroundChunk>, c: ChunkCoord)
    requires
        states.len() >= 1,
        states[0].is_loaded(c),
        states[0].ages()[c] == 0,
        forall|i: int| 0 <= i < states.len() - 1 ==> ticked(#[trigger] states[i], states[i + 1]),
    ensures
        states.last().is_loaded(c),
        states.last().ages()[c] == if states.len() - 1 <= u8::MAX {
            states.len() - 1
        } else {
            u8::MAX as int
        },
    decreases states.len(),
{
    if states.len() > 1 {
        let prefix = states.drop_last();
        assert forall|i: int| 0 <= i < prefix.len() - 1 implies ticked(
            #[trigger] prefix[i],
            prefix[i + 1],
        ) by {
            assert(ticked(states[i], states[i + 1]));
        }
        lemma_age_counts_ticks(prefix, c);
        let n = states.len() as int;
        assert(ticked(states[n - 2], states[n - 1]));
        assert(states[n - 2] == prefix.last());
        assert(states[n - 2].grids().dom().contains(c));
        assert(states[n - 1].grids().dom().contains(c));
    }
}

/// The voxel index, inside its chunk, of a position.
pub open spec fn index_at(p: Position) -> VoxelIndex {
    VoxelIndex {
        x: (voxel_of(p.x as int) % CHUNK_WIDTH as int) as u32,
        y: voxel_of(p.y as int) as u32,
        z: (voxel_of(p.z as int) % CHUNK_WIDTH as int) as u32,
    }
}

/// The 3 by 3 block around `c` holds nine distinct coordinates, exactly those
/// within one chunk of `c` along each axis.
pub proof fn lemma_neighborhood(c: ChunkCoord)
    requires
        i32::MIN < c.x < i32::MAX,
        i32::MIN < c.y < i32::MAX,
    ensures
        neighborhood_of(c).len() == 9,
        neighborhood_of(c).no_duplicates(),
        forall|d: ChunkCoord| neighborhood_of(c).contains(d) <==> in_block(c, d),
{
    let n = neighborhood_of(c);
    assert forall|a: int, b: int| 0 <= a < 9 && 0 <= b < 9 && a != b implies n[a] != n[b] by {
        assert(a % 3 != b % 3 || a / 3 != b / 3);
    }
    assert forall|d: ChunkCoord| n.contains(d) <==> in_block(c, d) by {
        if in_block(c, d) {
            let i = (d.x - c.x + 1) + 3 * (d.y - c.y + 1);
            assert(0 <= i < 9);
            assert(i % 3 == d.x - c.x + 1);
            assert(i / 3 == d.y - c.y + 1);
            assert(n[i] == d);
        }
    }
}

/// The block at voxel `i` of chunk `c` in a map of chunk grids.
pub open spec fn block_in(grids: Map<ChunkCoord, Seq<BlockType>>, c: ChunkCoord, i: VoxelIndex) -> BlockType {
    grids[c][linear_index(CHUNK_WIDTH as int, CHUNK_HEIGHT as int, i.x as int, i.y as int, i.z as int)]
}

/// The neighbourhood of any position holds exactly nine distinct chunks, the
/// 3 by 3 block around the chunk holding the position.
pub proof fn lemma_neighborhood_of_position(p: Position)
    requires
        p.wf(),
    ensures
        neighborhood_of(chunk_at(p)).len() == 9,
        neighborhood_of(chunk_at(p)).no_duplicates(),
        forall|d: ChunkCoord| neighborhood_of(chunk_at(p)).contains(d) <==> in_block(chunk_at(p), d),
{
    lemma_chunk_of_units_bounds(p.x as int, CHUNK_WIDTH as int);
    lemma_chunk_of_units_bounds(p.z as int, CHUNK_WIDTH as int);
    lemma_neighborhood(chunk_at(p));
}

impl NineSurroundChunk {
    /// Coordinates of the resident chunks, in storage order.
    pub open spec fn keys(&self) -> Seq<ChunkCoord> {
        self.data@.map_values(|g: GameChunk| g.index)
    }

    pub open spec fn wf(&self) -> bool {
        &&& self.age@.len() == self.data@.len()
        &&& self.keys().no_duplicates()
        &&& forall|i: int| 0 <= i < self.data@.len() ==> (#[trigger] self.data@[i]).wf()
    }

    pub open spec fn is_loaded(&self, c: ChunkCoord) -> bool {
        self.keys().contains(c)
    }

    pub open spec fn slot(&self, c: ChunkCoord) -> int {
        self.keys().index_of(c)
    }

    /// Voxels of each resident chunk.
    pub open spec fn grids(&self) -> Map<ChunkCoord, Seq<BlockType>> {
        Map::new(|c: ChunkCoord| self.is_loaded(c), |c: ChunkCoord| self.data@[self.slot(c)].voxel.cells@)
    }

    /// Age of each resident chunk.
    pub open spec fn ages(&self) -> Map<ChunkCoord, u8> {
        Map::new(|c: ChunkCoord| self.is_loaded(c), |c: ChunkCoord| self.age@[self.slot(c)])
    }

    /// The voxel at `index` of the resident chunk `c`.
    pub open spec fn block_at(&self, c: ChunkCoord, index: VoxelIndex) -> BlockType {
        self.data@[self.slot(c)].voxel.at(index.x as int, index.y as int, index.z as int)
    }

    pub proof fn lemma_slot(&self, i: int)
        requires
            self.wf(),
            0 <= i < self.data@.len(),
        ensures
            self.is_loaded(self.data@[i].index),
            self.slot(self.data@[i].index) == i,
    {
        let c = self.data@[i].index;
        assert(self.keys()[i] == c);
        let j = self.slot(c);
        assert(self.keys()[j] == c);
    }

    /// Position of `c` in storage, if resident.
    fn find(&self, c: ChunkCoord) -> (r: Option<usize>)
        requires
            self.wf(),
        ensures
            match r {
                Some(i) => i < self.data@.len() && self.data@[i as int].index == c && self.slot(c)
                    == i && self.is_loaded(c),
                None => !self.is_loaded(c),
            },
    {
        let mut i: usize = 0;
        while i < self.data.len()
            invariant
                self.wf(),
                i <= self.data@.len(),
                forall|j: int| 0 <= j < i ==> self.keys()[j] != c,
            decreases self.data@.len() - i,
        {
            if self.data[i].index == c {
                proof {
                    self.lemma_slot(i as int);
                }
                return Some(i);
            }
            i = i + 1;
        }
        None
    }

    /// A store with no resident chunk.
    pub fn empty() -> (r: NineSurroundChunk)
        ensures
            r.wf(),
            r.data@.len() == 0,
            r.grids() == Map::<ChunkCoord, Seq<BlockType>>::empty(),
            r.ages() == Map::<ChunkCoord, u8>::empty(),
    {
        let r = NineSurroundChunk { data: Vec::new(), age: Vec::new() };
        assert(r.grids() =~= Map::<ChunkCoord, Seq<BlockType>>::empty());
        assert(r.ages() =~= Map::<ChunkCoord, u8>::empty());
        r
    }

    /// Whether chunk `c` is resident.
    pub fn contains(&self, c: ChunkCoord) -> (r: bool)
        requires
            self.wf(),
        ensures
            r == self.is_loaded(c),
    {
        self.find(c).is_some()
    }

    /// Age of chunk `c`, if resident.
    pub fn age(&self, c: ChunkCoord) -> (r: Option<u8>)
        requires
            self.wf(),
        ensures
            r == (if self.is_loaded(c) {
                Some(self.ages()[c])
            } else {
                None
            }),
    {
        match self.find(c) {
            Some(i) => Some(self.age[i]),
            None => None,
        }
    }

    /// The resident chunk at `c`, if any.
    pub fn chunk(&self, c: ChunkCoord) -> (r: Option<&GameChunk>)
        requires
            self.wf(),
        ensures
            match r {
                Some(g) => self.is_loaded(c) && g.index == c && g.wf() && g.voxel.cells@
                    == self.grids()[c] && *g == self.data@[self.slot(c)],
                None => !self.is_loaded(c),
            },
    {
        match self.find(c) {
            Some(i) => Some(&self.data[i]),
            None => None,
        }
    }

    /// Number of resident chunks.
    pub fn len(&self) -> (r: usize)
        requires
            self.wf(),
        ensures
            r == self.grids().dom().len(),
    {
        proof {
            self.lemma_dom_len();
        }
        self.data.len()
    }

    proof fn lemma_dom_len(&self)
        requires
            self.wf(),
        ensures
            self.grids().dom().len() == self.data@.len(),
            self.grids().dom() == self.keys().to_set(),
    {
        assert(self.grids().dom() =~= self.keys().to_set());
        self.keys().unique_seq_to_set();
    }

    /// Store `chunk` as the resident chunk at `index`, replacing any chunk there,
    /// with age 0. Returns whether `index` was not resident before.
    pub fn insert(&mut self, index: ChunkCoord, chunk: GameChunk) -> (r: bool)
        requires
            old(self).wf(),
            chunk.wf(),
        ensures
            final(self).wf(),
            r == !old(self).is_loaded(index),
            final(self).grids() == old(self).grids().insert(index, chunk.voxel.cells@),
            final(self).ages() == old(self).ages().insert(index, 0u8),
    {
        let mut chunk = chunk;
        chunk.index = index;
        match self.find(index) {
            Some(i) => {
                self.data.set(i, chunk);
                self.age.set(i, 0);
                let ghost pre = *old(self);
                assert(self.keys() =~= pre.keys());
                proof {
                    assert forall|j: int| 0 <= j < self.data@.len() implies (
                    #[trigger] self.data@[j]).wf() by {
                        if j != i {
                            assert(self.data@[j] == pre.data@[j]);
                        }
                    }
                }
                assert(self.grids() =~= pre.grids().insert(index, chunk.voxel.cells@));
                assert(self.ages() =~= pre.ages().insert(index, 0u8));
                false
            },
            None => {
                let ghost pre = *old(self);
                self.data.push(chunk);
                self.age.push(0);
                assert(self.keys() =~= pre.keys().push(index));
                proof {
                    assert forall|j: int| 0 <= j < self.data@.len() implies (
                    #[trigger] self.data@[j]).wf() by {
                        if j < pre.data@.len() {
                            assert(self.data@[j] == pre.data@[j]);
                        }
                    }
                    assert(self.keys().no_duplicates()) by {
                        assert forall|a: int, b: int|
                            0 <= a < self.keys().len() && 0 <= b < self.keys().len() && a
                                != b implies self.keys()[a] != self.keys()[b] by {
                            if a < pre.keys().len() && b < pre.keys().len() {
                            } else if a < pre.keys().len() {
                                assert(pre.keys().contains(self.keys()[a]));
                            } else {
                                assert(pre.keys().contains(self.keys()[b]));
                            }
                        }
                    }
                    assert forall|c: ChunkCoord| pre.is_loaded(c) implies self.is_loaded(c)
                        && self.slot(c) == pre.slot(c) by {
                        pre.lemma_slot(pre.slot(c));
                        self.lemma_slot(pre.slot(c));
                    }
                    self.lemma_slot(pre.data@.len() as int);
                    assert forall|c: ChunkCoord| self.is_loaded(c) implies pre.is_loaded(c) || c
                        == index by {
                        let j = choose|j: int| 0 <= j < self.keys().len() && self.keys()[j] == c;
                        if j < pre.keys().len() {
                            assert(pre.keys()[j] == c);
                        }
                    }
                }
                assert(self.grids() =~= pre.grids().insert(index, chunk.voxel.cells@));
                assert(self.ages() =~= pre.ages().insert(index, 0u8));
                true
            },
        }
    }

    /// Drop the resident chunk at `index`. Returns whether there was one.
    pub fn remove(&mut self, index: ChunkCoord) -> (r: bool)
        requires
            old(self).wf(),
        ensures
            final(self).wf(),
            r == old(self).is_loaded(index),
            final(self).grids() == old(self).grids().remove(index),
            final(self).ages() == old(self).ages().remove(index),
    {
        match self.find(index) {
            Some(i) => {
                let ghost pre = *old(self);
                self.data.remove(i);
                self.age.remove(i);
                assert(self.keys() =~= pre.keys().remove(i as int));
                proof {
                    assert forall|j: int| 0 <= j < self.data@.len() implies (
                    #[trigger] self.data@[j]).wf() by {
                        if j < i {
                            assert(self.data@[j] == pre.data@[j]);
                        } else {
                            assert(self.data@[j] == pre.data@[j + 1]);
                        }
                    }
                    assert(self.keys().no_duplicates()) by {
                        assert forall|a: int, b: int|
                            0 <= a < self.keys().len() && 0 <= b < self.keys().len() && a
                                != b implies self.keys()[a] != self.keys()[b] by {
                            let a2 = if a < i {
                                a
                            } else {
                                a + 1
                            };
                            let b2 = if b < i {
                                b
                            } else {
                                b + 1
                            };
                            assert(self.keys()[a] == pre.keys()[a2]);
                            assert(self.keys()[b] == pre.keys()[b2]);
                        }
                    }
                    assert forall|c: ChunkCoord| pre.is_loaded(c) && c != index implies self.is_loaded(
                        c,
                    ) && self.data@[self.slot(c)] == pre.data@[pre.slot(c)] && self.age@[self.slot(
                        c,
                    )] == pre.age@[pre.slot(c)] by {
                        let j = pre.slot(c);
                        pre.lemma_slot(j);
                        assert(j != i);
                        let j2 = if j < i {
                            j
                        } else {
                            j - 1
                        };
                        assert(self.data@[j2] == pre.data@[j]);
                        self.lemma_slot(j2);
                    }
                    assert forall|c: ChunkCoord| self.is_loaded(c) implies pre.is_loaded(c) && c
                        != index by {
                        let j = choose|j: int| 0 <= j < self.keys().len() && self.keys()[j] == c;
                        let j2 = if j < i {
                            j
                        } else {
                            j + 1
                        };
                        assert(pre.keys()[j2] == c);
                        assert(pre.keys()[i as int] == index);
                    }
                }
                assert(self.grids() =~= pre.grids().remove(index));
                assert(self.ages() =~= pre.ages().remove(index));
                true
            },
            None => {
                assert(self.grids() =~= old(self).grids().remove(index));
                assert(self.ages() =~= old(self).ages().remove(index));
                false
            },
        }
    }

    /// Set the age of resident chunk `index` back to 0; no effect if it is not resident.
    pub fn reset_age(&mut self, index: ChunkCoord)
        requires
            old(self).wf(),
        ensures
            final(self).wf(),
            final(self).grids() == old(self).grids(),
            old(self).is_loaded(index) ==> final(self).ages() == old(self).ages().insert(index, 0u8),
            !old(self).is_loaded(index) ==> final(self).ages() == old(self).ages(),
    {
        if let Some(i) = self.find(index) {
            let ghost pre = *old(self);
            self.age.set(i, 0);
            assert(self.keys() =~= pre.keys());
            assert(self.grids() =~= pre.grids());
            assert(self.ages() =~= pre.ages().insert(index, 0u8));
        }
    }

    /// Make every resident chunk one tick older (saturating).
    pub fn increment_age(&mut self)
        requires
            old(self).wf(),
        ensures
            final(self).wf(),
            ticked(*old(self), *final(self)),
    {
        let ghost pre = *old(self);
        let mut i: usize = 0;
        while i < self.age.len()
            invariant
                self.data == pre.data,
                self.age@.len() == pre.age@.len(),
                pre.wf(),
                i <= self.age@.len(),
                forall|j: int| 0 <= j < i ==> self.age@[j] == older(pre.age@[j]),
                forall|j: int| i <= j < self.age@.len() ==> self.age@[j] == pre.age@[j],
            decreases self.age@.len() - i,
        {
            let a = self.age[i];
            let b: u8 = if a == u8::MAX {
                a
            } else {
                a + 1
            };
            self.age.set(i, b);
            i = i + 1;
        }
        assert(self.keys() =~= pre.keys());
        assert(self.grids() =~= pre.grids());
        assert(self.ages().dom() =~= pre.ages().dom());
    }

    /// Coordinates of the resident chunks whose age exceeds `threshold`, in storage order.
    pub fn too_old(&self, threshold: u8) -> (r: Vec<ChunkCoord>)
        requires
            self.wf(),
        ensures
            r@.no_duplicates(),
            forall|c: ChunkCoord|
                r@.contains(c) <==> self.is_loaded(c) && self.ages()[c] > threshold,
    {
        let mut out: Vec<ChunkCoord> = Vec::new();
        let mut i: usize = 0;
        while i < self.data.len()
            invariant
                self.wf(),
                i <= self.data@.len(),
                out@.no_duplicates(),
                forall|c: ChunkCoord|
                    out@.contains(c) <==> exists|j: int|
                        0 <= j < i && self.keys()[j] == c && self.age@[j] > threshold,
            decreases self.data@.len() - i,
        {
            let ghost prev = out@;
            if self.age[i] > threshold {
                let c = self.data[i].index;
                proof {
                    assert(!out@.contains(c)) by {
                        if out@.contains(c) {
                            let j = choose|j: int|
                                0 <= j < i && self.keys()[j] == c && self.age@[j] > threshold;
                            assert(self.keys()[i as int] == c);
                        }
                    }
                }
                out.push(c);
                proof {
                    assert(out@ == prev.push(c));
                    assert forall|d: ChunkCoord| out@.contains(d) implies exists|j: int|
                        0 <= j < i + 1 && self.keys()[j] == d && self.age@[j] > threshold by {
                        let k = choose|k: int| 0 <= k < out@.len() && out@[k] == d;
                        if k < prev.len() {
                            assert(prev[k] == d);
                            assert(prev.contains(d));
                        } else {
                            assert(self.keys()[i as int] == d);
                        }
                    }
                    assert forall|d: ChunkCoord| (exists|j: int|
                        0 <= j < i + 1 && self.keys()[j] == d && self.age@[j] > threshold) implies out@.contains(d) by {
                        let j = choose|j: int|
                            0 <= j < i + 1 && self.keys()[j] == d && self.age@[j] > threshold;
                        if j < i {
                            assert(prev.contains(d));
                            let k = choose|k: int| 0 <= k < prev.len() && prev[k] == d;
                            assert(out@[k] == d);
                        } else {
                            assert(out@[out@.len() - 1] == d);
                        }
                    }
                }
            } else {
                proof {
                    assert forall|d: ChunkCoord| (exists|j: int|
                        0 <= j < i + 1 && self.keys()[j] == d && self.age@[j] > threshold) implies out@.contains(d) by {
                        let j = choose|j: int|
                            0 <= j < i + 1 && self.keys()[j] == d && self.age@[j] > threshold;
                        assert(j < i);
                    }
                }
            }
            i = i + 1;
        }
        proof {
            assert forall|c: ChunkCoord|
                out@.contains(c) <==> self.is_loaded(c) && self.ages()[c] > threshold by {
                if self.is_loaded(c) {
                    self.lemma_slot(self.slot(c));
                }
                if exists|j: int| 0 <= j < self.data@.len() && self.keys()[j] == c && self.age@[j] > threshold {
                    let j = choose|j: int|
                        0 <= j < self.data@.len() && self.keys()[j] == c && self.age@[j] > threshold;
                    self.lemma_slot(j);
                }
            }
        }
        out
    }
    /// A store holding `data`, each chunk at its own coordinate with age 0;
    /// a later chunk replaces an earlier one with the same coordinate.
    pub fn from_data(data: Vec<GameChunk>) -> (r: NineSurroundChunk)
        requires
            forall|i: int| 0 <= i < data@.len() ==> (#[trigger] data@[i]).wf(),
        ensures
            r.wf(),
            forall|c: ChunkCoord|
                r.is_loaded(c) <==> exists|i: int|
                    0 <= i < data@.len() && (#[trigger] data@[i]).index == c,
            forall|c: ChunkCoord| r.is_loaded(c) ==> r.ages()[c] == 0,
    {
        let mut r = NineSurroundChunk::empty();
        let mut rest = data;
        let ghost orig = rest@;
        let ghost mut k: int = 0;
        while rest.len() > 0
            invariant
                r.wf(),
                0 <= k <= orig.len(),
                rest@ == orig.subrange(k, orig.len() as int),
                forall|i: int| 0 <= i < orig.len() ==> (#[trigger] orig[i]).wf(),
                forall|c: ChunkCoord|
                    r.is_loaded(c) <==> exists|i: int| 0 <= i < k && (#[trigger] orig[i]).index == c,
                forall|c: ChunkCoord| r.is_loaded(c) ==> r.ages()[c] == 0,
            decreases rest@.len(),
        {
            let g = rest.remove(0);
            assert(g == orig[k]);
            let c = g.index;
            let ghost pre = r;
            r.insert(c, g);
            proof {
                assert(r.grids().dom() == pre.grids().dom().insert(c));
                assert forall|d: ChunkCoord|
                    r.is_loaded(d) <==> exists|i: int| 0 <= i < k + 1 && (#[trigger] orig[i]).index == d by {
                    assert(r.grids().dom().contains(d) == r.is_loaded(d));
                    assert(pre.grids().dom().contains(d) == pre.is_loaded(d));
                    if d == c {
                        assert(orig[k].index == d);
                    } else if exists|i: int| 0 <= i < k + 1 && (#[trigger] orig[i]).index == d {
                        let i = choose|i: int| 0 <= i < k + 1 && (#[trigger] orig[i]).index == d;
                        assert(i < k);
                    }
                }
                assert forall|d: ChunkCoord| r.is_loaded(d) implies r.ages()[d] == 0 by {
                    assert(r.grids().dom().contains(d) == r.is_loaded(d));
                    assert(pre.grids().dom().contains(d) == pre.is_loaded(d));
                    assert(r.ages().dom().contains(d) == r.is_loaded(d));
                    assert(pre.ages().dom().contains(d) == pre.is_loaded(d));
                }
                k = k + 1;
            }
        }
        r
    }

    /// The block at voxel `index` of resident chunk `c`; `None` if `c` is not
    /// resident or `index` lies outside the chunk.
    pub fn block(&self, c: ChunkCoord, index: VoxelIndex) -> (r: Option<BlockType>)
        requires
            self.wf(),
        ensures
            r == (if self.is_loaded(c) && index.x < CHUNK_WIDTH && index.y < CHUNK_HEIGHT
                && index.z < CHUNK_WIDTH {
                Some(self.block_at(c, index))
            } else {
                None
            }),
            r is Some ==> r->0 == block_in(self.grids(), c, index),
    {
        match self.find(c) {
            Some(i) => {
                let g = &self.data[i];
                match g.voxel.get(index.x as usize, index.y as usize, index.z as usize) {
                    Ok(b) => Some(b),
                    Err(_) => None,
                }
            },
            None => None,
        }
    }

    /// The block occupying an absolute position; `None` when the position is
    /// outside the world's vertical extent or its chunk is not resident.
    pub fn get(&self, absolut: &Position) -> (r: Option<BlockType>)
        requires
            self.wf(),
            absolut.wf(),
        ensures
            r == (if 0 <= voxel_of(absolut.y as int) < CHUNK_HEIGHT && self.is_loaded(
                chunk_at(*absolut),
            ) {
                Some(self.block_at(chunk_at(*absolut), index_at(*absolut)))
            } else {
                None
            }),
    {
        proof {
            lemma_chunk_of_units_bounds(absolut.y as int, CHUNK_WIDTH as int);
        }
        let (chunk, index) = absolut_to_index(absolut);
        let vy = crate::voxel::floor_div(absolut.y, crate::voxel::UNITS_PER_VOXEL);
        if vy < 0 || vy >= CHUNK_HEIGHT as i64 {
            return None;
        }
        assert(chunk == chunk_at(*absolut));
        assert(index == index_at(*absolut));
        self.block(chunk, index)
    }

    /// Overwrite voxel `index` of resident chunk `c` with `b`. Returns whether
    /// the chunk was resident and the index inside it; otherwise nothing changes.
    pub fn set_block(&mut self, c: ChunkCoord, index: VoxelIndex, b: BlockType) -> (r: bool)
        requires
            old(self).wf(),
        ensures
            final(self).wf(),
            final(self).ages() == old(self).ages(),
            r == (old(self).is_loaded(c) && index.x < CHUNK_WIDTH && index.y < CHUNK_HEIGHT
                && index.z < CHUNK_WIDTH),
            r ==> final(self).grids() == old(self).grids().insert(
                c,
                old(self).grids()[c].update(
                    linear_index(
                        CHUNK_WIDTH as int,
                        CHUNK_HEIGHT as int,
                        index.x as int,
                        index.y as int,
                        index.z as int,
                    ),
                    b,
                ),
            ),
            r ==> forall|d: ChunkCoord, j: VoxelIndex| #[trigger]
                final(self).block_at(d, j) == if d == c && j == index {
                    b
                } else {
                    old(self).block_at(d, j)
                } || !old(self).is_loaded(d) || j.x >= CHUNK_WIDTH || j.y >= CHUNK_HEIGHT
                    || j.z >= CHUNK_WIDTH,
            !r ==> final(self).grids() == old(self).grids(),
    {
        let ghost pre = *old(self);
        match self.find(c) {
            Some(i) => {
                if index.x as usize >= CHUNK_WIDTH || index.y as usize >= CHUNK_HEIGHT
                    || index.z as usize >= CHUNK_WIDTH {
                    return false;
                }
                let g = &mut self.data[i];
                let _ = g.voxel.set(index.x as usize, index.y as usize, index.z as usize, b);
                assert(self.keys() =~= pre.keys());
                proof {
                    assert forall|j: int| 0 <= j < self.data@.len() implies (
                    #[trigger] self.data@[j]).wf() by {
                        if j != i {
                            assert(self.data@[j] == pre.data@[j]);
                        }
                    }
                    assert forall|d: ChunkCoord, j: VoxelIndex| #[trigger]
                        self.block_at(d, j) == if d == c && j == index {
                            b
                        } else {
                            pre.block_at(d, j)
                        } || !pre.is_loaded(d) || j.x >= CHUNK_WIDTH || j.y >= CHUNK_HEIGHT
                            || j.z >= CHUNK_WIDTH by {
                        if pre.is_loaded(d) && j.x < CHUNK_WIDTH && j.y < CHUNK_HEIGHT && j.z
                            < CHUNK_WIDTH {
                            let g0 = pre.data@[i as int].voxel;
                            g0.lemma_idx(j.x as int, j.y as int, j.z as int);
                            if d == c && g0.idx(j.x as int, j.y as int, j.z as int) == g0.idx(
                                index.x as int,
                                index.y as int,
                                index.z as int,
                            ) {
                                crate::voxel::lemma_linear_index_injective(
                                    CHUNK_WIDTH as int,
                                    CHUNK_HEIGHT as int,
                                    j.x as int,
                                    j.y as int,
                                    j.z as int,
                                    index.x as int,
                                    index.y as int,
                                    index.z as int,
                                );
                            }
                        }
                    }
                }
                assert(pre.data@[i as int].wf());
                assert(self.grids() =~= pre.grids().insert(
                    c,
                    pre.grids()[c].update(
                        pre.data@[pre.slot(c)].voxel.idx(
                            index.x as int,
                            index.y as int,
                            index.z as int,
                        ),
                        b,
                    ),
                ));
                assert(self.ages() =~= pre.ages());
                true
            },
            None => false,
        }
    }

    /// The 3 by 3 block of chunk coordinates centred on the chunk holding `position`,
    /// in row order starting at the lower-left neighbour.
    pub fn neighborhood(&self, position: &Position) -> (r: Vec<ChunkCoord>)
        requires
            position.wf(),
        ensures
            r@ == neighborhood_of(chunk_at(*position)),
    {
        proof {
            lemma_chunk_of_units_bounds(position.x as int, CHUNK_WIDTH as int);
            lemma_chunk_of_units_bounds(position.z as int, CHUNK_WIDTH as int);
        }
        let c = position.in_chunk(CHUNK_WIDTH as u32);
        let mut out: Vec<ChunkCoord> = Vec::with_capacity(9);
        let mut i: i32 = 0;
        while i < 9
            invariant
                0 <= i <= 9,
                c == chunk_at(*position),
                -2_000_000_001 <= c.x <= 2_000_000_000,
                -2_000_000_001 <= c.y <= 2_000_000_000,
                out@ == neighborhood_of(c).take(i as int),
            decreases 9 - i,
        {
            out.push(ChunkCoord { x: c.x - 1 + i % 3, y: c.y - 1 + i / 3 });
            i = i + 1;
            assert(out@ =~= neighborhood_of(c).take(i as int));
        }
        assert(out@ =~= neighborhood_of(c));
        out
    }

    /// The coordinates of the neighbourhood of `position` that are not resident,
    /// in neighbourhood order.
    pub fn missing_chunks(&self, position: &Position) -> (r: Vec<ChunkCoord>)
        requires
            self.wf(),
            position.wf(),
        ensures
            r@ == neighborhood_of(chunk_at(*position)).filter(
                |d: ChunkCoord| !self.is_loaded(d),
            ),
    {
        let all = self.neighborhood(position);
        let ghost pred = |q: ChunkCoord| !self.is_loaded(q);
        let mut out: Vec<ChunkCoord> = Vec::new();
        let mut i: usize = 0;
        while i < all.len()
            invariant
                self.wf(),
                i <= all@.len(),
                pred == (|q: ChunkCoord| !self.is_loaded(q)),
                out@ == all@.take(i as int).filter(pred),
            decreases all@.len() - i,
        {
            let d = all[i];
            let ghost next = all@.take(i as int + 1);
            assert(next.drop_last() =~= all@.take(i as int));
            assert(next.last() == d);
            proof {
                reveal(Seq::filter);
            }
            assert(next.filter(pred) == if pred(d) {
                all@.take(i as int).filter(pred).push(d)
            } else {
                all@.take(i as int).filter(pred)
            });
            let present = self.contains(d);
            assert(pred(d) == !present);
            if !present {
                out.push(d);
            }
            assert(out@ == next.filter(pred));
            i = i + 1;
        }
        assert(all@.take(all@.len() as int) =~= all@);
        out
    }
    /// The block at an absolute voxel coordinate; `None` when it is outside the
    /// world's vertical extent or its chunk is not resident.
    pub fn block_at_voxel(&self, v: &WorldPos) -> (r: Option<BlockType>)
        requires
            self.wf(),
        ensures
            ({
                let c = ChunkCoord {
                    x: (v.x as int / CHUNK_WIDTH as int) as i32,
                    y: (v.z as int / CHUNK_WIDTH as int) as i32,
                };
                let i = VoxelIndex {
                    x: (v.x as int % CHUNK_WIDTH as int) as u32,
                    y: v.y as u32,
                    z: (v.z as int % CHUNK_WIDTH as int) as u32,
                };
                r == if 0 <= v.y < CHUNK_HEIGHT && self.grids().dom().contains(c) {
                    Some(block_in(self.grids(), c, i))
                } else {
                    None
                }
            }),
    {
        if v.y < 0 || v.y >= CHUNK_HEIGHT as i32 {
            return None;
        }
        let (c, i) = absolut_to_index_i32(v);
        let r = self.block(c, i);
        assert(self.grids().dom().contains(c) == self.is_loaded(c));
        r
    }
}

} // verus!
