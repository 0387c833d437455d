//! Render handles of the drawn chunk groups.
use vstd::prelude::*;

use crate::blocks::MeshGroup;
use crate::voxel::ChunkCoord;

verus! {

/// What the renderer must do with the geometry of one mesh group of a chunk.
#[derive(Clone, Copy, Debug, PartialEq, Eq, Structural)]
pub enum MeshAction {
    /// First geometry for this chunk group: create a render object under the handle.
    Create(ChunkCoord, MeshGroup, u64),
    /// New geometry for a chunk group already drawn: replace it behind the handle.
    Replace(ChunkCoord, MeshGroup, u64),
    /// The chunk was unloaded: drop the render object behind the handle.
    Remove(ChunkCoord, MeshGroup, u64),
}

/// Render handles of the drawn chunk groups, keyed by chunk and mesh group,
/// and the next fresh handle.
pub struct MeshHandles {
    pub entries: Vec<(ChunkCoord, MeshGroup, u64)>,
    pub next: u64,
}

pub open spec fn key_of(e: (ChunkCoord, MeshGroup, u64)) -> (ChunkCoord, MeshGroup) {
    (e.0, e.1)
}

pub open spec fn removal(e: (ChunkCoord, MeshGroup, u64)) -> MeshAction {
    MeshAction::Remove(e.0, e.1, e.2)
}

impl MeshHandles {
    /// At most one handle per key, every handle below `next`.
    pub open spec fn wf(&self) -> bool {
        &&& self.entries@.map_values(|e: (ChunkCoord, MeshGroup, u64)| key_of(e)).no_duplicates()
        &&& forall|i: int| 0 <= i < self.entries@.len() ==> (#[trigger] self.entries@[i]).2 < self.next
    }

    pub fn new() -> (r: MeshHandles)
        ensures
            r.wf(),
            r.entries@.len() == 0,
            r.next == 0,
    {
        let r = MeshHandles { entries: Vec::new(), next: 0 };
        assert(r.entries@.map_values(|e: (ChunkCoord, MeshGroup, u64)| key_of(e)) =~= Seq::empty());
        r
    }

    /// New geometry was built for group `g` of chunk `c`: replace it behind the
    /// existing handle, or register a fresh handle and create it.
    pub fn upsert(&mut self, c: ChunkCoord, g: MeshGroup) -> (r: MeshAction)
        requires
            old(self).wf(),
            old(self).next < u64::MAX,
        ensures
            final(self).wf(),
            match r {
                MeshAction::Replace(rc, rg, h) => {
                    &&& rc == c && rg == g
                    &&& old(self).entries@.contains((c, g, h))
                    &&& *final(self) == *old(self)
                },
                MeshAction::Create(rc, rg, h) => {
                    &&& rc == c && rg == g
                    &&& h == old(self).next
                    &&& forall|i: int|
                        0 <= i < old(self).entries@.len() ==> key_of(#[trigger] old(self).entries@[i]) != (c, g)
                    &&& final(self).entries@ == old(self).entries@.push((c, g, h))
                    &&& final(self).next == old(self).next + 1
                },
                MeshAction::Remove(_, _, _) => false,
            },
    {
        let mut i: usize = 0;
        while i < self.entries.len()
            invariant
                self.wf(),
                *self == *old(self),
                i <= self.entries@.len(),
                forall|j: int| 0 <= j < i ==> key_of(#[trigger] self.entries@[j]) != (c, g),
            decreases self.entries@.len() - i,
        {
            let e = self.entries[i];
            if e.0 == c && e.1 == g {
                assert(self.entries@.contains(e));
                return MeshAction::Replace(c, g, e.2);
            }
            i = i + 1;
        }
        let h = self.next;
        let ghost pre = self.entries@;
        self.entries.push((c, g, h));
        self.next = h + 1;
        proof {
            let ks = self.entries@.map_values(|e: (ChunkCoord, MeshGroup, u64)| key_of(e));
            let ks0 = pre.map_values(|e: (ChunkCoord, MeshGroup, u64)| key_of(e));
            assert(ks =~= ks0.push((c, g)));
            assert forall|a: int, b: int| 0 <= a < ks.len() && 0 <= b < ks.len() && a != b implies ks[a] != ks[b] by {
                if a < ks0.len() && b < ks0.len() {
                    assert(ks[a] == ks0[a] && ks[b] == ks0[b]);
                } else if a < ks0.len() {
                    assert(key_of(pre[a]) != (c, g));
                } else {
                    assert(key_of(pre[b]) != (c, g));
                }
            }
            assert forall|j: int| 0 <= j < self.entries@.len() implies (#[trigger] self.entries@[j]).2 < self.next by {
                if j < pre.len() {
                    assert(self.entries@[j] == pre[j]);
                }
            }
        }
        MeshAction::Create(c, g, h)
    }

    /// Chunk `c` was unloaded: forget its handles and return a removal for
    /// each, in registration order.
    pub fn remove_chunk(&mut self, c: ChunkCoord) -> (r: Vec<MeshAction>)
        requires
            old(self).wf(),
        ensures
            final(self).wf(),
            final(self).next == old(self).next,
            final(self).entries@ == old(self).entries@.filter(
                |e: (ChunkCoord, MeshGroup, u64)| e.0 != c,
            ),
            r@ == old(self).entries@.filter(|e: (ChunkCoord, MeshGroup, u64)| e.0 == c).map_values(
                |e: (ChunkCoord, MeshGroup, u64)| removal(e),
            ),
    {
        let ghost keep = |e: (ChunkCoord, MeshGroup, u64)| e.0 != c;
        let ghost drop = |e: (ChunkCoord, MeshGroup, u64)| e.0 == c;
        let ghost all = self.entries@;
        let mut kept: Vec<(ChunkCoord, MeshGroup, u64)> = Vec::new();
        let mut removed: Vec<MeshAction> = Vec::new();
        let mut i: usize = 0;
        while i < self.entries.len()
            invariant
                all == self.entries@,
                keep == (|e: (ChunkCoord, MeshGroup, u64)| e.0 != c),
                drop == (|e: (ChunkCoord, MeshGroup, u64)| e.0 == c),
                i <= all.len(),
                kept@ == all.take(i as int).filter(keep),
                removed@ == all.take(i as int).filter(drop).map_values(
                    |e: (ChunkCoord, MeshGroup, u64)| removal(e),
                ),
            decreases all.len() - i,
        {
            let e = self.entries[i];
            let ghost next = all.take(i as int + 1);
            assert(next.drop_last() =~= all.take(i as int));
            assert(next.last() == e);
            proof {
                reveal(Seq::filter);
            }
            if e.0 == c {
                removed.push(MeshAction::Remove(e.0, e.1, e.2));
                assert(removed@ =~= next.filter(drop).map_values(
                    |e: (ChunkCoord, MeshGroup, u64)| removal(e),
                ));
            } else {
                kept.push(e);
            }
            i = i + 1;
        }
        assert(all.take(all.len() as int) =~= all);
        proof {
            let f = all.filter(keep);
            assert forall|j: int| 0 <= j < f.len() implies (#[trigger] f[j]).2 < self.next by {
                assert(f.contains(f[j]));
                all.lemma_filter_contains_rev(keep, f[j]);
            }
            lemma_filter_keys_unique(all, keep);
        }
        self.entries = kept;
        removed
    }
}

/// Filtering keeps the keys of a handle list distinct.
proof fn lemma_filter_keys_unique(
    s: Seq<(ChunkCoord, MeshGroup, u64)>,
    p: spec_fn((ChunkCoord, MeshGroup, u64)) -> bool,
)
    requires
        s.map_values(|e: (ChunkCoord, MeshGroup, u64)| key_of(e)).no_duplicates(),
    ensures
        s.filter(p).map_values(|e: (ChunkCoord, MeshGroup, u64)| key_of(e)).no_duplicates(),
    decreases s.len(),
{
    reveal(Seq::filter);
    if s.len() > 0 {
        let init = s.drop_last();
        let ks = s.map_values(|e: (ChunkCoord, MeshGroup, u64)| key_of(e));
        let ki = init.map_values(|e: (ChunkCoord, MeshGroup, u64)| key_of(e));
        assert forall|a: int, b: int| 0 <= a < ki.len() && 0 <= b < ki.len() && a != b implies ki[a] != ki[b] by {
            assert(ki[a] == ks[a] && ki[b] == ks[b]);
        }
        lemma_filter_keys_unique(init, p);
        if p(s.last()) {
            let f0 = init.filter(p);
            let f = f0.push(s.last());
            let kf0 = f0.map_values(|e: (ChunkCoord, MeshGroup, u64)| key_of(e));
            let kf = f.map_values(|e: (ChunkCoord, MeshGroup, u64)| key_of(e));
            assert(kf =~= kf0.push(key_of(s.last())));
            assert forall|j: int| 0 <= j < kf0.len() implies kf0[j] != key_of(s.last()) by {
                assert(f0.contains(f0[j]));
                init.lemma_filter_contains_rev(p, f0[j]);
                let k = choose|k: int| 0 <= k < init.len() && init[k] == f0[j];
                assert(ks[k] == kf0[j]);
                assert(ks[s.len() - 1] == key_of(s.last()));
            }
            assert forall|a: int, b: int| 0 <= a < kf.len() && 0 <= b < kf.len() && a != b implies kf[a] != kf[b] by {
                if a < kf0.len() && b < kf0.len() {
                    assert(kf[a] == kf0[a] && kf[b] == kf0[b]);
                }
            }
        }
    }
}

} // verus!
