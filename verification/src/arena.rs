//! Dense arena of light records with generational handles.
//!
//! Records lie densely, so that a record's place doubles as its index in a GPU buffer.
//! Removing one moves the last record into its place. A handle names a slot of an
//! indirection table and the generation at which it was issued; a handle that was
//! removed never becomes valid again.

use vstd::prelude::*;

use crate::views::GpuLight;

verus! {

/// How a light may change at runtime.
#[derive(Clone, Copy, Debug, PartialEq, Eq, Structural)]
pub enum Movability {
    /// Baked; never moves.
    Static,
    /// Baked; never moves, may change otherwise.
    Stationary,
    /// Lit at runtime.
    Movable,
}

impl Movability {
    /// The light may move at runtime.
    pub fn can_move(self) -> (movable: bool)
        ensures
            movable == (self == Movability::Movable),
    {
        match self {
            Movability::Movable => true,
            _ => false,
        }
    }
}

/// Handle of a light.
#[derive(Clone, Copy, Debug, PartialEq, Eq, Structural)]
pub struct LightId {
    pub slot: usize,
    pub generation: u64,
}

/// A light of the scene.
#[derive(Clone, Copy, Debug)]
pub struct LightRecord {
    pub gpu: GpuLight,
    pub movability: Movability,
    pub user_tag: u64,
}

/// An entry of the indirection table.
#[derive(Clone, Copy, Debug)]
pub struct ArenaSlot {
    /// Generation of the handle that the slot has, or gives out next.
    pub generation: u64,
    /// Place of the record, while the slot is occupied.
    pub dense: Option<usize>,
}

/// Dense arena of light records.
pub struct LightArena {
    /// The records, densely.
    pub records: Vec<LightRecord>,
    /// The handle of each record.
    pub ids: Vec<LightId>,
    /// The indirection table.
    pub slots: Vec<ArenaSlot>,
    /// Slots that can be given out again.
    pub free: Vec<usize>,
}

/// The sequence without the element at `i`, whose place the last element takes.
pub open spec fn swap_removed<T>(s: Seq<T>, i: int) -> Seq<T> {
    s.update(i, s.last()).drop_last()
}

impl LightArena {
    /// Handles and records correspond, the table leads from each handle to its record
    /// and nowhere else, and the free slots are unoccupied and listed once.
    pub open spec fn wf(&self) -> bool {
        &&& self.ids@.len() == self.records@.len()
        &&& forall|d: int|
            0 <= d < self.ids@.len() ==> {
                &&& (#[trigger] self.ids@[d]).slot < self.slots@.len()
                &&& self.slots@[self.ids@[d].slot as int].dense == Some(d as usize)
                &&& self.slots@[self.ids@[d].slot as int].generation == self.ids@[d].generation
                &&& d <= usize::MAX
            }
        &&& forall|s: int|
            0 <= s < self.slots@.len() ==> match (#[trigger] self.slots@[s]).dense {
                Some(d) => d < self.ids@.len() && self.ids@[d as int].slot == s,
                None => true,
            }
        &&& forall|k: int|
            0 <= k < self.free@.len() ==> {
                &&& (#[trigger] self.free@[k]) < self.slots@.len()
                &&& self.slots@[self.free@[k] as int].dense is None
            }
        &&& self.free@.no_duplicates()
    }

    /// Place of the record that the handle names, if it names one.
    pub open spec fn place(&self, id: LightId) -> Option<int> {
        if id.slot < self.slots@.len() && self.slots@[id.slot as int].generation == id.generation {
            match self.slots@[id.slot as int].dense {
                Some(d) => Some(d as int),
                None => None,
            }
        } else {
            None
        }
    }

    /// The handle names a record.
    pub open spec fn live(&self, id: LightId) -> bool {
        self.place(id) is Some
    }

    /// The record that a live handle names.
    pub open spec fn record(&self, id: LightId) -> LightRecord {
        self.records@[self.place(id)->0]
    }

    /// The handle was given out, be it live or removed since.
    pub open spec fn issued(&self, id: LightId) -> bool {
        &&& id.slot < self.slots@.len()
        &&& {
            ||| id.generation < self.slots@[id.slot as int].generation
            ||| id.generation == self.slots@[id.slot as int].generation && !self.free@.contains(
                id.slot,
            )
        }
    }

    /// An empty arena.
    pub fn new() -> (arena: Self)
        ensures
            arena.wf(),
            arena.records@.len() == 0,
            arena.ids@.len() == 0,
            arena.slots@.len() == 0,
            arena.free@.len() == 0,
            forall|id: LightId| !#[trigger] arena.issued(id) && !arena.live(id),
    {
        LightArena {
            records: Vec::new(),
            ids: Vec::new(),
            slots: Vec::new(),
            free: Vec::new(),
        }
    }

    /// Adds a record behind the others. The handle is one that was never given out.
    pub fn insert(&mut self, record: LightRecord) -> (added: (LightId, usize))
        requires
            old(self).wf(),
        ensures
            final(self).wf(),
            added.1 == old(self).records@.len(),
            final(self).records@ == old(self).records@.push(record),
            final(self).ids@ == old(self).ids@.push(added.0),
            final(self).place(added.0) == Some(added.1 as int),
            !old(self).issued(added.0),
            forall|other: LightId|
                other != added.0 ==> #[trigger] final(self).place(other) == old(self).place(other),
            forall|other: LightId| #[trigger]
                final(self).issued(other) == (old(self).issued(other) || other == added.0),
    {
        let dense: usize = self.records.len();
        let ghost pre = *self;
        let id: LightId = match self.free.pop() {
            Some(slot) => {
                assert(pre.free@.last() == slot);
                assert(pre.free@[pre.free@.len() - 1] == slot);
                let generation: u64 = self.slots[slot].generation;
                self.slots[slot] = ArenaSlot { generation, dense: Some(dense) };
                proof {
                    assert(self.free@ =~= pre.free@.drop_last());
                    assert forall|s: usize|
                        #[trigger] self.free@.contains(s) == (pre.free@.contains(s) && s != slot) by {
                        if pre.free@.contains(s) && s != slot {
                            let k = choose|k: int| 0 <= k < pre.free@.len() && pre.free@[k] == s;
                            assert(self.free@[k] == s);
                        }
                        if self.free@.contains(s) {
                            let k = choose|k: int| 0 <= k < self.free@.len() && self.free@[k] == s;
                            assert(pre.free@[k] == s);
                        }
                    }
                    assert(pre.free@.contains(slot));
                }
                LightId { slot, generation }
            },
            None => {
                let slot: usize = self.slots.len();
                self.slots.push(ArenaSlot { generation: 0, dense: Some(dense) });
                assert(pre.free@ =~= self.free@);
                assert(!self.free@.contains(slot));
                LightId { slot, generation: 0 }
            },
        };
        self.records.push(record);
        self.ids.push(id);
        (id, dense)
    }

    /// Place of the record that the handle names, if it names one.
    pub fn index_of(&self, id: LightId) -> (index: Option<usize>)
        requires
            self.wf(),
        ensures
            match index {
                Some(d) => self.place(id) == Some(d as int) && d < self.records@.len() && self.ids@[d as int] == id,
                None => self.place(id) is None,
            },
    {
        if id.slot >= self.slots.len() {
            return None;
        }
        let entry: ArenaSlot = self.slots[id.slot];
        if entry.generation != id.generation {
            return None;
        }
        entry.dense
    }

    /// Replaces the GPU parameters of the record at `index`.
    pub fn set_gpu(&mut self, index: usize, gpu: GpuLight)
        requires
            old(self).wf(),
            index < old(self).records@.len(),
        ensures
            final(self).wf(),
            final(self).records@ == old(self).records@.update(
                index as int,
                (LightRecord { gpu, ..old(self).records@[index as int] }),
            ),
            final(self).ids == old(self).ids,
            final(self).slots == old(self).slots,
            final(self).free == old(self).free,
    {
        let record: LightRecord = self.records[index];
        self.records[index] = LightRecord {
            gpu,
            movability: record.movability,
            user_tag: record.user_tag,
        };
    }

    /// Removes the record that the handle names and returns its place; the last record
    /// takes the place.
    pub fn remove(&mut self, id: LightId) -> (removed: Option<usize>)
        requires
            old(self).wf(),
        ensures
            final(self).wf(),
            match removed {
                Some(d) => {
                    &&& old(self).place(id) == Some(d as int)
                    &&& d < old(self).records@.len()
                    &&& final(self).records@ == swap_removed(old(self).records@, d as int)
                    &&& final(self).ids@ == swap_removed(old(self).ids@, d as int)
                    &&& final(self).place(id) is None
                    &&& forall|other: LightId|
                        other != id ==> #[trigger] final(self).place(other) == (if old(self).place(
                            other,
                        ) == Some(old(self).records@.len() - 1) {
                            Some(d as int)
                        } else {
                            old(self).place(other)
                        })
                },
                None => {
                    &&& old(self).place(id) is None
                    &&& *final(self) == *old(self)
                },
            },
            forall|other: LightId| #[trigger] final(self).issued(other) == old(self).issued(other),
    {
        let index: usize = match self.index_of(id) {
            Some(index) => index,
            None => {
                return None;
            },
        };
        let ghost pre = *self;
        let ghost last = pre.ids@.len() - 1;
        proof {
            assert(pre.ids@[index as int] == id);
            assert(pre.ids@[last].slot < pre.slots@.len());
            assert(!pre.free@.contains(id.slot)) by {
                if pre.free@.contains(id.slot) {
                    let k = choose|k: int| 0 <= k < pre.free@.len() && pre.free@[k] == id.slot;
                    assert(pre.slots@[pre.free@[k] as int].dense is None);
                }
            }
        }
        let moved: LightId = self.ids[self.ids.len() - 1];
        self.records.swap_remove(index);
        self.ids.swap_remove(index);
        let moved_generation: u64 = self.slots[moved.slot].generation;
        self.slots[moved.slot] = ArenaSlot { generation: moved_generation, dense: Some(index) };
        if id.generation < u64::MAX {
            self.slots[id.slot] = ArenaSlot { generation: id.generation + 1, dense: None };
            self.free.push(id.slot);
            proof {
                assert forall|s: usize|
                    #[trigger] self.free@.contains(s) == (pre.free@.contains(s) || s == id.slot) by {
                    if pre.free@.contains(s) {
                        let k = choose|k: int| 0 <= k < pre.free@.len() && pre.free@[k] == s;
                        assert(self.free@[k] == s);
                    }
                    if s == id.slot {
                        assert(self.free@[self.free@.len() - 1] == s);
                    }
                }
            }
        } else {
            // The slot has no generation left to give out: it is retired.
            self.slots[id.slot] = ArenaSlot { generation: id.generation, dense: None };
        }
        proof {
            assert forall|d: int| 0 <= d < self.ids@.len() implies {
                &&& (#[trigger] self.ids@[d]).slot < self.slots@.len()
                &&& self.slots@[self.ids@[d].slot as int].dense == Some(d as usize)
                &&& self.slots@[self.ids@[d].slot as int].generation == self.ids@[d].generation
                &&& d <= usize::MAX
            } by {
                let source = if d == index {
                    last
                } else {
                    d
                };
                assert(self.ids@[d] == pre.ids@[source]);
                assert(pre.slots@[pre.ids@[source].slot as int].dense == Some(source as usize));
                assert(source != index);
            }
        }
        Some(index)
    }
}

/// Swap-removal by index: the last element takes the place of the removed one, the others
/// stay.
pub proof fn swap_removal_moves_the_last<T>(s: Seq<T>, i: int, j: int)
    requires
        0 <= i < s.len(),
    ensures
        swap_removed(s, i).len() == s.len() - 1,
        i < s.len() - 1 ==> swap_removed(s, i)[i] == s[s.len() - 1],
        0 <= j < s.len() - 1 && j != i ==> swap_removed(s, i)[j] == s[j],
{
}

/// A handle names the record at whose place it is listed, and a handle that is not listed
/// names none.
pub proof fn handles_name_their_record(arena: &LightArena, id: LightId, d: int)
    requires
        arena.wf(),
    ensures
        arena.ids@.len() == arena.records@.len(),
        arena.place(id) == Some(d) <==> 0 <= d < arena.ids@.len() && arena.ids@[d] == id,
        arena.live(id) <==> exists|e: int| 0 <= e < arena.ids@.len() && #[trigger] arena.ids@[e] == id,
        arena.place(id) == Some(d) ==> arena.record(id) == arena.records@[d],
{
    if arena.live(id) {
        let e = arena.place(id)->0;
        assert(arena.slots@[id.slot as int].dense is Some);
        assert(arena.ids@[e].slot == id.slot);
    }
    if exists|e: int| 0 <= e < arena.ids@.len() && #[trigger] arena.ids@[e] == id {
        let e = choose|e: int| 0 <= e < arena.ids@.len() && #[trigger] arena.ids@[e] == id;
        assert(arena.slots@[arena.ids@[e].slot as int].dense == Some(e as usize));
    }
    if 0 <= d < arena.ids@.len() && arena.ids@[d] == id {
        assert(arena.slots@[arena.ids@[d].slot as int].dense == Some(d as usize));
    }
}

} // verus!
