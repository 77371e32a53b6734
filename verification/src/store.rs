//! The agent store: an arena of slots keyed by (index, generation)
//! handles, with a per-cell occupancy index. Handles captured during the
//! decision phase are re-validated before every commit-phase mutation.

use vstd::prelude::*;

use crate::action::AgentHandle;
use crate::entity::AntEntity;
use crate::entity::AntEntityState;
use crate::error::AntError;

verus! {

/// One arena slot: its generation token, the agent it holds (if any) and
/// the grid cell the agent stands on.
#[derive(Clone, Copy, Debug, PartialEq, Eq)]
pub struct AgentSlot {
    pub generation: u64,
    pub entity: Option<AntEntity>,
    pub cell: usize,
}

/// The arena of agents plus, per grid cell, the ordered list of slot
/// indices of the agents standing on it.
pub struct AgentStore {
    pub slots: Vec<AgentSlot>,
    pub occupancy: Vec<Vec<usize>>,
}

impl AgentStore {
    /// The occupancy list of cell `c`, as a sequence of slot indices.
    pub open spec fn occ(self, c: int) -> Seq<usize> {
        self.occupancy@[c]@
    }

    /// How many grid cells the store indexes.
    pub open spec fn n_cells(self) -> int {
        self.occupancy@.len() as int
    }

    /// The store's internal consistency: every live slot is listed
    /// exactly once, on the cell it points at; every listed index points
    /// back at a live slot on that cell.
    pub open spec fn wf(self) -> bool {
        &&& forall|s: int| 0 <= s < self.slots@.len() && (#[trigger] self.slots@[s]).entity is Some
            ==> self.slots@[s].cell < self.n_cells()
                && self.occ(self.slots@[s].cell as int).contains(s as usize)
        &&& forall|c: int, k: int| 0 <= c < self.n_cells() && 0 <= k < self.occ(c).len()
            ==> {
                let s = #[trigger] self.occ(c)[k];
                &&& s < self.slots@.len()
                &&& self.slots@[s as int].entity is Some
                &&& self.slots@[s as int].cell == c
            }
        &&& forall|c: int, k1: int, k2: int|
            0 <= c < self.n_cells() && 0 <= k1 < k2 < self.occ(c).len()
                ==> self.occ(c)[k1] != self.occ(c)[k2]
    }

    /// Whether `h` still refers to the agent it was taken for: the slot
    /// exists, is live, and its generation token matches.
    pub open spec fn valid_handle(self, h: AgentHandle) -> bool {
        &&& h.index < self.slots@.len()
        &&& self.slots@[h.index as int].generation == h.generation
        &&& self.slots@[h.index as int].entity is Some
    }

    /// The agent a valid handle refers to.
    pub open spec fn agent_of(self, h: AgentHandle) -> AntEntity {
        self.slots@[h.index as int].entity->0
    }

    /// The cell the agent behind a valid handle stands on.
    pub open spec fn cell_of(self, h: AgentHandle) -> usize {
        self.slots@[h.index as int].cell
    }

    /// An empty store indexing `n_cells` grid cells.
    pub fn new(n_cells: usize) -> (r: AgentStore)
        ensures
            r.wf(),
            r.slots@.len() == 0,
            r.n_cells() == n_cells,
            forall|c: int| 0 <= c < n_cells ==> #[trigger] r.occ(c).len() == 0,
    {
        let mut occupancy: Vec<Vec<usize>> = Vec::new();
        let mut i: usize = 0;
        while i < n_cells
            invariant
                i <= n_cells,
                occupancy@.len() == i,
                forall|c: int| 0 <= c < i ==> #[trigger] occupancy@[c]@.len() == 0,
            decreases n_cells - i,
        {
            occupancy.push(Vec::new());
            i = i + 1;
        }
        AgentStore { slots: Vec::new(), occupancy }
    }

    /// Places a new agent on `cell` and returns its handle. Slots are
    /// never reused in this core, so the token of a fresh slot is zero.
    pub fn add(&mut self, entity: AntEntity, cell: usize) -> (h: AgentHandle)
        requires
            old(self).wf(),
            cell < old(self).n_cells(),
            old(self).slots@.len() < usize::MAX,
        ensures
            final(self).wf(),
            h == (AgentHandle { index: old(self).slots@.len() as usize, generation: 0 }),
            final(self).valid_handle(h),
            final(self).slots@ == old(self).slots@.push(
                AgentSlot { generation: 0, entity: Some(entity), cell }),
            final(self).n_cells() == old(self).n_cells(),
            forall|c: int| 0 <= c < old(self).n_cells() && c != cell
                ==> #[trigger] final(self).occ(c) == old(self).occ(c),
            final(self).occ(cell as int) == old(self).occ(cell as int).push(
                old(self).slots@.len() as usize),
    {
        let index = self.slots.len();
        self.slots.push(AgentSlot { generation: 0, entity: Some(entity), cell });
        let mut row: Vec<usize> = Vec::new();
        self.occupancy.set_and_swap(cell, &mut row);
        row.push(index);
        self.occupancy.set_and_swap(cell, &mut row);
        let h = AgentHandle { index, generation: 0 };
        proof {
            let post = *self;
            let pre = *old(self);
            assert forall|c: int| 0 <= c < pre.n_cells() && c != cell
                implies #[trigger] post.occ(c) == pre.occ(c) by {
                assert(post.occupancy@[c] == pre.occupancy@[c]);
            }
            assert(post.occ(cell as int) =~= pre.occ(cell as int).push(index));
            assert forall|s: int| 0 <= s < post.slots@.len() && (#[trigger] post.slots@[s]).entity is Some
                implies post.slots@[s].cell < post.n_cells()
                    && post.occ(post.slots@[s].cell as int).contains(s as usize) by {
                if s < pre.slots@.len() {
                    assert(pre.occ(pre.slots@[s].cell as int).contains(s as usize));
                    let k = choose|k: int| 0 <= k < pre.occ(pre.slots@[s].cell as int).len()
                        && pre.occ(pre.slots@[s].cell as int)[k] == s as usize;
                    assert(post.occ(post.slots@[s].cell as int)[k] == s as usize);
                } else {
                    assert(post.occ(cell as int)[pre.occ(cell as int).len() as int] == index);
                }
            }
        }
        h
    }

    /// The agent `h` refers to, or `StaleHandle` when the slot was
    /// re-generated or emptied since the handle was captured.
    pub fn get_verify(&self, h: AgentHandle) -> (r: Result<AntEntity, AntError>)
        ensures
            self.valid_handle(h) ==> r == Ok::<AntEntity, AntError>(self.agent_of(h)),
            !self.valid_handle(h) ==> r == Err::<AntEntity, AntError>(AntError::StaleHandle),
    {
        if h.index < self.slots.len() {
            let slot = self.slots[h.index];
            if slot.generation == h.generation {
                match slot.entity {
                    Some(e) => Ok(e),
                    None => Err(AntError::StaleHandle),
                }
            } else {
                Err(AntError::StaleHandle)
            }
        } else {
            Err(AntError::StaleHandle)
        }
    }

    /// The cell the agent behind `h` stands on, when the handle is valid.
    pub fn locate(&self, h: AgentHandle) -> (r: Result<usize, AntError>)
        ensures
            self.valid_handle(h) ==> r == Ok::<usize, AntError>(self.cell_of(h)),
            !self.valid_handle(h) ==> r == Err::<usize, AntError>(AntError::StaleHandle),
    {
        if h.index < self.slots.len() {
            let slot = self.slots[h.index];
            if slot.generation == h.generation && slot.entity.is_some() {
                Ok(slot.cell)
            } else {
                Err(AntError::StaleHandle)
            }
        } else {
            Err(AntError::StaleHandle)
        }
    }

    /// Overwrites the behavior state of the agent behind a valid handle.
    pub fn set_state(&mut self, h: AgentHandle, state: AntEntityState)
        requires
            old(self).wf(),
            old(self).valid_handle(h),
        ensures
            final(self).wf(),
            final(self).valid_handle(h),
            final(self).slots@ == old(self).slots@.update(h.index as int, AgentSlot {
                entity: Some(AntEntity { state, ..old(self).agent_of(h) }),
                ..old(self).slots@[h.index as int]
            }),
            final(self).occupancy@ == old(self).occupancy@,
            final(self).n_cells() == old(self).n_cells(),
    {
        let slot = self.slots[h.index];
        let e = match slot.entity {
            Some(e) => e,
            None => { return; },
        };
        self.slots.set(h.index, AgentSlot {
            generation: slot.generation,
            entity: Some(AntEntity { state, mut_state: e.mut_state }),
            cell: slot.cell,
        });
        proof {
            let post = *self;
            let pre = *old(self);
            assert forall|c: int| 0 <= c < post.n_cells() implies post.occ(c) == pre.occ(c) by {}
        }
    }

    /// The occupancy list after the first occurrence of `v` is removed.
    pub open spec fn spec_row_without(row: Seq<usize>, v: usize) -> Seq<usize> {
        row.remove_value(v)
    }

    /// Moves the agent in slot `index` to `dest_cell`: its index leaves
    /// the old cell's occupancy list and is appended to the new one.
    pub fn move_entity(&mut self, index: usize, dest_cell: usize)
        requires
            old(self).wf(),
            index < old(self).slots@.len(),
            old(self).slots@[index as int].entity is Some,
            dest_cell < old(self).n_cells(),
        ensures
            final(self).wf(),
            final(self).slots@ == old(self).slots@.update(index as int, AgentSlot {
                cell: dest_cell,
                ..old(self).slots@[index as int]
            }),
            final(self).n_cells() == old(self).n_cells(),
            ({
                let src = old(self).slots@[index as int].cell as int;
                if src == dest_cell {
                    &&& final(self).occ(dest_cell as int)
                        == old(self).occ(src).remove_value(index).push(index)
                    &&& forall|c: int| 0 <= c < old(self).n_cells() && c != dest_cell
                        ==> #[trigger] final(self).occ(c) == old(self).occ(c)
                } else {
                    &&& final(self).occ(src) == old(self).occ(src).remove_value(index)
                    &&& final(self).occ(dest_cell as int) == old(self).occ(dest_cell as int).push(index)
                    &&& forall|c: int| 0 <= c < old(self).n_cells() && c != dest_cell && c != src
                        ==> #[trigger] final(self).occ(c) == old(self).occ(c)
                }
            }),
    {
        let src_cell = self.slots[index].cell;
        let slot = self.slots[index];
        let n_slots = self.slots.len();
        proof {
            assert(n_slots == old(self).slots@.len());
        }
        let ghost pre = *old(self);
        let ghost src = pre.slots@[index as int].cell as int;

        // take the source row and drop this index from it
        let mut row: Vec<usize> = Vec::new();
        self.occupancy.set_and_swap(src_cell, &mut row);
        let mut out: Vec<usize> = Vec::new();
        let mut k: usize = 0;
        let mut removed: bool = false;
        while k < row.len()
            invariant
                k <= row@.len(),
                row@ == pre.occ(src),
                !removed ==> out@ == row@.take(k as int) && (forall|j: int| 0 <= j < k ==> row@[j] != index),
                removed ==> out@ == row@.take(k as int).remove_value(index)
                    && row@.take(k as int).contains(index),
            decreases row@.len() - k,
        {
            let v = row[k];
            let ghost pref = row@.take(k as int);
            proof {
                assert(row@.take(k as int + 1) == pref.push(row@[k as int]));
            }
            if v == index {
                if removed {
                    out.push(v);
                    proof {
                        lemma_remove_value_push_ne_or_in(pref, row@[k as int], index);
                        assert(out@ == pref.push(row@[k as int]).remove_value(index));
                        let j = choose|j: int| 0 <= j < pref.len() && pref[j] == index;
                        assert(pref.push(row@[k as int])[j] == index);
                    }
                } else {
                    removed = true;
                    proof {
                        assert(!pref.contains(index)) by {
                            if pref.contains(index) {
                                let j = choose|j: int| 0 <= j < pref.len() && pref[j] == index;
                                assert(row@[j] == index);
                            }
                        }
                        lemma_remove_value_push_hit(pref, index);
                        assert(out@ == pref.push(row@[k as int]).remove_value(index));
                        assert(pref.push(row@[k as int])[k as int] == index);
                    }
                }
            } else {
                out.push(v);
                proof {
                    if removed {
                        lemma_remove_value_push_ne_or_in(pref, row@[k as int], index);
                        assert(out@ == pref.push(row@[k as int]).remove_value(index));
                        let j = choose|j: int| 0 <= j < pref.len() && pref[j] == index;
                        assert(pref.push(row@[k as int])[j] == index);
                    } else {
                        assert(out@ == row@.take(k as int + 1));
                    }
                }
            }
            k = k + 1;
        }
        proof {
            assert(row@.take(row@.len() as int) == row@);
            if !removed {
                assert(!row@.contains(index));
                assert(pre.occ(src).contains(index));
            }
        }
        self.occupancy.set_and_swap(src_cell, &mut out);

        // update the slot's cell
        self.slots.set(index, AgentSlot {
            generation: slot.generation,
            entity: slot.entity,
            cell: dest_cell,
        });

        // append to the destination row
        let mut drow: Vec<usize> = Vec::new();
        self.occupancy.set_and_swap(dest_cell, &mut drow);
        drow.push(index);
        self.occupancy.set_and_swap(dest_cell, &mut drow);

        proof {
            let post = *self;
            lemma_remove_value_props(pre.occ(src), index);
            assert(post.occ(dest_cell as int) =~= (
                if src == dest_cell {
                    pre.occ(src).remove_value(index).push(index)
                } else {
                    pre.occ(dest_cell as int).push(index)
                }
            ));
            lemma_move_entity_wf(pre, post, index, src_cell, dest_cell);
        }
    }

    /// The handles of every agent standing on cell `c`, in list order.
    pub fn occupants(&self, c: usize) -> (r: Vec<AgentHandle>)
        requires
            self.wf(),
            c < self.n_cells(),
        ensures
            r@.len() == self.occ(c as int).len(),
            forall|k: int| 0 <= k < r@.len() ==> {
                let h = #[trigger] r@[k];
                &&& h.index == self.occ(c as int)[k]
                &&& self.valid_handle(h)
                &&& self.cell_of(h) == c
            },
    {
        let row = &self.occupancy[c];
        let mut r: Vec<AgentHandle> = Vec::new();
        let mut k: usize = 0;
        while k < row.len()
            invariant
                self.wf(),
                c < self.n_cells(),
                row@ == self.occ(c as int),
                k <= row@.len(),
                r@.len() == k,
                forall|j: int| 0 <= j < k ==> {
                    let h = #[trigger] r@[j];
                    &&& h.index == self.occ(c as int)[j]
                    &&& self.valid_handle(h)
                    &&& self.cell_of(h) == c
                },
            decreases row@.len() - k,
        {
            let s = row[k];
            let gen = self.slots[s].generation;
            r.push(AgentHandle { index: s, generation: gen });
            k = k + 1;
        }
        r
    }

    /// How many slots the arena holds.
    pub fn len(&self) -> (r: usize)
        ensures
            r == self.slots@.len(),
    {
        self.slots.len()
    }
}

/// Removing a value not yet seen commutes with appending another element.
proof fn lemma_remove_value_push_ne_or_in(s: Seq<usize>, x: usize, v: usize)
    requires
        s.contains(v) || x != v,
    ensures
        s.contains(v) ==> s.push(x).remove_value(v) == s.remove_value(v).push(x),
        !s.contains(v) && x != v ==> s.push(x).remove_value(v) == s.push(x),
{
    if s.contains(v) {
        s.index_of_first_ensures(v);
        s.push(x).index_of_first_ensures(v);
        let i = s.index_of_first(v)->0;
        let j = s.push(x).index_of_first(v)->0;
        assert(s.push(x).contains(v)) by {
            assert(s.push(x)[s.index_of_first(v)->0] == v);
        }
        assert(j <= i) by {
            assert(s.push(x)[i] == v);
        }
        assert(i <= j) by {
            if j < i {
                assert(s[j] == v);
            }
        }
        assert(s.push(x).remove_value(v) =~= s.remove_value(v).push(x));
    } else {
        if s.push(x).contains(v) {
            let k = choose|k: int| 0 <= k < s.push(x).len() && s.push(x)[k] == v;
            if k < s.len() {
                assert(s[k] == v);
            }
            assert(false);
        }
        assert(s.push(x).index_of_first(v) is None) by {
            s.push(x).index_of_first_ensures(v);
        }
    }
}

/// Appending the sought value to a list that does not hold it, then
/// removing it, gives the list back.
proof fn lemma_remove_value_push_hit(s: Seq<usize>, v: usize)
    requires
        !s.contains(v),
    ensures
        s.push(v).remove_value(v) == s,
{
    s.push(v).index_of_first_ensures(v);
    assert(s.push(v).contains(v)) by {
        assert(s.push(v)[s.len() as int] == v);
    }
    let j = s.push(v).index_of_first(v)->0;
    assert(j == s.len()) by {
        if j < s.len() {
            assert(s[j] == v);
        }
    }
    assert(s.push(v).remove_value(v) =~= s);
}

/// What removing the first occurrence does to membership and indices.
proof fn lemma_remove_value_props(s: Seq<usize>, v: usize)
    ensures
        s.contains(v) ==> s.remove_value(v).len() == s.len() - 1,
        !s.contains(v) ==> s.remove_value(v) == s,
        forall|k: int| 0 <= k < s.remove_value(v).len()
            ==> s.contains(#[trigger] s.remove_value(v)[k]),
        (forall|k1: int, k2: int| 0 <= k1 < k2 < s.len() ==> s[k1] != s[k2])
            ==> !s.remove_value(v).contains(v) || !s.contains(v),
        (forall|k1: int, k2: int| 0 <= k1 < k2 < s.len() ==> s[k1] != s[k2])
            ==> forall|k1: int, k2: int| 0 <= k1 < k2 < s.remove_value(v).len()
                ==> s.remove_value(v)[k1] != s.remove_value(v)[k2],
{
    s.index_of_first_ensures(v);
    if s.contains(v) {
        let i = s.index_of_first(v)->0;
        let t = s.remove(i);
        assert forall|k: int| 0 <= k < t.len() implies s.contains(#[trigger] t[k]) by {
            if k < i {
                assert(t[k] == s[k]);
            } else {
                assert(t[k] == s[k + 1]);
            }
        }
        if forall|k1: int, k2: int| 0 <= k1 < k2 < s.len() ==> s[k1] != s[k2] {
            assert forall|k1: int, k2: int| 0 <= k1 < k2 < t.len()
                implies t[k1] != t[k2] by {
                let a1 = if k1 < i { k1 } else { k1 + 1 };
                let a2 = if k2 < i { k2 } else { k2 + 1 };
                assert(t[k1] == s[a1] && t[k2] == s[a2]);
            }
            if t.contains(v) {
                let k = choose|k: int| 0 <= k < t.len() && t[k] == v;
                let a = if k < i { k } else { k + 1 };
                assert(t[k] == s[a]);
                assert(s[a] == v && a != i);
                assert(s[i] == v);
                assert(false);
            }
        }
    }
}

/// The occupancy rewiring done by a move keeps the store well-formed.
proof fn lemma_move_entity_wf(pre: AgentStore, post: AgentStore, index: usize, src_cell: usize, dest_cell: usize)
    requires
        pre.wf(),
        pre.slots@.len() <= usize::MAX,
        index < pre.slots@.len(),
        pre.slots@[index as int].entity is Some,
        pre.slots@[index as int].cell == src_cell,
        dest_cell < pre.n_cells(),
        post.slots@ == pre.slots@.update(index as int, AgentSlot {
            cell: dest_cell,
            ..pre.slots@[index as int]
        }),
        post.n_cells() == pre.n_cells(),
        ({
            let src = src_cell as int;
            if src == dest_cell {
                &&& post.occ(dest_cell as int) == pre.occ(src).remove_value(index).push(index)
                &&& forall|c: int| 0 <= c < pre.n_cells() && c != dest_cell
                    ==> #[trigger] post.occ(c) == pre.occ(c)
            } else {
                &&& post.occ(src) == pre.occ(src).remove_value(index)
                &&& post.occ(dest_cell as int) == pre.occ(dest_cell as int).push(index)
                &&& forall|c: int| 0 <= c < pre.n_cells() && c != dest_cell && c != src
                    ==> #[trigger] post.occ(c) == pre.occ(c)
            }
        }),
    ensures
        post.wf(),
{
    let src = src_cell as int;
    lemma_remove_value_props(pre.occ(src), index);
    assert forall|s: int| 0 <= s < post.slots@.len() && (#[trigger] post.slots@[s]).entity is Some
        implies post.slots@[s].cell < post.n_cells()
            && post.occ(post.slots@[s].cell as int).contains(s as usize) by {
        if s == index {
            assert(post.occ(dest_cell as int).last() == index);
        } else {
            let c = pre.slots@[s].cell as int;
            assert(pre.occ(c).contains(s as usize));
            let k = choose|k: int| 0 <= k < pre.occ(c).len() && pre.occ(c)[k] == s as usize;
            if c == src {
                // s's index survives the removal of `index`
                assert(pre.slots@[index as int].entity is Some);
                assert(pre.occ(src).contains(index));
                pre.occ(src).index_of_first_ensures(index);
                let i = pre.occ(src).index_of_first(index)->0;
                let t = pre.occ(src).remove_value(index);
                assert(s as usize != index);
                assert(pre.occ(src)[i] == index);
                assert(k != i);
                if k < i {
                    assert(t[k] == s as usize);
                } else {
                    assert(t[k - 1] == s as usize);
                }
                if src == dest_cell {
                    assert(post.occ(dest_cell as int) == t.push(index));
                    if k < i {
                        assert(post.occ(dest_cell as int)[k] == s as usize);
                    } else {
                        assert(post.occ(dest_cell as int)[k - 1] == s as usize);
                    }
                } else {
                    assert(post.occ(c).contains(s as usize));
                }
            } else if c == dest_cell {
                assert(post.occ(dest_cell as int)[k] == s as usize);
            } else {
                assert(post.occ(c) == pre.occ(c));
                assert(post.occ(c)[k] == s as usize);
            }
        }
    }
    assert forall|c: int, k: int| 0 <= c < post.n_cells() && 0 <= k < post.occ(c).len()
        implies {
            let s = #[trigger] post.occ(c)[k];
            &&& s < post.slots@.len()
            &&& post.slots@[s as int].entity is Some
            &&& post.slots@[s as int].cell == c
        } by {
        let s = post.occ(c)[k];
        if c == dest_cell && k == post.occ(c).len() - 1 {
            assert(s == index);
        } else if c == dest_cell && src == dest_cell {
            let t = pre.occ(src).remove_value(index);
            assert(post.occ(c)[k] == t[k]);
            assert(pre.occ(src).contains(t[k]));
            assert(t[k] != index);
        } else if c == dest_cell {
            assert(post.occ(c)[k] == pre.occ(c)[k]);
            assert(pre.occ(c)[k] != index) by {
                if pre.occ(c)[k] == index {
                    assert(pre.slots@[index as int].cell == c);
                }
            }
        } else if c == src {
            let t = pre.occ(src).remove_value(index);
            assert(pre.occ(src).contains(t[k]));
            assert(t[k] != index);
        } else {
            assert(post.occ(c) == pre.occ(c));
            assert(pre.occ(c)[k] != index) by {
                if pre.occ(c)[k] == index {
                    assert(pre.slots@[index as int].cell == c);
                }
            }
        }
    }
    assert forall|c: int, k1: int, k2: int|
        0 <= c < post.n_cells() && 0 <= k1 < k2 < post.occ(c).len()
            implies post.occ(c)[k1] != post.occ(c)[k2] by {
        let t = pre.occ(src).remove_value(index);
        if c == dest_cell {
            let base = if src == dest_cell { t } else { pre.occ(dest_cell as int) };
            assert(post.occ(c) == base.push(index));
            if k2 < base.len() {
                assert(post.occ(c)[k1] == base[k1] && post.occ(c)[k2] == base[k2]);
            } else {
                assert(post.occ(c)[k2] == index);
                assert(post.occ(c)[k1] == base[k1]);
                if src == dest_cell {
                    assert(!t.contains(index));
                    assert(t[k1] != index);
                } else {
                    assert(pre.occ(dest_cell as int)[k1] != index) by {
                        if pre.occ(dest_cell as int)[k1] == index {
                            assert(pre.slots@[index as int].cell == dest_cell as int);
                        }
                    }
                }
            }
        } else if c == src {
            assert(post.occ(c) == t);
        } else {
            assert(post.occ(c) == pre.occ(c));
        }
    }
}

} // verus!
