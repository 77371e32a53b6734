//! The engine: one world (grid, agent store, configuration, generator,
//! counters) stepped one tick at a time. A tick runs the periodic decay,
//! polls every agent's behavior against the pre-tick snapshot, then
//! commits the queued actions in fixed order: cell actions, self actions,
//! entity actions. The whole tick is one specification function of the
//! pre-tick state, so equal seeds and equal worlds give equal runs.

use vstd::prelude::*;

use crate::action::ActionQueue;
use crate::action::AgentHandle;
use crate::action::AntCellAction;
use crate::action::AntEntityAction;
use crate::action::CellActionEntry;
use crate::action::EntityActionEntry;
use crate::action::SelfAction;
use crate::action::SelfActionEntry;
use crate::behavior::pheromones_bounded;
use crate::cell::AntCellState;
use crate::cell::PHEROMONE_ZERO_FLOOR;
use crate::cell::Pheremones;
use crate::cell::cell_decay_spec;
use crate::cell::cell_deposit_spec;
use crate::conf::UserConf;
use crate::decide::spec_decide;
use crate::decide::drive_entity;
use crate::entity::AntEntity;
use crate::entity::AntEntityState;
use crate::entity::spec_random_wandering;
use crate::entity::WanderingState;
use crate::error::AntError;
use crate::grid::Grid;
use crate::grid::get_coords;
use crate::grid::get_index;
use crate::grid::lemma_index_in_range;
use crate::grid::spec_index_of;
use crate::rng::Prng;
use crate::store::AgentSlot;
use crate::store::AgentStore;

verus! {

/// Everything about a world that one tick may change, as one ghost value:
/// the cell field, the agent slots, the per-cell occupancy lists, the
/// generator, the tick counter and the food counter.
pub struct WorldState {
    pub cells: Seq<AntCellState>,
    pub slots: Seq<AgentSlot>,
    pub occ: Seq<Seq<usize>>,
    pub rng: Prng,
    pub tick: u64,
    pub collected: u64,
}

/// The occupancy lists of a store, as one sequence of sequences.
pub open spec fn occ_view(st: AgentStore) -> Seq<Seq<usize>> {
    Seq::new(st.occupancy@.len(), |c: int| st.occ(c))
}

/// Whether `h` refers to a live slot with a matching generation token.
pub open spec fn slots_valid_handle(slots: Seq<AgentSlot>, h: AgentHandle) -> bool {
    &&& h.index < slots.len()
    &&& slots[h.index as int].generation == h.generation
    &&& slots[h.index as int].entity is Some
}

/// A slot sequence with the behavior state of slot `i` overwritten.
pub open spec fn slots_with_state(slots: Seq<AgentSlot>, i: int, state: AntEntityState) -> Seq<AgentSlot> {
    slots.update(i, AgentSlot {
        entity: Some(AntEntity { state, ..slots[i].entity->0 }),
        ..slots[i]
    })
}

/// Occupancy lists after the agent in slot `idx` moves from cell `src`
/// to cell `dst`: its first listing leaves the source list and it is
/// appended to the destination list.
pub open spec fn occ_move(occ: Seq<Seq<usize>>, src: int, dst: int, idx: usize) -> Seq<Seq<usize>> {
    if src == dst {
        occ.update(dst, occ[src].remove_value(idx).push(idx))
    } else {
        occ.update(src, occ[src].remove_value(idx)).update(dst, occ[dst].push(idx))
    }
}

/// One cell action applied to the world: a pheromone deposit caps the
/// named channel of an empty cell; eating food decrements the cell's
/// quantity (a last unit empties the cell) and turns the eater homeward —
/// unless its handle went stale, in which case the cell still changes but
/// no agent does. A target that is not the right kind of cell ignores the
/// action.
pub open spec fn apply_cell_action(w: WorldState, conf: UserConf, a: CellActionEntry) -> WorldState {
    let idx = a.universe_index as int;
    if idx >= w.cells.len() {
        w
    } else {
        match a.action {
            AntCellAction::LayPheremone(kind, amt) => WorldState {
                cells: w.cells.update(idx, cell_deposit_spec(w.cells[idx], kind, amt, conf.pheromone_max)),
                ..w
            },
            AntCellAction::EatFood => {
                match w.cells[idx] {
                    AntCellState::Food(q) => {
                        let cells1 = w.cells.update(idx,
                            if q <= 1 {
                                AntCellState::Empty(Pheremones { wandering: 0, returning: 0 })
                            } else {
                                AntCellState::Food((q - 1) as usize)
                            });
                        let slots1 = if slots_valid_handle(w.slots, a.source) {
                            slots_with_state(w.slots, a.source.index as int,
                                AntEntityState::ReturningToNestWithFood { last_diff: (0, 0) })
                        } else {
                            w.slots
                        };
                        WorldState { cells: cells1, slots: slots1, ..w }
                    },
                    _ => w,
                }
            },
        }
    }
}

/// One self action applied to the world. A stale handle makes the whole
/// action a silent no-op. A move lands only on an in-bounds, traversable
/// destination; a rejected move resets a wandering agent's direction
/// state and leaves everyone else in place.
pub open spec fn apply_self_action(w: WorldState, size: int, conf: UserConf, a: SelfActionEntry) -> WorldState {
    if !slots_valid_handle(w.slots, a.source) {
        w
    } else {
        let i = a.source.index as int;
        let slot = w.slots[i];
        let e = slot.entity->0;
        let cx = slot.cell as int % size;
        let cy = slot.cell as int / size;
        match a.action {
            SelfAction::Translate(dx, dy) => {
                let nx = cx + dx;
                let ny = cy + dy;
                if 0 <= nx < size && 0 <= ny < size
                    && w.cells[spec_index_of(size, nx, ny)].spec_traversable() {
                    let didx = spec_index_of(size, nx, ny) as usize;
                    let slots1 = if e.state is ReturningToNestWithFood {
                        slots_with_state(w.slots, i,
                            AntEntityState::ReturningToNestWithFood { last_diff: (dx, dy) })
                    } else {
                        w.slots
                    };
                    WorldState {
                        slots: slots1.update(i, AgentSlot { cell: didx, ..slots1[i] }),
                        occ: occ_move(w.occ, slot.cell as int, didx as int, a.source.index),
                        ..w
                    }
                } else {
                    if e.state is Wandering {
                        let (ws2, rng2) = spec_random_wandering(w.rng);
                        WorldState {
                            slots: slots_with_state(w.slots, i, AntEntityState::Wandering(ws2)),
                            rng: rng2,
                            ..w
                        }
                    } else {
                        w
                    }
                }
            },
            SelfAction::Custom(AntEntityAction::UpdateWanderState { reset }) => {
                match e.state {
                    AntEntityState::Wandering(ws) => {
                        if reset {
                            let (ws2, rng2) = spec_random_wandering(w.rng);
                            WorldState {
                                slots: slots_with_state(w.slots, i, AntEntityState::Wandering(ws2)),
                                rng: rng2,
                                ..w
                            }
                        } else {
                            let (ws2, rng2) = ws.spec_next(conf.wander_transition_chance_percent, w.rng);
                            WorldState {
                                slots: slots_with_state(w.slots, i, AntEntityState::Wandering(ws2)),
                                rng: rng2,
                                ..w
                            }
                        }
                    },
                    _ => {
                        let (ws2, rng2) = spec_random_wandering(w.rng);
                        WorldState {
                            slots: slots_with_state(w.slots, i, AntEntityState::Wandering(ws2)),
                            rng: rng2,
                            ..w
                        }
                    },
                }
            },
            SelfAction::Custom(AntEntityAction::DepositFood) => {
                let (ws2, rng2) = spec_random_wandering(w.rng);
                WorldState {
                    slots: slots_with_state(w.slots, i, AntEntityState::Wandering(ws2)),
                    rng: rng2,
                    collected: vstd::wrapping::u64_specs::wrapping_add(w.collected, 1),
                    ..w
                }
            },
            SelfAction::Custom(AntEntityAction::FollowFoodTrail(dx, dy)) => {
                WorldState {
                    slots: slots_with_state(w.slots, i,
                        AntEntityState::FollowingPheremonesToFood { last_diff: (dx, dy) }),
                    ..w
                }
            },
        }
    }
}

/// One entity action applied to the world: the target handle is
/// re-validated, and since no inter-agent effect is defined in this core,
/// the world is left as it is either way.
pub open spec fn apply_entity_action(w: WorldState, a: EntityActionEntry) -> WorldState {
    w
}

/// The cell-action queue applied in emission order, from position `i` on.
pub open spec fn apply_cell_actions_from(w: WorldState, conf: UserConf, q: Seq<CellActionEntry>, i: int) -> WorldState
    decreases q.len() - i,
{
    if i < 0 || i >= q.len() {
        w
    } else {
        apply_cell_actions_from(apply_cell_action(w, conf, q[i]), conf, q, i + 1)
    }
}

/// The self-action queue applied in emission order, from position `i` on.
pub open spec fn apply_self_actions_from(w: WorldState, size: int, conf: UserConf, q: Seq<SelfActionEntry>, i: int) -> WorldState
    decreases q.len() - i,
{
    if i < 0 || i >= q.len() {
        w
    } else {
        apply_self_actions_from(apply_self_action(w, size, conf, q[i]), size, conf, q, i + 1)
    }
}

/// The decision phase from slot `i` on: every live agent is polled once,
/// in slot order, against the same pre-tick cells, each one's draws
/// advancing the shared generator; the emitted actions concatenate in
/// polling order.
pub open spec fn decide_all_from(
    cells: Seq<AntCellState>, size: int, conf: UserConf, slots: Seq<AgentSlot>, i: int, rng: Prng,
) -> (Seq<CellActionEntry>, Seq<SelfActionEntry>, Prng)
    decreases slots.len() - i,
{
    if i < 0 || i >= slots.len() {
        (Seq::empty(), Seq::empty(), rng)
    } else {
        let slot = slots[i];
        match slot.entity {
            Some(e) => {
                let h = AgentHandle { index: i as usize, generation: slot.generation };
                let cx = (slot.cell as int % size) as usize;
                let cy = (slot.cell as int / size) as usize;
                let out = spec_decide(cells, size, conf, h, e, cx, cy, rng);
                let (cq, sq, rng2) = decide_all_from(cells, size, conf, slots, i + 1, out.rng);
                (out.cells + cq, out.selfs + sq, rng2)
            },
            None => decide_all_from(cells, size, conf, slots, i + 1, rng),
        }
    }
}

/// The cell field after one decay pass.
pub open spec fn decay_all_spec(cells: Seq<AntCellState>, multiplier: u32, floor: u32) -> Seq<AntCellState> {
    Seq::new(cells.len(), |i: int| cell_decay_spec(cells[i], multiplier, floor))
}

/// One whole tick: the tick counter advances; on the decay cadence every
/// empty cell's channels decay; every live agent is polled against the
/// decayed field; then the queued cell actions, self actions and entity
/// actions are committed, in that order.
pub open spec fn spec_step(w: WorldState, size: int, conf: UserConf) -> WorldState {
    let tick1 = vstd::wrapping::u64_specs::wrapping_add(w.tick, 1);
    let cells1 = if tick1 % conf.pheremone_decay_interval == 0 {
        decay_all_spec(w.cells, conf.pheremone_decay_multiplier, PHEROMONE_ZERO_FLOOR)
    } else {
        w.cells
    };
    let (cq, sq, rng1) = decide_all_from(cells1, size, conf, w.slots, 0, w.rng);
    let w1 = WorldState { cells: cells1, rng: rng1, tick: tick1, ..w };
    let w2 = apply_cell_actions_from(w1, conf, cq, 0);
    apply_self_actions_from(w2, size, conf, sq, 0)
}

/// The simulation engine: the world, its configuration, the explicit
/// generator, the tick counter and the collected-food counter.
pub struct AntEngine {
    pub grid: Grid,
    pub store: AgentStore,
    pub conf: UserConf,
    pub rng: Prng,
    pub tick: u64,
    pub collected_food: u64,
}

/// Every food cell holds at least one unit.
pub open spec fn food_positive(cells: Seq<AntCellState>) -> bool {
    forall|i: int| 0 <= i < cells.len() ==> match #[trigger] cells[i] {
        AntCellState::Food(q) => q >= 1,
        _ => true,
    }
}

/// Every live agent's home lies on the grid.
pub open spec fn nests_in_bounds(slots: Seq<AgentSlot>, size: int) -> bool {
    forall|s: int| 0 <= s < slots.len() && (#[trigger] slots[s]).entity is Some
        ==> slots[s].entity->0.mut_state.nest_x < size
            && slots[s].entity->0.mut_state.nest_y < size
}

impl AntEngine {
    /// The world as one ghost value.
    pub open spec fn view_state(self) -> WorldState {
        WorldState {
            cells: self.grid.cells@,
            slots: self.store.slots@,
            occ: occ_view(self.store),
            rng: self.rng,
            tick: self.tick,
            collected: self.collected_food,
        }
    }

    /// The engine invariant: a square, bounded grid whose pheromones stay
    /// under the largest accepted cap and whose food cells are never
    /// empty; an accepted configuration; a consistent agent store that
    /// indexes exactly the grid's cells; and homes on the grid.
    pub open spec fn wf(self) -> bool {
        &&& self.grid.wf()
        &&& pheromones_bounded(self.grid.cells@)
        &&& food_positive(self.grid.cells@)
        &&& self.conf.wf()
        &&& self.store.wf()
        &&& self.store.n_cells() == self.grid.size * self.grid.size
        &&& nests_in_bounds(self.store.slots@, self.grid.size as int)
    }
}


/// Applies one queued cell action to the grid and store.
fn exec_cell_action(grid: &mut Grid, store: &mut AgentStore, conf: &UserConf, a: CellActionEntry)
    requires
        old(grid).wf(),
        pheromones_bounded(old(grid).cells@),
        food_positive(old(grid).cells@),
        conf.wf(),
        old(store).wf(),
        old(store).n_cells() == old(grid).size * old(grid).size,
        nests_in_bounds(old(store).slots@, old(grid).size as int),
    ensures
        ({
            let w0 = WorldState {
                cells: old(grid).cells@,
                slots: old(store).slots@,
                occ: occ_view(*old(store)),
                rng: Prng { state: 0, increment: 0 },
                tick: 0,
                collected: 0,
            };
            let w1 = apply_cell_action(w0, *conf, a);
            &&& final(grid).cells@ == w1.cells
            &&& final(store).slots@ == w1.slots
            &&& final(store).occupancy@ == old(store).occupancy@
        }),
        final(grid).wf(),
        final(grid).size == old(grid).size,
        pheromones_bounded(final(grid).cells@),
        food_positive(final(grid).cells@),
        final(store).wf(),
        final(store).n_cells() == old(store).n_cells(),
        nests_in_bounds(final(store).slots@, old(grid).size as int),
{
    let idx = a.universe_index;
    if idx >= grid.cells.len() {
        return;
    }
    match a.action {
        AntCellAction::LayPheremone(kind, amt) => {
            grid.deposit(idx, kind, amt, conf.pheromone_max);
            proof {
                assert forall|i: int| 0 <= i < grid.cells@.len() implies match #[trigger] grid.cells@[i] {
                    AntCellState::Empty(p) => p.wandering <= crate::conf::MAX_BASE_WEIGHT
                        && p.returning <= crate::conf::MAX_BASE_WEIGHT,
                    _ => true,
                } by {
                    if i != idx {
                        assert(grid.cells@[i] == old(grid).cells@[i]);
                    }
                }
                assert forall|i: int| 0 <= i < grid.cells@.len() implies match #[trigger] grid.cells@[i] {
                    AntCellState::Food(q) => q >= 1,
                    _ => true,
                } by {
                    if i != idx {
                        assert(grid.cells@[i] == old(grid).cells@[i]);
                    }
                }
            }
        },
        AntCellAction::EatFood => {
            let c = grid.cells[idx];
            match c {
                AntCellState::Food(q) => {
                    let (x, y) = get_coords(idx, grid.size);
                    let newcell = if q <= 1 {
                        AntCellState::Empty(Pheremones { wandering: 0, returning: 0 })
                    } else {
                        AntCellState::Food(q - 1)
                    };
                    grid.set_cell(x, y, newcell);
                    match store.get_verify(a.source) {
                        Ok(_) => {
                            store.set_state(a.source,
                                AntEntityState::ReturningToNestWithFood { last_diff: (0, 0) });
                        },
                        Err(_) => {},
                    }
                    proof {
                        let w0 = WorldState {
                            cells: old(grid).cells@,
                            slots: old(store).slots@,
                            occ: occ_view(*old(store)),
                            rng: Prng { state: 0, increment: 0 },
                            tick: 0,
                            collected: 0,
                        };
                        let w1 = apply_cell_action(w0, *conf, a);
                        assert(grid.cells@ =~= w1.cells);
                        assert(store.slots@ =~= w1.slots);
                        assert forall|i: int| 0 <= i < grid.cells@.len() implies match #[trigger] grid.cells@[i] {
                            AntCellState::Empty(p) => p.wandering <= crate::conf::MAX_BASE_WEIGHT
                                && p.returning <= crate::conf::MAX_BASE_WEIGHT,
                            _ => true,
                        } by {
                            if i != idx {
                                assert(grid.cells@[i] == old(grid).cells@[i]);
                            }
                        }
                        assert forall|i: int| 0 <= i < grid.cells@.len() implies match #[trigger] grid.cells@[i] {
                            AntCellState::Food(fq) => fq >= 1,
                            _ => true,
                        } by {
                            if i != idx {
                                assert(grid.cells@[i] == old(grid).cells@[i]);
                            }
                        }
                        assert forall|s: int| 0 <= s < store.slots@.len()
                            && (#[trigger] store.slots@[s]).entity is Some
                            implies store.slots@[s].entity->0.mut_state.nest_x < old(grid).size
                                && store.slots@[s].entity->0.mut_state.nest_y < old(grid).size by {
                            if s != a.source.index {
                                assert(store.slots@[s] == old(store).slots@[s]);
                            }
                        }
                    }
                },
                _ => {},
            }
        },
    }
}

/// Applies one queued self action: re-validates the handle, then moves
/// the agent or rewrites its behavior state.
fn exec_self_action(
    grid: &Grid, store: &mut AgentStore, conf: &UserConf,
    rng: &mut Prng, collected: &mut u64, a: SelfActionEntry,
)
    requires
        grid.wf(),
        conf.wf(),
        old(store).wf(),
        old(store).n_cells() == grid.size * grid.size,
        nests_in_bounds(old(store).slots@, grid.size as int),
    ensures
        ({
            let w0 = WorldState {
                cells: grid.cells@,
                slots: old(store).slots@,
                occ: occ_view(*old(store)),
                rng: *old(rng),
                tick: 0,
                collected: *old(collected),
            };
            let w1 = apply_self_action(w0, grid.size as int, *conf, a);
            &&& final(store).slots@ == w1.slots
            &&& occ_view(*final(store)) == w1.occ
            &&& *final(rng) == w1.rng
            &&& *final(collected) == w1.collected
        }),
        final(store).wf(),
        final(store).n_cells() == old(store).n_cells(),
        nests_in_bounds(final(store).slots@, grid.size as int),
{
    let ghost w0 = WorldState {
        cells: grid.cells@,
        slots: old(store).slots@,
        occ: occ_view(*old(store)),
        rng: *old(rng),
        tick: 0,
        collected: *old(collected),
    };
    let ghost w1 = apply_self_action(w0, grid.size as int, *conf, a);
    let e = match store.get_verify(a.source) {
        Ok(e) => e,
        Err(_) => {
            proof {
                assert(occ_view(*store) =~= w1.occ);
            }
            return;
        },
    };
    let i = a.source.index;
    let cell = store.slots[i].cell;
    let (cx, cy) = get_coords(cell, grid.size);
    let size = grid.size;
    match a.action {
        SelfAction::Translate(dx, dy) => {
            let nxo = (cx as isize).checked_add(dx);
            let nyo = (cy as isize).checked_add(dy);
            let dest: Option<usize> = match (nxo, nyo) {
                (Some(nxi), Some(nyi)) => {
                    if nxi >= 0 && nxi < size as isize && nyi >= 0 && nyi < size as isize {
                        let didx = get_index(nxi as usize, nyi as usize, size);
                        if grid.cells[didx].is_traversable() {
                            Some(didx)
                        } else {
                            None
                        }
                    } else {
                        None
                    }
                },
                _ => None,
            };
            match dest {
                Some(didx) => {
                    match e.state {
                        AntEntityState::ReturningToNestWithFood { .. } => {
                            store.set_state(a.source,
                                AntEntityState::ReturningToNestWithFood { last_diff: (dx, dy) });
                        },
                        _ => {},
                    }
                    proof {
                        lemma_index_in_range(size as int, (cx as isize + dx) as int, (cy as isize + dy) as int);
                    }
                    store.move_entity(i, didx);
                    proof {
                        assert(store.slots@ =~= w1.slots);
                        assert(occ_view(*store) =~= w1.occ);
                        assert forall|s: int| 0 <= s < store.slots@.len()
                            && (#[trigger] store.slots@[s]).entity is Some
                            implies store.slots@[s].entity->0.mut_state.nest_x < size
                                && store.slots@[s].entity->0.mut_state.nest_y < size by {
                            if s != i {
                                assert(store.slots@[s] == old(store).slots@[s]);
                            }
                        }
                    }
                },
                None => {
                    match e.state {
                        AntEntityState::Wandering(_) => {
                            let ws2 = WanderingState::random(rng);
                            store.set_state(a.source, AntEntityState::Wandering(ws2));
                        },
                        _ => {},
                    }
                    proof {
                        assert(store.slots@ =~= w1.slots);
                        assert(occ_view(*store) =~= w1.occ);
                        assert forall|s: int| 0 <= s < store.slots@.len()
                            && (#[trigger] store.slots@[s]).entity is Some
                            implies store.slots@[s].entity->0.mut_state.nest_x < size
                                && store.slots@[s].entity->0.mut_state.nest_y < size by {
                            if s != i {
                                assert(store.slots@[s] == old(store).slots@[s]);
                            }
                        }
                    }
                },
            }
        },
        SelfAction::Custom(AntEntityAction::UpdateWanderState { reset }) => {
            let ws2 = match e.state {
                AntEntityState::Wandering(ws) => {
                    if reset {
                        WanderingState::random(rng)
                    } else {
                        ws.next(conf.wander_transition_chance_percent, rng)
                    }
                },
                _ => WanderingState::random(rng),
            };
            store.set_state(a.source, AntEntityState::Wandering(ws2));
            proof {
                assert(store.slots@ =~= w1.slots);
                assert(occ_view(*store) =~= w1.occ);
                assert forall|s: int| 0 <= s < store.slots@.len()
                    && (#[trigger] store.slots@[s]).entity is Some
                    implies store.slots@[s].entity->0.mut_state.nest_x < size
                        && store.slots@[s].entity->0.mut_state.nest_y < size by {
                    if s != i {
                        assert(store.slots@[s] == old(store).slots@[s]);
                    }
                }
            }
        },
        SelfAction::Custom(AntEntityAction::DepositFood) => {
            *collected = collected.wrapping_add(1);
            let ws2 = WanderingState::random(rng);
            store.set_state(a.source, AntEntityState::Wandering(ws2));
            proof {
                assert(store.slots@ =~= w1.slots);
                assert(occ_view(*store) =~= w1.occ);
                assert forall|s: int| 0 <= s < store.slots@.len()
                    && (#[trigger] store.slots@[s]).entity is Some
                    implies store.slots@[s].entity->0.mut_state.nest_x < size
                        && store.slots@[s].entity->0.mut_state.nest_y < size by {
                    if s != i {
                        assert(store.slots@[s] == old(store).slots@[s]);
                    }
                }
            }
        },
        SelfAction::Custom(AntEntityAction::FollowFoodTrail(dx, dy)) => {
            store.set_state(a.source,
                AntEntityState::FollowingPheremonesToFood { last_diff: (dx, dy) });
            proof {
                assert(store.slots@ =~= w1.slots);
                assert(occ_view(*store) =~= w1.occ);
                assert forall|s: int| 0 <= s < store.slots@.len()
                    && (#[trigger] store.slots@[s]).entity is Some
                    implies store.slots@[s].entity->0.mut_state.nest_x < size
                        && store.slots@[s].entity->0.mut_state.nest_y < size by {
                    if s != i {
                        assert(store.slots@[s] == old(store).slots@[s]);
                    }
                }
            }
        },
    }
}

/// Applies one queued entity action: the target handle is re-validated;
/// no inter-agent effect is defined in this core, so nothing changes.
fn exec_entity_action(store: &AgentStore, a: EntityActionEntry) {
    let _target = store.get_verify(a.target);
}


impl AntEngine {
    /// Commits a queue against the world: all cell actions, then all
    /// self actions, then all entity actions, each kind in emission
    /// order; no two actions are reordered within a kind.
    pub fn exec_actions(&mut self, queue: &ActionQueue)
        requires
            old(self).wf(),
        ensures
            final(self).wf(),
            final(self).grid.size == old(self).grid.size,
            final(self).conf == old(self).conf,
            final(self).tick == old(self).tick,
            final(self).view_state() == apply_self_actions_from(
                apply_cell_actions_from(old(self).view_state(), old(self).conf, queue.cell_actions@, 0),
                old(self).grid.size as int, old(self).conf, queue.self_actions@, 0),
    {
        let ghost w0 = self.view_state();
        let ghost conf0 = self.conf;
        let ghost size0 = self.grid.size as int;
        let ghost cq = queue.cell_actions@;
        let ghost sq = queue.self_actions@;

        let mut k: usize = 0;
        while k < queue.cell_actions.len()
            invariant
                k <= cq.len(),
                cq == queue.cell_actions@,
                sq == queue.self_actions@,
                self.wf(),
                self.grid.size == old(self).grid.size,
                self.conf == old(self).conf,
                self.tick == old(self).tick,
                self.rng == old(self).rng,
                self.collected_food == old(self).collected_food,
                occ_view(self.store) == w0.occ,
                conf0 == self.conf,
                size0 == self.grid.size as int,
                w0 == old(self).view_state(),
                apply_cell_actions_from(w0, conf0, cq, 0)
                    == apply_cell_actions_from(self.view_state(), conf0, cq, k as int),
            decreases cq.len() - k,
        {
            let ghost vprev = self.view_state();
            let a = queue.cell_actions[k];
            exec_cell_action(&mut self.grid, &mut self.store, &self.conf, a);
            proof {
                assert(occ_view(self.store) =~= vprev.occ);
                assert(self.view_state() == apply_cell_action(vprev, conf0, a));
            }
            k = k + 1;
        }
        proof {
            assert(apply_cell_actions_from(w0, conf0, cq, 0) == self.view_state());
        }
        let ghost wmid = self.view_state();

        let mut k: usize = 0;
        while k < queue.self_actions.len()
            invariant
                k <= sq.len(),
                sq == queue.self_actions@,
                self.wf(),
                self.grid.size == old(self).grid.size,
                self.conf == old(self).conf,
                self.tick == old(self).tick,
                self.grid.cells@ == wmid.cells,
                conf0 == self.conf,
                size0 == self.grid.size as int,
                apply_self_actions_from(wmid, size0, conf0, sq, 0)
                    == apply_self_actions_from(self.view_state(), size0, conf0, sq, k as int),
            decreases sq.len() - k,
        {
            let ghost vprev = self.view_state();
            let a = queue.self_actions[k];
            exec_self_action(
                &self.grid, &mut self.store, &self.conf,
                &mut self.rng, &mut self.collected_food, a);
            proof {
                assert(self.view_state() == apply_self_action(vprev, size0, conf0, a));
            }
            k = k + 1;
        }
        proof {
            assert(apply_self_actions_from(wmid, size0, conf0, sq, 0) == self.view_state());
        }

        let mut k: usize = 0;
        while k < queue.entity_actions.len()
            invariant
                k <= queue.entity_actions@.len(),
            decreases queue.entity_actions@.len() - k,
        {
            let a = queue.entity_actions[k];
            exec_entity_action(&self.store, a);
            k = k + 1;
        }
    }

    /// One tick: advance the tick counter, decay the pheromone field on
    /// its cadence, poll every live agent's behavior against the same
    /// pre-tick snapshot, then commit all queued actions. The whole tick
    /// is a function of the pre-tick world and generator state.
    #[verifier::rlimit(60)]
    pub fn step(&mut self)
        requires
            old(self).wf(),
        ensures
            final(self).wf(),
            final(self).grid.size == old(self).grid.size,
            final(self).conf == old(self).conf,
            final(self).view_state() == spec_step(
                old(self).view_state(), old(self).grid.size as int, old(self).conf),
    {
        let ghost w0 = self.view_state();
        let ghost conf0 = self.conf;
        let ghost size0 = self.grid.size as int;

        self.tick = self.tick.wrapping_add(1);
        if self.tick % self.conf.pheremone_decay_interval == 0 {
            let ghost pre = self.grid.cells@;
            self.grid.decay(self.conf.pheremone_decay_multiplier, PHEROMONE_ZERO_FLOOR);
            proof {
                assert(self.grid.cells@ =~= decay_all_spec(
                    pre, conf0.pheremone_decay_multiplier, PHEROMONE_ZERO_FLOOR));
                assert forall|i: int| 0 <= i < self.grid.cells@.len() implies
                    match #[trigger] self.grid.cells@[i] {
                        AntCellState::Empty(p) => p.wandering <= crate::conf::MAX_BASE_WEIGHT
                            && p.returning <= crate::conf::MAX_BASE_WEIGHT,
                        _ => true,
                    } by {
                    match pre[i] {
                        AntCellState::Empty(p) => {
                            crate::cell::lemma_decay_monotone(
                                p, conf0.pheremone_decay_multiplier, PHEROMONE_ZERO_FLOOR);
                        },
                        _ => {},
                    }
                }
                assert forall|i: int| 0 <= i < self.grid.cells@.len() implies
                    match #[trigger] self.grid.cells@[i] {
                        AntCellState::Food(q) => q >= 1,
                        _ => true,
                    } by {
                    assert(pre[i] is Food ==> self.grid.cells@[i] == pre[i]);
                }
            }
        }
        let ghost cells1 = self.grid.cells@;
        let ghost slots0 = self.store.slots@;
        let ghost rng0 = self.rng;
        let ghost tick1 = self.tick;

        let mut queue = ActionQueue::new();
        let n = self.store.len();
        let mut i: usize = 0;
        while i < n
            invariant
                i <= n,
                n == slots0.len(),
                self.wf(),
                self.grid.size == old(self).grid.size,
                self.conf == old(self).conf,
                conf0 == self.conf,
                size0 == self.grid.size as int,
                self.grid.cells@ == cells1,
                self.store.slots@ == slots0,
                self.store.occupancy@ == old(self).store.occupancy@,
                self.tick == tick1,
                self.collected_food == old(self).collected_food,
                queue.entity_actions@.len() == 0,
                ({
                    let rest = decide_all_from(cells1, size0, conf0, slots0, i as int, self.rng);
                    let whole = decide_all_from(cells1, size0, conf0, slots0, 0, rng0);
                    &&& whole.0 == queue.cell_actions@ + rest.0
                    &&& whole.1 == queue.self_actions@ + rest.1
                    &&& whole.2 == rest.2
                }),
            decreases n - i,
        {
            let slot = self.store.slots[i];
            let ghost rng_before = self.rng;
            let ghost qc_before = queue.cell_actions@;
            let ghost qs_before = queue.self_actions@;
            match slot.entity {
                Some(e) => {
                    let h = AgentHandle { index: i, generation: slot.generation };
                    let (cx, cy) = get_coords(slot.cell, self.grid.size);
                    drive_entity(&self.grid, &self.conf, h, &e, cx, cy, &mut self.rng, &mut queue);
                    proof {
                        let out = spec_decide(cells1, size0, conf0, h, e, cx, cy, rng_before);
                        let rest2 = decide_all_from(cells1, size0, conf0, slots0, i + 1, out.rng);
                        assert(decide_all_from(cells1, size0, conf0, slots0, i as int, rng_before)
                            == (out.cells + rest2.0, out.selfs + rest2.1, rest2.2));
                        assert(qc_before + (out.cells + rest2.0) =~= (qc_before + out.cells) + rest2.0);
                        assert(qs_before + (out.selfs + rest2.1) =~= (qs_before + out.selfs) + rest2.1);
                    }
                },
                None => {},
            }
            i = i + 1;
        }
        proof {
            let rest = decide_all_from(cells1, size0, conf0, slots0, n as int, self.rng);
            assert(rest.0 =~= Seq::<CellActionEntry>::empty());
            assert(rest.1 =~= Seq::<SelfActionEntry>::empty());
            assert(queue.cell_actions@ + rest.0 =~= queue.cell_actions@);
            assert(queue.self_actions@ + rest.1 =~= queue.self_actions@);
            let whole = decide_all_from(cells1, size0, conf0, slots0, 0, rng0);
            assert(whole.0 == queue.cell_actions@);
            assert(whole.1 == queue.self_actions@);
            assert(whole.2 == self.rng);
        }
        let ghost w1 = WorldState { cells: cells1, rng: self.rng, tick: self.tick, ..w0 };
        proof {
            assert(occ_view(self.store) =~= w0.occ);
            assert(self.view_state() == w1);
        }
        self.exec_actions(&queue);
        proof {
            let whole = decide_all_from(cells1, size0, conf0, slots0, 0, rng0);
            assert(final(self).view_state() == apply_self_actions_from(
                apply_cell_actions_from(w1, conf0, whole.0, 0),
                size0, conf0, whole.1, 0));
        }
    }
}


impl AntEngine {
    /// A world over an existing grid: no agents yet, counters at zero,
    /// the generator seeded from the given pair.
    pub fn new(grid: Grid, conf: UserConf, seed: u64, stream: u64) -> (r: AntEngine)
        requires
            grid.wf(),
            pheromones_bounded(grid.cells@),
            food_positive(grid.cells@),
            conf.wf(),
        ensures
            r.wf(),
            r.grid == grid,
            r.conf == conf,
            r.rng == crate::rng::prng_seeded(seed, stream),
            r.tick == 0,
            r.collected_food == 0,
            r.store.slots@.len() == 0,
    {
        proof {
            lemma_index_in_range(grid.size as int, grid.size as int - 1, grid.size as int - 1);
        }
        let n_cells = grid.cells.len();
        let store = AgentStore::new(n_cells);
        AntEngine {
            grid,
            store,
            conf,
            rng: Prng::new(seed, stream),
            tick: 0,
            collected_food: 0,
        }
    }

    /// Places a new agent on the cell at `(x, y)` and returns its handle.
    pub fn add_agent(&mut self, entity: AntEntity, x: usize, y: usize) -> (r: Result<AgentHandle, AntError>)
        requires
            old(self).wf(),
            old(self).store.slots@.len() < usize::MAX,
        ensures
            final(self).wf(),
            final(self).grid == old(self).grid,
            final(self).conf == old(self).conf,
            final(self).rng == old(self).rng,
            final(self).tick == old(self).tick,
            final(self).collected_food == old(self).collected_food,
            x < old(self).grid.size && y < old(self).grid.size
                && entity.mut_state.nest_x < old(self).grid.size
                && entity.mut_state.nest_y < old(self).grid.size
                ==> r == Ok::<AgentHandle, AntError>(AgentHandle {
                        index: old(self).store.slots@.len() as usize,
                        generation: 0,
                    })
                    && final(self).store.valid_handle(r->Ok_0)
                    && final(self).store.slots@ == old(self).store.slots@.push(
                    AgentSlot {
                        generation: 0,
                        entity: Some(entity),
                        cell: spec_index_of(old(self).grid.size as int, x as int, y as int) as usize,
                    }),
            !(x < old(self).grid.size && y < old(self).grid.size
                && entity.mut_state.nest_x < old(self).grid.size
                && entity.mut_state.nest_y < old(self).grid.size)
                ==> r == Err::<AgentHandle, AntError>(AntError::OutOfRange)
                    && *final(self) == *old(self),
    {
        if x < self.grid.size && y < self.grid.size
            && entity.mut_state.nest_x < self.grid.size && entity.mut_state.nest_y < self.grid.size {
            let idx = get_index(x, y, self.grid.size);
            let h = self.store.add(entity, idx);
            proof {
                assert forall|s: int| 0 <= s < self.store.slots@.len()
                    && (#[trigger] self.store.slots@[s]).entity is Some
                    implies self.store.slots@[s].entity->0.mut_state.nest_x < self.grid.size
                        && self.store.slots@[s].entity->0.mut_state.nest_y < self.grid.size by {
                    if s < old(self).store.slots@.len() {
                        assert(self.store.slots@[s] == old(self).store.slots@[s]);
                    }
                }
            }
            Ok(h)
        } else {
            Err(AntError::OutOfRange)
        }
    }

    /// Replaces the active configuration, if the new one is within the
    /// engine's bounds; otherwise the active configuration stays in
    /// force and the caller is told.
    pub fn set_user_conf(&mut self, conf: UserConf) -> (r: Result<(), AntError>)
        requires
            old(self).wf(),
        ensures
            final(self).wf(),
            conf.wf() ==> r is Ok && *final(self) == (AntEngine { conf, ..*old(self) }),
            !conf.wf() ==> r == Err::<(), AntError>(AntError::InvalidConf)
                && *final(self) == *old(self),
    {
        if conf.validate() {
            self.conf = conf;
            Ok(())
        } else {
            Err(AntError::InvalidConf)
        }
    }

    /// The food collected since the last call, resetting the counter.
    pub fn count_collected_food(&mut self) -> (r: u64)
        ensures
            r == old(self).collected_food,
            *final(self) == (AntEngine { collected_food: 0, ..*old(self) }),
    {
        let count = self.collected_food;
        self.collected_food = 0;
        count
    }

    /// The agent a handle refers to, or `StaleHandle` if it is gone.
    pub fn get_verify(&self, h: AgentHandle) -> (r: Result<AntEntity, AntError>)
        ensures
            self.store.valid_handle(h) ==> r == Ok::<AntEntity, AntError>(self.store.agent_of(h)),
            !self.store.valid_handle(h) ==> r == Err::<AntEntity, AntError>(AntError::StaleHandle),
    {
        self.store.get_verify(h)
    }

    /// Moves the agent behind `h` to the cell at `(x, y)`: fails with
    /// `StaleHandle` when the handle no longer matches, `OutOfRange` when
    /// the destination is off the grid, and `InvalidDestination` when it
    /// is not traversable; otherwise it leaves its old cell's occupancy
    /// list and joins the new one.
    pub fn relocate(&mut self, h: AgentHandle, x: usize, y: usize) -> (r: Result<(), AntError>)
        requires
            old(self).wf(),
        ensures
            final(self).wf(),
            final(self).grid == old(self).grid,
            final(self).conf == old(self).conf,
            !old(self).store.valid_handle(h)
                ==> r == Err::<(), AntError>(AntError::StaleHandle) && *final(self) == *old(self),
            old(self).store.valid_handle(h) && !(x < old(self).grid.size && y < old(self).grid.size)
                ==> r == Err::<(), AntError>(AntError::OutOfRange) && *final(self) == *old(self),
            ({
                let size = old(self).grid.size as int;
                old(self).store.valid_handle(h) && x < size && y < size
                    && !old(self).grid.cell(x as int, y as int).spec_traversable()
                    ==> r == Err::<(), AntError>(AntError::InvalidDestination) && *final(self) == *old(self)
            }),
            ({
                let size = old(self).grid.size as int;
                old(self).store.valid_handle(h) && x < size && y < size
                    && old(self).grid.cell(x as int, y as int).spec_traversable()
                    ==> r is Ok
                        && final(self).store.slots@ == old(self).store.slots@.update(
                            h.index as int,
                            AgentSlot {
                                cell: spec_index_of(size, x as int, y as int) as usize,
                                ..old(self).store.slots@[h.index as int]
                            })
            }),
    {
        if self.store.get_verify(h).is_err() {
            return Err(AntError::StaleHandle);
        }
        if !(x < self.grid.size && y < self.grid.size) {
            return Err(AntError::OutOfRange);
        }
        let idx = get_index(x, y, self.grid.size);
        if !self.grid.cells[idx].is_traversable() {
            return Err(AntError::InvalidDestination);
        }
        self.store.move_entity(h.index, idx);
        proof {
            assert forall|s: int| 0 <= s < self.store.slots@.len()
                && (#[trigger] self.store.slots@[s]).entity is Some
                implies self.store.slots@[s].entity->0.mut_state.nest_x < self.grid.size
                    && self.store.slots@[s].entity->0.mut_state.nest_y < self.grid.size by {
                if s != h.index {
                    assert(self.store.slots@[s] == old(self).store.slots@[s]);
                }
            }
        }
        Ok(())
    }

    /// The handles of every agent standing on the cell at `(x, y)`.
    pub fn occupants(&self, x: usize, y: usize) -> (r: Result<Vec<AgentHandle>, AntError>)
        requires
            self.wf(),
        ensures
            !(x < self.grid.size && y < self.grid.size)
                ==> r == Err::<Vec<AgentHandle>, AntError>(AntError::OutOfRange),
            x < self.grid.size && y < self.grid.size ==> r is Ok && {
                let hs = r->Ok_0;
                let c = spec_index_of(self.grid.size as int, x as int, y as int);
                &&& hs@.len() == self.store.occ(c).len()
                &&& forall|k: int| 0 <= k < hs@.len() ==> {
                    let hh = #[trigger] hs@[k];
                    &&& hh.index == self.store.occ(c)[k]
                    &&& self.store.valid_handle(hh)
                }
            },
    {
        if x < self.grid.size && y < self.grid.size {
            let idx = get_index(x, y, self.grid.size);
            Ok(self.store.occupants(idx))
        } else {
            Err(AntError::OutOfRange)
        }
    }

    /// The cell at `(x, y)`, bounds-checked.
    pub fn cell_at(&self, x: usize, y: usize) -> (r: Result<AntCellState, AntError>)
        requires
            self.wf(),
        ensures
            x < self.grid.size && y < self.grid.size
                ==> r == Ok::<AntCellState, AntError>(self.grid.cell(x as int, y as int)),
            !(x < self.grid.size && y < self.grid.size)
                ==> r == Err::<AntCellState, AntError>(AntError::OutOfRange),
    {
        self.grid.cell_at(x, y)
    }
}


/// The display color (red, green, blue, alpha) of a cell: an occupying
/// agent shows its behavior state; otherwise the cell shows its own
/// variant, an empty cell blending both trail intensities.
pub open spec fn spec_cell_color(cell: AntCellState, occupant: Option<AntEntityState>) -> (u8, u8, u8, u8) {
    match occupant {
        Some(state) => match state {
            AntEntityState::Wandering(_) => (67u8, 239u8, 55u8, 255u8),
            AntEntityState::ReturningToNestWithFood { .. } => (255u8, 251u8, 63u8, 255u8),
            AntEntityState::FollowingPheremonesToFood { .. } => (234u8, 30u8, 156u8, 255u8),
        },
        None => match cell {
            AntCellState::Barrier => (255u8, 255u8, 255u8, 120u8),
            AntCellState::Empty(p) => {
                let w = if p.wandering * 25 / 1000 <= 255 { (p.wandering * 25 / 1000) as u8 } else { 255u8 };
                let r = if p.returning * 25 / 1000 <= 255 { (p.returning * 25 / 1000) as u8 } else { 255u8 };
                (r, 12u8, w, 120u8)
            },
            AntCellState::Food(_) => (12u8, 223u8, 30u8, 120u8),
            AntCellState::Anthill => (252u8, 223u8, 32u8, 120u8),
        },
    }
}

impl AntEngine {
    /// The first occupant's behavior state on the cell at row-major
    /// index `c`, if any agent stands there.
    pub open spec fn spec_first_occupant_state(self, c: int) -> Option<AntEntityState> {
        if self.store.occ(c).len() > 0 {
            Some(self.store.slots@[self.store.occ(c)[0] as int].entity->0.state)
        } else {
            None
        }
    }

    /// What the render layer needs for the cell at `(x, y)`: its display
    /// color, derived from the first occupying agent's state or from the
    /// cell itself with both pheromone intensities.
    pub fn calc_color(&self, x: usize, y: usize) -> (r: Result<(u8, u8, u8, u8), AntError>)
        requires
            self.wf(),
        ensures
            !(x < self.grid.size && y < self.grid.size)
                ==> r == Err::<(u8, u8, u8, u8), AntError>(AntError::OutOfRange),
            x < self.grid.size && y < self.grid.size ==> {
                let c = spec_index_of(self.grid.size as int, x as int, y as int);
                r == Ok::<(u8, u8, u8, u8), AntError>(spec_cell_color(
                    self.grid.cells@[c], self.spec_first_occupant_state(c)))
            },
    {
        if !(x < self.grid.size && y < self.grid.size) {
            return Err(AntError::OutOfRange);
        }
        let c = get_index(x, y, self.grid.size);
        let row = &self.store.occupancy[c];
        if row.len() > 0 {
            let s = row[0];
            let slot = self.store.slots[s];
            let state = match slot.entity {
                Some(e) => e.state,
                None => {
                    proof {
                        assert(false);
                    }
                    return Err(AntError::StaleHandle);
                },
            };
            match state {
                AntEntityState::Wandering(_) => Ok((67, 239, 55, 255)),
                AntEntityState::ReturningToNestWithFood { .. } => Ok((255, 251, 63, 255)),
                AntEntityState::FollowingPheremonesToFood { .. } => Ok((234, 30, 156, 255)),
            }
        } else {
            match self.grid.cells[c] {
                AntCellState::Barrier => Ok((255, 255, 255, 120)),
                AntCellState::Empty(p) => {
                    let w64: u64 = p.wandering as u64 * 25 / 1000;
                    let r64: u64 = p.returning as u64 * 25 / 1000;
                    let w: u8 = if w64 <= 255 { w64 as u8 } else { 255 };
                    let r: u8 = if r64 <= 255 { r64 as u8 } else { 255 };
                    Ok((r, 12, w, 120))
                },
                AntCellState::Food(_) => Ok((12, 223, 30, 120)),
                AntCellState::Anthill => Ok((252, 223, 32, 120)),
            }
        }
    }
}

} // verus!
