//! The engine's global laws, stated and proved over the same
//! specification functions its contracts use.

use vstd::prelude::*;

use crate::action::AgentHandle;
use crate::action::CellActionEntry;
use crate::action::SelfAction;
use crate::action::SelfActionEntry;
use crate::cell::AntCellState;
use crate::cell::Pheremones;
use crate::conf::UserConf;
use crate::decide::spec_decide;
use crate::decide::spec_decide_wandering;
use crate::decide::spec_decide_following;
use crate::decide::spec_decide_returning;
use crate::engine::WorldState;
use crate::engine::apply_cell_action;
use crate::engine::apply_cell_actions_from;
use crate::engine::apply_self_action;
use crate::engine::apply_self_actions_from;
use crate::engine::decide_all_from;
use crate::engine::decay_all_spec;
use crate::engine::slots_valid_handle;
use crate::engine::spec_step;
use crate::entity::AntEntity;
use crate::entity::AntEntityState;
use crate::grid::MAX_GRID_SIZE;
use crate::grid::cell_at_spec;
use crate::grid::diag_clear_spec;
use crate::grid::validate_move_spec;
use crate::rng::Prng;
use crate::store::AgentSlot;

verus! {

/// A diagonal step whose either orthogonal intermediate cell is a
/// barrier is never clear, and no move onto that destination validates;
/// since the behavior state machine only ever emits moves that validate
/// (see `lemma_decide_moves_validated`), no relocation to such a
/// destination occurs.
pub proof fn lemma_diagonal_blocked(cells: Seq<AntCellState>, size: int, cx: int, cy: int, nx: int, ny: int)
    requires
        cx != nx,
        cy != ny,
        !cell_at_spec(cells, size, cx, ny).spec_traversable()
            || !cell_at_spec(cells, size, nx, cy).spec_traversable(),
    ensures
        !diag_clear_spec(cells, size, cx, cy, nx, ny),
        validate_move_spec(cells, size, cx, cy, nx - cx, ny - cy) is None,
{
}

/// Every move the behavior state machine emits — in any state, for any
/// world, configuration and draw — was validated against the agent's
/// position: in bounds, traversable, and cutting no barrier corner.
#[verifier::rlimit(80)]
#[verifier::spinoff_prover]
pub proof fn lemma_decide_moves_validated(
    cells: Seq<AntCellState>, size: int, conf: UserConf, h: AgentHandle, e: AntEntity,
    cx: usize, cy: usize, rng: Prng,
)
    ensures
        ({
            let out = spec_decide(cells, size, conf, h, e, cx, cy, rng);
            forall|k: int| 0 <= k < out.selfs.len() ==> match (#[trigger] out.selfs[k]).action {
                SelfAction::Translate(dx, dy) =>
                    validate_move_spec(cells, size, cx as int, cy as int, dx as int, dy as int) is Some,
                _ => true,
            }
        }),
{
    reveal(spec_decide_wandering);
    reveal(spec_decide_following);
    reveal(spec_decide_returning);
    let out = spec_decide(cells, size, conf, h, e, cx, cy, rng);
    assert forall|k: int| 0 <= k < out.selfs.len() implies match (#[trigger] out.selfs[k]).action {
        SelfAction::Translate(dx, dy) =>
            validate_move_spec(cells, size, cx as int, cy as int, dx as int, dy as int) is Some,
        _ => true,
    } by {
        match e.state {
            AntEntityState::Wandering(_) => {},
            AntEntityState::FollowingPheremonesToFood { .. } => {},
            AntEntityState::ReturningToNestWithFood { .. } => {},
        }
    }
}

/// An agent in the wandering state standing on a food cell always
/// transitions, after one commit, to returning-to-nest with a zero last
/// move vector, and the cell's food quantity is reduced by exactly one
/// (the last unit leaves an empty cell with clean trails). The one
/// excluded input is a second agent standing on the same cell: it can
/// consume the same unit first.
#[verifier::rlimit(100)]
#[verifier::spinoff_prover]
pub proof fn lemma_wandering_on_food_eats(w: WorldState, size: int, conf: UserConf, hidx: int, q: usize)
    requires
        conf.wf(),
        1 <= size <= MAX_GRID_SIZE,
        w.cells.len() == size * size,
        w.slots.len() <= usize::MAX,
        0 <= hidx < w.slots.len(),
        w.slots[hidx].entity is Some,
        w.slots[hidx].entity->0.state is Wandering,
        w.slots[hidx].cell < size * size,
        w.cells[w.slots[hidx].cell as int] == AntCellState::Food(q),
        forall|j: int| 0 <= j < w.slots.len() && j != hidx && (#[trigger] w.slots[j]).entity is Some
            ==> w.slots[j].cell != w.slots[hidx].cell,
    ensures
        ({
            let w2 = spec_step(w, size, conf);
            let c = w.slots[hidx].cell as int;
            &&& w2.slots.len() == w.slots.len()
            &&& w2.slots[hidx].entity is Some
            &&& w2.slots[hidx].entity->0.state
                == (AntEntityState::ReturningToNestWithFood { last_diff: (0isize, 0isize) })
            &&& w2.slots[hidx].entity->0.mut_state == w.slots[hidx].entity->0.mut_state
            &&& w2.cells[c] == (if q <= 1 {
                AntCellState::Empty(Pheremones { wandering: 0, returning: 0 })
            } else {
                AntCellState::Food((q - 1) as usize)
            })
        }),
{
    reveal(spec_decide_wandering);
    let c = w.slots[hidx].cell as int;
    let n = w.slots.len() as int;
    let tick1 = vstd::wrapping::u64_specs::wrapping_add(w.tick, 1);
    let cells1 = if tick1 % conf.pheremone_decay_interval == 0 {
        decay_all_spec(w.cells, conf.pheremone_decay_multiplier, crate::cell::PHEROMONE_ZERO_FLOOR)
    } else {
        w.cells
    };
    assert(cells1[c] == AntCellState::Food(q));
    let cx = (c % size) as usize;
    let cy = (c / size) as usize;
    assert(0 <= c % size < size && 0 <= c / size < size && (c / size) * size + (c % size) == c)
        by (nonlinear_arith)
        requires 1 <= size, 0 <= c < size * size;
    let h = AgentHandle { index: hidx as usize, generation: w.slots[hidx].generation };
    let e = w.slots[hidx].entity->0;

    // decompose the decision phase around our agent
    let whole = decide_all_from(cells1, size, conf, w.slots, 0, w.rng);
    lemma_decide_all_eq_range(cells1, size, conf, w.slots, 0, w.rng);
    lemma_decide_range_split(cells1, size, conf, w.slots, 0, hidx, n, w.rng);
    let a = decide_range(cells1, size, conf, w.slots, 0, hidx, w.rng);
    let out = spec_decide(cells1, size, conf, h, e, cx, cy, a.2);
    let b = decide_range(cells1, size, conf, w.slots, hidx + 1, n, out.rng);
    assert(decide_range(cells1, size, conf, w.slots, hidx, n, a.2)
        == (out.cells + b.0, out.selfs + b.1, b.2));
    assert(cell_at_spec(cells1, size, cx as int, cy as int) == cells1[c]);
    let eat_entry = crate::decide::eat(h, w.slots[hidx].cell);
    assert(out.cells == seq![eat_entry] && out.selfs =~= Seq::<SelfActionEntry>::empty()
        && out.rng == a.2);
    assert(whole.0 == a.0 + (out.cells + b.0));
    assert(whole.1 == a.1 + (out.selfs + b.1));

    // actions from other agents touch neither our cell nor our slot
    lemma_decide_range_targets(cells1, size, conf, w.slots, 0, hidx, w.rng);
    lemma_decide_range_targets(cells1, size, conf, w.slots, hidx + 1, n, out.rng);
    assert forall|k: int| 0 <= k < a.0.len()
        implies (#[trigger] a.0[k]).universe_index != c && a.0[k].source.index != hidx by {
        assert(w.slots[a.0[k].source.index as int].cell != w.slots[hidx].cell);
    }
    assert forall|k: int| 0 <= k < b.0.len()
        implies (#[trigger] b.0[k]).universe_index != c && b.0[k].source.index != hidx by {
        assert(w.slots[b.0[k].source.index as int].cell != w.slots[hidx].cell);
    }

    // commit the cell actions: the frames around our single bite
    let w1 = WorldState { cells: cells1, rng: whole.2, tick: tick1, ..w };
    lemma_cell_fold_append(w1, conf, a.0, out.cells + b.0, 0);
    let wa = apply_cell_actions_from(w1, conf, a.0, 0);
    lemma_cell_fold_frame(w1, conf, a.0, 0, c, hidx);
    assert((out.cells + b.0)[0] == eat_entry);
    assert(slots_valid_handle(wa.slots, h));
    let we = apply_cell_action(wa, conf, eat_entry);
    assert(apply_cell_actions_from(wa, conf, out.cells + b.0, 0)
        == apply_cell_actions_from(we, conf, out.cells + b.0, 1));
    lemma_cell_fold_shift(we, conf, out.cells, b.0, 0);
    lemma_cell_fold_frame(we, conf, b.0, 0, c, hidx);
    let wc = apply_cell_actions_from(w1, conf, whole.0, 0);
    assert(wc.cells[c] == we.cells[c] && wc.slots[hidx] == we.slots[hidx]
        && wc.slots.len() == we.slots.len());

    // commit the self actions: nothing here comes from our slot
    assert(out.selfs + b.1 =~= b.1);
    lemma_self_fold_append(wc, size, conf, a.1, b.1, 0);
    assert forall|k: int| 0 <= k < a.1.len()
        implies (#[trigger] a.1[k]).source.index != hidx by {}
    assert forall|k: int| 0 <= k < b.1.len()
        implies (#[trigger] b.1[k]).source.index != hidx by {}
    lemma_self_fold_frame(wc, size, conf, a.1, 0, hidx);
    lemma_self_fold_frame(apply_self_actions_from(wc, size, conf, a.1, 0), size, conf, b.1, 0, hidx);
    assert(apply_self_actions_from(wc, size, conf, whole.1, 0)
        == apply_self_actions_from(apply_self_actions_from(wc, size, conf, a.1, 0), size, conf, b.1, 0));
    assert(spec_step(w, size, conf) == apply_self_actions_from(wc, size, conf, whole.1, 0));
}

/// An agent carrying food that stands on an anthill cell is, after one
/// commit, back in the wandering state, and the collected-food counter
/// has grown by exactly one. The excluded inputs are other agents
/// standing on anthill cells in the same tick: each hands over its own
/// unit.
#[verifier::rlimit(100)]
#[verifier::spinoff_prover]
pub proof fn lemma_returning_on_anthill_deposits(w: WorldState, size: int, conf: UserConf, hidx: int)
    requires
        conf.wf(),
        1 <= size <= MAX_GRID_SIZE,
        w.cells.len() == size * size,
        w.slots.len() <= usize::MAX,
        0 <= hidx < w.slots.len(),
        w.slots[hidx].entity is Some,
        w.slots[hidx].entity->0.state is ReturningToNestWithFood,
        w.slots[hidx].cell < size * size,
        w.cells[w.slots[hidx].cell as int] is Anthill,
        w.collected < u64::MAX,
        forall|j: int| 0 <= j < w.slots.len() && j != hidx && (#[trigger] w.slots[j]).entity is Some
            ==> w.slots[j].cell < size * size
                && !(w.cells[w.slots[j].cell as int] is Anthill),
    ensures
        ({
            let w2 = spec_step(w, size, conf);
            &&& w2.slots.len() == w.slots.len()
            &&& w2.slots[hidx].entity is Some
            &&& w2.slots[hidx].entity->0.state is Wandering
            &&& w2.slots[hidx].entity->0.mut_state == w.slots[hidx].entity->0.mut_state
            &&& w2.collected == w.collected + 1
        }),
{
    reveal(spec_decide_returning);
    let c = w.slots[hidx].cell as int;
    let n = w.slots.len() as int;
    let tick1 = vstd::wrapping::u64_specs::wrapping_add(w.tick, 1);
    let cells1 = if tick1 % conf.pheremone_decay_interval == 0 {
        decay_all_spec(w.cells, conf.pheremone_decay_multiplier, crate::cell::PHEROMONE_ZERO_FLOOR)
    } else {
        w.cells
    };
    assert(cells1[c] is Anthill);
    assert forall|x: int| 0 <= x < w.cells.len()
        implies ((#[trigger] cells1[x]) is Anthill <==> w.cells[x] is Anthill) by {}
    let cx = (c % size) as usize;
    let cy = (c / size) as usize;
    assert(0 <= c % size < size && 0 <= c / size < size && (c / size) * size + (c % size) == c)
        by (nonlinear_arith)
        requires 1 <= size, 0 <= c < size * size;
    let h = AgentHandle { index: hidx as usize, generation: w.slots[hidx].generation };
    let e = w.slots[hidx].entity->0;

    // decompose the decision phase around our agent
    let whole = decide_all_from(cells1, size, conf, w.slots, 0, w.rng);
    lemma_decide_all_eq_range(cells1, size, conf, w.slots, 0, w.rng);
    lemma_decide_range_split(cells1, size, conf, w.slots, 0, hidx, n, w.rng);
    let a = decide_range(cells1, size, conf, w.slots, 0, hidx, w.rng);
    let out = spec_decide(cells1, size, conf, h, e, cx, cy, a.2);
    let b = decide_range(cells1, size, conf, w.slots, hidx + 1, n, out.rng);
    assert(decide_range(cells1, size, conf, w.slots, hidx, n, a.2)
        == (out.cells + b.0, out.selfs + b.1, b.2));
    assert(cell_at_spec(cells1, size, cx as int, cy as int) == cells1[c]);
    let dep_entry = crate::decide::cust(h, crate::action::AntEntityAction::DepositFood);
    assert(out.cells =~= Seq::<CellActionEntry>::empty() && out.selfs == seq![dep_entry]
        && out.rng == a.2);
    assert(whole.0 == a.0 + (out.cells + b.0));
    assert(whole.1 == a.1 + (out.selfs + b.1));

    // no other agent's action touches our slot, and nobody else deposits
    lemma_decide_range_targets(cells1, size, conf, w.slots, 0, hidx, w.rng);
    lemma_decide_range_targets(cells1, size, conf, w.slots, hidx + 1, n, out.rng);
    assert forall|k: int| 0 <= k < a.0.len()
        implies (#[trigger] a.0[k]).universe_index as int != -1 && a.0[k].source.index != hidx by {}
    assert forall|k: int| 0 <= k < b.0.len()
        implies (#[trigger] b.0[k]).universe_index as int != -1 && b.0[k].source.index != hidx by {}
    assert forall|k: int| 0 <= k < a.1.len()
        implies (#[trigger] a.1[k]).source.index != hidx
            && !(a.1[k].action == SelfAction::Custom(crate::action::AntEntityAction::DepositFood)) by {
        if a.1[k].action == SelfAction::Custom(crate::action::AntEntityAction::DepositFood) {
            let src = a.1[k].source.index as int;
            assert(cells1[w.slots[src].cell as int] is Anthill);
            assert(w.cells[w.slots[src].cell as int] is Anthill);
        }
    }
    assert forall|k: int| 0 <= k < b.1.len()
        implies (#[trigger] b.1[k]).source.index != hidx
            && !(b.1[k].action == SelfAction::Custom(crate::action::AntEntityAction::DepositFood)) by {
        if b.1[k].action == SelfAction::Custom(crate::action::AntEntityAction::DepositFood) {
            let src = b.1[k].source.index as int;
            assert(cells1[w.slots[src].cell as int] is Anthill);
            assert(w.cells[w.slots[src].cell as int] is Anthill);
        }
    }

    // commit the cell actions: our slot is never touched
    let w1 = WorldState { cells: cells1, rng: whole.2, tick: tick1, ..w };
    assert(out.cells + b.0 =~= b.0);
    lemma_cell_fold_append(w1, conf, a.0, b.0, 0);
    lemma_cell_fold_frame(w1, conf, a.0, 0, -1, hidx);
    lemma_cell_fold_frame(apply_cell_actions_from(w1, conf, a.0, 0), conf, b.0, 0, -1, hidx);
    let wc = apply_cell_actions_from(w1, conf, whole.0, 0);
    assert(wc.slots[hidx] == w.slots[hidx] && wc.slots.len() == w.slots.len()
        && wc.collected == w.collected);

    // commit the self actions: the one hand-over is ours
    lemma_self_fold_append(wc, size, conf, a.1, out.selfs + b.1, 0);
    let wsa = apply_self_actions_from(wc, size, conf, a.1, 0);
    lemma_self_fold_frame(wc, size, conf, a.1, 0, hidx);
    lemma_self_fold_no_deposit(wc, size, conf, a.1, 0);
    assert((out.selfs + b.1)[0] == dep_entry);
    assert(slots_valid_handle(wsa.slots, h));
    let wd = apply_self_action(wsa, size, conf, dep_entry);
    assert(wd.collected == w.collected + 1);
    assert(wd.slots[hidx].entity is Some && wd.slots[hidx].entity->0.state is Wandering);
    assert(apply_self_actions_from(wsa, size, conf, out.selfs + b.1, 0)
        == apply_self_actions_from(wd, size, conf, out.selfs + b.1, 1));
    lemma_self_fold_shift(wd, size, conf, out.selfs, b.1, 0);
    lemma_self_fold_frame(wd, size, conf, b.1, 0, hidx);
    lemma_self_fold_no_deposit(wd, size, conf, b.1, 0);
    assert(spec_step(w, size, conf)
        == apply_self_actions_from(wsa, size, conf, out.selfs + b.1, 0));
}

/// The world after `n` ticks.
pub open spec fn spec_step_n(w: WorldState, size: int, conf: UserConf, n: nat) -> WorldState
    decreases n,
{
    if n == 0 {
        w
    } else {
        spec_step_n(spec_step(w, size, conf), size, conf, (n - 1) as nat)
    }
}

/// Determinism: a tick is a function of the pre-tick world and generator
/// state alone — `AntEngine::step` ensures exactly `spec_step` — so two
/// independent runs from an identical seed and identical initial world
/// produce identical worlds after any number of ticks.
pub proof fn lemma_runs_deterministic(w1: WorldState, w2: WorldState, size: int, conf: UserConf, n: nat)
    requires
        w1 == w2,
    ensures
        spec_step_n(w1, size, conf, n) == spec_step_n(w2, size, conf, n),
{
}


/// The decision phase restricted to the slots in `[i, j)`.
pub open spec fn decide_range(
    cells: Seq<AntCellState>, size: int, conf: UserConf, slots: Seq<AgentSlot>, i: int, j: int, rng: Prng,
) -> (Seq<CellActionEntry>, Seq<SelfActionEntry>, Prng)
    decreases j - i,
{
    if i < 0 || i >= j || i >= slots.len() {
        (Seq::empty(), Seq::empty(), rng)
    } else {
        let slot = slots[i];
        match slot.entity {
            Some(e) => {
                let h = AgentHandle { index: i as usize, generation: slot.generation };
                let cx = (slot.cell as int % size) as usize;
                let cy = (slot.cell as int / size) as usize;
                let out = spec_decide(cells, size, conf, h, e, cx, cy, rng);
                let rest = decide_range(cells, size, conf, slots, i + 1, j, out.rng);
                (out.cells + rest.0, out.selfs + rest.1, rest.2)
            },
            None => decide_range(cells, size, conf, slots, i + 1, j, rng),
        }
    }
}

/// Deciding every slot from `i` on is deciding the range `[i, len)`.
pub proof fn lemma_decide_all_eq_range(
    cells: Seq<AntCellState>, size: int, conf: UserConf, slots: Seq<AgentSlot>, i: int, rng: Prng,
)
    requires
        0 <= i,
    ensures
        decide_all_from(cells, size, conf, slots, i, rng)
            == decide_range(cells, size, conf, slots, i, slots.len() as int, rng),
    decreases slots.len() - i,
{
    if i < slots.len() {
        let slot = slots[i];
        match slot.entity {
            Some(e) => {
                let h = AgentHandle { index: i as usize, generation: slot.generation };
                let cx = (slot.cell as int % size) as usize;
                let cy = (slot.cell as int / size) as usize;
                let out = spec_decide(cells, size, conf, h, e, cx, cy, rng);
                lemma_decide_all_eq_range(cells, size, conf, slots, i + 1, out.rng);
            },
            None => {
                lemma_decide_all_eq_range(cells, size, conf, slots, i + 1, rng);
            },
        }
    }
}

/// A decision range splits at any slot: the left part decides first, the
/// right part continues with the generator the left part leaves behind.
pub proof fn lemma_decide_range_split(
    cells: Seq<AntCellState>, size: int, conf: UserConf, slots: Seq<AgentSlot>,
    i: int, j: int, k: int, rng: Prng,
)
    requires
        0 <= i <= j <= k,
    ensures
        ({
            let a = decide_range(cells, size, conf, slots, i, j, rng);
            let b = decide_range(cells, size, conf, slots, j, k, a.2);
            decide_range(cells, size, conf, slots, i, k, rng) == (a.0 + b.0, a.1 + b.1, b.2)
        }),
    decreases j - i,
{
    let a = decide_range(cells, size, conf, slots, i, j, rng);
    let b = decide_range(cells, size, conf, slots, j, k, a.2);
    if i >= j || i >= slots.len() {
        assert(a.0 =~= Seq::<CellActionEntry>::empty());
        assert(a.1 =~= Seq::<SelfActionEntry>::empty());
        if i >= slots.len() {
            lemma_decide_range_empty_tail(cells, size, conf, slots, j, k, a.2);
            lemma_decide_range_empty_tail(cells, size, conf, slots, i, k, rng);
            assert(a.0 + b.0 =~= decide_range(cells, size, conf, slots, i, k, rng).0);
            assert(a.1 + b.1 =~= decide_range(cells, size, conf, slots, i, k, rng).1);
        } else {
            assert(a.0 + b.0 =~= b.0);
            assert(a.1 + b.1 =~= b.1);
        }
    } else {
        let slot = slots[i];
        match slot.entity {
            Some(e) => {
                let h = AgentHandle { index: i as usize, generation: slot.generation };
                let cx = (slot.cell as int % size) as usize;
                let cy = (slot.cell as int / size) as usize;
                let out = spec_decide(cells, size, conf, h, e, cx, cy, rng);
                lemma_decide_range_split(cells, size, conf, slots, i + 1, j, k, out.rng);
                let a1 = decide_range(cells, size, conf, slots, i + 1, j, out.rng);
                let b1 = decide_range(cells, size, conf, slots, j, k, a1.2);
                assert(out.cells + (a1.0 + b1.0) =~= (out.cells + a1.0) + b1.0);
                assert(out.selfs + (a1.1 + b1.1) =~= (out.selfs + a1.1) + b1.1);
            },
            None => {
                lemma_decide_range_split(cells, size, conf, slots, i + 1, j, k, rng);
            },
        }
    }
}

/// A range past the end of the slots decides nothing.
pub proof fn lemma_decide_range_empty_tail(
    cells: Seq<AntCellState>, size: int, conf: UserConf, slots: Seq<AgentSlot>, i: int, k: int, rng: Prng,
)
    requires
        slots.len() <= i,
        0 <= i,
    ensures
        decide_range(cells, size, conf, slots, i, k, rng)
            == (Seq::<CellActionEntry>::empty(), Seq::<SelfActionEntry>::empty(), rng),
    decreases k - i,
{
    if i < k && i < slots.len() {
        assert(false);
    }
}

/// What one agent's decision can touch: every cell action it emits
/// targets the cell it stands on, every action carries its own handle,
/// and it hands food over only while standing on an anthill cell.
#[verifier::rlimit(80)]
#[verifier::spinoff_prover]
pub proof fn lemma_decide_targets(
    cells: Seq<AntCellState>, size: int, conf: UserConf, h: AgentHandle, e: AntEntity,
    cx: usize, cy: usize, rng: Prng,
)
    ensures
        ({
            let out = spec_decide(cells, size, conf, h, e, cx, cy, rng);
            let idx = crate::grid::spec_index_of(size, cx as int, cy as int) as usize;
            &&& forall|k: int| 0 <= k < out.cells.len()
                ==> (#[trigger] out.cells[k]).source == h && out.cells[k].universe_index == idx
            &&& forall|k: int| 0 <= k < out.selfs.len() ==> (#[trigger] out.selfs[k]).source == h
            &&& forall|k: int| 0 <= k < out.selfs.len()
                && (#[trigger] out.selfs[k]).action == SelfAction::Custom(crate::action::AntEntityAction::DepositFood)
                ==> cell_at_spec(cells, size, cx as int, cy as int) is Anthill
        }),
{
    reveal(spec_decide_wandering);
    reveal(spec_decide_following);
    reveal(spec_decide_returning);
    match e.state {
        AntEntityState::Wandering(_) => {},
        AntEntityState::FollowingPheremonesToFood { .. } => {},
        AntEntityState::ReturningToNestWithFood { .. } => {},
    }
}

/// What a decision range can touch: every entry carries the handle of a
/// live slot in the range, every cell action targets the cell its
/// emitter stands on, and food is handed over only on anthill cells.
pub proof fn lemma_decide_range_targets(
    cells: Seq<AntCellState>, size: int, conf: UserConf, slots: Seq<AgentSlot>, i: int, j: int, rng: Prng,
)
    requires
        0 <= i,
        1 <= size,
        slots.len() <= usize::MAX,
    ensures
        ({
            let r = decide_range(cells, size, conf, slots, i, j, rng);
            &&& forall|k: int| 0 <= k < r.0.len() ==> {
                let a = #[trigger] r.0[k];
                &&& i <= a.source.index < j
                &&& a.source.index < slots.len()
                &&& slots[a.source.index as int].entity is Some
                &&& a.source.generation == slots[a.source.index as int].generation
                &&& a.universe_index == slots[a.source.index as int].cell
            }
            &&& forall|k: int| 0 <= k < r.1.len() ==> {
                let a = #[trigger] r.1[k];
                &&& i <= a.source.index < j
                &&& a.source.index < slots.len()
                &&& slots[a.source.index as int].entity is Some
                &&& a.source.generation == slots[a.source.index as int].generation
            }
            &&& forall|k: int| 0 <= k < r.1.len()
                && (#[trigger] r.1[k]).action == SelfAction::Custom(crate::action::AntEntityAction::DepositFood)
                ==> cells[slots[r.1[k].source.index as int].cell as int] is Anthill
        }),
    decreases j - i,
{
    let r = decide_range(cells, size, conf, slots, i, j, rng);
    if i < 0 || i >= j || i >= slots.len() {
    } else {
        let slot = slots[i];
        match slot.entity {
            Some(e) => {
                let h = AgentHandle { index: i as usize, generation: slot.generation };
                let cx = (slot.cell as int % size) as usize;
                let cy = (slot.cell as int / size) as usize;
                let out = spec_decide(cells, size, conf, h, e, cx, cy, rng);
                let rest = decide_range(cells, size, conf, slots, i + 1, j, out.rng);
                lemma_decide_targets(cells, size, conf, h, e, cx, cy, rng);
                lemma_decide_range_targets(cells, size, conf, slots, i + 1, j, out.rng);
                assert(0 <= slot.cell as int % size < size
                    && (slot.cell as int / size) * size + slot.cell as int % size == slot.cell as int)
                    by (nonlinear_arith)
                    requires 1 <= size, 0 <= slot.cell as int;
                assert(crate::grid::spec_index_of(size, cx as int, cy as int) as usize == slot.cell);
                assert(cell_at_spec(cells, size, cx as int, cy as int) == cells[slot.cell as int]);
                assert forall|k: int| 0 <= k < r.0.len() implies {
                    let a = #[trigger] r.0[k];
                    &&& i <= a.source.index < j
                    &&& a.source.index < slots.len()
                    &&& slots[a.source.index as int].entity is Some
                    &&& a.source.generation == slots[a.source.index as int].generation
                    &&& a.universe_index == slots[a.source.index as int].cell
                } by {
                    if k < out.cells.len() {
                        assert(r.0[k] == out.cells[k]);
                    } else {
                        assert(r.0[k] == rest.0[k - out.cells.len()]);
                    }
                }
                assert forall|k: int| 0 <= k < r.1.len() implies {
                    let a = #[trigger] r.1[k];
                    &&& i <= a.source.index < j
                    &&& a.source.index < slots.len()
                    &&& slots[a.source.index as int].entity is Some
                    &&& a.source.generation == slots[a.source.index as int].generation
                } by {
                    if k < out.selfs.len() {
                        assert(r.1[k] == out.selfs[k]);
                    } else {
                        assert(r.1[k] == rest.1[k - out.selfs.len()]);
                    }
                }
                assert forall|k: int| 0 <= k < r.1.len()
                    && (#[trigger] r.1[k]).action == SelfAction::Custom(crate::action::AntEntityAction::DepositFood)
                    implies cells[slots[r.1[k].source.index as int].cell as int] is Anthill by {
                    if k < out.selfs.len() {
                        assert(r.1[k] == out.selfs[k]);
                    } else {
                        assert(r.1[k] == rest.1[k - out.selfs.len()]);
                    }
                }
            },
            None => {
                lemma_decide_range_targets(cells, size, conf, slots, i + 1, j, rng);
            },
        }
    }
}


/// Applying a concatenated cell-action queue from past the first part is
/// applying the second part.
pub proof fn lemma_cell_fold_shift(
    w: WorldState, conf: UserConf, q1: Seq<CellActionEntry>, q2: Seq<CellActionEntry>, t: int,
)
    requires
        0 <= t <= q2.len(),
    ensures
        apply_cell_actions_from(w, conf, q1 + q2, q1.len() + t)
            == apply_cell_actions_from(w, conf, q2, t),
    decreases q2.len() - t,
{
    if t < q2.len() {
        assert((q1 + q2)[q1.len() + t] == q2[t]);
        lemma_cell_fold_shift(apply_cell_action(w, conf, q2[t]), conf, q1, q2, t + 1);
    }
}

/// A concatenated cell-action queue applies part by part.
pub proof fn lemma_cell_fold_append(
    w: WorldState, conf: UserConf, q1: Seq<CellActionEntry>, q2: Seq<CellActionEntry>, i: int,
)
    requires
        0 <= i <= q1.len(),
    ensures
        apply_cell_actions_from(w, conf, q1 + q2, i)
            == apply_cell_actions_from(apply_cell_actions_from(w, conf, q1, i), conf, q2, 0),
    decreases q1.len() - i,
{
    if i == q1.len() {
        lemma_cell_fold_shift(w, conf, q1, q2, 0);
    } else {
        assert((q1 + q2)[i] == q1[i]);
        lemma_cell_fold_append(apply_cell_action(w, conf, q1[i]), conf, q1, q2, i + 1);
    }
}

/// Applying a concatenated self-action queue from past the first part is
/// applying the second part.
pub proof fn lemma_self_fold_shift(
    w: WorldState, size: int, conf: UserConf, q1: Seq<SelfActionEntry>, q2: Seq<SelfActionEntry>, t: int,
)
    requires
        0 <= t <= q2.len(),
    ensures
        apply_self_actions_from(w, size, conf, q1 + q2, q1.len() + t)
            == apply_self_actions_from(w, size, conf, q2, t),
    decreases q2.len() - t,
{
    if t < q2.len() {
        assert((q1 + q2)[q1.len() + t] == q2[t]);
        lemma_self_fold_shift(apply_self_action(w, size, conf, q2[t]), size, conf, q1, q2, t + 1);
    }
}

/// A concatenated self-action queue applies part by part.
pub proof fn lemma_self_fold_append(
    w: WorldState, size: int, conf: UserConf, q1: Seq<SelfActionEntry>, q2: Seq<SelfActionEntry>, i: int,
)
    requires
        0 <= i <= q1.len(),
    ensures
        apply_self_actions_from(w, size, conf, q1 + q2, i)
            == apply_self_actions_from(apply_self_actions_from(w, size, conf, q1, i), size, conf, q2, 0),
    decreases q1.len() - i,
{
    if i == q1.len() {
        lemma_self_fold_shift(w, size, conf, q1, q2, 0);
    } else {
        assert((q1 + q2)[i] == q1[i]);
        lemma_self_fold_append(apply_self_action(w, size, conf, q1[i]), size, conf, q1, q2, i + 1);
    }
}

/// Cell actions that neither target cell `c` nor come from slot `hidx`
/// leave that cell, that slot, and everything but the cell field alone.
pub proof fn lemma_cell_fold_frame(
    w: WorldState, conf: UserConf, q: Seq<CellActionEntry>, i: int, c: int, hidx: int,
)
    requires
        0 <= i,
        forall|k: int| i <= k < q.len()
            ==> (#[trigger] q[k]).universe_index != c && q[k].source.index != hidx,
    ensures
        ({
            let w2 = apply_cell_actions_from(w, conf, q, i);
            &&& w2.cells.len() == w.cells.len()
            &&& 0 <= c < w.cells.len() ==> w2.cells[c] == w.cells[c]
            &&& w2.slots.len() == w.slots.len()
            &&& 0 <= hidx < w.slots.len() ==> w2.slots[hidx] == w.slots[hidx]
            &&& w2.occ == w.occ
            &&& w2.rng == w.rng
            &&& w2.tick == w.tick
            &&& w2.collected == w.collected
        }),
    decreases q.len() - i,
{
    if i < q.len() {
        lemma_cell_fold_frame(apply_cell_action(w, conf, q[i]), conf, q, i + 1, c, hidx);
    }
}

/// Self actions from other slots than `hidx` leave that slot, the cell
/// field and the tick alone.
pub proof fn lemma_self_fold_frame(
    w: WorldState, size: int, conf: UserConf, q: Seq<SelfActionEntry>, i: int, hidx: int,
)
    requires
        0 <= i,
        forall|k: int| i <= k < q.len() ==> (#[trigger] q[k]).source.index != hidx,
    ensures
        ({
            let w2 = apply_self_actions_from(w, size, conf, q, i);
            &&& w2.cells == w.cells
            &&& w2.slots.len() == w.slots.len()
            &&& 0 <= hidx < w.slots.len() ==> w2.slots[hidx] == w.slots[hidx]
            &&& w2.tick == w.tick
        }),
    decreases q.len() - i,
{
    if i < q.len() {
        lemma_self_fold_frame(apply_self_action(w, size, conf, q[i]), size, conf, q, i + 1, hidx);
    }
}

/// Only a food hand-over moves the collected-food counter.
pub proof fn lemma_self_fold_no_deposit(
    w: WorldState, size: int, conf: UserConf, q: Seq<SelfActionEntry>, i: int,
)
    requires
        0 <= i,
        forall|k: int| i <= k < q.len()
            ==> !((#[trigger] q[k]).action == SelfAction::Custom(crate::action::AntEntityAction::DepositFood)),
    ensures
        apply_self_actions_from(w, size, conf, q, i).collected == w.collected,
    decreases q.len() - i,
{
    if i < q.len() {
        lemma_self_fold_no_deposit(apply_self_action(w, size, conf, q[i]), size, conf, q, i + 1);
    }
}


/// What eating one unit of food does to the world, in general: the
/// target cell's quantity drops by exactly one (a last unit leaves an
/// empty cell with clean trails); the eater, if its handle still
/// verifies, turns homeward with a zero move vector while keeping its
/// place, home and token; and nothing else changes.
pub proof fn lemma_eat_food_applies(w: WorldState, conf: UserConf, a: CellActionEntry, q: usize)
    requires
        a.action == crate::action::AntCellAction::EatFood,
        a.universe_index < w.cells.len(),
        w.cells[a.universe_index as int] == AntCellState::Food(q),
        q >= 1,
    ensures
        ({
            let w2 = apply_cell_action(w, conf, a);
            let idx = a.universe_index as int;
            let i = a.source.index as int;
            &&& w2.cells.len() == w.cells.len()
            &&& w2.cells[idx] == (if q == 1 {
                AntCellState::Empty(Pheremones { wandering: 0, returning: 0 })
            } else {
                AntCellState::Food((q - 1) as usize)
            })
            &&& forall|k: int| 0 <= k < w.cells.len() && k != idx ==> w2.cells[k] == w.cells[k]
            &&& w2.slots.len() == w.slots.len()
            &&& slots_valid_handle(w.slots, a.source) ==> {
                &&& w2.slots[i].entity is Some
                &&& w2.slots[i].entity->0.state
                    == (AntEntityState::ReturningToNestWithFood { last_diff: (0isize, 0isize) })
                &&& w2.slots[i].entity->0.mut_state == w.slots[i].entity->0.mut_state
                &&& w2.slots[i].cell == w.slots[i].cell
                &&& w2.slots[i].generation == w.slots[i].generation
                &&& forall|j: int| 0 <= j < w.slots.len() && j != i ==> w2.slots[j] == w.slots[j]
            }
            &&& !slots_valid_handle(w.slots, a.source) ==> w2.slots == w.slots
            &&& w2.occ == w.occ
            &&& w2.rng == w.rng
            &&& w2.tick == w.tick
            &&& w2.collected == w.collected
        }),
{
}

/// What handing food over does to the world, in general: with a
/// verifying handle the collected-food counter grows by exactly one and
/// the agent is back wandering, keeping its place, home and token; no
/// cell and no other agent changes. A stale handle changes nothing.
pub proof fn lemma_deposit_food_applies(w: WorldState, size: int, conf: UserConf, a: SelfActionEntry)
    requires
        a.action == SelfAction::Custom(crate::action::AntEntityAction::DepositFood),
        w.collected < u64::MAX,
    ensures
        ({
            let w2 = apply_self_action(w, size, conf, a);
            let i = a.source.index as int;
            &&& w2.cells == w.cells
            &&& w2.occ == w.occ
            &&& w2.tick == w.tick
            &&& slots_valid_handle(w.slots, a.source) ==> {
                &&& w2.collected == w.collected + 1
                &&& w2.slots.len() == w.slots.len()
                &&& w2.slots[i].entity is Some
                &&& w2.slots[i].entity->0.state is Wandering
                &&& w2.slots[i].entity->0.mut_state == w.slots[i].entity->0.mut_state
                &&& w2.slots[i].cell == w.slots[i].cell
                &&& w2.slots[i].generation == w.slots[i].generation
                &&& forall|j: int| 0 <= j < w.slots.len() && j != i ==> w2.slots[j] == w.slots[j]
            }
            &&& !slots_valid_handle(w.slots, a.source) ==> w2 == w
        }),
{
}

} // verus!
