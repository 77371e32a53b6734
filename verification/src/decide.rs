//! The behavior state machine: one read-only decision per agent per tick,
//! mapping (agent state, local 3x3 view) to the actions it intends, with
//! every branch — including every random draw — pinned down by a
//! specification function of the pre-tick world and generator state.

use vstd::prelude::*;

use crate::action::ActionQueue;
use crate::action::AgentHandle;
use crate::action::AntCellAction;
use crate::action::AntEntityAction;
use crate::action::CellActionEntry;
use crate::action::SelfAction;
use crate::action::SelfActionEntry;
use crate::behavior::VIEW_DISTANCE;
use crate::behavior::all_below;
use crate::behavior::compute_following_weights;
use crate::behavior::compute_returning_weights;
use crate::behavior::compute_wander_weights;
use crate::behavior::following_weights;
use crate::behavior::lemma_element_le_sum;
use crate::behavior::lemma_sum_bound;
use crate::behavior::lemma_visible_len;
use crate::behavior::pheromones_bounded;
use crate::behavior::pick_weighted;
use crate::behavior::returning_weights;
use crate::behavior::spec_all_below;
use crate::behavior::spec_pick;
use crate::behavior::spec_total;
use crate::behavior::total_weight;
use crate::behavior::wander_weights;
use crate::behavior::MAX_WEIGHT;
use crate::cell::AntCellState;
use crate::cell::PheremoneType;
use crate::conf::FOLLOWING_LOSS_THRESHOLD;
use crate::conf::UserConf;
use crate::entity::AntEntity;
use crate::entity::AntEntityState;
use crate::entity::WanderingState;
use crate::grid::Grid;
use crate::grid::cell_at_spec;
use crate::grid::find_closest_food_spec;
use crate::grid::validate_move_spec;
use crate::grid::clamp;
use crate::grid::get_index;
use crate::grid::lemma_visible_in_bounds;
use crate::grid::spec_clamp;
use crate::grid::spec_index_of;
use crate::grid::visible_cells;
use crate::grid::visible_seq;
use crate::rng::Prng;

verus! {

/// Pheromone laid on the way while food is in sight (both channels).
pub const DEPOSIT_FOOD_SPOTTED: u32 = 500;

/// Wandering pheromone laid after a successful blind wander step.
pub const DEPOSIT_WANDER_STEP: u32 = 1000;

/// Wandering pheromone laid when a trail is picked up or followed.
pub const DEPOSIT_TRAIL_FOUND: u32 = 1500;

/// Returning pheromone boost laid when the anthill comes into sight.
pub const DEPOSIT_ANTHILL_SEEN: u32 = 5000;

/// Returning pheromone laid after a random step with the trail lost.
pub const DEPOSIT_LOST_RETURNING: u32 = 500;

/// Returning pheromone laid along a followed homeward trail.
pub const DEPOSIT_RETURNING_STEP: u32 = 1000;

/// Everything one agent's decision produces: the cell actions and self
/// actions it emits, in emission order, and the generator state left
/// behind by its draws.
pub struct DecideOut {
    pub cells: Seq<CellActionEntry>,
    pub selfs: Seq<SelfActionEntry>,
    pub rng: Prng,
}

/// A queued pheromone deposit at `idx` from agent `h`.
pub open spec fn lay(h: AgentHandle, idx: usize, kind: PheremoneType, amt: u32) -> CellActionEntry {
    CellActionEntry { source: h, universe_index: idx, action: AntCellAction::LayPheremone(kind, amt) }
}

/// A queued food consumption at `idx` from agent `h`.
pub open spec fn eat(h: AgentHandle, idx: usize) -> CellActionEntry {
    CellActionEntry { source: h, universe_index: idx, action: AntCellAction::EatFood }
}

/// A queued one-step move from agent `h`.
pub open spec fn tr(h: AgentHandle, dx: isize, dy: isize) -> SelfActionEntry {
    SelfActionEntry { source: h, action: SelfAction::Translate(dx, dy) }
}

/// A queued agent-specific action from agent `h`.
pub open spec fn cust(h: AgentHandle, a: AntEntityAction) -> SelfActionEntry {
    SelfActionEntry { source: h, action: SelfAction::Custom(a) }
}

/// The position of the first visible anthill cell from index `i` on.
pub open spec fn first_anthill_from(cells: Seq<AntCellState>, size: int, s: Seq<(usize, usize)>, i: int) -> Option<int>
    decreases s.len() - i,
{
    if i < 0 || i >= s.len() {
        None
    } else if cell_at_spec(cells, size, s[i].0 as int, s[i].1 as int) is Anthill {
        Some(i)
    } else {
        first_anthill_from(cells, size, s, i + 1)
    }
}

/// A found first-anthill position indexes the list.
pub proof fn lemma_first_anthill_in_range(cells: Seq<AntCellState>, size: int, s: Seq<(usize, usize)>, i: int)
    requires
        0 <= i,
    ensures
        first_anthill_from(cells, size, s, i) is Some ==> {
            let a = first_anthill_from(cells, size, s, i)->0;
            &&& i <= a < s.len()
            &&& cell_at_spec(cells, size, s[a].0 as int, s[a].1 as int) is Anthill
        },
    decreases s.len() - i,
{
    if 0 <= i < s.len() && !(cell_at_spec(cells, size, s[i].0 as int, s[i].1 as int) is Anthill) {
        lemma_first_anthill_in_range(cells, size, s, i + 1);
    }
}

/// Scans the visible list for the first anthill, in iteration order.
fn find_first_anthill(g: &Grid, vis: &Vec<(usize, usize)>) -> (r: Option<usize>)
    requires
        g.wf(),
        forall|j: int| 0 <= j < vis@.len()
            ==> (#[trigger] vis@[j]).0 < g.size && vis@[j].1 < g.size,
    ensures
        match r {
            Some(k) => first_anthill_from(g.cells@, g.size as int, vis@, 0) == Some(k as int) && k < vis@.len(),
            None => first_anthill_from(g.cells@, g.size as int, vis@, 0) is None,
        },
{
    let mut i: usize = 0;
    while i < vis.len()
        invariant
            g.wf(),
            i <= vis@.len(),
            forall|j: int| 0 <= j < vis@.len()
                ==> (#[trigger] vis@[j]).0 < g.size && vis@[j].1 < g.size,
            first_anthill_from(g.cells@, g.size as int, vis@, 0) == first_anthill_from(g.cells@, g.size as int, vis@, i as int),
        decreases vis@.len() - i,
    {
        let (px, py) = vis[i];
        let c = g.cells[get_index(px, py, g.size)];
        match c {
            AntCellState::Anthill => {
                return Some(i);
            },
            _ => {},
        }
        i = i + 1;
    }
    None
}

/// The decision of an agent in the wandering state.
#[verifier::opaque]
pub open spec fn spec_decide_wandering(
    cells: Seq<AntCellState>, size: int, conf: UserConf, h: AgentHandle, ws: WanderingState, cx: usize, cy: usize, rng: Prng,
) -> DecideOut {
    let idx = spec_index_of(size, cx as int, cy as int) as usize;
    if cell_at_spec(cells, size, cx as int, cy as int) is Food {
        DecideOut { cells: seq![eat(h, idx)], selfs: seq![], rng }
    } else {
        let food = find_closest_food_spec(cells, size, cx as int, cy as int, VIEW_DISTANCE as int);
        if food is Some {
            let (fx, fy) = food->0;
            let dx = spec_clamp(fx - cx, -1, 1);
            let dy = spec_clamp(fy - cy, -1, 1);
            let mv = validate_move_spec(cells, size, cx as int, cy as int, dx, dy);
            DecideOut {
                cells: seq![
                    lay(h, idx, PheremoneType::Wandering, DEPOSIT_FOOD_SPOTTED),
                    lay(h, idx, PheremoneType::Returning, DEPOSIT_FOOD_SPOTTED),
                ],
                selfs: if mv is Some { seq![tr(h, dx as isize, dy as isize)] } else { seq![] },
                rng,
            }
        } else {
            let wsq = wander_weights(cells, size, conf, cx as int, cy as int);
            if spec_all_below(wsq, conf.scout_pursuit_cutoff) {
                let ox = ws.x_dir.spec_coord_offset();
                let oy = ws.y_dir.spec_coord_offset();
                let mv = validate_move_spec(cells, size, cx as int, cy as int, ox as int, oy as int);
                if mv is Some {
                    DecideOut {
                        cells: seq![lay(h, idx, PheremoneType::Wandering, DEPOSIT_WANDER_STEP)],
                        selfs: seq![
                            tr(h, ox, oy),
                            cust(h, AntEntityAction::UpdateWanderState { reset: false }),
                        ],
                        rng,
                    }
                } else {
                    DecideOut {
                        cells: seq![],
                        selfs: seq![cust(h, AntEntityAction::UpdateWanderState { reset: true })],
                        rng,
                    }
                }
            } else {
                let total = spec_total(wsq);
                let draw = rng.spec_peek_below(total as u64);
                let rng1 = rng.spec_step_n(2);
                let k = spec_pick(wsq, draw as int);
                let t = visible_seq(cx as int, cy as int, VIEW_DISTANCE as int, size)[k];
                let dx = spec_clamp(t.0 - cx, -1, 1);
                let dy = spec_clamp(t.1 - cy, -1, 1);
                let mv = validate_move_spec(cells, size, cx as int, cy as int, dx, dy);
                if mv is Some {
                    DecideOut {
                        cells: seq![lay(h, idx, PheremoneType::Wandering, DEPOSIT_TRAIL_FOUND)],
                        selfs: seq![
                            tr(h, dx as isize, dy as isize),
                            cust(h, AntEntityAction::FollowFoodTrail(dx as isize, dy as isize)),
                        ],
                        rng: rng1,
                    }
                } else {
                    DecideOut { cells: seq![], selfs: seq![], rng: rng1 }
                }
            }
        }
    }
}

/// The decision of an agent following a pheromone trail.
#[verifier::opaque]
pub open spec fn spec_decide_following(
    cells: Seq<AntCellState>, size: int, conf: UserConf, h: AgentHandle, ldx: isize, ldy: isize, cx: usize, cy: usize, rng: Prng,
) -> DecideOut {
    let idx = spec_index_of(size, cx as int, cy as int) as usize;
    if cell_at_spec(cells, size, cx as int, cy as int) is Food {
        DecideOut { cells: seq![eat(h, idx)], selfs: seq![], rng }
    } else {
        let food = find_closest_food_spec(cells, size, cx as int, cy as int, VIEW_DISTANCE as int);
        if food is Some {
            let (fx, fy) = food->0;
            let dx = spec_clamp(fx - cx, -1, 1);
            let dy = spec_clamp(fy - cy, -1, 1);
            let mv = validate_move_spec(cells, size, cx as int, cy as int, dx, dy);
            DecideOut {
                cells: seq![
                    lay(h, idx, PheremoneType::Wandering, DEPOSIT_FOOD_SPOTTED),
                    lay(h, idx, PheremoneType::Returning, DEPOSIT_FOOD_SPOTTED),
                ],
                selfs: if mv is Some { seq![tr(h, dx as isize, dy as isize)] } else { seq![] },
                rng,
            }
        } else {
            let wsq = following_weights(cells, size, conf, cx as int, cy as int, ldx as int, ldy as int);
            if spec_all_below(wsq, FOLLOWING_LOSS_THRESHOLD) {
                DecideOut {
                    cells: seq![],
                    selfs: seq![cust(h, AntEntityAction::UpdateWanderState { reset: true })],
                    rng,
                }
            } else {
                let total = spec_total(wsq);
                let draw = rng.spec_peek_below(total as u64);
                let rng1 = rng.spec_step_n(2);
                let k = spec_pick(wsq, draw as int);
                let t = visible_seq(cx as int, cy as int, VIEW_DISTANCE as int, size)[k];
                let dx = spec_clamp(t.0 - cx, -1, 1);
                let dy = spec_clamp(t.1 - cy, -1, 1);
                let mv = validate_move_spec(cells, size, cx as int, cy as int, dx, dy);
                if mv is Some {
                    DecideOut {
                        cells: seq![lay(h, idx, PheremoneType::Wandering, DEPOSIT_TRAIL_FOUND)],
                        selfs: seq![tr(h, dx as isize, dy as isize)],
                        rng: rng1,
                    }
                } else {
                    DecideOut { cells: seq![], selfs: seq![], rng: rng1 }
                }
            }
        }
    }
}

/// The decision of an agent carrying food home.
#[verifier::opaque]
pub open spec fn spec_decide_returning(
    cells: Seq<AntCellState>, size: int, conf: UserConf, h: AgentHandle,
    ldx: isize, ldy: isize, nest_x: usize, nest_y: usize, cx: usize, cy: usize, rng: Prng,
) -> DecideOut {
    let idx = spec_index_of(size, cx as int, cy as int) as usize;
    let vis = visible_seq(cx as int, cy as int, VIEW_DISTANCE as int, size);
    if cell_at_spec(cells, size, cx as int, cy as int) is Anthill {
        DecideOut { cells: seq![], selfs: seq![cust(h, AntEntityAction::DepositFood)], rng }
    } else {
        let fa = first_anthill_from(cells, size, vis, 0);
        if fa is Some {
            let t = vis[fa->0];
            let dx = spec_clamp(t.0 - cx, -1, 1);
            let dy = spec_clamp(t.1 - cy, -1, 1);
            let mv = validate_move_spec(cells, size, cx as int, cy as int, dx, dy);
            DecideOut {
                cells: seq![lay(h, idx, PheremoneType::Returning, DEPOSIT_ANTHILL_SEEN)],
                selfs: if mv is Some { seq![tr(h, dx as isize, dy as isize)] } else { seq![] },
                rng,
            }
        } else {
            let adx = spec_clamp(nest_x - cx, -1, 1);
            let ady = spec_clamp(nest_y - cy, -1, 1);
            let wsq = returning_weights(
                cells, size, conf, cx as int, cy as int, adx, ady, ldx as int, ldy as int);
            if spec_all_below(wsq, conf.returning_wander_threshold) {
                let d1 = rng.spec_peek_below(3);
                let rng1 = rng.spec_step_n(2);
                let d2 = rng1.spec_peek_below(3);
                let rng2 = rng1.spec_step_n(2);
                let dx = d1 - 1;
                let dy = d2 - 1;
                let mv = validate_move_spec(cells, size, cx as int, cy as int, dx as int, dy as int);
                if mv is Some {
                    DecideOut {
                        cells: seq![lay(h, idx, PheremoneType::Returning, DEPOSIT_LOST_RETURNING)],
                        selfs: seq![tr(h, dx as isize, dy as isize)],
                        rng: rng2,
                    }
                } else {
                    DecideOut { cells: seq![], selfs: seq![], rng: rng2 }
                }
            } else {
                let total = spec_total(wsq);
                let draw = rng.spec_peek_below(total as u64);
                let rng1 = rng.spec_step_n(2);
                let k = spec_pick(wsq, draw as int);
                let t = vis[k];
                let dx = spec_clamp(t.0 - cx, -1, 1);
                let dy = spec_clamp(t.1 - cy, -1, 1);
                let mv = validate_move_spec(cells, size, cx as int, cy as int, dx, dy);
                if mv is Some {
                    DecideOut {
                        cells: seq![lay(h, idx, PheremoneType::Returning, DEPOSIT_RETURNING_STEP)],
                        selfs: seq![tr(h, dx as isize, dy as isize)],
                        rng: rng1,
                    }
                } else {
                    DecideOut { cells: seq![], selfs: seq![], rng: rng1 }
                }
            }
        }
    }
}

/// One agent's whole decision: what it emits and what it draws, as a
/// function of the pre-tick grid, the configuration, the agent and the
/// generator state. Two runs from equal states decide identically.
pub open spec fn spec_decide(
    cells: Seq<AntCellState>, size: int, conf: UserConf, h: AgentHandle, e: AntEntity, cx: usize, cy: usize, rng: Prng,
) -> DecideOut {
    match e.state {
        AntEntityState::Wandering(ws) => spec_decide_wandering(cells, size, conf, h, ws, cx, cy, rng),
        AntEntityState::FollowingPheremonesToFood { last_diff } =>
            spec_decide_following(cells, size, conf, h, last_diff.0, last_diff.1, cx, cy, rng),
        AntEntityState::ReturningToNestWithFood { last_diff } =>
            spec_decide_returning(
                cells, size, conf, h, last_diff.0, last_diff.1,
                e.mut_state.nest_x, e.mut_state.nest_y, cx, cy, rng),
    }
}

/// Drives one wandering agent for one tick.
fn drive_wandering(
    g: &Grid, conf: &UserConf, h: AgentHandle, ws: &WanderingState,
    cx: usize, cy: usize, rng: &mut Prng, queue: &mut ActionQueue,
)
    requires
        g.wf(),
        pheromones_bounded(g.cells@),
        conf.wf(),
        cx < g.size,
        cy < g.size,
    ensures
        ({
            let out = spec_decide_wandering(g.cells@, g.size as int, *conf, h, *ws, cx, cy, *old(rng));
            &&& final(queue).cell_actions@ == old(queue).cell_actions@ + out.cells
            &&& final(queue).self_actions@ == old(queue).self_actions@ + out.selfs
            &&& final(queue).entity_actions@ == old(queue).entity_actions@
            &&& *final(rng) == out.rng
        }),
{
    proof {
        reveal(spec_decide_wandering);
    }
    let ghost out = spec_decide_wandering(g.cells@, g.size as int, *conf, h, *ws, cx, cy, *old(rng));
    let idx = get_index(cx, cy, g.size);
    let here = g.cells[idx];
    // standing on food: consume it, terminal for this tick
    match here {
        AntCellState::Food(_) => {
            queue.emit_cell_action(h, idx, AntCellAction::EatFood);
            proof {
                assert(final(queue).cell_actions@ =~= old(queue).cell_actions@ + out.cells);
                assert(final(queue).self_actions@ =~= old(queue).self_actions@ + out.selfs);
            }
            return;
        },
        _ => {},
    }

    // food in sight: one step toward the nearest, trail laid here
    let food = g.find_closest_food(cx, cy, VIEW_DISTANCE);
    match food {
        Some((fx, fy)) => {
            let dx = clamp(fx as isize - cx as isize, -1, 1);
            let dy = clamp(fy as isize - cy as isize, -1, 1);
            let mv = g.validate_move(cx, cy, dx, dy);
            match mv {
                Some(_) => {
                    queue.emit_self_action(h, SelfAction::Translate(dx, dy));
                },
                None => {},
            }
            queue.emit_cell_action(h, idx,
                AntCellAction::LayPheremone(PheremoneType::Wandering, DEPOSIT_FOOD_SPOTTED));
            queue.emit_cell_action(h, idx,
                AntCellAction::LayPheremone(PheremoneType::Returning, DEPOSIT_FOOD_SPOTTED));
            proof {
                assert(final(queue).cell_actions@ =~= old(queue).cell_actions@ + out.cells);
                assert(final(queue).self_actions@ =~= old(queue).self_actions@ + out.selfs);
            }
            return;
        },
        None => {},
    }

    // no food anywhere: weigh the neighborhood's returning trails
    let vis = visible_cells(cx, cy, VIEW_DISTANCE, g.size);
    let ws_vec = compute_wander_weights(g, conf, cx, cy, &vis);
    if all_below(&ws_vec, conf.scout_pursuit_cutoff) {
        // nothing worth pursuing: take the biased blind wander step
        let ox = ws.x_dir.get_coord_offset();
        let oy = ws.y_dir.get_coord_offset();
        let mv = g.validate_move(cx, cy, ox, oy);
        match mv {
            Some(_) => {
                queue.emit_self_action(h, SelfAction::Translate(ox, oy));
                queue.emit_self_action(h,
                    SelfAction::Custom(AntEntityAction::UpdateWanderState { reset: false }));
                queue.emit_cell_action(h, idx,
                    AntCellAction::LayPheremone(PheremoneType::Wandering, DEPOSIT_WANDER_STEP));
            },
            None => {
                queue.emit_self_action(h,
                    SelfAction::Custom(AntEntityAction::UpdateWanderState { reset: true }));
            },
        }
        proof {
            assert(final(queue).cell_actions@ =~= old(queue).cell_actions@ + out.cells);
            assert(final(queue).self_actions@ =~= old(queue).self_actions@ + out.selfs);
        }
        return;
    }

    // a trail is worth pursuing: sample a neighbor by weight
    proof {
        let wsq = wander_weights(g.cells@, g.size as int, *conf, cx as int, cy as int);
        let k = choose|k: int| 0 <= k < wsq.len() && !(wsq[k] < conf.scout_pursuit_cutoff);
        lemma_element_le_sum(wsq, 0, k);
        lemma_sum_bound(wsq, 0, MAX_WEIGHT as int);
        lemma_visible_len(cx as int, cy as int, g.size as int);
        lemma_visible_in_bounds(cx as int, cy as int, VIEW_DISTANCE as int, g.size as int);
    }
    let total = total_weight(&ws_vec);
    let draw = rng.below(total);
    let k = pick_weighted(&ws_vec, draw);
    let (tx, ty) = vis[k];
    let dx = clamp(tx as isize - cx as isize, -1, 1);
    let dy = clamp(ty as isize - cy as isize, -1, 1);
    let mv = g.validate_move(cx, cy, dx, dy);
    match mv {
        Some(_) => {
            queue.emit_self_action(h, SelfAction::Translate(dx, dy));
            queue.emit_cell_action(h, idx,
                AntCellAction::LayPheremone(PheremoneType::Wandering, DEPOSIT_TRAIL_FOUND));
            queue.emit_self_action(h,
                SelfAction::Custom(AntEntityAction::FollowFoodTrail(dx, dy)));
        },
        None => {},
    }
    proof {
        assert(final(queue).cell_actions@ =~= old(queue).cell_actions@ + out.cells);
        assert(final(queue).self_actions@ =~= old(queue).self_actions@ + out.selfs);
    }
}

/// Drives one trail-following agent for one tick.
fn drive_following(
    g: &Grid, conf: &UserConf, h: AgentHandle, ldx: isize, ldy: isize,
    cx: usize, cy: usize, rng: &mut Prng, queue: &mut ActionQueue,
)
    requires
        g.wf(),
        pheromones_bounded(g.cells@),
        conf.wf(),
        cx < g.size,
        cy < g.size,
    ensures
        ({
            let out = spec_decide_following(g.cells@, g.size as int, *conf, h, ldx, ldy, cx, cy, *old(rng));
            &&& final(queue).cell_actions@ == old(queue).cell_actions@ + out.cells
            &&& final(queue).self_actions@ == old(queue).self_actions@ + out.selfs
            &&& final(queue).entity_actions@ == old(queue).entity_actions@
            &&& *final(rng) == out.rng
        }),
{
    proof {
        reveal(spec_decide_following);
    }
    let ghost out = spec_decide_following(g.cells@, g.size as int, *conf, h, ldx, ldy, cx, cy, *old(rng));
    let idx = get_index(cx, cy, g.size);
    let here = g.cells[idx];
    match here {
        AntCellState::Food(_) => {
            queue.emit_cell_action(h, idx, AntCellAction::EatFood);
            proof {
                assert(final(queue).cell_actions@ =~= old(queue).cell_actions@ + out.cells);
                assert(final(queue).self_actions@ =~= old(queue).self_actions@ + out.selfs);
            }
            return;
        },
        _ => {},
    }

    let food = g.find_closest_food(cx, cy, VIEW_DISTANCE);
    match food {
        Some((fx, fy)) => {
            let dx = clamp(fx as isize - cx as isize, -1, 1);
            let dy = clamp(fy as isize - cy as isize, -1, 1);
            let mv = g.validate_move(cx, cy, dx, dy);
            match mv {
                Some(_) => {
                    queue.emit_self_action(h, SelfAction::Translate(dx, dy));
                },
                None => {},
            }
            queue.emit_cell_action(h, idx,
                AntCellAction::LayPheremone(PheremoneType::Wandering, DEPOSIT_FOOD_SPOTTED));
            queue.emit_cell_action(h, idx,
                AntCellAction::LayPheremone(PheremoneType::Returning, DEPOSIT_FOOD_SPOTTED));
            proof {
                assert(final(queue).cell_actions@ =~= old(queue).cell_actions@ + out.cells);
                assert(final(queue).self_actions@ =~= old(queue).self_actions@ + out.selfs);
            }
            return;
        },
        None => {},
    }

    let vis = visible_cells(cx, cy, VIEW_DISTANCE, g.size);
    let ws_vec = compute_following_weights(g, conf, cx, cy, ldx, ldy, &vis);
    if all_below(&ws_vec, FOLLOWING_LOSS_THRESHOLD) {
        // the trail is lost: drop back to wandering
        queue.emit_self_action(h,
            SelfAction::Custom(AntEntityAction::UpdateWanderState { reset: true }));
        proof {
            assert(final(queue).cell_actions@ =~= old(queue).cell_actions@ + out.cells);
            assert(final(queue).self_actions@ =~= old(queue).self_actions@ + out.selfs);
        }
        return;
    }

    proof {
        let wsq = following_weights(g.cells@, g.size as int, *conf, cx as int, cy as int, ldx as int, ldy as int);
        let k = choose|k: int| 0 <= k < wsq.len() && !(wsq[k] < FOLLOWING_LOSS_THRESHOLD);
        lemma_element_le_sum(wsq, 0, k);
        lemma_sum_bound(wsq, 0, MAX_WEIGHT as int);
        lemma_visible_len(cx as int, cy as int, g.size as int);
        lemma_visible_in_bounds(cx as int, cy as int, VIEW_DISTANCE as int, g.size as int);
    }
    let total = total_weight(&ws_vec);
    let draw = rng.below(total);
    let k = pick_weighted(&ws_vec, draw);
    let (tx, ty) = vis[k];
    let dx = clamp(tx as isize - cx as isize, -1, 1);
    let dy = clamp(ty as isize - cy as isize, -1, 1);
    let mv = g.validate_move(cx, cy, dx, dy);
    match mv {
        Some(_) => {
            queue.emit_self_action(h, SelfAction::Translate(dx, dy));
            queue.emit_cell_action(h, idx,
                AntCellAction::LayPheremone(PheremoneType::Wandering, DEPOSIT_TRAIL_FOUND));
        },
        None => {},
    }
    proof {
        assert(final(queue).cell_actions@ =~= old(queue).cell_actions@ + out.cells);
        assert(final(queue).self_actions@ =~= old(queue).self_actions@ + out.selfs);
    }
}

/// Drives one homeward agent for one tick.
fn drive_returning(
    g: &Grid, conf: &UserConf, h: AgentHandle, ldx: isize, ldy: isize,
    nest_x: usize, nest_y: usize,
    cx: usize, cy: usize, rng: &mut Prng, queue: &mut ActionQueue,
)
    requires
        g.wf(),
        pheromones_bounded(g.cells@),
        conf.wf(),
        cx < g.size,
        cy < g.size,
        nest_x < g.size,
        nest_y < g.size,
    ensures
        ({
            let out = spec_decide_returning(g.cells@, g.size as int, *conf, h, ldx, ldy, nest_x, nest_y, cx, cy, *old(rng));
            &&& final(queue).cell_actions@ == old(queue).cell_actions@ + out.cells
            &&& final(queue).self_actions@ == old(queue).self_actions@ + out.selfs
            &&& final(queue).entity_actions@ == old(queue).entity_actions@
            &&& *final(rng) == out.rng
        }),
{
    proof {
        reveal(spec_decide_returning);
    }
    let ghost out = spec_decide_returning(g.cells@, g.size as int, *conf, h, ldx, ldy, nest_x, nest_y, cx, cy, *old(rng));
    let idx = get_index(cx, cy, g.size);
    let here = g.cells[idx];
    // home: hand the food over
    match here {
        AntCellState::Anthill => {
            queue.emit_self_action(h, SelfAction::Custom(AntEntityAction::DepositFood));
            proof {
                assert(final(queue).cell_actions@ =~= old(queue).cell_actions@ + out.cells);
                assert(final(queue).self_actions@ =~= old(queue).self_actions@ + out.selfs);
            }
            return;
        },
        _ => {},
    }

    let vis = visible_cells(cx, cy, VIEW_DISTANCE, g.size);
    proof {
        lemma_visible_in_bounds(cx as int, cy as int, VIEW_DISTANCE as int, g.size as int);
    }
    // anthill in sight: boost the returning trail here, step home
    let fa = find_first_anthill(g, &vis);
    match fa {
        Some(a) => {
            queue.emit_cell_action(h, idx,
                AntCellAction::LayPheremone(PheremoneType::Returning, DEPOSIT_ANTHILL_SEEN));
            let (tx, ty) = vis[a];
            let dx = clamp(tx as isize - cx as isize, -1, 1);
            let dy = clamp(ty as isize - cy as isize, -1, 1);
            let mv = g.validate_move(cx, cy, dx, dy);
            match mv {
                Some(_) => {
                    queue.emit_self_action(h, SelfAction::Translate(dx, dy));
                },
                None => {},
            }
            proof {
                assert(final(queue).cell_actions@ =~= old(queue).cell_actions@ + out.cells);
                assert(final(queue).self_actions@ =~= old(queue).self_actions@ + out.selfs);
            }
            return;
        },
        None => {},
    }

    let adx = clamp(nest_x as isize - cx as isize, -1, 1);
    let ady = clamp(nest_y as isize - cy as isize, -1, 1);
    let ws_vec = compute_returning_weights(g, conf, cx, cy, adx, ady, ldx, ldy, &vis);
    if all_below(&ws_vec, conf.returning_wander_threshold) {
        // the way home is signal-free: try one uniform random step
        let d1 = rng.below(3);
        let d2 = rng.below(3);
        let dx: isize = d1 as isize - 1;
        let dy: isize = d2 as isize - 1;
        let mv = g.validate_move(cx, cy, dx, dy);
        match mv {
            Some(_) => {
                queue.emit_self_action(h, SelfAction::Translate(dx, dy));
                queue.emit_cell_action(h, idx,
                    AntCellAction::LayPheremone(PheremoneType::Returning, DEPOSIT_LOST_RETURNING));
            },
            None => {},
        }
        proof {
            assert(final(queue).cell_actions@ =~= old(queue).cell_actions@ + out.cells);
            assert(final(queue).self_actions@ =~= old(queue).self_actions@ + out.selfs);
        }
        return;
    }

    proof {
        let wsq = returning_weights(
            g.cells@, g.size as int, *conf, cx as int, cy as int,
            adx as int, ady as int, ldx as int, ldy as int);
        let k = choose|k: int| 0 <= k < wsq.len() && !(wsq[k] < conf.returning_wander_threshold);
        lemma_element_le_sum(wsq, 0, k);
        lemma_sum_bound(wsq, 0, MAX_WEIGHT as int);
        lemma_visible_len(cx as int, cy as int, g.size as int);
    }
    let total = total_weight(&ws_vec);
    let draw = rng.below(total);
    let k = pick_weighted(&ws_vec, draw);
    let (tx, ty) = vis[k];
    let dx = clamp(tx as isize - cx as isize, -1, 1);
    let dy = clamp(ty as isize - cy as isize, -1, 1);
    let mv = g.validate_move(cx, cy, dx, dy);
    match mv {
        Some(_) => {
            queue.emit_self_action(h, SelfAction::Translate(dx, dy));
            queue.emit_cell_action(h, idx,
                AntCellAction::LayPheremone(PheremoneType::Returning, DEPOSIT_RETURNING_STEP));
        },
        None => {},
    }
    proof {
        assert(final(queue).cell_actions@ =~= old(queue).cell_actions@ + out.cells);
        assert(final(queue).self_actions@ =~= old(queue).self_actions@ + out.selfs);
    }
}

/// Drives one agent for one tick against a read-only view of the world,
/// appending its intended actions to the queue; the whole effect equals
/// the decision specification on the pre-call state.
pub fn drive_entity(
    g: &Grid, conf: &UserConf, h: AgentHandle, e: &AntEntity,
    cx: usize, cy: usize, rng: &mut Prng, queue: &mut ActionQueue,
)
    requires
        g.wf(),
        pheromones_bounded(g.cells@),
        conf.wf(),
        cx < g.size,
        cy < g.size,
        e.mut_state.nest_x < g.size,
        e.mut_state.nest_y < g.size,
    ensures
        ({
            let out = spec_decide(g.cells@, g.size as int, *conf, h, *e, cx, cy, *old(rng));
            &&& final(queue).cell_actions@ == old(queue).cell_actions@ + out.cells
            &&& final(queue).self_actions@ == old(queue).self_actions@ + out.selfs
            &&& final(queue).entity_actions@ == old(queue).entity_actions@
            &&& *final(rng) == out.rng
        }),
{
    match &e.state {
        AntEntityState::Wandering(ws) => {
            drive_wandering(g, conf, h, ws, cx, cy, rng, queue);
        },
        AntEntityState::FollowingPheremonesToFood { last_diff } => {
            drive_following(g, conf, h, last_diff.0, last_diff.1, cx, cy, rng, queue);
        },
        AntEntityState::ReturningToNestWithFood { last_diff } => {
            drive_returning(
                g, conf, h, last_diff.0, last_diff.1,
                e.mut_state.nest_x, e.mut_state.nest_y, cx, cy, rng, queue);
        },
    }
}

} // verus!
