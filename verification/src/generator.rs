//! The world generator: drunkard's-walk placement of barrier and food
//! patches on an empty field, an anthill with a cleared ring around it,
//! and the starting colony at the anthill.

use vstd::prelude::*;

use crate::behavior::pheromones_bounded;
use crate::cell::AntCellState;
use crate::cell::Pheremones;
use crate::conf::UserConf;
use crate::engine::AntEngine;
use crate::engine::food_positive;
use crate::entity::AntEntity;
use crate::entity::AntEntityState;
use crate::entity::AntMutEntityState;
use crate::entity::WanderingState;
use crate::grid::Grid;
use crate::grid::MAX_GRID_SIZE;
use crate::grid::visible_cells;
use crate::rng::Prng;

verus! {

/// How many walk steps a patch placement may take before giving up, so
/// generation always terminates.
pub const MAX_PLACEMENT_ITERS: usize = 10000;

/// A cell the generator may stamp onto the field without breaking the
/// engine's invariants: a barrier, a stocked food cell, an anthill, or an
/// empty cell with capped trails.
pub open spec fn placeable(state: AntCellState) -> bool {
    match state {
        AntCellState::Food(q) => q >= 1,
        AntCellState::Empty(p) => p.wandering <= crate::conf::MAX_BASE_WEIGHT
            && p.returning <= crate::conf::MAX_BASE_WEIGHT,
        _ => true,
    }
}

/// Stamping a placeable cell keeps the field's invariants.
proof fn lemma_place_keeps_wf(cells: Seq<AntCellState>, idx: int, state: AntCellState)
    requires
        0 <= idx < cells.len(),
        placeable(state),
        pheromones_bounded(cells),
        food_positive(cells),
    ensures
        pheromones_bounded(cells.update(idx, state)),
        food_positive(cells.update(idx, state)),
{
    let post = cells.update(idx, state);
    assert forall|i: int| 0 <= i < post.len() implies
        match #[trigger] post[i] {
            AntCellState::Empty(p) => p.wandering <= crate::conf::MAX_BASE_WEIGHT
                && p.returning <= crate::conf::MAX_BASE_WEIGHT,
            _ => true,
        } by {
        if i != idx {
            assert(post[i] == cells[i]);
        }
    }
    assert forall|i: int| 0 <= i < post.len() implies
        match #[trigger] post[i] {
            AntCellState::Food(q) => q >= 1,
            _ => true,
        } by {
        if i != idx {
            assert(post[i] == cells[i]);
        }
    }
}

/// Draws a uniform starting coordinate pair on a grid of side `size`.
pub fn get_start_coords(rng: &mut Prng, size: usize) -> (r: (usize, usize))
    requires
        1 <= size,
    ensures
        r.0 < size,
        r.1 < size,
        r.0 == old(rng).spec_peek_below(size as u64),
        r.1 == old(rng).spec_step_n(2).spec_peek_below(size as u64),
        *final(rng) == old(rng).spec_step_n(4),
{
    proof {
        reveal_with_fuel(Prng::spec_step_n, 5);
    }
    let x = rng.below(size as u64);
    let y = rng.below(size as u64);
    (x as usize, y as usize)
}

/// Where one walk step from `(x, y)` lands, or nothing when it leaves
/// the field's interior (the walk never touches the zero row or column).
pub open spec fn spec_is_in_bounds(x: int, y: int, x_offset: int, y_offset: int, size: int) -> Option<(usize, usize)> {
    let nx = x + x_offset;
    let ny = y + y_offset;
    if nx > 0 && ny > 0 && nx < size && ny < size {
        Some((nx as usize, ny as usize))
    } else {
        None
    }
}

/// Checks one walk step of the drunkard's walk against the field's
/// interior.
pub fn is_in_bounds(x: usize, y: usize, x_offset: isize, y_offset: isize, size: usize) -> (r: Option<(usize, usize)>)
    requires
        x <= MAX_GRID_SIZE,
        y <= MAX_GRID_SIZE,
        -1 <= x_offset <= 1,
        -1 <= y_offset <= 1,
        size <= MAX_GRID_SIZE,
    ensures
        r == spec_is_in_bounds(x as int, y as int, x_offset as int, y_offset as int, size as int),
        r is Some ==> {
            let p = r->0;
            p.0 < size && p.1 < size
        },
{
    let nx = x as isize + x_offset;
    let ny = y as isize + y_offset;
    if nx > 0 && ny > 0 && nx < size as isize && ny < size as isize {
        Some((nx as usize, ny as usize))
    } else {
        None
    }
}


/// How many positions of `post` differ from `pre`, from position `i` on.
pub open spec fn diff_count(pre: Seq<AntCellState>, post: Seq<AntCellState>, i: int) -> int
    decreases pre.len() - i,
{
    if i < 0 || i >= pre.len() {
        0
    } else {
        (if post[i] != pre[i] { 1int } else { 0int }) + diff_count(pre, post, i + 1)
    }
}

/// A difference count is never negative, and a field differs from itself
/// nowhere.
proof fn lemma_diff_count_refl(pre: Seq<AntCellState>, post: Seq<AntCellState>, i: int)
    ensures
        0 <= diff_count(pre, post, i),
        diff_count(pre, pre, i) == 0,
    decreases pre.len() - i,
{
    if 0 <= i < pre.len() {
        lemma_diff_count_refl(pre, post, i + 1);
    }
}

/// An overwrite below position `i` leaves the count from `i` on alone.
proof fn lemma_diff_count_past_update(pre: Seq<AntCellState>, post: Seq<AntCellState>, i: int, j: int, v: AntCellState)
    requires
        pre.len() == post.len(),
        0 <= j < i,
    ensures
        diff_count(pre, post.update(j, v), i) == diff_count(pre, post, i),
    decreases pre.len() - i,
{
    if 0 <= i < pre.len() {
        lemma_diff_count_past_update(pre, post, i + 1, j, v);
        assert(post.update(j, v)[i] == post[i]);
    }
}

/// One overwrite grows the difference count by at most one.
proof fn lemma_diff_count_update(pre: Seq<AntCellState>, post: Seq<AntCellState>, i: int, j: int, v: AntCellState)
    requires
        pre.len() == post.len(),
        0 <= j < post.len(),
    ensures
        diff_count(pre, post.update(j, v), i) <= diff_count(pre, post, i) + 1,
    decreases pre.len() - i,
{
    if 0 <= i < pre.len() {
        if i == j {
            lemma_diff_count_past_update(pre, post, i + 1, j, v);
            lemma_diff_count_refl(pre, post, i + 1);
        } else {
            if i > j {
                lemma_diff_count_past_update(pre, post, i, j, v);
            } else {
                lemma_diff_count_update(pre, post, i + 1, j, v);
                assert(post.update(j, v)[i] == post[i]);
            }
        }
    }
}

/// Difference counts obey the triangle inequality.
proof fn lemma_diff_count_triangle(a: Seq<AntCellState>, b: Seq<AntCellState>, c: Seq<AntCellState>, i: int)
    requires
        a.len() == b.len(),
        b.len() == c.len(),
    ensures
        diff_count(a, c, i) <= diff_count(a, b, i) + diff_count(b, c, i),
    decreases a.len() - i,
{
    if 0 <= i < a.len() {
        lemma_diff_count_triangle(a, b, c, i + 1);
    }
}

/// Stamps `count` patches of about `size` cells of `state` onto the
/// field by a drunkard's walk: from a random start, wander one biased
/// step at a time, stamping each newly visited cell; hitting the edge
/// restarts from a random already-stamped cell. Every cell either keeps
/// its old state or becomes `state`.
pub fn gen_terrain(
    grid: &mut Grid, rng: &mut Prng,
    count: usize, size: usize, size_variance: usize,
    wander_change_chance: u32, state: AntCellState,
)
    requires
        old(grid).wf(),
        pheromones_bounded(old(grid).cells@),
        food_positive(old(grid).cells@),
        placeable(state),
        size <= 100000,
        size_variance <= 100000,
    ensures
        final(grid).wf(),
        final(grid).size == old(grid).size,
        forall|i: int| 0 <= i < final(grid).cells@.len()
            ==> final(grid).cells@[i] == old(grid).cells@[i] || final(grid).cells@[i] == state,
        diff_count(old(grid).cells@, final(grid).cells@, 0) <= count * (size + size_variance),
        pheromones_bounded(final(grid).cells@),
        food_positive(final(grid).cells@),
{
    let ghost g0 = *old(grid);
    let variance: isize = if size_variance == 0 {
        0
    } else {
        rng.below(2 * size_variance as u64) as isize - size_variance as isize
    };
    let real_size_i: isize = size as isize + variance;
    let real_size: usize = if real_size_i >= 0 { real_size_i as usize } else { 0 };
    proof {
        lemma_diff_count_refl(g0.cells@, g0.cells@, 0);
        assert(real_size <= size + size_variance);
    }

    let mut patch: usize = 0;
    while patch < count
        invariant
            grid.wf(),
            grid.size == g0.size,
            grid.cells@.len() == g0.cells@.len(),
            placeable(state),
            real_size <= size + size_variance,
            patch <= count,
            forall|i: int| 0 <= i < grid.cells@.len()
                ==> grid.cells@[i] == g0.cells@[i] || grid.cells@[i] == state,
            diff_count(g0.cells@, grid.cells@, 0) <= patch * (size + size_variance),
            pheromones_bounded(grid.cells@),
            food_positive(grid.cells@),
        decreases count - patch,
    {
        let mut wander_state = WanderingState::random(rng);
        let (sx, sy) = get_start_coords(rng, grid.size);
        let mut x = sx;
        let mut y = sy;
        let ghost snap = grid.cells@;
        let mut placed: Vec<(usize, usize)> = Vec::new();
        let mut iters: usize = 0;
        proof {
            lemma_diff_count_refl(snap, snap, 0);
        }
        while placed.len() < real_size && iters < MAX_PLACEMENT_ITERS
            invariant
                grid.wf(),
                grid.size == g0.size,
                grid.cells@.len() == g0.cells@.len(),
                snap.len() == g0.cells@.len(),
                placeable(state),
                x < grid.size,
                y < grid.size,
                forall|i: int| 0 <= i < grid.cells@.len()
                    ==> grid.cells@[i] == g0.cells@[i] || grid.cells@[i] == state,
                diff_count(snap, grid.cells@, 0) <= placed@.len(),
                placed@.len() <= real_size,
                pheromones_bounded(grid.cells@),
                food_positive(grid.cells@),
                forall|k: int| 0 <= k < placed@.len()
                    ==> (#[trigger] placed@[k]).0 < grid.size && placed@[k].1 < grid.size,
            decreases MAX_PLACEMENT_ITERS - iters,
        {
            iters = iters + 1;
            wander_state = wander_state.next(wander_change_chance, rng);
            let x_offset = wander_state.x_dir.get_coord_offset();
            let y_offset = wander_state.y_dir.get_coord_offset();
            match is_in_bounds(x, y, x_offset, y_offset, grid.size) {
                None => {
                    // hit an edge: restart from a random stamped cell
                    if placed.len() > 0 {
                        let pick = rng.below(placed.len() as u64) as usize;
                        let (px, py) = placed[pick];
                        x = px;
                        y = py;
                    } else {
                        let (nx, ny) = get_start_coords(rng, grid.size);
                        x = nx;
                        y = ny;
                    }
                    continue;
                },
                Some((nx, ny)) => {
                    x = nx;
                    y = ny;
                },
            }

            // never stamp a cell twice in one patch
            let mut seen = false;
            let mut k: usize = 0;
            while k < placed.len()
                invariant
                    k <= placed@.len(),
                decreases placed@.len() - k,
            {
                let (px, py) = placed[k];
                if px == x && py == y {
                    seen = true;
                }
                k = k + 1;
            }
            if seen {
                continue;
            }

            let ghost pre = grid.cells@;
            let ghost idx = crate::grid::spec_index_of(grid.size as int, x as int, y as int);
            grid.set_cell(x, y, state);
            placed.push((x, y));
            proof {
                crate::grid::lemma_index_in_range(grid.size as int, x as int, y as int);
                lemma_place_keeps_wf(pre, idx, state);
                lemma_diff_count_update(snap, pre, 0, idx, state);
                assert forall|i: int| 0 <= i < grid.cells@.len()
                    implies grid.cells@[i] == g0.cells@[i] || grid.cells@[i] == state by {
                    if i != idx {
                        assert(grid.cells@[i] == pre[i]);
                    }
                }
            }
        }
        proof {
            lemma_diff_count_triangle(g0.cells@, snap, grid.cells@, 0);
            assert((patch + 1) * (size + size_variance)
                == patch * (size + size_variance) + (size + size_variance)) by (nonlinear_arith);
        }
        patch = patch + 1;
    }
}

/// Builds initial worlds from a configuration: terrain first, then the
/// colony.
pub struct AntUniverseGenerator {
    pub conf: UserConf,
}

impl AntUniverseGenerator {
    /// Generates the initial field: all empty, barrier patches, food
    /// patches stocked with the configured capacity, one anthill at a
    /// random cell with a cleared ring of radius two around it.
    #[verifier::rlimit(100)]
    #[verifier::spinoff_prover]
    pub fn gen(&self, grid_size: usize, rng: &mut Prng) -> (r: (Grid, usize, usize))
        requires
            self.conf.wf(),
            1 <= grid_size <= MAX_GRID_SIZE,
        ensures
            r.0.wf(),
            r.0.size == grid_size,
            pheromones_bounded(r.0.cells@),
            food_positive(r.0.cells@),
            r.1 < grid_size,
            r.2 < grid_size,
            r.0.cell(r.1 as int, r.2 as int) is Anthill,
            forall|px: int, py: int|
                0 <= px < grid_size && 0 <= py < grid_size
                && r.1 - 2 <= px <= r.1 + 2 && r.2 - 2 <= py <= r.2 + 2
                && !(px == r.1 && py == r.2)
                ==> #[trigger] r.0.cell(px, py)
                    == AntCellState::Empty(Pheremones { wandering: 0, returning: 0 }),
    {
        let empty = AntCellState::Empty(Pheremones { wandering: 0, returning: 0 });
        let mut grid = Grid::new_filled(grid_size, empty);
        let (anthill_x, anthill_y) = get_start_coords(rng, grid_size);

        gen_terrain(
            &mut grid, rng,
            self.conf.barrier_patch_count, self.conf.barrier_patch_size, 0,
            2630, AntCellState::Barrier,
        );
        gen_terrain(
            &mut grid, rng,
            self.conf.food_patch_count, self.conf.food_patch_size, self.conf.food_patch_size_variance,
            9463, AntCellState::Food(self.conf.food_patch_capacity),
        );

        // clear a ring around the anthill, then stamp the anthill itself
        let ring = visible_cells(anthill_x, anthill_y, 2, grid_size);
        proof {
            crate::grid::lemma_visible_in_bounds(anthill_x as int, anthill_y as int, 2, grid_size as int);
        }
        let mut k: usize = 0;
        while k < ring.len()
            invariant
                grid.wf(),
                grid.size == grid_size,
                placeable(empty),
                empty == AntCellState::Empty(Pheremones { wandering: 0, returning: 0 }),
                pheromones_bounded(grid.cells@),
                food_positive(grid.cells@),
                k <= ring@.len(),
                forall|j: int| 0 <= j < ring@.len()
                    ==> (#[trigger] ring@[j]).0 < grid_size && ring@[j].1 < grid_size,
                forall|j: int| 0 <= j < k ==> crate::grid::cell_at_spec(
                    grid.cells@, grid_size as int,
                    (#[trigger] ring@[j]).0 as int, ring@[j].1 as int) == empty,
            decreases ring@.len() - k,
        {
            let (px, py) = ring[k];
            let ghost pre = grid.cells@;
            let ghost idx = crate::grid::spec_index_of(grid.size as int, px as int, py as int);
            grid.set_cell(px, py, empty);
            proof {
                crate::grid::lemma_index_in_range(grid.size as int, px as int, py as int);
                lemma_place_keeps_wf(pre, idx, empty);
                assert forall|j: int| 0 <= j < k + 1 implies crate::grid::cell_at_spec(
                    grid.cells@, grid_size as int,
                    (#[trigger] ring@[j]).0 as int, ring@[j].1 as int) == empty by {
                    let jdx = crate::grid::spec_index_of(
                        grid_size as int, ring@[j].0 as int, ring@[j].1 as int);
                    crate::grid::lemma_index_in_range(
                        grid_size as int, ring@[j].0 as int, ring@[j].1 as int);
                    if jdx != idx {
                        assert(grid.cells@[jdx] == pre[jdx]);
                    }
                }
            }
            k = k + 1;
        }
        proof {
            crate::grid::lemma_visible_in_bounds(anthill_x as int, anthill_y as int, 2, grid_size as int);
        }
        let ghost cleared = grid.cells@;
        let ghost idx = crate::grid::spec_index_of(grid.size as int, anthill_x as int, anthill_y as int);
        grid.set_cell(anthill_x, anthill_y, AntCellState::Anthill);
        proof {
            crate::grid::lemma_index_in_range(grid.size as int, anthill_x as int, anthill_y as int);
            lemma_place_keeps_wf(cleared, idx, AntCellState::Anthill);
            // every in-bounds cell of the radius-two ring, bar the anthill
            // itself, was cleared and stays cleared
            assert forall|px: int, py: int|
                0 <= px < grid_size && 0 <= py < grid_size
                && anthill_x - 2 <= px <= anthill_x + 2 && anthill_y - 2 <= py <= anthill_y + 2
                && !(px == anthill_x && py == anthill_y)
                implies #[trigger] grid.cell(px, py)
                    == AntCellState::Empty(Pheremones { wandering: 0, returning: 0 }) by {
                crate::grid::lemma_visible_covers(
                    anthill_x as int, anthill_y as int, 2, grid_size as int, px, py);
                let vs = crate::grid::visible_seq(
                    anthill_x as int, anthill_y as int, 2, grid_size as int);
                let j = choose|j: int| 0 <= j < vs.len()
                    && #[trigger] vs[j] == ((px as usize, py as usize));
                assert(ring@[j] == ((px as usize, py as usize)));
                assert(crate::grid::cell_at_spec(
                    cleared, grid_size as int, ring@[j].0 as int, ring@[j].1 as int) == empty);
                assert(crate::grid::cell_at_spec(cleared, grid_size as int, px, py) == empty);
                crate::grid::lemma_index_injective(
                    grid_size as int, px, py, anthill_x as int, anthill_y as int);
                crate::grid::lemma_index_in_range(grid_size as int, px, py);
                let pdx = crate::grid::spec_index_of(grid_size as int, px, py);
                assert(grid.cells@[pdx] == cleared[pdx]);
            }
        }
        (grid, anthill_x, anthill_y)
    }
}

/// The whole starting colony stands at home: the grid holds an anthill
/// at `(ax, ay)`, and every slot of the store holds a live agent in the
/// wandering state on that cell, with its home set to those coordinates.
pub open spec fn colony_at_anthill(e: AntEngine, ax: int, ay: int) -> bool {
    &&& 0 <= ax < e.grid.size
    &&& 0 <= ay < e.grid.size
    &&& e.grid.cell(ax, ay) is Anthill
    &&& forall|i: int| 0 <= i < e.store.slots@.len() ==> {
        let slot = #[trigger] e.store.slots@[i];
        &&& slot.entity is Some
        &&& slot.entity->0.state is Wandering
        &&& slot.entity->0.mut_state == (AntMutEntityState {
            nest_x: ax as usize,
            nest_y: ay as usize,
        })
        &&& slot.cell == crate::grid::spec_index_of(e.grid.size as int, ax, ay) as usize
    }
}

/// Generates a whole starting world: the terrain, the anthill, and the
/// configured number of agents standing on the anthill in the wandering
/// state with their home set there.
#[verifier::rlimit(100)]
#[verifier::spinoff_prover]
pub fn init_universe(conf: UserConf, grid_size: usize, seed: u64, stream: u64) -> (r: Result<AntEngine, crate::error::AntError>)
    ensures
        conf.wf() && 1 <= grid_size <= MAX_GRID_SIZE ==> r is Ok && {
            let e = r->Ok_0;
            &&& e.wf()
            &&& e.grid.size == grid_size
            &&& e.conf == conf
            &&& e.tick == 0
            &&& e.collected_food == 0
            &&& e.store.slots@.len() == conf.ant_count
            &&& exists|ax: int, ay: int| #[trigger] colony_at_anthill(e, ax, ay)
        },
        !(conf.wf() && 1 <= grid_size <= MAX_GRID_SIZE)
            ==> r == Err::<AntEngine, crate::error::AntError>(crate::error::AntError::InvalidConf),
{
    if !(conf.validate() && 1 <= grid_size && grid_size <= MAX_GRID_SIZE) {
        return Err(crate::error::AntError::InvalidConf);
    }
    let mut rng = Prng::new(seed, stream);
    let generator = AntUniverseGenerator { conf };
    let (grid, anthill_x, anthill_y) = generator.gen(grid_size, &mut rng);
    let mut engine = AntEngine::new(grid, conf, seed, stream);
    engine.rng = rng;
    let ghost anthill_idx = crate::grid::spec_index_of(
        grid_size as int, anthill_x as int, anthill_y as int);
    let n = conf.ant_count;
    let mut i: usize = 0;
    while i < n
        invariant
            engine.wf(),
            engine.grid.size == grid_size,
            engine.conf == conf,
            engine.tick == 0,
            engine.collected_food == 0,
            engine.grid.cell(anthill_x as int, anthill_y as int) is Anthill,
            anthill_x < grid_size,
            anthill_y < grid_size,
            anthill_idx == crate::grid::spec_index_of(
                grid_size as int, anthill_x as int, anthill_y as int),
            i <= n,
            n == conf.ant_count,
            n <= 1000000,
            engine.store.slots@.len() == i,
            forall|j: int| 0 <= j < i ==> {
                let slot = #[trigger] engine.store.slots@[j];
                &&& slot.entity is Some
                &&& slot.entity->0.state is Wandering
                &&& slot.entity->0.mut_state == (AntMutEntityState {
                    nest_x: anthill_x,
                    nest_y: anthill_y,
                })
                &&& slot.cell == anthill_idx as usize
            },
        decreases n - i,
    {
        let ws = WanderingState::random(&mut engine.rng);
        let entity = AntEntity {
            state: AntEntityState::Wandering(ws),
            mut_state: AntMutEntityState { nest_x: anthill_x, nest_y: anthill_y },
        };
        let ghost pre_slots = engine.store.slots@;
        let added = engine.add_agent(entity, anthill_x, anthill_y);
        proof {
            assert(added is Ok);
            assert forall|j: int| 0 <= j < i + 1 implies {
                let slot = #[trigger] engine.store.slots@[j];
                &&& slot.entity is Some
                &&& slot.entity->0.state is Wandering
                &&& slot.entity->0.mut_state == (AntMutEntityState {
                    nest_x: anthill_x,
                    nest_y: anthill_y,
                })
                &&& slot.cell == anthill_idx as usize
            } by {
                if j < i {
                    assert(engine.store.slots@[j] == pre_slots[j]);
                }
            }
        }
        i = i + 1;
    }
    proof {
        assert(colony_at_anthill(engine, anthill_x as int, anthill_y as int));
    }
    Ok(engine)
}

} // verus!
