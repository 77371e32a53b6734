//! The world grid: a fixed-size square field of cells, with bounds and
//! visibility queries, the diagonal corner-cutting rule, move validation,
//! nearest-food search and periodic pheromone decay.

use vstd::prelude::*;

use crate::cell::AntCellState;
use crate::cell::PheremoneType;
use crate::cell::cell_decay_spec;
use crate::cell::cell_deposit_spec;
use crate::error::AntError;

verus! {

/// Largest accepted grid side length; keeps every index computation far
/// from overflow.
pub const MAX_GRID_SIZE: usize = 10000;

/// Clamps `val` into `[low, high]`: the value raised to at least `low`,
/// then cut to at most `high` — so on a degenerate range (`low > high`)
/// the upper cut wins and the result is `high`.
pub open spec fn spec_clamp(val: int, low: int, high: int) -> int {
    let raised = if val < low { low } else { val };
    if raised > high {
        high
    } else {
        raised
    }
}

/// Clamps `val` into `[low, high]` (callers use it to cut a move vector
/// down to one step per axis).
pub fn clamp(val: isize, low: isize, high: isize) -> (r: isize)
    ensures
        r == spec_clamp(val as int, low as int, high as int),
        low <= high ==> low <= r <= high,
        low <= val <= high ==> r == val,
{
    let raised = if val < low { low } else { val };
    if raised > high {
        high
    } else {
        raised
    }
}

/// The row-major index of the cell at `(x, y)` in a grid of side `size`.
pub open spec fn spec_index_of(size: int, x: int, y: int) -> int {
    y * size + x
}

/// The cell at `(x, y)` of a row-major cell sequence.
pub open spec fn cell_at_spec(cells: Seq<AntCellState>, size: int, x: int, y: int) -> AntCellState {
    cells[spec_index_of(size, x, y)]
}

/// In-bounds coordinates map to an in-bounds row-major index.
pub proof fn lemma_index_in_range(size: int, x: int, y: int)
    requires
        0 <= x < size,
        0 <= y < size,
        size <= MAX_GRID_SIZE,
    ensures
        0 <= spec_index_of(size, x, y) < size * size,
        size * size <= MAX_GRID_SIZE * MAX_GRID_SIZE,
{
    assert(0 <= y * size + x < size * size && size * size <= MAX_GRID_SIZE * MAX_GRID_SIZE)
        by (nonlinear_arith)
        requires 0 <= x < size, 0 <= y < size, size <= MAX_GRID_SIZE;
}

/// The row-major index of `(x, y)` in a grid of side `size`.
pub fn get_index(x: usize, y: usize, size: usize) -> (r: usize)
    requires
        x < size,
        y < size,
        size <= MAX_GRID_SIZE,
    ensures
        r == spec_index_of(size as int, x as int, y as int),
        r < size * size,
{
    proof {
        lemma_index_in_range(size as int, x as int, y as int);
    }
    y * size + x
}

/// The coordinates of the cell at row-major `index`.
pub fn get_coords(index: usize, size: usize) -> (r: (usize, usize))
    requires
        1 <= size <= MAX_GRID_SIZE,
        index < size * size,
    ensures
        r.0 < size,
        r.1 < size,
        index == spec_index_of(size as int, r.0 as int, r.1 as int),
        r.0 == index % size,
        r.1 == index / size,
{
    proof {
        assert(index / size < size && index % size < size
            && (index / size) * size + (index % size) == index) by (nonlinear_arith)
            requires 1 <= size, index < size * size;
    }
    (index % size, index / size)
}

/// The Manhattan distance between two cells.
pub open spec fn spec_manhattan(x1: int, y1: int, x2: int, y2: int) -> int {
    let dx = if x1 >= x2 { x1 - x2 } else { x2 - x1 };
    let dy = if y1 >= y2 { y1 - y2 } else { y2 - y1 };
    dx + dy
}

/// The Manhattan distance between two cells.
pub fn manhattan_distance(x1: usize, y1: usize, x2: usize, y2: usize) -> (r: usize)
    requires
        x1 <= MAX_GRID_SIZE,
        y1 <= MAX_GRID_SIZE,
        x2 <= MAX_GRID_SIZE,
        y2 <= MAX_GRID_SIZE,
    ensures
        r == spec_manhattan(x1 as int, y1 as int, x2 as int, y2 as int),
{
    let dx = if x1 >= x2 { x1 - x2 } else { x2 - x1 };
    let dy = if y1 >= y2 { y1 - y2 } else { y2 - y1 };
    dx + dy
}

/// The Moore neighborhood of `(x, y)` with the given Chebyshev radius,
/// clipped to the grid, center included, in row-major order.
pub open spec fn visible_seq(x: int, y: int, radius: int, size: int) -> Seq<(usize, usize)> {
    let xlo = if x - radius >= 0 { x - radius } else { 0 };
    let xhi = if x + radius <= size - 1 { x + radius } else { size - 1 };
    let ylo = if y - radius >= 0 { y - radius } else { 0 };
    let yhi = if y + radius <= size - 1 { y + radius } else { size - 1 };
    let w = xhi - xlo + 1;
    let h = yhi - ylo + 1;
    Seq::new((w * h) as nat, |i: int| ((xlo + i % w) as usize, (ylo + i / w) as usize))
}

/// Every visible cell is in bounds and within `radius` of `(x, y)` on
/// both axes.
pub proof fn lemma_visible_in_bounds(x: int, y: int, radius: int, size: int)
    requires
        0 <= x < size,
        0 <= y < size,
        0 <= radius,
        size <= MAX_GRID_SIZE,
    ensures
        forall|i: int| 0 <= i < visible_seq(x, y, radius, size).len() ==> {
            let p = #[trigger] visible_seq(x, y, radius, size)[i];
            &&& 0 <= p.0 < size
            &&& 0 <= p.1 < size
            &&& x - radius <= p.0 <= x + radius
            &&& y - radius <= p.1 <= y + radius
        },
{
    let s = visible_seq(x, y, radius, size);
    let xlo = if x - radius >= 0 { x - radius } else { 0 };
    let xhi = if x + radius <= size - 1 { x + radius } else { size - 1 };
    let ylo = if y - radius >= 0 { y - radius } else { 0 };
    let yhi = if y + radius <= size - 1 { y + radius } else { size - 1 };
    let w = xhi - xlo + 1;
    let h = yhi - ylo + 1;
    assert(xlo <= x <= xhi && ylo <= y <= yhi);
    assert(1 <= w && 1 <= h);
    assert(w * h >= 1) by (nonlinear_arith)
        requires 1 <= w, 1 <= h;
    assert(s.len() == (w * h) as nat);
    assert forall|i: int| 0 <= i < s.len() implies
        0 <= (#[trigger] s[i]).0 < size && 0 <= s[i].1 < size
        && x - radius <= s[i].0 <= x + radius && y - radius <= s[i].1 <= y + radius
    by {
        assert(0 <= i % w < w && 0 <= i / w < h) by (nonlinear_arith)
            requires 0 <= i < w * h, 1 <= w, 1 <= h;
        assert(s[i] == (((xlo + i % w) as usize, (ylo + i / w) as usize)));
        assert(0 <= xlo + i % w <= xhi);
        assert(0 <= ylo + i / w <= yhi);
        assert(s[i].0 == xlo + i % w);
        assert(s[i].1 == ylo + i / w);
    }
}

/// The visible neighborhood of `(x, y)` as a restartable, finite list:
/// the clipped Moore neighborhood in row-major order, center included.
pub fn visible_cells(x: usize, y: usize, radius: usize, size: usize) -> (r: Vec<(usize, usize)>)
    requires
        x < size,
        y < size,
        size <= MAX_GRID_SIZE,
        radius <= MAX_GRID_SIZE,
    ensures
        r@ == visible_seq(x as int, y as int, radius as int, size as int),
{
    let xlo: usize = if x >= radius { x - radius } else { 0 };
    let xhi: usize = if x + radius <= size - 1 { x + radius } else { size - 1 };
    let ylo: usize = if y >= radius { y - radius } else { 0 };
    let yhi: usize = if y + radius <= size - 1 { y + radius } else { size - 1 };
    let w: usize = xhi - xlo + 1;
    let h: usize = yhi - ylo + 1;
    let ghost target = visible_seq(x as int, y as int, radius as int, size as int);
    proof {
        assert(w * h <= (MAX_GRID_SIZE + 1) * (MAX_GRID_SIZE + 1)) by (nonlinear_arith)
            requires w <= MAX_GRID_SIZE + 1, h <= MAX_GRID_SIZE + 1;
        assert(target.len() == w * h);
    }
    let mut r: Vec<(usize, usize)> = Vec::new();
    let mut dy: usize = 0;
    while dy < h
        invariant
            dy <= h,
            1 <= w,
            w == xhi - xlo + 1,
            xhi < size,
            yhi < size,
            ylo + h <= size,
            r@.len() == dy * w,
            target.len() == w * h,
            w * h <= (MAX_GRID_SIZE + 1) * (MAX_GRID_SIZE + 1),
            forall|i: int| 0 <= i < r@.len()
                ==> #[trigger] r@[i] == (((xlo + i % (w as int)) as usize, (ylo + i / (w as int)) as usize)),
        decreases h - dy,
    {
        let mut dx: usize = 0;
        proof {
            assert(dy * w + w <= h * w) by (nonlinear_arith)
                requires dy < h, 1 <= w;
            assert(h * w == w * h) by (nonlinear_arith);
        }
        while dx < w
            invariant
                dx <= w,
                dy < h,
                1 <= w,
                w == xhi - xlo + 1,
                xhi < size,
                yhi < size,
                ylo + h <= size,
                r@.len() == dy * w + dx,
                dy * w + w <= w * h,
                target.len() == w * h,
                w * h <= (MAX_GRID_SIZE + 1) * (MAX_GRID_SIZE + 1),
                forall|i: int| 0 <= i < r@.len()
                    ==> #[trigger] r@[i] == (((xlo + i % (w as int)) as usize, (ylo + i / (w as int)) as usize)),
            decreases w - dx,
        {
            let ghost i = r@.len() as int;
            r.push((xlo + dx, ylo + dy));
            proof {
                assert(i % (w as int) == dx && i / (w as int) == dy) by (nonlinear_arith)
                    requires i == dy * w + dx, 0 <= dx < w, 0 <= dy, 1 <= w;
            }
            dx = dx + 1;
        }
        proof {
            assert((dy + 1) * w == dy * w + w) by (nonlinear_arith);
        }
        dy = dy + 1;
    }
    proof {
        assert(r@.len() == h * w);
        assert(h * w == w * h) by (nonlinear_arith);
        assert forall|i: int| 0 <= i < r@.len() implies r@[i] == target[i] by {
            assert(r@[i] == (((xlo + i % (w as int)) as usize, (ylo + i / (w as int)) as usize)));
        }
        assert(r@ =~= target);
    }
    r
}

/// Whether the step from `(cur_x, cur_y)` to `(new_x, new_y)` cuts no
/// barrier corner in the given field: a diagonal step needs both
/// orthogonal intermediate cells traversable; an axis-aligned step
/// always passes. This rule stops agents from cutting through wall
/// corners.
pub open spec fn diag_clear_spec(cells: Seq<AntCellState>, size: int, cur_x: int, cur_y: int, new_x: int, new_y: int) -> bool {
    if cur_x != new_x && cur_y != new_y {
        cell_at_spec(cells, size, cur_x, new_y).spec_traversable()
            && cell_at_spec(cells, size, new_x, cur_y).spec_traversable()
    } else {
        true
    }
}

/// Where a move by `(x_diff, y_diff)` from `(cur_x, cur_y)` leads in the
/// given field, if it is allowed: the destination must be in bounds,
/// traversable, and must not cut a barrier corner.
pub open spec fn validate_move_spec(cells: Seq<AntCellState>, size: int, cur_x: int, cur_y: int, x_diff: int, y_diff: int) -> Option<(usize, usize)> {
    let nx = cur_x + x_diff;
    let ny = cur_y + y_diff;
    if 0 <= nx < size && 0 <= ny < size && cell_at_spec(cells, size, nx, ny).spec_traversable()
        && diag_clear_spec(cells, size, cur_x, cur_y, nx, ny) {
        Some((nx as usize, ny as usize))
    } else {
        None
    }
}

/// The nearest visible food cell by Manhattan distance in the given
/// field, restricted to cells reachable without diagonal corner-cutting;
/// ties go to iteration order (first found wins).
pub open spec fn find_closest_food_spec(cells: Seq<AntCellState>, size: int, cx: int, cy: int, radius: int) -> Option<(usize, usize)> {
    match closest_food_from(cells, size, cx, cy, visible_seq(cx, cy, radius, size), 0, None) {
        Some((p, _)) => Some(p),
        None => None,
    }
}

/// Whether `p` is a food cell that can be stepped toward from
/// `(cx, cy)` without cutting a barrier corner.
pub open spec fn food_candidate(cells: Seq<AntCellState>, size: int, cx: int, cy: int, p: (usize, usize)) -> bool {
    &&& cell_at_spec(cells, size, p.0 as int, p.1 as int) is Food
    &&& {
        if cx != p.0 as int && cy != p.1 as int {
            cell_at_spec(cells, size, cx, p.1 as int).spec_traversable()
                && cell_at_spec(cells, size, p.0 as int, cy).spec_traversable()
        } else {
            true
        }
    }
}

/// The nearest-food fold over the tail of `s` starting at `i`, carrying
/// the best candidate so far with its Manhattan distance; on a distance
/// tie the earlier find wins.
pub open spec fn closest_food_from(
    cells: Seq<AntCellState>,
    size: int,
    cx: int,
    cy: int,
    s: Seq<(usize, usize)>,
    i: int,
    acc: Option<((usize, usize), int)>,
) -> Option<((usize, usize), int)>
    decreases s.len() - i,
{
    if i < 0 || i >= s.len() {
        acc
    } else {
        let next = if food_candidate(cells, size, cx, cy, s[i]) {
            let d = spec_manhattan(cx, cy, s[i].0 as int, s[i].1 as int);
            match acc {
                Some((_, best)) => if best <= d { acc } else { Some((s[i], d)) },
                None => Some((s[i], d)),
            }
        } else {
            acc
        };
        closest_food_from(cells, size, cx, cy, s, i + 1, next)
    }
}

/// The fold's result is always a candidate from the list (or the starting
/// accumulator), at its true distance.
pub proof fn lemma_closest_food_sound(
    cells: Seq<AntCellState>,
    size: int,
    cx: int,
    cy: int,
    s: Seq<(usize, usize)>,
    i: int,
    acc: Option<((usize, usize), int)>,
)
    requires
        0 <= i,
        acc is Some ==> {
            let (p, d) = acc->0;
            &&& food_candidate(cells, size, cx, cy, p)
            &&& d == spec_manhattan(cx, cy, p.0 as int, p.1 as int)
            &&& s.contains(p)
        },
    ensures
        closest_food_from(cells, size, cx, cy, s, i, acc) is Some ==> {
            let (p, d) = closest_food_from(cells, size, cx, cy, s, i, acc)->0;
            &&& food_candidate(cells, size, cx, cy, p)
            &&& d == spec_manhattan(cx, cy, p.0 as int, p.1 as int)
            &&& s.contains(p)
        },
        acc is Some ==> closest_food_from(cells, size, cx, cy, s, i, acc) is Some,
        acc is None && closest_food_from(cells, size, cx, cy, s, i, acc) is None
            ==> forall|j: int| i <= j < s.len() ==> !food_candidate(cells, size, cx, cy, s[j]),
    decreases s.len() - i,
{
    if 0 <= i < s.len() {
        let next = if food_candidate(cells, size, cx, cy, s[i]) {
            let d = spec_manhattan(cx, cy, s[i].0 as int, s[i].1 as int);
            match acc {
                Some((_, best)) => if best <= d { acc } else { Some((s[i], d)) },
                None => Some((s[i], d)),
            }
        } else {
            acc
        };
        lemma_closest_food_sound(cells, size, cx, cy, s, i + 1, next);
    }
}

impl Grid {
    /// The nearest visible food cell by Manhattan distance, restricted to
    /// cells reachable without diagonal corner-cutting; ties go to
    /// iteration order (first found wins).
    pub open spec fn spec_find_closest_food(self, cx: int, cy: int, radius: int) -> Option<(usize, usize)> {
        find_closest_food_spec(self.cells@, self.size as int, cx, cy, radius)
    }

    /// Searches the visible neighborhood for the nearest food cell by
    /// Manhattan distance, skipping cells behind a cut corner; on a tie
    /// the first cell in iteration order wins.
    pub fn find_closest_food(&self, cur_x: usize, cur_y: usize, radius: usize) -> (r: Option<(usize, usize)>)
        requires
            self.wf(),
            cur_x < self.size,
            cur_y < self.size,
            radius <= MAX_GRID_SIZE,
        ensures
            r == self.spec_find_closest_food(cur_x as int, cur_y as int, radius as int),
            r is Some ==> {
                let p = r->0;
                &&& food_candidate(self.cells@, self.size as int, cur_x as int, cur_y as int, p)
                &&& p.0 < self.size
                &&& p.1 < self.size
                &&& cur_x - radius <= p.0 <= cur_x + radius
                &&& cur_y - radius <= p.1 <= cur_y + radius
            },
    {
        let ghost cells = self.cells@;
        let ghost size = self.size as int;
        let vis = visible_cells(cur_x, cur_y, radius, self.size);
        let ghost vseq = vis@;
        proof {
            lemma_visible_in_bounds(cur_x as int, cur_y as int, radius as int, size);
        }
        let mut acc: Option<((usize, usize), usize)> = None;
        let mut i: usize = 0;
        while i < vis.len()
            invariant
                self.wf(),
                i <= vseq.len(),
                vseq == vis@,
                cells == self.cells@,
                size == self.size as int,
                cur_x < self.size,
                cur_y < self.size,
                radius <= MAX_GRID_SIZE,
                forall|j: int| 0 <= j < vseq.len() ==> {
                    let p = #[trigger] vseq[j];
                    0 <= p.0 < size && 0 <= p.1 < size
                },
                closest_food_from(cells, size, cur_x as int, cur_y as int, vseq, 0, None)
                    == closest_food_from(cells, size, cur_x as int, cur_y as int, vseq, i as int,
                        match acc {
                            Some((p, d)) => Some((p, d as int)),
                            None => None,
                        }),
                acc is Some ==> {
                    let (p, d) = acc->0;
                    &&& food_candidate(cells, size, cur_x as int, cur_y as int, p)
                    &&& d == spec_manhattan(cur_x as int, cur_y as int, p.0 as int, p.1 as int)
                },
            decreases vseq.len() - i,
        {
            let (px, py) = vis[i];
            let cell = self.cells[get_index(px, py, self.size)];
            let is_food = match cell {
                AntCellState::Food(_) => true,
                _ => false,
            };
            let cand = is_food && self.validate_diagonal(cur_x, cur_y, px, py);
            if cand {
                let d = manhattan_distance(cur_x, cur_y, px, py);
                acc = match acc {
                    Some((p, best)) => if best <= d { Some((p, best)) } else { Some(((px, py), d)) },
                    None => Some(((px, py), d)),
                };
            }
            i = i + 1;
        }
        proof {
            lemma_closest_food_sound(cells, size, cur_x as int, cur_y as int, vseq, 0, None);
        }
        match acc {
            Some((p, _)) => Some(p),
            None => None,
        }
    }
}


/// Every in-bounds coordinate within `radius` of `(x, y)` on both axes
/// occurs in the visible neighborhood.
pub proof fn lemma_visible_covers(x: int, y: int, radius: int, size: int, px: int, py: int)
    requires
        0 <= x < size,
        0 <= y < size,
        0 <= radius,
        size <= MAX_GRID_SIZE,
        0 <= px < size,
        0 <= py < size,
        x - radius <= px <= x + radius,
        y - radius <= py <= y + radius,
    ensures
        exists|i: int| 0 <= i < visible_seq(x, y, radius, size).len()
            && #[trigger] visible_seq(x, y, radius, size)[i] == ((px as usize, py as usize)),
{
    let s = visible_seq(x, y, radius, size);
    let xlo = if x - radius >= 0 { x - radius } else { 0 };
    let xhi = if x + radius <= size - 1 { x + radius } else { size - 1 };
    let ylo = if y - radius >= 0 { y - radius } else { 0 };
    let yhi = if y + radius <= size - 1 { y + radius } else { size - 1 };
    let w = xhi - xlo + 1;
    let h = yhi - ylo + 1;
    assert(xlo <= px <= xhi && ylo <= py <= yhi);
    let i = (py - ylo) * w + (px - xlo);
    assert(0 <= i < w * h && i % w == px - xlo && i / w == py - ylo) by (nonlinear_arith)
        requires
            1 <= w,
            0 <= px - xlo < w,
            0 <= py - ylo < h,
            i == (py - ylo) * w + (px - xlo);
    assert(s[i] == ((px as usize, py as usize)));
}

/// Distinct in-bounds coordinates map to distinct row-major indices.
pub proof fn lemma_index_injective(size: int, x1: int, y1: int, x2: int, y2: int)
    requires
        0 <= x1 < size,
        0 <= y1 < size,
        0 <= x2 < size,
        0 <= y2 < size,
        !(x1 == x2 && y1 == y2),
    ensures
        spec_index_of(size, x1, y1) != spec_index_of(size, x2, y2),
{
    assert(y1 * size + x1 != y2 * size + x2) by (nonlinear_arith)
        requires
            0 <= x1 < size,
            0 <= y1 < size,
            0 <= x2 < size,
            0 <= y2 < size,
            !(x1 == x2 && y1 == y2);
}

/// The world grid: `size * size` cells in row-major order.
pub struct Grid {
    pub size: usize,
    pub cells: Vec<AntCellState>,
}

impl Grid {
    /// A grid is well-formed when it is square with a positive, bounded
    /// side length.
    pub open spec fn wf(self) -> bool {
        &&& 1 <= self.size <= MAX_GRID_SIZE
        &&& self.cells@.len() == self.size * self.size
    }

    /// The cell at `(x, y)`.
    pub open spec fn cell(self, x: int, y: int) -> AntCellState {
        cell_at_spec(self.cells@, self.size as int, x, y)
    }

    /// Whether `(x, y)` lies on the grid.
    pub open spec fn in_bounds(self, x: int, y: int) -> bool {
        0 <= x < self.size && 0 <= y < self.size
    }

    /// Whether the step from `(cur_x, cur_y)` to `(new_x, new_y)` cuts no
    /// barrier corner: a diagonal step needs both orthogonal intermediate
    /// cells traversable; an axis-aligned step always passes.
    pub open spec fn spec_diagonal_clear(self, cur_x: int, cur_y: int, new_x: int, new_y: int) -> bool {
        diag_clear_spec(self.cells@, self.size as int, cur_x, cur_y, new_x, new_y)
    }

    /// Where a move by `(x_diff, y_diff)` from `(cur_x, cur_y)` leads, if
    /// it is allowed: the destination must be in bounds, traversable, and
    /// must not cut a barrier corner.
    pub open spec fn spec_validate_move(self, cur_x: int, cur_y: int, x_diff: int, y_diff: int) -> Option<(usize, usize)> {
        validate_move_spec(self.cells@, self.size as int, cur_x, cur_y, x_diff, y_diff)
    }

    /// Builds a grid of `size * size` copies of `fill`.
    pub fn new_filled(size: usize, fill: AntCellState) -> (r: Grid)
        requires
            1 <= size <= MAX_GRID_SIZE,
        ensures
            r.wf(),
            r.size == size,
            r.cells@.len() == size * size,
            forall|i: int| 0 <= i < r.cells@.len() ==> r.cells@[i] == fill,
    {
        proof {
            assert(size * size <= MAX_GRID_SIZE * MAX_GRID_SIZE) by (nonlinear_arith)
                requires size <= MAX_GRID_SIZE;
        }
        let n = size * size;
        let mut cells: Vec<AntCellState> = Vec::new();
        let mut i: usize = 0;
        while i < n
            invariant
                i <= n,
                cells@.len() == i,
                forall|k: int| 0 <= k < i ==> cells@[k] == fill,
            decreases n - i,
        {
            cells.push(fill);
            i = i + 1;
        }
        Grid { size, cells }
    }

    /// The cell at `(x, y)`, or `OutOfRange` when the coordinates fall
    /// outside `[0, size)`.
    pub fn cell_at(&self, x: usize, y: usize) -> (r: Result<AntCellState, AntError>)
        requires
            self.wf(),
        ensures
            x < self.size && y < self.size ==> r == Ok::<AntCellState, AntError>(self.cell(x as int, y as int)),
            !(x < self.size && y < self.size) ==> r == Err::<AntCellState, AntError>(AntError::OutOfRange),
    {
        if x < self.size && y < self.size {
            proof {
                lemma_index_in_range(self.size as int, x as int, y as int);
            }
            Ok(self.cells[y * self.size + x])
        } else {
            Err(AntError::OutOfRange)
        }
    }

    /// Overwrites the cell at `(x, y)`.
    pub fn set_cell(&mut self, x: usize, y: usize, c: AntCellState)
        requires
            old(self).wf(),
            x < old(self).size,
            y < old(self).size,
        ensures
            final(self).wf(),
            final(self).size == old(self).size,
            final(self).cells@ == old(self).cells@.update(
                spec_index_of(old(self).size as int, x as int, y as int), c),
    {
        proof {
            lemma_index_in_range(self.size as int, x as int, y as int);
        }
        let i = y * self.size + x;
        self.cells.set(i, c);
    }

    /// Whether the step from `(cur_x, cur_y)` to `(new_x, new_y)` cuts no
    /// barrier corner.
    pub fn validate_diagonal(&self, cur_x: usize, cur_y: usize, new_x: usize, new_y: usize) -> (r: bool)
        requires
            self.wf(),
            cur_x < self.size,
            cur_y < self.size,
            new_x < self.size,
            new_y < self.size,
        ensures
            r == self.spec_diagonal_clear(cur_x as int, cur_y as int, new_x as int, new_y as int),
    {
        if cur_x != new_x && cur_y != new_y {
            proof {
                lemma_index_in_range(self.size as int, cur_x as int, new_y as int);
                lemma_index_in_range(self.size as int, new_x as int, cur_y as int);
            }
            let c1 = self.cells[new_y * self.size + cur_x];
            let c2 = self.cells[cur_y * self.size + new_x];
            c1.is_traversable() && c2.is_traversable()
        } else {
            true
        }
    }

    /// Where a single-step move from `(cur_x, cur_y)` leads, if it is
    /// allowed; `None` is the normal rejection outcome the behavior state
    /// machine interprets.
    pub fn validate_move(&self, cur_x: usize, cur_y: usize, x_diff: isize, y_diff: isize) -> (r: Option<(usize, usize)>)
        requires
            self.wf(),
            cur_x < self.size,
            cur_y < self.size,
            -1 <= x_diff <= 1,
            -1 <= y_diff <= 1,
        ensures
            r == self.spec_validate_move(cur_x as int, cur_y as int, x_diff as int, y_diff as int),
    {
        let nxi: isize = cur_x as isize + x_diff;
        let nyi: isize = cur_y as isize + y_diff;
        if nxi >= 0 && nxi < self.size as isize && nyi >= 0 && nyi < self.size as isize {
            let nx = nxi as usize;
            let ny = nyi as usize;
            proof {
                lemma_index_in_range(self.size as int, nx as int, ny as int);
            }
            let dest = self.cells[ny * self.size + nx];
            if dest.is_traversable() && self.validate_diagonal(cur_x, cur_y, nx, ny) {
                Some((nx, ny))
            } else {
                None
            }
        } else {
            None
        }
    }

    /// One decay step applied to every cell: empty cells scale both
    /// channels by `multiplier` per-mille and snap sub-floor values to
    /// zero; other cells are untouched.
    pub fn decay(&mut self, multiplier: u32, floor: u32)
        requires
            old(self).wf(),
            multiplier <= 999,
        ensures
            final(self).wf(),
            final(self).size == old(self).size,
            final(self).cells@.len() == old(self).cells@.len(),
            forall|i: int| 0 <= i < old(self).cells@.len()
                ==> final(self).cells@[i] == cell_decay_spec(old(self).cells@[i], multiplier, floor),
    {
        let n = self.cells.len();
        let mut i: usize = 0;
        while i < n
            invariant
                i <= n,
                self.size == old(self).size,
                self.cells@.len() == n,
                n == old(self).cells@.len(),
                multiplier <= 999,
                forall|k: int| 0 <= k < i
                    ==> self.cells@[k] == cell_decay_spec(old(self).cells@[k], multiplier, floor),
                forall|k: int| i <= k < n ==> self.cells@[k] == old(self).cells@[k],
            decreases n - i,
        {
            let c = self.cells[i];
            match c {
                AntCellState::Empty(mut p) => {
                    p.decay(multiplier, floor);
                    self.cells.set(i, AntCellState::Empty(p));
                },
                _ => {},
            }
            i = i + 1;
        }
    }

    /// Deposits pheromone on the cell at row-major `index`: a no-op on
    /// every cell but an `Empty` one, whose named channel grows by
    /// `intensity` and is capped at `max`.
    pub fn deposit(&mut self, index: usize, kind: PheremoneType, intensity: u32, max: u32)
        requires
            old(self).wf(),
            index < old(self).cells@.len(),
        ensures
            final(self).wf(),
            final(self).size == old(self).size,
            final(self).cells@ == old(self).cells@.update(
                index as int, cell_deposit_spec(old(self).cells@[index as int], kind, intensity, max)),
    {
        let c = self.cells[index];
        match c {
            AntCellState::Empty(mut p) => {
                p.deposit(kind, intensity, max);
                self.cells.set(index, AntCellState::Empty(p));
            },
            _ => {
                proof {
                    assert(self.cells@ =~= self.cells@.update(
                        index as int, cell_deposit_spec(self.cells@[index as int], kind, intensity, max)));
                }
            },
        }
    }
}

} // verus!
