//! The behavior state machine's numeric machinery: per-cell weights with
//! multiplicative sign-agreement biases, threshold tests, and
//! roulette-wheel weighted sampling.

use vstd::prelude::*;

use crate::cell::AntCellState;
use crate::conf::MAX_BASE_WEIGHT;
use crate::conf::MAX_BIAS;
use crate::conf::UserConf;
use crate::grid::Grid;
use crate::grid::cell_at_spec;
use crate::grid::diag_clear_spec;
use crate::grid::lemma_visible_in_bounds;
use crate::grid::visible_seq;

verus! {

/// How far an agent sees, in cells (the 3x3 Moore neighborhood).
pub const VIEW_DISTANCE: usize = 1;

/// Largest value a single fully biased weight can reach: a base weight
/// plus a capped pheromone intensity, pushed through four bias-factor
/// pairs of at most a factor of one hundred each.
pub const MAX_WEIGHT: u64 = 200000000000000;

/// Bound on a weight that can still take one more bias factor without
/// overflowing the multiplication.
pub const MAX_PRE_BIAS: u64 = 20000000000000;

/// Every empty cell of an engine-managed grid keeps both pheromone
/// channels at or below the largest accepted cap, whatever the currently
/// configured cap is.
pub open spec fn pheromones_bounded(cells: Seq<AntCellState>) -> bool {
    forall|i: int| 0 <= i < cells.len() ==> match #[trigger] cells[i] {
        AntCellState::Empty(p) => p.wandering <= MAX_BASE_WEIGHT && p.returning <= MAX_BASE_WEIGHT,
        _ => true,
    }
}

/// A weight scaled by a per-mille bias factor, rounding down.
pub open spec fn spec_bias(w: u64, bias: u32) -> u64 {
    ((w * bias) / 1000) as u64
}

/// A biased weight grows by at most a factor of ten.
pub proof fn lemma_bias_bound(w: u64, bias: u32, b: u64)
    requires
        w <= b,
        bias <= MAX_BIAS,
    ensures
        spec_bias(w, bias) <= b * 10,
        w * bias / 1000 <= b * 10,
{
    assert(w * bias / 1000 <= b * 10) by (nonlinear_arith)
        requires w <= b, bias <= MAX_BIAS;
}

/// Applies a per-mille bias factor to a weight.
pub fn apply_bias(w: u64, bias: u32) -> (r: u64)
    requires
        w <= MAX_PRE_BIAS,
        bias <= MAX_BIAS,
    ensures
        r == spec_bias(w, bias),
        r <= w * 10,
{
    proof {
        lemma_bias_bound(w, bias, w);
        assert(w * bias <= MAX_PRE_BIAS * MAX_BIAS) by (nonlinear_arith)
            requires w <= MAX_PRE_BIAS, bias <= MAX_BIAS;
    }
    (w * bias as u64) / 1000
}

/// The sum of the weights from position `i` on.
pub open spec fn sum_from(ws: Seq<u64>, i: int) -> int
    decreases ws.len() - i,
{
    if i < 0 || i >= ws.len() {
        0
    } else {
        ws[i] + sum_from(ws, i + 1)
    }
}

/// The total weight of a candidate list.
pub open spec fn spec_total(ws: Seq<u64>) -> int {
    sum_from(ws, 0)
}

/// A tail sum of bounded weights is bounded by the tail length.
pub proof fn lemma_sum_bound(ws: Seq<u64>, i: int, b: int)
    requires
        0 <= i <= ws.len(),
        forall|k: int| 0 <= k < ws.len() ==> #[trigger] ws[k] <= b,
        0 <= b,
    ensures
        0 <= sum_from(ws, i) <= (ws.len() - i) * b,
    decreases ws.len() - i,
{
    if i >= ws.len() {
        assert((ws.len() - i) * b >= 0) by (nonlinear_arith)
            requires i == ws.len(), 0 <= b;
    } else {
        lemma_sum_bound(ws, i + 1, b);
        assert((ws.len() - i) * b == (ws.len() - (i + 1)) * b + b) by (nonlinear_arith);
    }
}

/// The index the roulette wheel lands on when the draw is `r`, counting
/// from position `i`: the first candidate whose weight pushes the running
/// total past the draw.
pub open spec fn pick_from(ws: Seq<u64>, i: int, r: int) -> int
    decreases ws.len() - i,
{
    if i < 0 || i >= ws.len() {
        i
    } else if r < ws[i] {
        i
    } else {
        pick_from(ws, i + 1, r - ws[i])
    }
}

/// The index picked for a draw below the total weight.
pub open spec fn spec_pick(ws: Seq<u64>, r: int) -> int {
    pick_from(ws, 0, r)
}

/// A draw below the remaining total lands on a real candidate, and only
/// a candidate of positive weight can be landed on.
pub proof fn lemma_pick_in_range(ws: Seq<u64>, i: int, r: int)
    requires
        0 <= i,
        0 <= r < sum_from(ws, i),
    ensures
        i <= pick_from(ws, i, r) < ws.len(),
        ws[pick_from(ws, i, r)] > 0,
    decreases ws.len() - i,
{
    if i >= ws.len() {
        assert(false);
    } else if r < ws[i] {
    } else {
        lemma_pick_in_range(ws, i + 1, r - ws[i]);
    }
}

/// Whether every weight is strictly below the threshold.
pub open spec fn spec_all_below(ws: Seq<u64>, t: u64) -> bool {
    forall|k: int| 0 <= k < ws.len() ==> #[trigger] ws[k] < t
}

/// Whether every candidate weight falls below `t` (the signal-loss test).
pub fn all_below(ws: &Vec<u64>, t: u64) -> (r: bool)
    ensures
        r == spec_all_below(ws@, t),
{
    let mut k: usize = 0;
    while k < ws.len()
        invariant
            k <= ws@.len(),
            forall|j: int| 0 <= j < k ==> #[trigger] ws@[j] < t,
        decreases ws@.len() - k,
    {
        if ws[k] >= t {
            return false;
        }
        k = k + 1;
    }
    true
}

/// Adds up a candidate list whose weights are individually bounded.
pub fn total_weight(ws: &Vec<u64>) -> (r: u64)
    requires
        ws@.len() <= 9,
        forall|k: int| 0 <= k < ws@.len() ==> #[trigger] ws@[k] <= MAX_WEIGHT,
    ensures
        r == spec_total(ws@),
{
    proof {
        lemma_sum_bound(ws@, 0, MAX_WEIGHT as int);
    }
    let mut acc: u64 = 0;
    let mut k: usize = ws.len();
    while k > 0
        invariant
            k <= ws@.len(),
            ws@.len() <= 9,
            forall|j: int| 0 <= j < ws@.len() ==> #[trigger] ws@[j] <= MAX_WEIGHT,
            acc == sum_from(ws@, k as int),
        decreases k,
    {
        proof {
            lemma_sum_bound(ws@, k - 1, MAX_WEIGHT as int);
        }
        k = k - 1;
        acc = acc + ws[k];
    }
    acc
}

/// Roulette-wheel selection: returns the first index whose cumulative
/// weight exceeds the draw. The candidate list must carry positive total
/// weight and the draw must fall below it — the calling logic guarantees
/// both by testing the all-below-threshold condition first.
pub fn pick_weighted(ws: &Vec<u64>, r: u64) -> (idx: usize)
    requires
        r < spec_total(ws@),
    ensures
        idx == spec_pick(ws@, r as int),
        idx < ws@.len(),
        ws@[idx as int] > 0,
{
    proof {
        lemma_pick_in_range(ws@, 0, r as int);
    }
    let mut k: usize = 0;
    let mut rem: u64 = r;
    while k < ws.len()
        invariant
            k <= ws@.len(),
            0 <= rem < sum_from(ws@, k as int),
            pick_from(ws@, 0, r as int) == pick_from(ws@, k as int, rem as int),
        decreases ws@.len() - k,
    {
        let w = ws[k];
        if rem < w {
            proof {
                lemma_pick_in_range(ws@, k as int, rem as int);
            }
            return k;
        }
        rem = rem - w;
        k = k + 1;
    }
    proof {
        assert(false);
    }
    vstd::pervasive::unreached()
}

/// The wandering weight of one visible cell: the base wandering weight
/// plus the cell's returning-trail intensity, for an empty cell whose
/// approach cuts no corner; zero otherwise.
pub open spec fn wander_weight_at(cells: Seq<AntCellState>, size: int, conf: UserConf, cx: int, cy: int, p: (usize, usize)) -> u64 {
    match cell_at_spec(cells, size, p.0 as int, p.1 as int) {
        AntCellState::Empty(ph) => {
            if !diag_clear_spec(cells, size, cx, cy, p.0 as int, p.1 as int) {
                0
            } else {
                (conf.base_wandering_weight + ph.returning) as u64
            }
        },
        _ => 0,
    }
}

/// The condition under which a candidate's axis offset counts as
/// agreeing with a reference direction, and earns the positive bias.
pub open spec fn agrees_pos(refd: int, cur: int, cand: int) -> bool {
    ((refd < 0) == (cand < cur)) || ((refd > 0) == (cand > cur))
}

/// The condition under which a candidate's axis offset counts as
/// opposing a reference direction, and earns the negative bias.
pub open spec fn agrees_neg(refd: int, cur: int, cand: int) -> bool {
    ((refd < 0) == (cand > cur)) || ((refd > 0) == (cand < cur))
}

/// A weight after the positive/negative bias pair for one axis: first
/// the positive factor when the candidate agrees with the reference
/// direction, then the negative factor when it opposes it.
pub open spec fn spec_axis_bias(w: u64, refd: int, cur: int, cand: int, pos: u32, neg: u32) -> u64 {
    let w1 = if agrees_pos(refd, cur, cand) { spec_bias(w, pos) } else { w };
    if agrees_neg(refd, cur, cand) { spec_bias(w1, neg) } else { w1 }
}

/// Applies one axis's positive/negative bias pair.
pub fn axis_bias(w: u64, refd: isize, cur: usize, cand: usize, pos: u32, neg: u32) -> (r: u64)
    requires
        w <= MAX_PRE_BIAS / 10,
        pos <= MAX_BIAS,
        neg <= MAX_BIAS,
    ensures
        r == spec_axis_bias(w, refd as int, cur as int, cand as int, pos, neg),
        r <= w * 100,
{
    proof {
        lemma_bias_bound(w, pos, w);
        assert(w * 10 <= MAX_PRE_BIAS) by (nonlinear_arith)
            requires w <= MAX_PRE_BIAS / 10;
        assert(w <= w * 10 && w * 10 <= w * 100 && w * 100 >= w) by (nonlinear_arith);
    }
    let w1 = if (refd < 0) == (cand < cur) || (refd > 0) == (cand > cur) {
        apply_bias(w, pos)
    } else {
        w
    };
    proof {
        lemma_bias_bound(w1, neg, (w * 10) as u64);
        assert(w1 <= w * 10);
        assert(w * 10 * 10 == w * 100) by (nonlinear_arith);
    }
    let w2 = if (refd < 0) == (cand > cur) || (refd > 0) == (cand < cur) {
        apply_bias(w1, neg)
    } else {
        w1
    };
    w2
}

/// The trail-following weight of one visible cell: the base following
/// weight plus the returning-trail intensity for an approachable empty
/// cell (zero otherwise and at the agent's own cell), biased per axis by
/// agreement with the last successful move vector.
pub open spec fn following_weight_at(
    cells: Seq<AntCellState>, size: int, conf: UserConf, cx: int, cy: int, ldx: int, ldy: int, p: (usize, usize),
) -> u64 {
    let base = match cell_at_spec(cells, size, p.0 as int, p.1 as int) {
        AntCellState::Empty(ph) => {
            if !diag_clear_spec(cells, size, cx, cy, p.0 as int, p.1 as int) {
                0u64
            } else {
                (conf.base_following_weight + ph.returning) as u64
            }
        },
        _ => 0u64,
    };
    let base = if p.0 as int == cx && p.1 as int == cy { 0u64 } else { base };
    let wx = spec_axis_bias(base, ldx, cx, p.0 as int, conf.following_pos_bias, conf.following_neg_bias);
    spec_axis_bias(wx, ldy, cy, p.1 as int, conf.following_pos_bias, conf.following_neg_bias)
}

/// The homeward weight of one visible cell: the base returning weight
/// plus the wandering-trail intensity for an approachable empty cell
/// (zero otherwise and at the agent's own cell), biased per axis first by
/// agreement with the direction toward the nest, then by agreement with
/// the last move vector.
pub open spec fn returning_weight_at(
    cells: Seq<AntCellState>, size: int, conf: UserConf, cx: int, cy: int,
    adx: int, ady: int, ldx: int, ldy: int, p: (usize, usize),
) -> u64 {
    let base = match cell_at_spec(cells, size, p.0 as int, p.1 as int) {
        AntCellState::Empty(ph) => {
            if !diag_clear_spec(cells, size, cx, cy, p.0 as int, p.1 as int) {
                0u64
            } else {
                (conf.base_returning_weight + ph.wandering) as u64
            }
        },
        _ => 0u64,
    };
    let base = if p.0 as int == cx && p.1 as int == cy { 0u64 } else { base };
    let w1 = spec_axis_bias(base, adx, cx, p.0 as int, conf.anthill_attraction_pos_bias, conf.anthill_attraction_neg_bias);
    let w2 = spec_axis_bias(w1, ady, cy, p.1 as int, conf.anthill_attraction_pos_bias, conf.anthill_attraction_neg_bias);
    let w3 = spec_axis_bias(w2, ldx, cx, p.0 as int, conf.returning_maintain_pos_bias, conf.returning_maintain_neg_bias);
    spec_axis_bias(w3, ldy, cy, p.1 as int, conf.returning_maintain_pos_bias, conf.returning_maintain_neg_bias)
}

/// The wandering weights of the whole visible neighborhood, in
/// iteration order.
pub open spec fn wander_weights(cells: Seq<AntCellState>, size: int, conf: UserConf, cx: int, cy: int) -> Seq<u64> {
    let vis = visible_seq(cx, cy, VIEW_DISTANCE as int, size);
    Seq::new(vis.len(), |i: int| wander_weight_at(cells, size, conf, cx, cy, vis[i]))
}

/// The trail-following weights of the whole visible neighborhood.
pub open spec fn following_weights(cells: Seq<AntCellState>, size: int, conf: UserConf, cx: int, cy: int, ldx: int, ldy: int) -> Seq<u64> {
    let vis = visible_seq(cx, cy, VIEW_DISTANCE as int, size);
    Seq::new(vis.len(), |i: int| following_weight_at(cells, size, conf, cx, cy, ldx, ldy, vis[i]))
}

/// The homeward weights of the whole visible neighborhood.
pub open spec fn returning_weights(
    cells: Seq<AntCellState>, size: int, conf: UserConf, cx: int, cy: int, adx: int, ady: int, ldx: int, ldy: int,
) -> Seq<u64> {
    let vis = visible_seq(cx, cy, VIEW_DISTANCE as int, size);
    Seq::new(vis.len(), |i: int| returning_weight_at(cells, size, conf, cx, cy, adx, ady, ldx, ldy, vis[i]))
}

/// Any weight from position `k` is a lower bound on the total.
pub proof fn lemma_element_le_sum(ws: Seq<u64>, i: int, k: int)
    requires
        0 <= i <= k < ws.len(),
    ensures
        ws[k] <= sum_from(ws, i),
    decreases k - i,
{
    lemma_sum_bound_nonneg(ws, i + 1);
    if i < k {
        lemma_element_le_sum(ws, i + 1, k);
    }
}

/// Tail sums of unsigned weights are nonnegative.
pub proof fn lemma_sum_bound_nonneg(ws: Seq<u64>, i: int)
    ensures
        0 <= sum_from(ws, i),
    decreases ws.len() - i,
{
    if 0 <= i < ws.len() {
        lemma_sum_bound_nonneg(ws, i + 1);
    }
}

/// The visible neighborhood at unit radius holds at most nine cells.
pub proof fn lemma_visible_len(x: int, y: int, size: int)
    requires
        0 <= x < size,
        0 <= y < size,
    ensures
        1 <= visible_seq(x, y, 1, size).len() <= 9,
{
    let xlo = if x - 1 >= 0 { x - 1 } else { 0 };
    let xhi = if x + 1 <= size - 1 { x + 1 } else { size - 1 };
    let ylo = if y - 1 >= 0 { y - 1 } else { 0 };
    let yhi = if y + 1 <= size - 1 { y + 1 } else { size - 1 };
    let w = xhi - xlo + 1;
    let h = yhi - ylo + 1;
    assert(1 <= w <= 3 && 1 <= h <= 3);
    assert(1 <= w * h <= 9) by (nonlinear_arith)
        requires 1 <= w <= 3, 1 <= h <= 3;
}

/// Computes the wandering weights of every visible cell, in iteration
/// order.
pub fn compute_wander_weights(g: &Grid, conf: &UserConf, cx: usize, cy: usize, vis: &Vec<(usize, usize)>) -> (r: Vec<u64>)
    requires
        g.wf(),
        pheromones_bounded(g.cells@),
        conf.wf(),
        cx < g.size,
        cy < g.size,
        vis@ == visible_seq(cx as int, cy as int, VIEW_DISTANCE as int, g.size as int),
    ensures
        r@ == wander_weights(g.cells@, g.size as int, *conf, cx as int, cy as int),
        forall|k: int| 0 <= k < r@.len() ==> #[trigger] r@[k] <= MAX_WEIGHT,
{
    proof {
        lemma_visible_in_bounds(cx as int, cy as int, VIEW_DISTANCE as int, g.size as int);
    }
    let ghost target = wander_weights(g.cells@, g.size as int, *conf, cx as int, cy as int);
    let mut r: Vec<u64> = Vec::new();
    let mut i: usize = 0;
    while i < vis.len()
        invariant
            g.wf(),
            pheromones_bounded(g.cells@),
            conf.wf(),
            cx < g.size,
            cy < g.size,
            vis@ == visible_seq(cx as int, cy as int, VIEW_DISTANCE as int, g.size as int),
            target == wander_weights(g.cells@, g.size as int, *conf, cx as int, cy as int),
            i <= vis@.len(),
            r@.len() == i,
            forall|j: int| 0 <= j < vis@.len()
                ==> (#[trigger] vis@[j]).0 < g.size && vis@[j].1 < g.size,
            forall|j: int| 0 <= j < i ==> #[trigger] r@[j] == target[j],
            forall|j: int| 0 <= j < i ==> #[trigger] r@[j] <= MAX_WEIGHT,
        decreases vis@.len() - i,
    {
        let (px, py) = vis[i];
        let idx = crate::grid::get_index(px, py, g.size);
        let c = g.cells[idx];
        let w: u64 = match c {
            AntCellState::Empty(ph) => {
                proof {
                    assert(g.cells@[idx as int] == c);
                }
                if !g.validate_diagonal(cx, cy, px, py) {
                    0
                } else {
                    conf.base_wandering_weight + ph.returning as u64
                }
            },
            _ => 0,
        };
        r.push(w);
        i = i + 1;
    }
    proof {
        assert(r@ =~= target);
    }
    r
}

/// Computes the trail-following weights of every visible cell.
pub fn compute_following_weights(
    g: &Grid, conf: &UserConf, cx: usize, cy: usize, ldx: isize, ldy: isize, vis: &Vec<(usize, usize)>,
) -> (r: Vec<u64>)
    requires
        g.wf(),
        pheromones_bounded(g.cells@),
        conf.wf(),
        cx < g.size,
        cy < g.size,
        vis@ == visible_seq(cx as int, cy as int, VIEW_DISTANCE as int, g.size as int),
    ensures
        r@ == following_weights(g.cells@, g.size as int, *conf, cx as int, cy as int, ldx as int, ldy as int),
        forall|k: int| 0 <= k < r@.len() ==> #[trigger] r@[k] <= MAX_WEIGHT,
{
    proof {
        lemma_visible_in_bounds(cx as int, cy as int, VIEW_DISTANCE as int, g.size as int);
    }
    let ghost target = following_weights(g.cells@, g.size as int, *conf, cx as int, cy as int, ldx as int, ldy as int);
    let mut r: Vec<u64> = Vec::new();
    let mut i: usize = 0;
    while i < vis.len()
        invariant
            g.wf(),
            pheromones_bounded(g.cells@),
            conf.wf(),
            cx < g.size,
            cy < g.size,
            vis@ == visible_seq(cx as int, cy as int, VIEW_DISTANCE as int, g.size as int),
            target == following_weights(g.cells@, g.size as int, *conf, cx as int, cy as int, ldx as int, ldy as int),
            i <= vis@.len(),
            r@.len() == i,
            forall|j: int| 0 <= j < vis@.len()
                ==> (#[trigger] vis@[j]).0 < g.size && vis@[j].1 < g.size,
            forall|j: int| 0 <= j < i ==> #[trigger] r@[j] == target[j],
            forall|j: int| 0 <= j < i ==> #[trigger] r@[j] <= MAX_WEIGHT,
        decreases vis@.len() - i,
    {
        let (px, py) = vis[i];
        let idx = crate::grid::get_index(px, py, g.size);
        let c = g.cells[idx];
        let base: u64 = match c {
            AntCellState::Empty(ph) => {
                proof {
                    assert(g.cells@[idx as int] == c);
                }
                if !g.validate_diagonal(cx, cy, px, py) {
                    0
                } else {
                    conf.base_following_weight + ph.returning as u64
                }
            },
            _ => 0,
        };
        let base: u64 = if px == cx && py == cy { 0 } else { base };
        let wx = axis_bias(base, ldx, cx, px, conf.following_pos_bias, conf.following_neg_bias);
        proof {
            assert(base * 100 <= 200000000) by (nonlinear_arith)
                requires base <= 2000000;
        }
        let w = axis_bias(wx, ldy, cy, py, conf.following_pos_bias, conf.following_neg_bias);
        proof {
            assert(wx * 100 <= MAX_WEIGHT) by (nonlinear_arith)
                requires wx <= 200000000;
        }
        r.push(w);
        i = i + 1;
    }
    proof {
        assert(r@ =~= target);
    }
    r
}

/// Computes the homeward weights of every visible cell.
pub fn compute_returning_weights(
    g: &Grid, conf: &UserConf, cx: usize, cy: usize,
    adx: isize, ady: isize, ldx: isize, ldy: isize, vis: &Vec<(usize, usize)>,
) -> (r: Vec<u64>)
    requires
        g.wf(),
        pheromones_bounded(g.cells@),
        conf.wf(),
        cx < g.size,
        cy < g.size,
        vis@ == visible_seq(cx as int, cy as int, VIEW_DISTANCE as int, g.size as int),
    ensures
        r@ == returning_weights(g.cells@, g.size as int, *conf, cx as int, cy as int, adx as int, ady as int, ldx as int, ldy as int),
        forall|k: int| 0 <= k < r@.len() ==> #[trigger] r@[k] <= MAX_WEIGHT,
{
    proof {
        lemma_visible_in_bounds(cx as int, cy as int, VIEW_DISTANCE as int, g.size as int);
    }
    let ghost target = returning_weights(
        g.cells@, g.size as int, *conf, cx as int, cy as int, adx as int, ady as int, ldx as int, ldy as int);
    let mut r: Vec<u64> = Vec::new();
    let mut i: usize = 0;
    while i < vis.len()
        invariant
            g.wf(),
            pheromones_bounded(g.cells@),
            conf.wf(),
            cx < g.size,
            cy < g.size,
            vis@ == visible_seq(cx as int, cy as int, VIEW_DISTANCE as int, g.size as int),
            target == returning_weights(
                g.cells@, g.size as int, *conf, cx as int, cy as int, adx as int, ady as int, ldx as int, ldy as int),
            i <= vis@.len(),
            r@.len() == i,
            forall|j: int| 0 <= j < vis@.len()
                ==> (#[trigger] vis@[j]).0 < g.size && vis@[j].1 < g.size,
            forall|j: int| 0 <= j < i ==> #[trigger] r@[j] == target[j],
            forall|j: int| 0 <= j < i ==> #[trigger] r@[j] <= MAX_WEIGHT,
        decreases vis@.len() - i,
    {
        let (px, py) = vis[i];
        let idx = crate::grid::get_index(px, py, g.size);
        let c = g.cells[idx];
        let base: u64 = match c {
            AntCellState::Empty(ph) => {
                proof {
                    assert(g.cells@[idx as int] == c);
                }
                if !g.validate_diagonal(cx, cy, px, py) {
                    0
                } else {
                    conf.base_returning_weight + ph.wandering as u64
                }
            },
            _ => 0,
        };
        let base: u64 = if px == cx && py == cy { 0 } else { base };
        let w1 = axis_bias(base, adx, cx, px, conf.anthill_attraction_pos_bias, conf.anthill_attraction_neg_bias);
        proof {
            assert(base * 100 <= 200000000) by (nonlinear_arith)
                requires base <= 2000000;
        }
        let w2 = axis_bias(w1, ady, cy, py, conf.anthill_attraction_pos_bias, conf.anthill_attraction_neg_bias);
        proof {
            assert(w1 * 100 <= 20000000000) by (nonlinear_arith)
                requires w1 <= 200000000;
        }
        let w3 = axis_bias(w2, ldx, cx, px, conf.returning_maintain_pos_bias, conf.returning_maintain_neg_bias);
        proof {
            assert(w2 * 100 <= 2000000000000) by (nonlinear_arith)
                requires w2 <= 20000000000;
        }
        let w4 = axis_bias(w3, ldy, cy, py, conf.returning_maintain_pos_bias, conf.returning_maintain_neg_bias);
        proof {
            assert(w3 * 100 <= MAX_WEIGHT) by (nonlinear_arith)
                requires w3 <= 2000000000000;
        }
        r.push(w4);
        i = i + 1;
    }
    proof {
        assert(r@ =~= target);
    }
    r
}

} // verus!
