//! Agents and their behavior states: the biased-random-walk wander state
//! and the three-state behavior tag, with every random transition a
//! function of the explicit generator state.

use vstd::prelude::*;

use crate::rng::Prng;

verus! {

/// One axis of the 2-D biased random walk.
#[derive(Clone, Copy, Debug, PartialEq, Eq, Structural)]
pub enum WanderDirection {
    Up,
    Stay,
    Down,
}

/// The pair of axis directions a wandering agent drifts along.
#[derive(Clone, Copy, Debug, PartialEq, Eq, Structural)]
pub struct WanderingState {
    pub x_dir: WanderDirection,
    pub y_dir: WanderDirection,
}

/// The behavior tag of an agent, with the data each state carries.
#[derive(Clone, Copy, Debug, PartialEq, Eq)]
pub enum AntEntityState {
    Wandering(WanderingState),
    FollowingPheremonesToFood { last_diff: (isize, isize) },
    ReturningToNestWithFood { last_diff: (isize, isize) },
}

/// The per-agent data fixed at creation: the home (nest) coordinates.
#[derive(Clone, Copy, Debug, PartialEq, Eq, Structural)]
pub struct AntMutEntityState {
    pub nest_x: usize,
    pub nest_y: usize,
}

/// An agent: its behavior state plus its immutable home coordinates.
#[derive(Clone, Copy, Debug, PartialEq, Eq)]
pub struct AntEntity {
    pub state: AntEntityState,
    pub mut_state: AntMutEntityState,
}

/// The direction drawn uniformly from the three axis directions.
pub open spec fn spec_random_direction(rng: Prng) -> (WanderDirection, Prng) {
    let d = rng.spec_peek_below(3);
    let dir = if d == 0 {
        WanderDirection::Up
    } else if d == 1 {
        WanderDirection::Stay
    } else {
        WanderDirection::Down
    };
    (dir, rng.spec_step_n(2))
}

/// A fresh wandering state: both axis directions drawn uniformly.
pub open spec fn spec_random_wandering(rng: Prng) -> (WanderingState, Prng) {
    let (x_dir, rng1) = spec_random_direction(rng);
    let (y_dir, rng2) = spec_random_direction(rng1);
    (WanderingState { x_dir, y_dir }, rng2)
}

impl WanderDirection {
    /// One Markov transition of a single axis: with probability
    /// `chance` (in hundredths of a percent) the direction changes —
    /// `Up`/`Down` fall back to `Stay`, `Stay` picks `Up` or `Down` by a
    /// fair draw; otherwise it is kept.
    pub open spec fn spec_next(self, chance: u32, rng: Prng) -> (WanderDirection, Prng) {
        let roll = rng.spec_peek_below(10000);
        let rng1 = rng.spec_step_n(2);
        if roll >= chance {
            (self, rng1)
        } else {
            match self {
                WanderDirection::Up | WanderDirection::Down => (WanderDirection::Stay, rng1),
                WanderDirection::Stay => {
                    let coin = rng1.spec_peek_below(2);
                    let d = if coin == 0 {
                        WanderDirection::Up
                    } else {
                        WanderDirection::Down
                    };
                    (d, rng1.spec_step_n(2))
                },
            }
        }
    }

    /// The axis offset this direction moves by each tick.
    pub open spec fn spec_coord_offset(self) -> isize {
        match self {
            WanderDirection::Up => -1isize,
            WanderDirection::Stay => 0isize,
            WanderDirection::Down => 1isize,
        }
    }

    /// One Markov transition of a single axis direction.
    pub fn next(self, transition_chance: u32, rng: &mut Prng) -> (r: WanderDirection)
        ensures
            (r, *final(rng)) == self.spec_next(transition_chance, *old(rng)),
    {
        let roll = rng.below(10000);
        if roll >= transition_chance as u64 {
            return self;
        }
        match self {
            WanderDirection::Up | WanderDirection::Down => WanderDirection::Stay,
            WanderDirection::Stay => {
                let coin = rng.below(2);
                if coin == 0 {
                    WanderDirection::Up
                } else {
                    WanderDirection::Down
                }
            },
        }
    }

    /// The axis offset this direction moves by each tick.
    pub fn get_coord_offset(self) -> (r: isize)
        ensures
            r == self.spec_coord_offset(),
            -1 <= r <= 1,
    {
        match self {
            WanderDirection::Up => -1isize,
            WanderDirection::Stay => 0isize,
            WanderDirection::Down => 1isize,
        }
    }

    /// Draws a direction uniformly from the three axis directions.
    pub fn random(rng: &mut Prng) -> (r: WanderDirection)
        ensures
            (r, *final(rng)) == spec_random_direction(*old(rng)),
    {
        let d = rng.below(3);
        if d == 0 {
            WanderDirection::Up
        } else if d == 1 {
            WanderDirection::Stay
        } else {
            WanderDirection::Down
        }
    }
}

/// The direction with the given position in the row-major order of the
/// three axis directions.
pub open spec fn spec_dir_of(d: int) -> WanderDirection {
    if d == 0 {
        WanderDirection::Up
    } else if d == 1 {
        WanderDirection::Stay
    } else {
        WanderDirection::Down
    }
}

/// A wander state drawn uniformly from the eight direction pairs that
/// actually move: one bounded draw indexes the nine pairs in row-major
/// order with the double-`Stay` center left out.
pub open spec fn spec_random_moving(rng: Prng) -> (WanderingState, Prng) {
    let d = rng.spec_peek_below(8);
    let k: int = if d >= 4 { d + 1 } else { d as int };
    let ws = WanderingState {
        x_dir: spec_dir_of(k % 3),
        y_dir: spec_dir_of(k / 3),
    };
    (ws, rng.spec_step_n(2))
}

/// The eight-pair draw never lands on the double-`Stay` state.
pub proof fn lemma_random_moving_moves(rng: Prng)
    ensures
        spec_random_moving(rng).0
            != (WanderingState { x_dir: WanderDirection::Stay, y_dir: WanderDirection::Stay }),
{
}

impl WanderingState {
    /// One Markov transition of the whole wander state: each axis
    /// transitions independently; a resulting double-`Stay` is disallowed
    /// and re-rolled uniformly from the eight moving direction pairs.
    pub open spec fn spec_next(self, chance: u32, rng: Prng) -> (WanderingState, Prng) {
        let (x_dir, rng1) = self.x_dir.spec_next(chance, rng);
        let (y_dir, rng2) = self.y_dir.spec_next(chance, rng1);
        let next = WanderingState { x_dir, y_dir };
        if next == (WanderingState { x_dir: WanderDirection::Stay, y_dir: WanderDirection::Stay }) {
            spec_random_moving(rng2)
        } else {
            (next, rng2)
        }
    }

    /// One Markov transition of the whole wander state; the result is
    /// never the double-`Stay` state.
    pub fn next(self, transition_chance: u32, rng: &mut Prng) -> (r: WanderingState)
        ensures
            (r, *final(rng)) == self.spec_next(transition_chance, *old(rng)),
            r != (WanderingState { x_dir: WanderDirection::Stay, y_dir: WanderDirection::Stay }),
    {
        let x_dir = self.x_dir.next(transition_chance, rng);
        let y_dir = self.y_dir.next(transition_chance, rng);
        let next = WanderingState { x_dir, y_dir };
        match (x_dir, y_dir) {
            (WanderDirection::Stay, WanderDirection::Stay) => Self::random_moving(rng),
            _ => next,
        }
    }

    /// Draws a fresh wander state, both axes uniform (a reset may land
    /// on any pair, double-`Stay` included).
    pub fn random(rng: &mut Prng) -> (r: WanderingState)
        ensures
            (r, *final(rng)) == spec_random_wandering(*old(rng)),
    {
        let x_dir = WanderDirection::random(rng);
        let y_dir = WanderDirection::random(rng);
        WanderingState { x_dir, y_dir }
    }

    /// Draws a wander state uniformly from the eight moving pairs.
    pub fn random_moving(rng: &mut Prng) -> (r: WanderingState)
        ensures
            (r, *final(rng)) == spec_random_moving(*old(rng)),
            r != (WanderingState { x_dir: WanderDirection::Stay, y_dir: WanderDirection::Stay }),
    {
        let d = rng.below(8);
        let k: u64 = if d >= 4 { d + 1 } else { d };
        let x: u64 = k % 3;
        let y: u64 = k / 3;
        let x_dir = if x == 0 {
            WanderDirection::Up
        } else if x == 1 {
            WanderDirection::Stay
        } else {
            WanderDirection::Down
        };
        let y_dir = if y == 0 {
            WanderDirection::Up
        } else if y == 1 {
            WanderDirection::Stay
        } else {
            WanderDirection::Down
        };
        WanderingState { x_dir, y_dir }
    }
}

} // verus!
