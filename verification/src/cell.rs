//! Grid cells and the pheromone field rules: deposit, cap, and decay.
//!
//! Pheromone intensities are fixed-point integers in milli-units
//! (1000 = one unit of trail signal).

use vstd::prelude::*;

verus! {

/// Pheromone intensities below this value are snapped to exactly zero by
/// decay, so "no trail" comparisons are stable (milli-units: half a unit).
pub const PHEROMONE_ZERO_FLOOR: u32 = 500;

/// The pair of trail intensities an empty cell carries, in milli-units.
#[derive(Clone, Copy, Debug, PartialEq, Eq, Structural)]
pub struct Pheremones {
    pub wandering: u32,
    pub returning: u32,
}

/// Which of the two trail channels a deposit targets.
#[derive(Clone, Copy, Debug, PartialEq, Eq, Structural)]
pub enum PheremoneType {
    Wandering,
    Returning,
}

/// One cell of the world grid.
#[derive(Clone, Copy, Debug, PartialEq, Eq, Structural)]
pub enum AntCellState {
    Empty(Pheremones),
    Barrier,
    Food(usize),
    Anthill,
}

impl Default for Pheremones {
    /// A cell with no trail signal on either channel.
    fn default() -> (r: Pheremones)
        ensures
            r == (Pheremones { wandering: 0, returning: 0 }),
    {
        Pheremones { wandering: 0, returning: 0 }
    }
}

/// One channel after a deposit of `intensity`, capped at `max`.
pub open spec fn deposited_channel(channel: u32, intensity: u32, max: u32) -> u32 {
    if channel + intensity <= max {
        (channel + intensity) as u32
    } else {
        max
    }
}

/// The pheromone pair after a deposit on the given channel, capped at `max`.
pub open spec fn deposit_spec(p: Pheremones, kind: PheremoneType, intensity: u32, max: u32) -> Pheremones {
    match kind {
        PheremoneType::Wandering => Pheremones {
            wandering: deposited_channel(p.wandering, intensity, max),
            ..p
        },
        PheremoneType::Returning => Pheremones {
            returning: deposited_channel(p.returning, intensity, max),
            ..p
        },
    }
}

/// One channel after decay: scaled by `multiplier` per-mille (rounding
/// down), then snapped to zero when the scaled value is below `floor`.
pub open spec fn decayed_channel(channel: u32, multiplier: u32, floor: u32) -> u32 {
    let scaled = ((channel * multiplier) / 1000) as u32;
    if scaled < floor {
        0
    } else {
        scaled
    }
}

/// The pheromone pair after one decay step on both channels.
pub open spec fn decay_spec(p: Pheremones, multiplier: u32, floor: u32) -> Pheremones {
    Pheremones {
        wandering: decayed_channel(p.wandering, multiplier, floor),
        returning: decayed_channel(p.returning, multiplier, floor),
    }
}

/// A cell after a pheromone deposit: only the two channels of an `Empty`
/// cell change; every other cell ignores deposits.
pub open spec fn cell_deposit_spec(c: AntCellState, kind: PheremoneType, intensity: u32, max: u32) -> AntCellState {
    match c {
        AntCellState::Empty(p) => AntCellState::Empty(deposit_spec(p, kind, intensity, max)),
        _ => c,
    }
}

/// A cell after one decay step: only `Empty` cells change.
pub open spec fn cell_decay_spec(c: AntCellState, multiplier: u32, floor: u32) -> AntCellState {
    match c {
        AntCellState::Empty(p) => AntCellState::Empty(decay_spec(p, multiplier, floor)),
        _ => c,
    }
}

/// The scaled channel value never exceeds the original when the
/// multiplier is below one unit (1000 per-mille).
proof fn lemma_scale_le(channel: u32, multiplier: u32)
    requires
        multiplier <= 999,
    ensures
        (channel * multiplier) / 1000 <= channel,
        (channel * multiplier) / 1000 <= u32::MAX,
{
    assert((channel * multiplier) / 1000 <= channel) by (nonlinear_arith)
        requires multiplier <= 999;
}

impl Pheremones {
    /// Whether both channels are within the configured cap.
    pub open spec fn capped(self, max: u32) -> bool {
        self.wandering <= max && self.returning <= max
    }

    /// Adds `intensity` to the named channel, clamping the result at `max`.
    pub fn deposit(&mut self, kind: PheremoneType, intensity: u32, max: u32)
        ensures
            *final(self) == deposit_spec(*old(self), kind, intensity, max),
    {
        match kind {
            PheremoneType::Wandering => {
                let sum: u64 = self.wandering as u64 + intensity as u64;
                let capped: u64 = if sum <= max as u64 { sum } else { max as u64 };
                self.wandering = capped as u32;
            },
            PheremoneType::Returning => {
                let sum: u64 = self.returning as u64 + intensity as u64;
                let capped: u64 = if sum <= max as u64 { sum } else { max as u64 };
                self.returning = capped as u32;
            },
        }
    }

    /// Scales both channels by `multiplier` per-mille and snaps values
    /// below `floor` to exactly zero.
    pub fn decay(&mut self, multiplier: u32, floor: u32)
        requires
            multiplier <= 999,
        ensures
            *final(self) == decay_spec(*old(self), multiplier, floor),
    {
        proof {
            lemma_scale_le(self.wandering, multiplier);
            lemma_scale_le(self.returning, multiplier);
        }
        let w: u32 = ((self.wandering as u64 * multiplier as u64) / 1000) as u32;
        let r: u32 = ((self.returning as u64 * multiplier as u64) / 1000) as u32;
        self.wandering = if w < floor { 0 } else { w };
        self.returning = if r < floor { 0 } else { r };
    }
}

impl AntCellState {
    /// Whether an agent may stand on this cell: everything but a barrier.
    pub open spec fn spec_traversable(self) -> bool {
        !(self is Barrier)
    }

    /// Whether an agent may stand on this cell.
    pub fn is_traversable(&self) -> (r: bool)
        ensures
            r == self.spec_traversable(),
    {
        match self {
            AntCellState::Barrier => false,
            _ => true,
        }
    }
}

/// A deposit keeps both channels within `[0, max]`: the targeted channel
/// is clamped at `max`, the other one is untouched.
pub proof fn lemma_deposit_capped(p: Pheremones, kind: PheremoneType, intensity: u32, max: u32)
    requires
        p.capped(max),
    ensures
        deposit_spec(p, kind, intensity, max).capped(max),
{
}

/// A run of deposits, applied left to right.
pub open spec fn deposits_spec(p: Pheremones, ops: Seq<(PheremoneType, u32)>, max: u32) -> Pheremones
    decreases ops.len(),
{
    if ops.len() == 0 {
        p
    } else {
        deposits_spec(deposit_spec(p, ops[0].0, ops[0].1, max), ops.skip(1), max)
    }
}

/// Both intensities remain within `[0, max]` after any number of deposit
/// operations, starting from any capped pheromone pair.
pub proof fn lemma_deposits_stay_capped(p: Pheremones, ops: Seq<(PheremoneType, u32)>, max: u32)
    requires
        p.capped(max),
    ensures
        deposits_spec(p, ops, max).capped(max),
    decreases ops.len(),
{
    if ops.len() > 0 {
        lemma_deposit_capped(p, ops[0].0, ops[0].1, max);
        lemma_deposits_stay_capped(deposit_spec(p, ops[0].0, ops[0].1, max), ops.skip(1), max);
    }
}

/// Decay never increases either channel, and a channel already below the
/// zero floor becomes exactly zero.
pub proof fn lemma_decay_monotone(p: Pheremones, multiplier: u32, floor: u32)
    requires
        multiplier <= 999,
    ensures
        decay_spec(p, multiplier, floor).wandering <= p.wandering,
        decay_spec(p, multiplier, floor).returning <= p.returning,
        p.wandering < floor ==> decay_spec(p, multiplier, floor).wandering == 0,
        p.returning < floor ==> decay_spec(p, multiplier, floor).returning == 0,
{
    lemma_scale_le(p.wandering, multiplier);
    lemma_scale_le(p.returning, multiplier);
}

/// Decay is idempotent in direction: a second application never increases
/// either channel beyond the first.
pub proof fn lemma_decay_repeated(p: Pheremones, multiplier: u32, floor: u32)
    requires
        multiplier <= 999,
    ensures
        decay_spec(decay_spec(p, multiplier, floor), multiplier, floor).wandering
            <= decay_spec(p, multiplier, floor).wandering,
        decay_spec(decay_spec(p, multiplier, floor), multiplier, floor).returning
            <= decay_spec(p, multiplier, floor).returning,
{
    lemma_decay_monotone(decay_spec(p, multiplier, floor), multiplier, floor);
}

} // verus!
