//! The engine's named numeric parameters.
//!
//! All weights, intensities and thresholds are fixed-point integers in
//! milli-units (1000 = one unit); bias multipliers are per-mille factors
//! (1000 = x1); the wander transition chance is in hundredths of a percent
//! (10000 = certain). The well-formedness bounds below are what the
//! engine's overflow-freedom proofs rest on.

use vstd::prelude::*;

verus! {

/// Largest accepted base weight or pheromone cap (milli-units).
pub const MAX_BASE_WEIGHT: u64 = 1000000;

/// Largest accepted bias multiplier (per-mille; a factor of ten).
pub const MAX_BIAS: u32 = 10000;

/// Trail-loss cutoff for an agent following a trail (milli-units): when
/// every visible weight falls below this, the trail counts as lost.
pub const FOLLOWING_LOSS_THRESHOLD: u64 = 6000;

/// The flat set of named parameters that drive world generation, agent
/// behavior and the pheromone environment.
#[derive(Clone, Copy, Debug, PartialEq, Eq, Structural)]
pub struct UserConf {
    // universe generation
    pub ant_count: usize,
    pub food_patch_count: usize,
    pub food_patch_size: usize,
    pub food_patch_size_variance: usize,
    pub food_patch_capacity: usize,
    pub barrier_patch_count: usize,
    pub barrier_patch_size: usize,
    // ant behavior
    pub wander_transition_chance_percent: u32,
    pub anthill_attraction_pos_bias: u32,
    pub anthill_attraction_neg_bias: u32,
    pub returning_maintain_pos_bias: u32,
    pub returning_maintain_neg_bias: u32,
    pub returning_wander_threshold: u64,
    pub following_pos_bias: u32,
    pub following_neg_bias: u32,
    pub base_wandering_weight: u64,
    pub base_following_weight: u64,
    pub base_returning_weight: u64,
    pub scout_pursuit_cutoff: u64,
    // environment
    pub pheremone_decay_interval: u64,
    pub pheremone_decay_multiplier: u32,
    pub pheromone_max: u32,
}

impl UserConf {
    /// The bounds a configuration must satisfy before the engine accepts
    /// it: weights and the pheromone cap small enough that no weight
    /// computation can overflow, biases positive and at most a factor of
    /// ten, a strictly fractional decay multiplier, a positive
    /// decay cadence, thresholds positive, the transition chance a valid
    /// percentage, a bounded colony and food patches that hold food.
    pub open spec fn wf(self) -> bool {
        &&& self.ant_count <= 1000000
        &&& 1 <= self.food_patch_capacity
        &&& self.food_patch_size <= 100000
        &&& self.food_patch_size_variance <= 100000
        &&& self.barrier_patch_size <= 100000
        &&& self.wander_transition_chance_percent <= 10000
        &&& 1 <= self.anthill_attraction_pos_bias <= MAX_BIAS
        &&& 1 <= self.anthill_attraction_neg_bias <= MAX_BIAS
        &&& 1 <= self.returning_maintain_pos_bias <= MAX_BIAS
        &&& 1 <= self.returning_maintain_neg_bias <= MAX_BIAS
        &&& 1 <= self.returning_wander_threshold
        &&& 1 <= self.following_pos_bias <= MAX_BIAS
        &&& 1 <= self.following_neg_bias <= MAX_BIAS
        &&& self.base_wandering_weight <= MAX_BASE_WEIGHT
        &&& self.base_following_weight <= MAX_BASE_WEIGHT
        &&& self.base_returning_weight <= MAX_BASE_WEIGHT
        &&& 1 <= self.scout_pursuit_cutoff
        &&& 1 <= self.pheremone_decay_interval
        &&& 1 <= self.pheremone_decay_multiplier <= 999
        &&& self.pheromone_max <= MAX_BASE_WEIGHT as u32
    }

    /// The default configuration.
    pub open spec fn spec_default() -> UserConf {
        UserConf {
            ant_count: 80,
            food_patch_count: 248,
            food_patch_size: 27,
            food_patch_size_variance: 3,
            food_patch_capacity: 5,
            barrier_patch_count: 44,
            barrier_patch_size: 128,
            wander_transition_chance_percent: 425,
            anthill_attraction_pos_bias: 1200,
            anthill_attraction_neg_bias: 900,
            returning_maintain_pos_bias: 2500,
            returning_maintain_neg_bias: 300,
            returning_wander_threshold: 1000,
            following_pos_bias: 2000,
            following_neg_bias: 500,
            base_wandering_weight: 1000,
            base_following_weight: 1000,
            base_returning_weight: 1000,
            scout_pursuit_cutoff: 3000,
            pheremone_decay_interval: 250,
            pheremone_decay_multiplier: 800,
            pheromone_max: 15000,
        }
    }

    /// Whether this configuration satisfies the engine's bounds.
    pub fn validate(&self) -> (r: bool)
        ensures
            r == self.wf(),
    {
        self.ant_count <= 1000000
            && 1 <= self.food_patch_capacity
            && self.food_patch_size <= 100000
            && self.food_patch_size_variance <= 100000
            && self.barrier_patch_size <= 100000
            && self.wander_transition_chance_percent <= 10000
            && 1 <= self.anthill_attraction_pos_bias && self.anthill_attraction_pos_bias <= MAX_BIAS
            && 1 <= self.anthill_attraction_neg_bias && self.anthill_attraction_neg_bias <= MAX_BIAS
            && 1 <= self.returning_maintain_pos_bias && self.returning_maintain_pos_bias <= MAX_BIAS
            && 1 <= self.returning_maintain_neg_bias && self.returning_maintain_neg_bias <= MAX_BIAS
            && 1 <= self.returning_wander_threshold
            && 1 <= self.following_pos_bias && self.following_pos_bias <= MAX_BIAS
            && 1 <= self.following_neg_bias && self.following_neg_bias <= MAX_BIAS
            && self.base_wandering_weight <= MAX_BASE_WEIGHT
            && self.base_following_weight <= MAX_BASE_WEIGHT
            && self.base_returning_weight <= MAX_BASE_WEIGHT
            && 1 <= self.scout_pursuit_cutoff
            && 1 <= self.pheremone_decay_interval
            && 1 <= self.pheremone_decay_multiplier && self.pheremone_decay_multiplier <= 999
            && self.pheromone_max as u64 <= MAX_BASE_WEIGHT
    }
}

impl Default for UserConf {
    /// The default configuration; it satisfies the engine's bounds.
    fn default() -> (r: UserConf)
        ensures
            r == UserConf::spec_default(),
            r.wf(),
    {
        UserConf {
            ant_count: 80,
            food_patch_count: 248,
            food_patch_size: 27,
            food_patch_size_variance: 3,
            food_patch_capacity: 5,
            barrier_patch_count: 44,
            barrier_patch_size: 128,
            wander_transition_chance_percent: 425,
            anthill_attraction_pos_bias: 1200,
            anthill_attraction_neg_bias: 900,
            returning_maintain_pos_bias: 2500,
            returning_maintain_neg_bias: 300,
            returning_wander_threshold: 1000,
            following_pos_bias: 2000,
            following_neg_bias: 500,
            base_wandering_weight: 1000,
            base_following_weight: 1000,
            base_returning_weight: 1000,
            scout_pursuit_cutoff: 3000,
            pheremone_decay_interval: 250,
            pheremone_decay_multiplier: 800,
            pheromone_max: 15000,
        }
    }
}

} // verus!
