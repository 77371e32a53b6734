//! A discrete-time, grid-based multi-agent foraging simulation.
//!
//! A colony of ants explores a bounded square world, finds food, and carries
//! it home, coordinating through two decaying pheromone trails. The crate
//! provides the per-tick decision/apply engine: the agent behavior state
//! machine, weighted-random movement, the pheromone field (deposit, cap,
//! decay), and the deferred action-commit protocol.
//!
//! All intensities and weights are fixed-point integers in milli-units
//! (1000 = one unit), so every rule of the engine is exact integer
//! arithmetic.

pub mod action;
pub mod behavior;
pub mod cell;
pub mod color;
pub mod engine;
pub mod entity;
pub mod error;
pub mod generator;
pub mod grid;
pub mod laws;
pub mod conf;
pub mod decide;
pub mod rng;
pub mod store;

pub use action::ActionQueue;
pub use action::AgentHandle;
pub use action::AntCellAction;
pub use action::AntEntityAction;
pub use action::SelfAction;
pub use cell::AntCellState;
pub use cell::Pheremones;
pub use cell::PheremoneType;
pub use color::Color;
pub use conf::UserConf;
pub use engine::AntEngine;
pub use entity::AntEntity;
pub use entity::AntEntityState;
pub use entity::AntMutEntityState;
pub use entity::WanderDirection;
pub use entity::WanderingState;
pub use error::AntError;
pub use generator::AntUniverseGenerator;
pub use generator::init_universe;
pub use grid::Grid;
pub use rng::Prng;
pub use store::AgentStore;
