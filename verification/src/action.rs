//! Actions: the only way behavior affects the world. Emitted during the
//! read-only decision phase, applied in fixed order by the committer.

use vstd::prelude::*;

use crate::cell::PheremoneType;

verus! {

/// A stable reference to an agent slot: the slot index plus the
/// generation token that detects reuse or invalidation.
#[derive(Clone, Copy, Debug, PartialEq, Eq, Structural)]
pub struct AgentHandle {
    pub index: usize,
    pub generation: u64,
}

/// An action that targets a grid cell.
#[derive(Clone, Copy, Debug, PartialEq, Eq, Structural)]
pub enum AntCellAction {
    /// Adds the given intensity (milli-units) to one pheromone channel of
    /// an empty cell.
    LayPheremone(PheremoneType, u32),
    /// Consumes one unit of food from a food cell.
    EatFood,
}

/// An agent-specific action an agent addresses to itself.
#[derive(Clone, Copy, Debug, PartialEq, Eq, Structural)]
pub enum AntEntityAction {
    /// Advances the wander state, or re-rolls it when `reset` is set.
    UpdateWanderState { reset: bool },
    /// Hands carried food over at the anthill.
    DepositFood,
    /// Switches to trail-following with the given last move vector.
    FollowFoodTrail(isize, isize),
}

/// An action an agent addresses to itself.
#[derive(Clone, Copy, Debug, PartialEq, Eq, Structural)]
pub enum SelfAction {
    /// Moves the agent by one step per axis.
    Translate(isize, isize),
    /// One of the agent-specific actions.
    Custom(AntEntityAction),
}

/// A queued cell action with the emitting agent's handle attached.
#[derive(Clone, Copy, Debug, PartialEq, Eq, Structural)]
pub struct CellActionEntry {
    pub source: AgentHandle,
    pub universe_index: usize,
    pub action: AntCellAction,
}

/// A queued self action with the emitting agent's handle attached.
#[derive(Clone, Copy, Debug, PartialEq, Eq, Structural)]
pub struct SelfActionEntry {
    pub source: AgentHandle,
    pub action: SelfAction,
}

/// A queued action that targets a different agent by handle (reserved
/// for inter-agent effects; no foraging behavior emits one, but the
/// protocol carries them).
#[derive(Clone, Copy, Debug, PartialEq, Eq, Structural)]
pub struct EntityActionEntry {
    pub source: AgentHandle,
    pub target: AgentHandle,
    pub action: AntEntityAction,
}

/// The per-kind ordered queues the decision phase fills and the commit
/// phase drains: cell actions, then self actions, then entity actions.
pub struct ActionQueue {
    pub cell_actions: Vec<CellActionEntry>,
    pub self_actions: Vec<SelfActionEntry>,
    pub entity_actions: Vec<EntityActionEntry>,
}

impl ActionQueue {
    /// A queue with nothing in it.
    pub open spec fn spec_is_empty(self) -> bool {
        self.cell_actions@ =~= Seq::<CellActionEntry>::empty()
            && self.self_actions@ =~= Seq::<SelfActionEntry>::empty()
            && self.entity_actions@ =~= Seq::<EntityActionEntry>::empty()
    }

    /// Creates an empty queue.
    pub fn new() -> (r: ActionQueue)
        ensures
            r.cell_actions@ == Seq::<CellActionEntry>::empty(),
            r.self_actions@ == Seq::<SelfActionEntry>::empty(),
            r.entity_actions@ == Seq::<EntityActionEntry>::empty(),
    {
        ActionQueue { cell_actions: Vec::new(), self_actions: Vec::new(), entity_actions: Vec::new() }
    }

    /// Appends one cell action, attaching the emitting agent's handle.
    pub fn emit_cell_action(&mut self, source: AgentHandle, universe_index: usize, action: AntCellAction)
        ensures
            final(self).cell_actions@ == old(self).cell_actions@.push(
                CellActionEntry { source, universe_index, action }),
            final(self).self_actions@ == old(self).self_actions@,
            final(self).entity_actions@ == old(self).entity_actions@,
    {
        self.cell_actions.push(CellActionEntry { source, universe_index, action });
    }

    /// Appends one self action, attaching the emitting agent's handle.
    pub fn emit_self_action(&mut self, source: AgentHandle, action: SelfAction)
        ensures
            final(self).self_actions@ == old(self).self_actions@.push(SelfActionEntry { source, action }),
            final(self).cell_actions@ == old(self).cell_actions@,
            final(self).entity_actions@ == old(self).entity_actions@,
    {
        self.self_actions.push(SelfActionEntry { source, action });
    }

    /// Appends one entity action, attaching the emitting agent's handle.
    pub fn emit_entity_action(&mut self, source: AgentHandle, target: AgentHandle, action: AntEntityAction)
        ensures
            final(self).entity_actions@ == old(self).entity_actions@.push(
                EntityActionEntry { source, target, action }),
            final(self).cell_actions@ == old(self).cell_actions@,
            final(self).self_actions@ == old(self).self_actions@,
    {
        self.entity_actions.push(EntityActionEntry { source, target, action });
    }
}

} // verus!
