use vstd::prelude::*;

verus! {

/// A stable number naming one entity of the world (a character, the rifle, a
/// bullet, a piece of the arena).
#[derive(Clone, Copy, Debug, PartialEq, Eq, Hash, Structural)]
pub struct EntityId(pub u64);

/// Two entities that started touching during the last physics step.
#[derive(Clone, Copy, Debug, PartialEq, Eq, Structural)]
pub struct CollisionEvent {
    pub first: EntityId,
    pub second: EntityId,
}

} // verus!
