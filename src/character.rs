use vstd::prelude::*;

use crate::bumpin::{BumpStatus, Movement};
use crate::crosshair::Aimedatable;
use crate::entity::EntityId;
use crate::geometry::Vector3;
use crate::killing::Killable;
use crate::opponent_behavior::OpponentBehavior;
use crate::rifle::{AimElevation, RifleHolder};

verus! {

/// Everything the rules read or change about one character (the player or an
/// opponent). A character that has been killed keeps its record, with
/// `killable.killed` set; the weapon, bump and behavior rules then leave it out.
#[derive(Clone, Copy, Debug)]
pub struct Character {
    pub entity: EntityId,
    pub is_player: bool,
    pub position: Vector3,
    pub velocity: Vector3,
    pub movement: Movement,
    pub killable: Killable,
    pub holder: RifleHolder,
    pub aim_elevation: AimElevation,
    pub bump: BumpStatus,
    pub bump_initiator: bool,
    pub aimed: Aimedatable,
    pub intimidatable: bool,
    /// Present for computer-controlled opponents only.
    pub behavior: Option<OpponentBehavior>,
}

/// The ground acceleration characters start with, in thousandths.
pub const BASE_ACCELERATION: i32 = 60_000;

/// The air acceleration characters start with, in thousandths.
pub const BASE_AIR_ACCELERATION: i32 = 20_000;

impl Character {
    pub open spec fn fresh(entity: EntityId, is_player: bool, position: Vector3) -> Character {
        Character {
            entity,
            is_player,
            position,
            velocity: Vector3 { x: 0, y: 0, z: 0 },
            movement: Movement {
                acceleration: BASE_ACCELERATION,
                air_acceleration: BASE_AIR_ACCELERATION,
            },
            killable: Killable { killed: false },
            holder: RifleHolder::NoRifle,
            aim_elevation: AimElevation(0),
            bump: BumpStatus::NoBump,
            bump_initiator: is_player,
            aimed: Aimedatable { aimed_at_by: None },
            intimidatable: !is_player,
            behavior: if is_player {
                None
            } else {
                Some(OpponentBehavior::GetRifle)
            },
        }
    }

    /// The player as a level starts: alive, empty-handed, standing still; it
    /// starts bumps and cannot be intimidated.
    pub fn player(entity: EntityId, position: Vector3) -> (r: Character)
        ensures
            r == Character::fresh(entity, true, position),
    {
        Character {
            entity,
            is_player: true,
            position,
            velocity: Vector3 { x: 0, y: 0, z: 0 },
            movement: Movement {
                acceleration: BASE_ACCELERATION,
                air_acceleration: BASE_AIR_ACCELERATION,
            },
            killable: Killable { killed: false },
            holder: RifleHolder::NoRifle,
            aim_elevation: AimElevation(0),
            bump: BumpStatus::NoBump,
            bump_initiator: true,
            aimed: Aimedatable { aimed_at_by: None },
            intimidatable: false,
            behavior: None,
        }
    }

    /// An opponent as a level starts: alive, empty-handed, going for the rifle,
    /// and open to intimidation.
    pub fn opponent(entity: EntityId, position: Vector3) -> (r: Character)
        ensures
            r == Character::fresh(entity, false, position),
    {
        Character {
            entity,
            is_player: false,
            position,
            velocity: Vector3 { x: 0, y: 0, z: 0 },
            movement: Movement {
                acceleration: BASE_ACCELERATION,
                air_acceleration: BASE_AIR_ACCELERATION,
            },
            killable: Killable { killed: false },
            holder: RifleHolder::NoRifle,
            aim_elevation: AimElevation(0),
            bump: BumpStatus::NoBump,
            bump_initiator: false,
            aimed: Aimedatable { aimed_at_by: None },
            intimidatable: true,
            behavior: Some(OpponentBehavior::GetRifle),
        }
    }
}

/// No two records name the same entity.
pub open spec fn unique_entities(chars: Seq<Character>) -> bool {
    forall|i: int, j: int|
        0 <= i < chars.len() && 0 <= j < chars.len() && i != j ==> #[trigger] chars[i].entity
            != #[trigger] chars[j].entity
}

/// Whether some record names `e`.
pub open spec fn has_character(chars: Seq<Character>, e: EntityId) -> bool {
    exists|i: int| 0 <= i < chars.len() && #[trigger] chars[i].entity == e
}

/// The position of the record for `e`, if there is one.
pub fn find_character(chars: &Vec<Character>, e: EntityId) -> (r: Option<usize>)
    ensures
        r matches Some(i) ==> i < chars.len() && chars@[i as int].entity == e,
        r is None ==> !has_character(chars@, e),
{
    let mut i: usize = 0;
    while i < chars.len()
        invariant
            i <= chars.len(),
            forall|j: int| 0 <= j < i ==> chars@[j].entity != e,
        decreases chars.len() - i,
    {
        if chars[i].entity == e {
            return Some(i);
        }
        i = i + 1;
    }
    None
}

/// The position of the record for `e`, when there is one.
pub open spec fn index_of(chars: Seq<Character>, e: EntityId) -> int {
    choose|i: int| 0 <= i < chars.len() && #[trigger] chars[i].entity == e
}

/// With unique entities, the record found for an entity is the one chosen.
pub proof fn lemma_index_of(chars: Seq<Character>, i: int)
    requires
        unique_entities(chars),
        0 <= i < chars.len(),
    ensures
        index_of(chars, chars[i].entity) == i,
        has_character(chars, chars[i].entity),
{
    let e = chars[i].entity;
    assert(chars[i].entity == e);
    let j = index_of(chars, e);
    assert(chars[j].entity == chars[i].entity);
}

} // verus!
