use vstd::prelude::*;

use crate::character::Character;
use crate::entity::EntityId;
use crate::rifle::{Rifle, RifleStatus};

verus! {

/// Which character, if any, is aiming the rifle at this one during the current
/// step.
#[derive(Clone, Copy, Debug, PartialEq, Eq, Structural)]
pub struct Aimedatable {
    pub aimed_at_by: Option<EntityId>,
}

/// Who aims at `c` after the aim of this step is published: the holder of the
/// rifle, when the ray cast forward from the rifle first hit `c` (other than
/// the holder or the rifle); nobody otherwise.
pub open spec fn aimed_at_after(c: Character, rifle: Rifle, hit: Option<EntityId>) -> Option<EntityId> {
    match rifle.status {
        RifleStatus::Equiped(holder) => if hit == Some(c.entity) && c.entity != holder && c.entity
            != rifle.entity {
            Some(holder)
        } else {
            None
        },
        _ => None,
    }
}

/// Clears last step's aim records and publishes this step's: `hit` is the
/// first body the ray cast forward from the rifle met. Returns whether the
/// crosshair shows (the rifle is held and the ray hit something).
pub fn update_crosshairs(chars: &mut Vec<Character>, rifle: &Rifle, hit: Option<EntityId>) -> (r:
    bool)
    ensures
        final(chars)@.len() == old(chars)@.len(),
        forall|i: int|
            0 <= i < old(chars)@.len() ==> #[trigger] final(chars)@[i] == (Character {
                aimed: Aimedatable { aimed_at_by: aimed_at_after(old(chars)@[i], *rifle, hit) },
                ..old(chars)@[i]
            }),
        r == (rifle.status is Equiped && hit is Some),
{
    let mut k: usize = 0;
    while k < chars.len()
        invariant
            k <= chars.len() == old(chars)@.len(),
            forall|i: int|
                0 <= i < k ==> #[trigger] chars@[i] == (Character {
                    aimed: Aimedatable { aimed_at_by: aimed_at_after(old(chars)@[i], *rifle, hit) },
                    ..old(chars)@[i]
                }),
            forall|i: int| k <= i < chars.len() ==> #[trigger] chars@[i] == old(chars)@[i],
        decreases chars.len() - k,
    {
        let c = chars[k];
        let aimed_at_by = match rifle.status {
            RifleStatus::Equiped(holder) => {
                if hit == Some(c.entity) && c.entity != holder && c.entity != rifle.entity {
                    Some(holder)
                } else {
                    None
                }
            },
            _ => None,
        };
        chars[k] = Character { aimed: Aimedatable { aimed_at_by }, ..c };
        k = k + 1;
    }
    match rifle.status {
        RifleStatus::Equiped(_) => hit.is_some(),
        _ => false,
    }
}

} // verus!
