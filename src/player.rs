use vstd::prelude::*;

use crate::entity::EntityId;
use crate::rifle::{AimElevation, RifleHolder, ShootCommand};

verus! {

/// How far up or down a character can aim, in thousandths of a radian.
pub const AIM_ELEVATION_LIMIT: i32 = 500;

pub open spec fn clamped_aim(v: int) -> int {
    if v > AIM_ELEVATION_LIMIT {
        AIM_ELEVATION_LIMIT as int
    } else if v < -AIM_ELEVATION_LIMIT {
        -AIM_ELEVATION_LIMIT
    } else {
        v
    }
}

/// Turns the aim up or down by `change`, within the limits.
pub fn adjust_aim_elevation(aim: &mut AimElevation, change: i32)
    ensures
        final(aim).0 == clamped_aim(old(aim).0 + change),
{
    let v: i64 = aim.0 as i64 + change as i64;
    aim.0 = if v > AIM_ELEVATION_LIMIT as i64 {
        AIM_ELEVATION_LIMIT
    } else if v < -(AIM_ELEVATION_LIMIT as i64) {
        -AIM_ELEVATION_LIMIT
    } else {
        v as i32
    };
}

/// The fire command the player issues: only when the trigger was just pressed
/// and the player holds a rifle.
pub fn player_shoot_command(player: EntityId, holder: RifleHolder, just_pressed: bool) -> (r:
    Option<ShootCommand>)
    ensures
        r == (match holder {
            RifleHolder::HasRifle(rifle) => if just_pressed {
                Some(ShootCommand { shooter: player, rifle })
            } else {
                None
            },
            RifleHolder::NoRifle => None,
        }),
{
    match holder {
        RifleHolder::HasRifle(rifle) => if just_pressed {
            Some(ShootCommand { shooter: player, rifle })
        } else {
            None
        },
        RifleHolder::NoRifle => None,
    }
}

} // verus!
