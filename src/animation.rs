use vstd::prelude::*;

use crate::character::Character;
use crate::opponent_behavior::OpponentBehavior;

verus! {

/// The slowest running speed, in thousandths per second, that shows as
/// running.
pub const RUNNING_THRESHOLD: u32 = 10;

/// The animation a character shows. `Running` carries the playback rate in
/// thousandths.
#[derive(Clone, Copy, Debug, PartialEq, Eq, Structural)]
pub enum HumanAnimationState {
    Standing,
    Running(u32),
    Jumping,
    Dead,
    HandsUp,
    Panic,
}

/// The animation for `c`, in order of priority: dead, hands up when it can be
/// intimidated and someone aims at it, panic, jumping, running (played at a
/// tenth of the running speed) or standing.
pub open spec fn animation_for(c: Character, jumping: bool, running_speed: u32) -> HumanAnimationState {
    if c.killable.killed {
        HumanAnimationState::Dead
    } else if c.intimidatable && c.aimed.aimed_at_by is Some {
        HumanAnimationState::HandsUp
    } else if c.behavior matches Some(OpponentBehavior::Panic { .. }) {
        HumanAnimationState::Panic
    } else if jumping {
        HumanAnimationState::Jumping
    } else if running_speed > RUNNING_THRESHOLD {
        HumanAnimationState::Running(running_speed / 10)
    } else {
        HumanAnimationState::Standing
    }
}

/// Chooses the animation for `c` (see `animation_for`), given whether it is
/// jumping and its running speed in thousandths per second.
pub fn choose_animation(c: &Character, jumping: bool, running_speed: u32) -> (r: HumanAnimationState)
    ensures
        r == animation_for(*c, jumping, running_speed),
{
    if c.killable.killed {
        return HumanAnimationState::Dead;
    }
    if c.intimidatable && c.aimed.aimed_at_by.is_some() {
        return HumanAnimationState::HandsUp;
    }
    if let Some(OpponentBehavior::Panic { .. }) = c.behavior {
        return HumanAnimationState::Panic;
    }
    if jumping {
        return HumanAnimationState::Jumping;
    }
    if running_speed > RUNNING_THRESHOLD {
        HumanAnimationState::Running(running_speed / 10)
    } else {
        HumanAnimationState::Standing
    }
}

} // verus!
