//! The rules of a small arena shooter, kept apart from the engine that runs it:
//! who holds the single rifle and when it may be taken again, how characters
//! stagger when they bump into each other, how bullets eliminate characters and
//! end the match, and how computer-controlled opponents decide what to do.
//!
//! Everything here works on plain values. Entities are numbered, times are whole
//! microseconds, and lengths, speeds and angles are whole thousandths of a world
//! unit (or of a radian). Floating-point geometry stays with the engine, which
//! hands these functions what it measured and applies what they return.

pub mod animation;
pub mod bumpin;
pub mod character;
pub mod crosshair;
pub mod entity;
pub mod geometry;
pub mod killing;
pub mod menu;
pub mod opponent_behavior;
pub mod player;
pub mod rifle;
pub mod score;
pub mod timer;
pub mod utils;

pub use animation::{choose_animation, HumanAnimationState};
pub use bumpin::{apply_bumpin, detect_bumpin, AccelerationRestoration, BumpStatus, Contact, Movement};
pub use character::{find_character, Character};
pub use crosshair::{update_crosshairs, Aimedatable};
pub use entity::{CollisionEvent, EntityId};
pub use geometry::{Direction, Vector3};
pub use killing::{handle_bullet_hits, Bullet, KillReport, Killable};
pub use menu::{
    enable_disable_when_in_game_or_not, menu_target, pause_unpause_game, AppState, MenuChoice,
};
pub use opponent_behavior::{
    decide_what_to_do, process_behavior, BehaviorAction, Followup, OpponentBehavior,
};
pub use player::{adjust_aim_elevation, player_shoot_command};
pub use rifle::{
    handle_rifle_collisions, handle_shooting, pose_rifle, AimElevation, Jitter, Rifle, RifleHolder, RifleJoint, RifleMotion,
    RifleStatus, ShootCommand,
};
pub use score::{count_remaining, ScoreHaver, Scorer};
pub use timer::Timer;
pub use utils::{
    entities_ordered_by_type, horizontal, project_by_normal, table_contains, ReorderItem,
    Unresolved, NORMAL_LIMIT, PROJECTED_LIMIT,
};
