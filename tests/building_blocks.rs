use round_robin_rifle::animation::{choose_animation, HumanAnimationState};
use round_robin_rifle::crosshair::update_crosshairs;
use round_robin_rifle::menu::{
    enable_disable_when_in_game_or_not, menu_target, pause_unpause_game, AppState, MenuChoice,
};
use round_robin_rifle::opponent_behavior::OpponentBehavior;
use round_robin_rifle::player::{adjust_aim_elevation, player_shoot_command};
use round_robin_rifle::rifle::{AimElevation, Rifle, RifleHolder, RifleStatus, ShootCommand};
use round_robin_rifle::utils::{entities_ordered_by_type, horizontal, project_by_normal, ReorderItem, Unresolved};
use round_robin_rifle::{Aimedatable, Character, Direction, EntityId, Timer, Vector3};

fn e(n: u64) -> EntityId {
    EntityId(n)
}

#[test]
fn roles_claim_entities_in_order() {
    let bullets = vec![e(5)];
    let victims = vec![e(1), e(2)];
    assert_eq!(entities_ordered_by_type(vec![e(1), e(5)], &vec![bullets.clone(), victims.clone()]), Some(vec![e(5), e(1)]));
    assert_eq!(entities_ordered_by_type(vec![e(5), e(2)], &vec![bullets.clone(), victims.clone()]), Some(vec![e(5), e(2)]));
    assert_eq!(entities_ordered_by_type(vec![e(1), e(2)], &vec![bullets.clone(), victims.clone()]), None);
    assert_eq!(entities_ordered_by_type(vec![e(5), e(9)], &vec![bullets, victims]), None);
}

#[test]
fn one_role_leaves_the_rest_in_place() {
    let rifles = vec![e(100)];
    assert_eq!(entities_ordered_by_type(vec![e(3), e(100)], &vec![rifles.clone()]), Some(vec![e(100), e(3)]));
    assert_eq!(entities_ordered_by_type(vec![e(100), e(100)], &vec![rifles]), Some(vec![e(100), e(100)]));
}

#[test]
fn reorder_item_settles_the_first_match() {
    let u = Some(Unresolved { items: vec![e(1), e(2), e(3)], settled: 0 });
    let r = u.reorder_item(&vec![e(3), e(2)]).unwrap();
    assert_eq!(r.items, vec![e(2), e(1), e(3)]);
    assert_eq!(r.settled, 1);
    let none: Option<Unresolved<EntityId>> = None;
    assert!(none.reorder_item(&vec![e(1)]).is_none());
    let stuck = Some(Unresolved { items: vec![e(1)], settled: 0 });
    assert!(stuck.reorder_item(&vec![e(9)]).is_none());
}

#[test]
fn projection_removes_the_normal_part() {
    let v = Direction { x: 3, y: -7, z: 5 };
    assert_eq!(horizontal(v), Direction { x: 3, y: 0, z: 5 });
    assert_eq!(project_by_normal(v, Direction { x: 0, y: 1, z: 0 }), Direction { x: 3, y: 0, z: 5 });
    assert_eq!(
        project_by_normal(Direction { x: 4, y: 2, z: 0 }, Direction { x: 1, y: 1, z: 0 }),
        Direction { x: 1, y: -1, z: 0 }
    );
    assert_eq!(
        project_by_normal(Direction { x: 1000, y: 0, z: 0 }, Direction { x: 0, y: 2, z: 0 }),
        Direction { x: 1000, y: 0, z: 0 }
    );
    assert_eq!(
        project_by_normal(Direction { x: 1000, y: 30, z: -7 }, Direction { x: 0, y: 2, z: 0 }),
        Direction { x: 1000, y: 0, z: -7 }
    );
}

#[test]
fn projection_rounds_the_normal_part_towards_zero() {
    let n = Direction { x: 1, y: 1, z: 0 };
    assert_eq!(project_by_normal(Direction { x: 1, y: 0, z: 0 }, n), Direction { x: 1, y: 0, z: 0 });
    assert_eq!(project_by_normal(Direction { x: -1, y: 0, z: 0 }, n), Direction { x: -1, y: 0, z: 0 });
    assert_eq!(project_by_normal(Direction { x: -5, y: 0, z: 0 }, n), Direction { x: -3, y: 2, z: 0 });
    let zero = Direction { x: 0, y: 0, z: 0 };
    assert_eq!(project_by_normal(Direction { x: 3, y: 4, z: 5 }, zero), Direction { x: 3, y: 4, z: 5 });
}

#[test]
fn timer_finishes_once() {
    let mut t = Timer::from_micros(1000);
    assert!(!t.tick(400));
    assert!(!t.finished());
    assert!(t.tick(700));
    assert_eq!(t.elapsed, 1000);
    assert!(t.finished());
    assert!(!t.tick(u64::MAX));
    assert_eq!(t.elapsed, 1000);
}

#[test]
fn animation_follows_priorities() {
    let mut c = Character::opponent(e(2), Vector3 { x: 0, y: 0, z: 0 });
    assert_eq!(choose_animation(&c, false, 10), HumanAnimationState::Standing);
    assert_eq!(choose_animation(&c, false, 20_000), HumanAnimationState::Running(2_000));
    assert_eq!(choose_animation(&c, true, 20_000), HumanAnimationState::Jumping);
    c.behavior = Some(OpponentBehavior::Panic {
        run_from: Vector3 { x: 0, y: 0, z: 0 },
        run_direction_in_shooter_coord: Vector3 { x: 1000, y: 0, z: 0 },
    });
    assert_eq!(choose_animation(&c, true, 0), HumanAnimationState::Panic);
    c.aimed = Aimedatable { aimed_at_by: Some(e(1)) };
    assert_eq!(choose_animation(&c, true, 0), HumanAnimationState::HandsUp);
    c.killable.killed = true;
    assert_eq!(choose_animation(&c, true, 0), HumanAnimationState::Dead);
    let mut p = Character::player(e(1), Vector3 { x: 0, y: 0, z: 0 });
    p.aimed = Aimedatable { aimed_at_by: Some(e(2)) };
    assert_eq!(choose_animation(&p, false, 0), HumanAnimationState::Standing);
}

#[test]
fn only_a_running_game_pauses() {
    assert_eq!(pause_unpause_game(AppState::Game, true), Some(AppState::PauseMenu));
    assert_eq!(pause_unpause_game(AppState::Game, false), None);
    assert_eq!(pause_unpause_game(AppState::MainMenu, true), None);
    assert_eq!(pause_unpause_game(AppState::GameOver, true), None);
}

#[test]
fn menu_buttons_lead_to_their_screens() {
    assert_eq!(menu_target(MenuChoice::Start), Some(AppState::LoadLevel));
    assert_eq!(menu_target(MenuChoice::Resume), Some(AppState::Game));
    assert_eq!(menu_target(MenuChoice::Retry), Some(AppState::LoadLevel));
    assert_eq!(menu_target(MenuChoice::MainMenu), Some(AppState::MainMenu));
    assert_eq!(menu_target(MenuChoice::Exit), None);
    assert_eq!(AppState::initial(), AppState::MainMenu);
}

#[test]
fn game_settings_switch_once_per_change() {
    assert_eq!(enable_disable_when_in_game_or_not(None, AppState::MainMenu), Some(false));
    assert_eq!(enable_disable_when_in_game_or_not(Some(false), AppState::PauseMenu), None);
    assert_eq!(enable_disable_when_in_game_or_not(Some(false), AppState::Game), Some(true));
    assert_eq!(enable_disable_when_in_game_or_not(Some(true), AppState::Game), None);
}

#[test]
fn aim_stays_within_limits() {
    let mut aim = AimElevation(0);
    adjust_aim_elevation(&mut aim, 300);
    assert_eq!(aim, AimElevation(300));
    adjust_aim_elevation(&mut aim, 300);
    assert_eq!(aim, AimElevation(500));
    adjust_aim_elevation(&mut aim, i32::MIN);
    assert_eq!(aim, AimElevation(-500));
}

#[test]
fn player_fires_only_with_a_rifle() {
    let cmd = player_shoot_command(e(1), RifleHolder::HasRifle(e(100)), true);
    assert_eq!(cmd, Some(ShootCommand { shooter: e(1), rifle: e(100) }));
    assert_eq!(player_shoot_command(e(1), RifleHolder::HasRifle(e(100)), false), None);
    assert_eq!(player_shoot_command(e(1), RifleHolder::NoRifle, true), None);
}

#[test]
fn aim_is_published_for_the_hit_character_only() {
    let origin = Vector3 { x: 0, y: 0, z: 0 };
    let mut chars = vec![Character::player(e(1), origin), Character::opponent(e(2), origin)];
    chars[0].aimed = Aimedatable { aimed_at_by: Some(e(2)) };
    let rifle = Rifle { entity: e(100), status: RifleStatus::Equiped(e(1)), joint: None };
    assert!(update_crosshairs(&mut chars, &rifle, Some(e(2))));
    assert_eq!(chars[0].aimed.aimed_at_by, None);
    assert_eq!(chars[1].aimed.aimed_at_by, Some(e(1)));
    assert!(update_crosshairs(&mut chars, &rifle, Some(e(50))));
    assert_eq!(chars[1].aimed.aimed_at_by, None);
    let free = Rifle::new_floating(e(100));
    chars[1].aimed = Aimedatable { aimed_at_by: Some(e(1)) };
    assert!(!update_crosshairs(&mut chars, &free, Some(e(2))));
    assert_eq!(chars[1].aimed.aimed_at_by, None);
}
