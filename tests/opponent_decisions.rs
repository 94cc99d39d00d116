use round_robin_rifle::opponent_behavior::{
    decide_what_to_do, process_behavior, BehaviorAction, Followup, OpponentBehavior,
};
use round_robin_rifle::rifle::{Rifle, RifleHolder, RifleStatus, ShootCommand};
use round_robin_rifle::{Aimedatable, Character, Direction, EntityId, Timer, Vector3};

const P: EntityId = EntityId(1);
const O: EntityId = EntityId(2);
const C: EntityId = EntityId(3);
const RIFLE: EntityId = EntityId(100);

fn at(x: i32, z: i32) -> Vector3 {
    Vector3 { x, y: 0, z }
}

fn held_by(holder: EntityId) -> Rifle {
    Rifle { entity: RIFLE, status: RifleStatus::Equiped(holder), joint: None }
}

fn free_rifle() -> Rifle {
    Rifle::new_floating(RIFLE)
}

fn world() -> Vec<Character> {
    vec![Character::player(P, at(0, 0)), Character::opponent(O, at(40_000, 0))]
}

fn escapes(n: usize, v: Vector3) -> Vec<Vector3> {
    vec![v; n]
}

fn step(chars: &mut Vec<Character>, rifle: &Rifle, delta: u64, escape: Vector3) {
    let e = escapes(chars.len(), escape);
    decide_what_to_do(chars, rifle, at(0, 0), delta, &e);
}

#[test]
fn aimed_at_by_player_raises_hands_instead_of_panicking() {
    let mut chars = world();
    chars[1].position = at(5_000, 0);
    chars[1].aimed = Aimedatable { aimed_at_by: Some(P) };
    step(&mut chars, &held_by(P), 16_000, at(1000, 0));
    assert_eq!(chars[1].behavior, Some(OpponentBehavior::HandsUp { aimed_at_by: P }));
    assert_eq!(chars[0].behavior, None);
}

#[test]
fn panic_keeps_its_escape_direction() {
    let mut chars = world();
    let rifle = held_by(P);
    step(&mut chars, &rifle, 16_000, at(900, -400));
    assert_eq!(
        chars[1].behavior,
        Some(OpponentBehavior::Panic { run_from: at(0, 0), run_direction_in_shooter_coord: at(900, -400) })
    );
    chars[0].position = at(3_000, 7_000);
    step(&mut chars, &rifle, 16_000, at(-1000, 0));
    assert_eq!(
        chars[1].behavior,
        Some(OpponentBehavior::Panic {
            run_from: at(3_000, 7_000),
            run_direction_in_shooter_coord: at(900, -400)
        })
    );
    chars[0].position = at(-2_000, 1_000);
    step(&mut chars, &rifle, 16_000, at(0, 1000));
    assert_eq!(
        chars[1].behavior,
        Some(OpponentBehavior::Panic {
            run_from: at(-2_000, 1_000),
            run_direction_in_shooter_coord: at(900, -400)
        })
    );
}

#[test]
fn close_aimer_who_is_not_the_player_is_no_threat() {
    let mut chars = vec![
        Character::player(P, at(0, 0)),
        Character::opponent(O, at(40_000, 0)),
        Character::opponent(C, at(41_000, 0)),
    ];
    chars[1].aimed = Aimedatable { aimed_at_by: Some(C) };
    step(&mut chars, &held_by(C), 16_000, at(1000, 0));
    assert_eq!(
        chars[1].behavior,
        Some(OpponentBehavior::Panic { run_from: at(41_000, 0), run_direction_in_shooter_coord: at(1000, 0) })
    );
}

#[test]
fn hands_down_after_a_pause() {
    let mut chars = world();
    chars[1].behavior = Some(OpponentBehavior::HandsUp { aimed_at_by: P });
    let rifle = held_by(P);
    step(&mut chars, &rifle, 16_000, at(1000, 0));
    assert_eq!(
        chars[1].behavior,
        Some(OpponentBehavior::WaitBefore { timer: Timer { duration: 1_000_000, elapsed: 0 }, followup: None })
    );
    step(&mut chars, &rifle, 600_000, at(1000, 0));
    assert_eq!(
        chars[1].behavior,
        Some(OpponentBehavior::WaitBefore {
            timer: Timer { duration: 1_000_000, elapsed: 600_000 },
            followup: None
        })
    );
    step(&mut chars, &rifle, 600_000, at(0, 1000));
    assert_eq!(
        chars[1].behavior,
        Some(OpponentBehavior::Panic { run_from: at(0, 0), run_direction_in_shooter_coord: at(0, 1000) })
    );
}

#[test]
fn holder_aiming_at_a_far_target_shoots_after_a_delay() {
    let mut chars = world();
    chars[1].holder = RifleHolder::HasRifle(RIFLE);
    chars[0].aimed = Aimedatable { aimed_at_by: Some(O) };
    let rifle = held_by(O);
    step(&mut chars, &rifle, 16_000, at(1000, 0));
    assert_eq!(
        chars[1].behavior,
        Some(OpponentBehavior::wait_before(1_000_000, Followup::Shoot { rifle: RIFLE }))
    );
    step(&mut chars, &rifle, 1_000_000, at(1000, 0));
    assert_eq!(chars[1].behavior, Some(OpponentBehavior::Shoot { rifle: RIFLE }));
    let action = process_behavior(&chars, 1, at(0, 0), at(0, 0), &vec![0, 0]);
    assert_eq!(
        action,
        Some(BehaviorAction {
            desired_velocity: None,
            desired_forward: None,
            fire: Some(ShootCommand { shooter: O, rifle: RIFLE }),
        })
    );
}

#[test]
fn holder_aiming_at_a_close_target_keeps_looking() {
    let mut chars = world();
    chars[1].position = at(10_000, 0);
    chars[0].aimed = Aimedatable { aimed_at_by: Some(O) };
    let rifle = held_by(O);
    step(&mut chars, &rifle, 16_000, at(1000, 0));
    assert_eq!(chars[1].behavior, Some(OpponentBehavior::wait_before(1_000_000, Followup::FindTarget)));
    step(&mut chars, &rifle, 1_000_000, at(1000, 0));
    assert_eq!(chars[1].behavior, Some(OpponentBehavior::FindTarget));
    step(&mut chars, &rifle, 16_000, at(1000, 0));
    assert_eq!(chars[1].behavior, Some(OpponentBehavior::FindTarget));
}

#[test]
fn after_shooting_the_opponent_goes_back_for_the_rifle() {
    let mut chars = world();
    chars[1].behavior = Some(OpponentBehavior::Shoot { rifle: RIFLE });
    step(&mut chars, &free_rifle(), 16_000, at(1000, 0));
    assert_eq!(chars[1].behavior, Some(OpponentBehavior::wait_before(1_000_000, Followup::GetRifle)));
    step(&mut chars, &free_rifle(), 1_000_000, at(1000, 0));
    assert_eq!(chars[1].behavior, Some(OpponentBehavior::GetRifle));
    chars[1].behavior = Some(OpponentBehavior::FindTarget);
    step(&mut chars, &free_rifle(), 16_000, at(1000, 0));
    assert_eq!(chars[1].behavior, Some(OpponentBehavior::GetRifle));
}

#[test]
fn dead_opponents_do_not_decide_or_act() {
    let mut chars = world();
    chars[1].killable.killed = true;
    step(&mut chars, &held_by(P), 16_000, at(1000, 0));
    assert_eq!(chars[1].behavior, Some(OpponentBehavior::GetRifle));
    assert_eq!(process_behavior(&chars, 1, at(0, 0), at(0, 0), &vec![0, 0]), None);
    assert_eq!(process_behavior(&chars, 0, at(0, 0), at(0, 0), &vec![0, 0]), None);
}

#[test]
fn getting_the_rifle_heads_for_it_horizontally() {
    let chars = world();
    let action = process_behavior(&chars, 1, Vector3 { x: 1_000, y: 3_000, z: -2_000 }, at(0, 0), &vec![0, 0]);
    let d = Direction { x: -39_000, y: 0, z: -2_000 };
    assert_eq!(
        action,
        Some(BehaviorAction { desired_velocity: Some(d), desired_forward: Some(d), fire: None })
    );
}

#[test]
fn finding_a_target_picks_the_smallest_angle() {
    let mut chars = vec![
        Character::player(P, at(0, 0)),
        Character::opponent(O, at(40_000, 0)),
        Character::opponent(C, at(40_000, 30_000)),
        Character::opponent(EntityId(4), at(40_000, -30_000)),
        Character::opponent(EntityId(5), at(41_000, 0)),
    ];
    chars[1].behavior = Some(OpponentBehavior::FindTarget);
    chars[3].killable.killed = true;
    let muzzle = at(40_000, 650);
    let angles = vec![300, 0, 200, 50, 10];
    let action = process_behavior(&chars, 1, at(0, 0), muzzle, &angles).unwrap();
    assert_eq!(action.desired_velocity, Some(Direction { x: 0, y: 0, z: 0 }));
    assert_eq!(action.desired_forward, Some(Direction { x: 0, y: 0, z: 29_350 }));
    let tie = vec![200, 0, 200, 50, 10];
    let action = process_behavior(&chars, 1, at(0, 0), muzzle, &tie).unwrap();
    assert_eq!(action.desired_forward, Some(Direction { x: -40_000, y: 0, z: -650 }));
}

#[test]
fn finding_no_target_keeps_the_facing() {
    let mut chars = world();
    chars[1].behavior = Some(OpponentBehavior::FindTarget);
    chars[0].killable.killed = true;
    let action = process_behavior(&chars, 1, at(0, 0), at(40_000, 650), &vec![0, 0]).unwrap();
    assert_eq!(action.desired_forward, None);
    assert_eq!(action.desired_velocity, Some(Direction { x: 0, y: 0, z: 0 }));
}

#[test]
fn hands_up_faces_the_aimer() {
    let mut chars = world();
    chars[1].behavior = Some(OpponentBehavior::HandsUp { aimed_at_by: P });
    let action = process_behavior(&chars, 1, at(0, 0), at(0, 0), &vec![0, 0]).unwrap();
    assert_eq!(action.desired_velocity, Some(Direction { x: 0, y: 0, z: 0 }));
    assert_eq!(action.desired_forward, Some(Direction { x: -40_000, y: 0, z: 0 }));
    chars[1].behavior = Some(OpponentBehavior::HandsUp { aimed_at_by: EntityId(77) });
    let action = process_behavior(&chars, 1, at(0, 0), at(0, 0), &vec![0, 0]).unwrap();
    assert_eq!(action.desired_forward, Some(Direction { x: 0, y: 0, z: 0 }));
}

#[test]
fn panic_runs_sideways_from_the_danger() {
    let mut chars = world();
    chars[1].position = Vector3 { x: 10_000, y: 500, z: 0 };
    chars[1].behavior = Some(OpponentBehavior::Panic {
        run_from: at(0, 0),
        run_direction_in_shooter_coord: at(1000, 0),
    });
    let action = process_behavior(&chars, 1, at(0, 0), at(0, 0), &vec![0, 0]).unwrap();
    let d = Direction { x: 0, y: 0, z: 10_000_000 };
    assert_eq!(action.desired_velocity, Some(d));
    assert_eq!(action.desired_forward, Some(d));
    chars[1].behavior = Some(OpponentBehavior::Panic {
        run_from: at(0, 0),
        run_direction_in_shooter_coord: at(0, -1000),
    });
    let action = process_behavior(&chars, 1, at(0, 0), at(0, 0), &vec![0, 0]).unwrap();
    assert_eq!(action.desired_velocity, Some(Direction { x: 10_000_000, y: 0, z: 0 }));
}

#[test]
fn waiting_freezes_the_opponent() {
    let mut chars = world();
    chars[1].behavior = Some(OpponentBehavior::wait(1_000_000));
    let action = process_behavior(&chars, 1, at(0, 0), at(0, 0), &vec![0, 0]).unwrap();
    let zero = Direction { x: 0, y: 0, z: 0 };
    assert_eq!(action, BehaviorAction { desired_velocity: Some(zero), desired_forward: Some(zero), fire: None });
}

#[test]
fn follow_up_is_decided_on_when_the_delay_ends() {
    let mut chars = world();
    chars[1].behavior = Some(OpponentBehavior::wait_before(1_000_000, Followup::Shoot { rifle: RIFLE }));
    step(&mut chars, &free_rifle(), 1_000_000, at(1000, 0));
    assert_eq!(chars[1].behavior, Some(OpponentBehavior::wait_before(1_000_000, Followup::GetRifle)));
    chars[1].behavior = Some(OpponentBehavior::wait_before(1_000_000, Followup::GetRifle));
    step(&mut chars, &held_by(P), 1_000_000, at(0, -1000));
    assert_eq!(
        chars[1].behavior,
        Some(OpponentBehavior::Panic { run_from: at(0, 0), run_direction_in_shooter_coord: at(0, -1000) })
    );
    chars[1].behavior = Some(OpponentBehavior::wait_before(1_000_000, Followup::GetRifle));
    step(&mut chars, &free_rifle(), 1_000_000, at(1000, 0));
    assert_eq!(chars[1].behavior, Some(OpponentBehavior::GetRifle));
}

#[test]
fn shooting_again_waits_for_the_delay() {
    let mut chars = world();
    chars[1].behavior = Some(OpponentBehavior::Shoot { rifle: RIFLE });
    chars[0].aimed = Aimedatable { aimed_at_by: Some(O) };
    step(&mut chars, &held_by(O), 16_000, at(1000, 0));
    assert_eq!(
        chars[1].behavior,
        Some(OpponentBehavior::wait_before(1_000_000, Followup::Shoot { rifle: RIFLE }))
    );
}
