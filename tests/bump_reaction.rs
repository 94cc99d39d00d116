use round_robin_rifle::bumpin::{
    apply_bumpin, detect_bumpin, AccelerationRestoration, BumpStatus, Contact,
};
use round_robin_rifle::{Character, CollisionEvent, EntityId, Timer, Vector3};

const P: EntityId = EntityId(1);
const O: EntityId = EntityId(2);
const WALL: EntityId = EntityId(3);

fn pair() -> Vec<Character> {
    vec![
        Character::player(P, Vector3 { x: 0, y: 0, z: 0 }),
        Character::opponent(O, Vector3 { x: 1000, y: 0, z: 0 }),
    ]
}

fn contact_from_player() -> Option<Contact> {
    Some(Contact { normal: Vector3 { x: 1000, y: 0, z: 0 }, collider1: P })
}

#[test]
fn bump_pushes_both_parties_apart() {
    let mut chars = pair();
    detect_bumpin(
        &vec![CollisionEvent { first: O, second: P }],
        &vec![contact_from_player()],
        &mut chars,
    );
    assert_eq!(chars[0].bump, BumpStatus::TriggerBump { impulse: Vector3 { x: -20_000, y: 0, z: 0 } });
    assert_eq!(chars[1].bump, BumpStatus::TriggerBump { impulse: Vector3 { x: 20_000, y: 0, z: 0 } });
}

#[test]
fn collisions_without_an_initiator_do_not_bump() {
    let mut chars = pair();
    chars[0].bump_initiator = false;
    detect_bumpin(&vec![CollisionEvent { first: P, second: O }], &vec![contact_from_player()], &mut chars);
    assert_eq!(chars[0].bump, BumpStatus::NoBump);
    assert_eq!(chars[1].bump, BumpStatus::NoBump);
}

#[test]
fn bumping_a_wall_does_nothing() {
    let mut chars = pair();
    detect_bumpin(&vec![CollisionEvent { first: P, second: WALL }], &vec![contact_from_player()], &mut chars);
    assert_eq!(chars[0].bump, BumpStatus::NoBump);
}

#[test]
fn second_bump_does_not_stack() {
    let mut chars = pair();
    let staggered = BumpStatus::LostFooting {
        timer: Timer { duration: 500_000, elapsed: 100_000 },
        acceleration_restoration: AccelerationRestoration { original: 60_000, lowered: -60_000 },
        air_acceleration_restoration: AccelerationRestoration { original: 20_000, lowered: -60_000 },
    };
    chars[1].bump = staggered;
    chars[1].bump.trigger_bump_if_empty(Vector3 { x: 5, y: 5, z: 5 });
    assert_eq!(chars[1].bump, staggered);
    detect_bumpin(&vec![CollisionEvent { first: P, second: O }], &vec![contact_from_player()], &mut chars);
    assert_eq!(chars[1].bump, staggered);
    assert_eq!(chars[0].bump, BumpStatus::TriggerBump { impulse: Vector3 { x: -20_000, y: 0, z: 0 } });
}

#[test]
fn pending_bump_pushes_and_lowers_acceleration() {
    let mut chars = pair();
    chars[1].velocity = Vector3 { x: 1000, y: 0, z: 0 };
    chars[1].bump = BumpStatus::TriggerBump { impulse: Vector3 { x: 20_000, y: 0, z: 0 } };
    apply_bumpin(&mut chars, 16_000);
    assert_eq!(chars[1].velocity, Vector3 { x: 21_000, y: 0, z: 0 });
    assert_eq!(chars[1].movement.acceleration, 0);
    assert_eq!(chars[1].movement.air_acceleration, 0);
    assert_eq!(
        chars[1].bump,
        BumpStatus::LostFooting {
            timer: Timer { duration: 500_000, elapsed: 0 },
            acceleration_restoration: AccelerationRestoration { original: 60_000, lowered: -60_000 },
            air_acceleration_restoration: AccelerationRestoration { original: 20_000, lowered: -60_000 },
        }
    );
    assert_eq!(chars[0].bump, BumpStatus::NoBump);
}

#[test]
fn acceleration_is_restored_gradually_then_exactly() {
    let mut chars = pair();
    chars[1].bump = BumpStatus::TriggerBump { impulse: Vector3 { x: 0, y: 0, z: 0 } };
    apply_bumpin(&mut chars, 16_000);
    apply_bumpin(&mut chars, 250_000);
    assert_eq!(chars[1].movement.acceleration, 0);
    apply_bumpin(&mut chars, 150_000);
    assert_eq!(chars[1].movement.acceleration, 36_000);
    assert_eq!(chars[1].movement.air_acceleration, 4_000);
    apply_bumpin(&mut chars, 100_000);
    assert_eq!(chars[1].movement.acceleration, 60_000);
    assert_eq!(chars[1].movement.air_acceleration, 20_000);
    assert_eq!(chars[1].bump, BumpStatus::NoBump);
}

#[test]
fn restoration_never_decreases_over_time() {
    let r = AccelerationRestoration { original: 60_000, lowered: -60_000 };
    let mut last = r.calc(0, 500_000);
    assert_eq!(last, 0);
    let mut e: u64 = 0;
    while e <= 500_000 {
        let v = r.calc(e, 500_000);
        assert!(v >= last);
        last = v;
        e += 12_500;
    }
    assert_eq!(r.calc(500_000, 500_000), 60_000);
    assert_eq!(r.calc(375_000, 500_000), 30_000);
}

#[test]
fn lowering_records_the_original_value() {
    let mut a: i32 = 45_000;
    let r = AccelerationRestoration::get_and_update(&mut a, -60_000);
    assert_eq!(r, AccelerationRestoration { original: 45_000, lowered: -60_000 });
    assert_eq!(a, 0);
    let mut b: i32 = 45_000;
    AccelerationRestoration::get_and_update(&mut b, 7_000);
    assert_eq!(b, 7_000);
}

#[test]
fn dead_characters_are_not_bumped() {
    let mut chars = pair();
    chars[1].killable.killed = true;
    detect_bumpin(&vec![CollisionEvent { first: P, second: O }], &vec![contact_from_player()], &mut chars);
    assert_eq!(chars[0].bump, BumpStatus::NoBump);
    assert_eq!(chars[1].bump, BumpStatus::NoBump);
}

#[test]
fn impulse_is_held_at_the_end_of_the_range() {
    let mut chars = pair();
    chars[1].velocity = Vector3 { x: i32::MAX - 5, y: 0, z: 0 };
    chars[1].bump = BumpStatus::TriggerBump { impulse: Vector3 { x: 20_000, y: 0, z: 0 } };
    apply_bumpin(&mut chars, 1);
    assert_eq!(chars[1].velocity.x, i32::MAX);
}
