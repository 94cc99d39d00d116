use round_robin_rifle::killing::{handle_bullet_hits, Bullet};
use round_robin_rifle::score::{count_remaining, ScoreHaver, Scorer};
use round_robin_rifle::{Character, CollisionEvent, EntityId, Vector3};

const P: EntityId = EntityId(1);
const O1: EntityId = EntityId(2);
const O2: EntityId = EntityId(3);
const SHOT1: EntityId = EntityId(50);
const SHOT2: EntityId = EntityId(51);
const SHOT3: EntityId = EntityId(52);

fn arena() -> Vec<Character> {
    let at = Vector3 { x: 0, y: 0, z: 0 };
    vec![Character::player(P, at), Character::opponent(O1, at), Character::opponent(O2, at)]
}

fn scores() -> Vec<Scorer> {
    vec![
        Scorer { entity: P, haver: ScoreHaver::new("Player") },
        Scorer { entity: O1, haver: ScoreHaver::new("Opponent") },
    ]
}

fn bullets() -> Vec<Bullet> {
    vec![
        Bullet { entity: SHOT1, shooter: P },
        Bullet { entity: SHOT2, shooter: P },
        Bullet { entity: SHOT3, shooter: O1 },
    ]
}

fn hit(bullet: EntityId, victim: EntityId) -> CollisionEvent {
    CollisionEvent { first: victim, second: bullet }
}

#[test]
fn bullet_kills_and_credits_the_shooter() {
    let mut chars = arena();
    let mut sc = scores();
    let report = handle_bullet_hits(&vec![hit(SHOT1, O1)], &bullets(), &mut chars, &mut sc);
    assert_eq!(report.killed, vec![O1]);
    assert!(!report.match_over);
    assert!(chars[1].killable.killed);
    assert_eq!(chars[1].velocity, Vector3 { x: 0, y: 3000, z: 0 });
    assert!(!chars[2].killable.killed);
    assert_eq!(chars[2].velocity, Vector3 { x: 0, y: 0, z: 0 });
    assert_eq!(sc[0].haver.score, 1);
    assert_eq!(sc[1].haver.score, 0);
    assert_eq!(sc[0].haver.name, "Player");
}

#[test]
fn killing_a_corpse_again_scores_nothing() {
    let mut chars = arena();
    let mut sc = scores();
    let events = vec![hit(SHOT1, O1), hit(SHOT1, O1)];
    let report = handle_bullet_hits(&events, &bullets(), &mut chars, &mut sc);
    assert_eq!(report.killed, vec![O1]);
    let again = handle_bullet_hits(&vec![hit(SHOT2, O1)], &bullets(), &mut chars, &mut sc);
    assert!(again.killed.is_empty());
    assert_eq!(sc[0].haver.score, 1);
}

#[test]
fn shooter_cannot_hit_itself() {
    let mut chars = arena();
    let mut sc = scores();
    let report = handle_bullet_hits(&vec![hit(SHOT3, O1)], &bullets(), &mut chars, &mut sc);
    assert!(report.killed.is_empty());
    assert!(!chars[1].killable.killed);
    assert_eq!(sc[1].haver.score, 0);
}

#[test]
fn collisions_without_a_bullet_kill_nobody() {
    let mut chars = arena();
    let mut sc = scores();
    let report = handle_bullet_hits(&vec![CollisionEvent { first: P, second: O1 }], &bullets(), &mut chars, &mut sc);
    assert!(report.killed.is_empty());
}

#[test]
fn shooter_without_score_record_still_kills() {
    let mut chars = arena();
    let mut sc = scores();
    let only = vec![Bullet { entity: SHOT1, shooter: O2 }];
    let report = handle_bullet_hits(&vec![hit(SHOT1, P)], &only, &mut chars, &mut sc);
    assert_eq!(report.killed, vec![P]);
    assert_eq!(sc[0].haver.score, 0);
    assert_eq!(sc[1].haver.score, 0);
}

#[test]
fn match_ends_once_when_one_is_left() {
    let mut chars = arena();
    let mut sc = scores();
    let b = bullets();
    let first = handle_bullet_hits(&vec![hit(SHOT1, O1)], &b, &mut chars, &mut sc);
    assert!(!first.match_over);
    let second = handle_bullet_hits(&vec![hit(SHOT2, O2)], &b, &mut chars, &mut sc);
    assert!(second.match_over);
    let third = handle_bullet_hits(&vec![hit(SHOT3, P)], &b, &mut chars, &mut sc);
    assert_eq!(third.killed, vec![P]);
    assert!(!third.match_over);
    assert_eq!(sc[0].haver.score, 2);
    assert_eq!(sc[1].haver.score, 1);
}

#[test]
fn two_kills_in_one_step_end_the_match() {
    let mut chars = arena();
    let mut sc = scores();
    let report = handle_bullet_hits(&vec![hit(SHOT1, O1), hit(SHOT2, O2)], &bullets(), &mut chars, &mut sc);
    assert_eq!(report.killed, vec![O1, O2]);
    assert!(report.match_over);
}

#[test]
fn remaining_opponents_are_counted() {
    assert_eq!(count_remaining(&vec![false, true, false]), (2, 3));
    assert_eq!(count_remaining(&vec![]), (0, 0));
}

#[test]
fn new_score_starts_at_zero() {
    let s = ScoreHaver::new("Bob");
    assert_eq!(s.name, "Bob");
    assert_eq!(s.score, 0);
}
