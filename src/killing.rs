use vstd::prelude::*;

use crate::character::{find_character, has_character, index_of, lemma_index_of, unique_entities, Character};
use crate::entity::{CollisionEvent, EntityId};
use crate::geometry::Vector3;
use crate::score::Scorer;
use crate::utils::{entities_ordered_by_type, first_in_role, ordered_by_roles, roles_view};

verus! {

/// Whether a character has been eliminated. It only ever goes from `false` to
/// `true`.
#[derive(Clone, Copy, Debug, PartialEq, Eq, Structural)]
pub struct Killable {
    pub killed: bool,
}

/// A bullet in flight, and who fired it.
#[derive(Clone, Copy, Debug, PartialEq, Eq, Structural)]
pub struct Bullet {
    pub entity: EntityId,
    pub shooter: EntityId,
}

/// What the bullet hits of one step did.
#[derive(Debug)]
pub struct KillReport {
    /// The characters killed, in the order they fell.
    pub killed: Vec<EntityId>,
    /// Whether these kills left at most one character alive, where more were
    /// alive before.
    pub match_over: bool,
}

/// The upward speed, in thousandths per second, a killed character is thrown
/// with as it falls.
pub const KILL_LIFT: i32 = 3000;

/// A character as it is killed: marked dead and thrown upwards.
pub open spec fn killed_version(c: Character) -> Character {
    Character {
        killable: Killable { killed: true },
        velocity: Vector3 { x: 0, y: KILL_LIFT, z: 0 },
        ..c
    }
}

/// How many characters are alive.
pub open spec fn alive_count(chars: Seq<Character>) -> nat
    decreases chars.len(),
{
    if chars.len() == 0 {
        0
    } else {
        alive_count(chars.drop_last()) + if chars.last().killable.killed {
            0nat
        } else {
            1nat
        }
    }
}

pub open spec fn is_bullet(bullets: Seq<Bullet>, e: EntityId) -> bool {
    exists|i: int| 0 <= i < bullets.len() && #[trigger] bullets[i].entity == e
}

/// Bullet records name distinct entities.
pub open spec fn unique_bullets(bullets: Seq<Bullet>) -> bool {
    forall|i: int, j: int|
        0 <= i < bullets.len() && 0 <= j < bullets.len() && i != j ==> #[trigger] bullets[i].entity
            != #[trigger] bullets[j].entity
}

/// Score records name distinct entities.
pub open spec fn unique_scorers(scores: Seq<Scorer>) -> bool {
    forall|i: int, j: int|
        0 <= i < scores.len() && 0 <= j < scores.len() && i != j ==> #[trigger] scores[i].entity
            != #[trigger] scores[j].entity
}

/// Who fired the bullet `e`.
pub open spec fn shooter_of(bullets: Seq<Bullet>, e: EntityId) -> EntityId {
    bullets[choose|i: int| 0 <= i < bullets.len() && #[trigger] bullets[i].entity == e].shooter
}

/// Which of the two parties of a collision is the bullet and which the victim:
/// the first party that is a bullet, then the other if it is a character.
pub open spec fn hit_roles(event: CollisionEvent, bullets: Seq<Bullet>, chars: Seq<Character>) -> Option<
    (EntityId, EntityId),
> {
    if is_bullet(bullets, event.first) {
        if has_character(chars, event.second) {
            Some((event.first, event.second))
        } else {
            None
        }
    } else if is_bullet(bullets, event.second) {
        if has_character(chars, event.first) {
            Some((event.second, event.first))
        } else {
            None
        }
    } else {
        None
    }
}

/// Each score, in order.
pub open spec fn scores_of(scores: Seq<Scorer>) -> Seq<(EntityId, usize)> {
    scores.map_values(|s: Scorer| (s.entity, s.haver.score))
}

/// The scores after `e`, if it keeps score, is credited one kill (a score
/// already at its largest value stays there).
pub open spec fn credited(scores: Seq<(EntityId, usize)>, e: EntityId) -> Seq<(EntityId, usize)> {
    if exists|i: int| 0 <= i < scores.len() && #[trigger] scores[i].0 == e {
        let i = choose|i: int| 0 <= i < scores.len() && #[trigger] scores[i].0 == e;
        scores.update(
            i,
            (e, if scores[i].1 == usize::MAX {
                usize::MAX
            } else {
                (scores[i].1 + 1) as usize
            }),
        )
    } else {
        scores
    }
}

/// What one collision does. A bullet that hits a character other than its
/// shooter kills it (see `killed_version`), unless it is already dead, and
/// credits the shooter.
pub open spec fn hit_outcome(
    event: CollisionEvent,
    bullets: Seq<Bullet>,
    chars: Seq<Character>,
    scores: Seq<(EntityId, usize)>,
) -> (Seq<Character>, Seq<(EntityId, usize)>, Seq<EntityId>) {
    match hit_roles(event, bullets, chars) {
        None => (chars, scores, seq![]),
        Some((bullet, victim)) => {
            let shooter = shooter_of(bullets, bullet);
            let vi = index_of(chars, victim);
            if shooter == victim || chars[vi].killable.killed {
                (chars, scores, seq![])
            } else {
                (
                    chars.update(vi, killed_version(chars[vi])),
                    credited(scores, shooter),
                    seq![victim],
                )
            }
        },
    }
}

/// What the collisions of one step do, in order.
pub open spec fn hits_outcome(
    events: Seq<CollisionEvent>,
    bullets: Seq<Bullet>,
    chars: Seq<Character>,
    scores: Seq<(EntityId, usize)>,
) -> (Seq<Character>, Seq<(EntityId, usize)>, Seq<EntityId>)
    decreases events.len(),
{
    if events.len() == 0 {
        (chars, scores, seq![])
    } else {
        let before = hits_outcome(events.drop_last(), bullets, chars, scores);
        let step = hit_outcome(events.last(), bullets, before.0, before.1);
        (step.0, step.1, before.2 + step.2)
    }
}

fn bullet_shooter(bullets: &Vec<Bullet>, e: EntityId) -> (r: Option<EntityId>)
    requires
        unique_bullets(bullets@),
    ensures
        r is Some <==> is_bullet(bullets@, e),
        r matches Some(s) ==> s == shooter_of(bullets@, e),
{
    let mut i: usize = 0;
    while i < bullets.len()
        invariant
            i <= bullets.len(),
            unique_bullets(bullets@),
            forall|j: int| 0 <= j < i ==> bullets@[j].entity != e,
        decreases bullets.len() - i,
    {
        if bullets[i].entity == e {
            let ghost j = choose|j: int| 0 <= j < bullets@.len() && #[trigger] bullets@[j].entity == e;
            assert(bullets@[j].entity == bullets@[i as int].entity);
            return Some(bullets[i].shooter);
        }
        i = i + 1;
    }
    None
}

fn credit_shooter(scores: &mut Vec<Scorer>, e: EntityId)
    requires
        unique_scorers(old(scores)@),
    ensures
        scores_of(final(scores)@) == credited(scores_of(old(scores)@), e),
        unique_scorers(final(scores)@),
        final(scores)@.len() == old(scores)@.len(),
{
    let ghost view = scores_of(scores@);
    let mut i: usize = 0;
    while i < scores.len()
        invariant
            i <= scores.len(),
            scores@ == old(scores)@,
            unique_scorers(scores@),
            view == scores_of(scores@),
            forall|j: int| 0 <= j < i ==> scores@[j].entity != e,
        decreases scores.len() - i,
    {
        if scores[i].entity == e {
            assert(view[i as int].0 == e);
            let ghost j = choose|j: int| 0 <= j < view.len() && #[trigger] view[j].0 == e;
            assert(scores@[j].entity == scores@[i as int].entity);
            let current = scores[i].haver.score;
            let next = if current == usize::MAX { usize::MAX } else { current + 1 };
            scores[i].haver.score = next;
            assert(scores@[i as int].entity == e);
            assert forall|a: int, b: int|
                0 <= a < scores@.len() && 0 <= b < scores@.len() && a != b implies #[trigger] scores@[a].entity
                != #[trigger] scores@[b].entity by {
                assert(scores@[a].entity == old(scores)@[a].entity);
                assert(scores@[b].entity == old(scores)@[b].entity);
            }
            assert(scores_of(scores@) == view.update(i as int, (e, next)));
            return;
        }
        i = i + 1;
    }
    assert forall|j: int| 0 <= j < view.len() implies #[trigger] view[j].0 != e by {
        assert(view[j].0 == scores@[j].entity);
    }
}

fn count_alive(chars: &Vec<Character>) -> (r: usize)
    ensures
        r == alive_count(chars@),
{
    let mut alive: usize = 0;
    let mut k: usize = 0;
    while k < chars.len()
        invariant
            k <= chars.len(),
            alive == alive_count(chars@.subrange(0, k as int)),
            alive <= k,
        decreases chars.len() - k,
    {
        assert(chars@.subrange(0, k as int + 1).drop_last() == chars@.subrange(0, k as int));
        if !chars[k].killable.killed {
            alive = alive + 1;
        }
        k = k + 1;
    }
    assert(chars@.subrange(0, chars.len() as int) == chars@);
    alive
}

fn bullet_ids(bullets: &Vec<Bullet>) -> (r: Vec<EntityId>)
    ensures
        forall|e: EntityId| r@.contains(e) <==> is_bullet(bullets@, e),
{
    let mut r: Vec<EntityId> = Vec::new();
    let mut i: usize = 0;
    while i < bullets.len()
        invariant
            i <= bullets.len(),
            r@.len() == i,
            forall|j: int| 0 <= j < i ==> r@[j] == #[trigger] bullets@[j].entity,
        decreases bullets.len() - i,
    {
        r.push(bullets[i].entity);
        i = i + 1;
    }
    assert forall|e: EntityId| r@.contains(e) <==> is_bullet(bullets@, e) by {
        if r@.contains(e) {
            let j = choose|j: int| 0 <= j < r@.len() && r@[j] == e;
            assert(bullets@[j].entity == e);
        }
        if is_bullet(bullets@, e) {
            let j = choose|j: int| 0 <= j < bullets@.len() && #[trigger] bullets@[j].entity == e;
            assert(r@[j] == e);
        }
    }
    r
}

fn character_ids(chars: &Vec<Character>) -> (r: Vec<EntityId>)
    ensures
        forall|e: EntityId| r@.contains(e) <==> has_character(chars@, e),
{
    let mut r: Vec<EntityId> = Vec::new();
    let mut i: usize = 0;
    while i < chars.len()
        invariant
            i <= chars.len(),
            r@.len() == i,
            forall|j: int| 0 <= j < i ==> r@[j] == #[trigger] chars@[j].entity,
        decreases chars.len() - i,
    {
        r.push(chars[i].entity);
        i = i + 1;
    }
    assert forall|e: EntityId| r@.contains(e) <==> has_character(chars@, e) by {
        if r@.contains(e) {
            let j = choose|j: int| 0 <= j < r@.len() && r@[j] == e;
            assert(chars@[j].entity == e);
        }
        if has_character(chars@, e) {
            let j = choose|j: int| 0 <= j < chars@.len() && #[trigger] chars@[j].entity == e;
            assert(r@[j] == e);
        }
    }
    r
}

/// The bullet and the victim of a collision, by the role resolver.
fn resolve_hit(event: CollisionEvent, bullets: &Vec<Bullet>, chars: &Vec<Character>) -> (r: Option<
    (EntityId, EntityId),
>)
    ensures
        r == hit_roles(event, bullets@, chars@),
{
    let mut pair: Vec<EntityId> = Vec::new();
    pair.push(event.first);
    pair.push(event.second);
    let mut roles: Vec<Vec<EntityId>> = Vec::new();
    roles.push(bullet_ids(bullets));
    roles.push(character_ids(chars));
    let ghost s = pair@;
    let ghost rv = roles_view(roles@);
    assert(s[0] == event.first && s[1] == event.second);
    let ordered = entities_ordered_by_type(pair, &roles);
    proof {
        reveal_with_fuel(ordered_by_roles, 3);
        reveal_with_fuel(first_in_role, 3);
        assert(ordered_by_roles(s, rv, 0) == Some(s));
        assert(rv[0] == roles@[0]@ && rv[1] == roles@[1]@);
        let t = ordered_by_roles(s, rv, 1);
        if t is Some {
            assert(t->Some_0.len() == 2);
        }
    }
    match ordered {
        None => None,
        Some(v) => {
            assert(v@.len() == 2);
            Some((v[0], v[1]))
        },
    }
}

fn hit_once(
    event: CollisionEvent,
    bullets: &Vec<Bullet>,
    chars: &mut Vec<Character>,
    scores: &mut Vec<Scorer>,
    killed: &mut Vec<EntityId>,
)
    requires
        unique_entities(old(chars)@),
        unique_bullets(bullets@),
        unique_scorers(old(scores)@),
    ensures
        ({
            let step = hit_outcome(event, bullets@, old(chars)@, scores_of(old(scores)@));
            &&& final(chars)@ == step.0
            &&& scores_of(final(scores)@) == step.1
            &&& final(killed)@ == old(killed)@ + step.2
        }),
        unique_entities(final(chars)@),
        unique_scorers(final(scores)@),
        final(chars)@.len() == old(chars)@.len(),
        forall|i: int|
            0 <= i < old(chars)@.len() ==> (#[trigger] final(chars)@[i]).entity == old(chars)@[i].entity
                && final(chars)@[i].holder == old(chars)@[i].holder,
{
    let (bullet, victim) = match resolve_hit(event, bullets, chars) {
        Some(roles) => roles,
        None => {
            assert(old(killed)@ + seq![] == old(killed)@);
            return;
        },
    };
    let shooter = match bullet_shooter(bullets, bullet) {
        Some(s) => s,
        None => {
            return;
        },
    };
    let vi = match find_character(chars, victim) {
        Some(i) => i,
        None => {
            return;
        },
    };
    proof {
        lemma_index_of(chars@, vi as int);
    }
    if shooter == victim || chars[vi].killable.killed {
        assert(old(killed)@ + seq![] == old(killed)@);
        return;
    }
    let c = chars[vi];
    chars[vi] = Character {
        killable: Killable { killed: true },
        velocity: Vector3 { x: 0, y: KILL_LIFT, z: 0 },
        ..c
    };
    credit_shooter(scores, shooter);
    killed.push(victim);
    assert(old(killed)@.push(victim) == old(killed)@ + seq![victim]);
}

/// Resolves the bullet hits of one step, in order (see `hit_outcome`), and
/// tells whether the kills ended the match.
pub fn handle_bullet_hits(
    events: &Vec<CollisionEvent>,
    bullets: &Vec<Bullet>,
    chars: &mut Vec<Character>,
    scores: &mut Vec<Scorer>,
) -> (r: KillReport)
    requires
        unique_entities(old(chars)@),
        unique_bullets(bullets@),
        unique_scorers(old(scores)@),
    ensures
        ({
            let out = hits_outcome(events@, bullets@, old(chars)@, scores_of(old(scores)@));
            &&& final(chars)@ == out.0
            &&& scores_of(final(scores)@) == out.1
            &&& r.killed@ == out.2
        }),
        r.match_over == (alive_count(old(chars)@) > 1 && alive_count(final(chars)@) <= 1),
        unique_entities(final(chars)@),
        unique_scorers(final(scores)@),
        final(chars)@.len() == old(chars)@.len(),
        forall|i: int|
            0 <= i < old(chars)@.len() ==> (#[trigger] final(chars)@[i]).entity == old(chars)@[i].entity
                && final(chars)@[i].holder == old(chars)@[i].holder,
{
    let alive_before = count_alive(chars);
    let mut killed: Vec<EntityId> = Vec::new();
    let mut k: usize = 0;
    while k < events.len()
        invariant
            k <= events.len(),
            unique_bullets(bullets@),
            ({
                let out = hits_outcome(
                    events@.subrange(0, k as int),
                    bullets@,
                    old(chars)@,
                    scores_of(old(scores)@),
                );
                &&& chars@ == out.0
                &&& scores_of(scores@) == out.1
                &&& killed@ == out.2
            }),
            unique_entities(chars@),
            unique_scorers(scores@),
            chars@.len() == old(chars)@.len(),
            forall|i: int|
                0 <= i < old(chars)@.len() ==> (#[trigger] chars@[i]).entity == old(chars)@[i].entity
                    && chars@[i].holder == old(chars)@[i].holder,
        decreases events.len() - k,
    {
        assert(events@.subrange(0, k as int + 1).drop_last() == events@.subrange(0, k as int));
        hit_once(events[k], bullets, chars, scores, &mut killed);
        k = k + 1;
    }
    assert(events@.subrange(0, events.len() as int) == events@);
    let alive_after = count_alive(chars);
    KillReport { killed, match_over: alive_before > 1 && alive_after <= 1 }
}


proof fn lemma_alive_after_kill(chars: Seq<Character>, i: int)
    requires
        0 <= i < chars.len(),
    ensures
        alive_count(chars.update(i, killed_version(chars[i])))
            <= alive_count(chars),
    decreases chars.len(),
{
    let k = killed_version(chars[i]);
    let u = chars.update(i, k);
    if i == chars.len() - 1 {
        assert(u.drop_last() == chars.drop_last());
    } else {
        assert(u.drop_last() == chars.drop_last().update(i, k));
        lemma_alive_after_kill(chars.drop_last(), i);
    }
}

/// Kills never bring anyone back: the number of live characters does not grow
/// over a step of bullet hits.
pub proof fn lemma_hits_never_revive(
    events: Seq<CollisionEvent>,
    bullets: Seq<Bullet>,
    chars: Seq<Character>,
    scores: Seq<(EntityId, usize)>,
)
    ensures
        alive_count(hits_outcome(events, bullets, chars, scores).0) <= alive_count(chars),
    decreases events.len(),
{
    if events.len() > 0 {
        lemma_hits_never_revive(events.drop_last(), bullets, chars, scores);
        let before = hits_outcome(events.drop_last(), bullets, chars, scores);
        let ev = events.last();
        if let Some((bullet, victim)) = hit_roles(ev, bullets, before.0) {
            let vi = index_of(before.0, victim);
            if !(shooter_of(bullets, bullet) == victim || before.0[vi].killable.killed) {
                assert(0 <= vi < before.0.len() && before.0[vi].entity == victim);
                lemma_alive_after_kill(before.0, vi);
            }
        }
    }
}

/// Whether a step that took the characters from `before` to `after` ends the
/// match: it left at most one alive where more were alive.
pub open spec fn ends_match(before: Seq<Character>, after: Seq<Character>) -> bool {
    alive_count(before) > 1 && alive_count(after) <= 1
}

/// Since kills never bring anyone back, the match-end signal fires on one step
/// at most: of two steps in a row, at most one ends the match.
pub proof fn lemma_match_ends_once(c0: Seq<Character>, c1: Seq<Character>, c2: Seq<Character>)
    requires
        alive_count(c1) <= alive_count(c0),
        alive_count(c2) <= alive_count(c1),
    ensures
        !(ends_match(c0, c1) && ends_match(c1, c2)),
        ends_match(c0, c2) ==> ends_match(c0, c1) || ends_match(c1, c2),
{
}

/// A hit on a character that is already dead changes nothing: applying the
/// same lethal collision twice kills once and credits the shooter once.
pub proof fn lemma_kill_idempotent(
    event: CollisionEvent,
    bullets: Seq<Bullet>,
    chars: Seq<Character>,
    scores: Seq<(EntityId, usize)>,
)
    requires
        unique_entities(chars),
    ensures
        ({
            let once = hit_outcome(event, bullets, chars, scores);
            hit_outcome(event, bullets, once.0, once.1) == (once.0, once.1, Seq::<EntityId>::empty())
        }),
{
    let once = hit_outcome(event, bullets, chars, scores);
    if let Some((bullet, victim)) = hit_roles(event, bullets, chars) {
        let vi = index_of(chars, victim);
        if !(shooter_of(bullets, bullet) == victim || chars[vi].killable.killed) {
            let c1 = once.0;
            assert(0 <= vi < chars.len() && chars[vi].entity == victim);
            assert forall|j: int| 0 <= j < c1.len() implies #[trigger] c1[j].entity == chars[j].entity by {
            }
            assert forall|e: EntityId| has_character(c1, e) == has_character(chars, e) by {
                if has_character(chars, e) {
                    let j = choose|j: int| 0 <= j < chars.len() && #[trigger] chars[j].entity == e;
                    assert(c1[j].entity == e);
                }
                if has_character(c1, e) {
                    let j = choose|j: int| 0 <= j < c1.len() && #[trigger] c1[j].entity == e;
                    assert(chars[j].entity == e);
                }
            }
            assert(hit_roles(event, bullets, c1) == hit_roles(event, bullets, chars));
            assert(unique_entities(c1)) by {
                assert forall|a: int, b: int|
                    0 <= a < c1.len() && 0 <= b < c1.len() && a != b implies #[trigger] c1[a].entity
                    != #[trigger] c1[b].entity by {
                    assert(c1[a].entity == chars[a].entity);
                    assert(c1[b].entity == chars[b].entity);
                }
            }
            crate::character::lemma_index_of(c1, vi);
            assert(c1[vi].killable.killed);
        }
    }
}

} // verus!
