use vstd::prelude::*;

use crate::character::{find_character, has_character, index_of, lemma_index_of, unique_entities, Character};
use crate::entity::EntityId;
use crate::geometry::{Direction, Vector3};
use crate::rifle::{Rifle, RifleStatus, ShootCommand};
use crate::timer::Timer;

verus! {

/// How long an opponent hesitates before acting on a decision.
pub const REACTION_DELAY: u64 = 1_000_000;

/// The horizontal distance, in thousandths, beyond which a character counts as
/// a target, or as a threat when it is not the player.
pub const ENGAGEMENT_DISTANCE: u32 = 25_000;

/// Limit on each component of an escape direction, in thousandths.
pub const ESCAPE_LIMIT: i32 = 1000;

/// A behavior that an opponent takes up once a delay has run out.
#[derive(Clone, Copy, Debug, PartialEq, Eq, Structural)]
pub enum Followup {
    GetRifle,
    FindTarget,
    Shoot { rifle: EntityId },
}

/// What a computer-controlled opponent is doing.
#[derive(Clone, Copy, Debug, PartialEq, Eq, Structural)]
pub enum OpponentBehavior {
    GetRifle,
    FindTarget,
    Shoot { rifle: EntityId },
    /// Running from `run_from` in a direction fixed, relative to the danger,
    /// when the panic started. The direction lies in the horizontal plane and
    /// is given in thousandths: its x is the part to the side of the danger,
    /// its z the part towards it (its y is not used).
    Panic { run_from: Vector3, run_direction_in_shooter_coord: Vector3 },
    HandsUp { aimed_at_by: EntityId },
    WaitBefore { timer: Timer, followup: Option<Followup> },
}

pub open spec fn escape_wf(v: Vector3) -> bool {
    -ESCAPE_LIMIT <= v.x <= ESCAPE_LIMIT && -ESCAPE_LIMIT <= v.z <= ESCAPE_LIMIT
}

impl Followup {
    pub open spec fn behavior(self) -> OpponentBehavior {
        match self {
            Followup::GetRifle => OpponentBehavior::GetRifle,
            Followup::FindTarget => OpponentBehavior::FindTarget,
            Followup::Shoot { rifle } => OpponentBehavior::Shoot { rifle },
        }
    }

    pub fn to_behavior(self) -> (r: OpponentBehavior)
        ensures
            r == self.behavior(),
    {
        match self {
            Followup::GetRifle => OpponentBehavior::GetRifle,
            Followup::FindTarget => OpponentBehavior::FindTarget,
            Followup::Shoot { rifle } => OpponentBehavior::Shoot { rifle },
        }
    }
}

impl OpponentBehavior {
    /// Timers are well formed and escape directions are within bounds.
    pub open spec fn wf(self) -> bool {
        match self {
            OpponentBehavior::WaitBefore { timer, .. } => timer.wf(),
            OpponentBehavior::Panic { run_direction_in_shooter_coord, .. } => escape_wf(
                run_direction_in_shooter_coord,
            ),
            _ => true,
        }
    }

    pub open spec fn spec_wait_before(duration: u64, followup: Followup) -> OpponentBehavior {
        OpponentBehavior::WaitBefore {
            timer: Timer { duration, elapsed: 0 },
            followup: Some(followup),
        }
    }

    /// Waits `duration` microseconds, then takes up `followup`.
    pub fn wait_before(duration: u64, followup: Followup) -> (r: OpponentBehavior)
        ensures
            r == Self::spec_wait_before(duration, followup),
            r.wf(),
    {
        OpponentBehavior::WaitBefore {
            timer: Timer::from_micros(duration),
            followup: Some(followup),
        }
    }

    pub open spec fn spec_wait(duration: u64) -> OpponentBehavior {
        OpponentBehavior::WaitBefore { timer: Timer { duration, elapsed: 0 }, followup: None }
    }

    /// Waits `duration` microseconds, then decides afresh.
    pub fn wait(duration: u64) -> (r: OpponentBehavior)
        ensures
            r == Self::spec_wait(duration),
            r.wf(),
    {
        OpponentBehavior::WaitBefore { timer: Timer::from_micros(duration), followup: None }
    }
}

/// Whether the record at `i` is a live character farther than the engagement
/// distance from `me`.
pub open spec fn far_and_alive(chars: Seq<Character>, i: int, me: Character) -> bool {
    0 <= i < chars.len() && !chars[i].killable.killed && chars[i].position.horizontal_distance_squared(
        me.position,
    ) > ENGAGEMENT_DISTANCE * ENGAGEMENT_DISTANCE
}

/// Whether `me` has the rifle trained on a live character far enough away.
pub open spec fn aiming_at_target(chars: Seq<Character>, me: Character) -> bool {
    exists|i: int|
        far_and_alive(chars, i, me) && #[trigger] chars[i].aimed.aimed_at_by == Some(me.entity)
}

/// The character aiming at `me`, if that counts as a threat: the player always
/// does, anyone else only from beyond the engagement distance.
pub open spec fn threat_to(chars: Seq<Character>, me: Character) -> Option<EntityId> {
    match me.aimed.aimed_at_by {
        None => None,
        Some(a) => if has_character(chars, a) && (chars[index_of(chars, a)].is_player
            || chars[index_of(chars, a)].position.horizontal_distance_squared(me.position)
            > ENGAGEMENT_DISTANCE * ENGAGEMENT_DISTANCE) {
            Some(a)
        } else {
            None
        },
    }
}

/// Where the danger is: the holder's position, or the rifle's when the holder
/// has no record.
pub open spec fn danger_position(chars: Seq<Character>, holder: EntityId, rifle_position: Vector3) -> Vector3 {
    if has_character(chars, holder) {
        chars[index_of(chars, holder)].position
    } else {
        rifle_position
    }
}

/// A fresh decision for `me`, currently doing `b`, in order of priority.
pub open spec fn fresh_decision(
    b: OpponentBehavior,
    me: Character,
    rifle: Rifle,
    rifle_position: Vector3,
    chars: Seq<Character>,
    escape: Vector3,
) -> OpponentBehavior {
    match rifle.status {
        RifleStatus::Equiped(holder) => if holder == me.entity {
            if aiming_at_target(chars, me) {
                OpponentBehavior::spec_wait_before(
                    REACTION_DELAY,
                    Followup::Shoot { rifle: rifle.entity },
                )
            } else if b is FindTarget {
                b
            } else {
                OpponentBehavior::spec_wait_before(REACTION_DELAY, Followup::FindTarget)
            }
        } else if b is Shoot {
            OpponentBehavior::spec_wait_before(REACTION_DELAY, Followup::GetRifle)
        } else if threat_to(chars, me) is Some {
            OpponentBehavior::HandsUp { aimed_at_by: threat_to(chars, me)->Some_0 }
        } else if b is Panic {
            OpponentBehavior::Panic {
                run_from: danger_position(chars, holder, rifle_position),
                run_direction_in_shooter_coord: b->run_direction_in_shooter_coord,
            }
        } else if b is HandsUp {
            OpponentBehavior::spec_wait(REACTION_DELAY)
        } else {
            OpponentBehavior::Panic {
                run_from: danger_position(chars, holder, rifle_position),
                run_direction_in_shooter_coord: escape,
            }
        },
        _ => if b is Shoot {
            OpponentBehavior::spec_wait_before(REACTION_DELAY, Followup::GetRifle)
        } else {
            OpponentBehavior::GetRifle
        },
    }
}

/// The decision on a follow-up `f` taken up when its delay ran out: the rules
/// are applied to it at once, except that a rule that would delay towards `f`
/// itself takes `f` up without a further delay.
pub open spec fn adopted_decision(
    f: Followup,
    me: Character,
    rifle: Rifle,
    rifle_position: Vector3,
    chars: Seq<Character>,
    escape: Vector3,
) -> OpponentBehavior {
    let d = fresh_decision(f.behavior(), me, rifle, rifle_position, chars, escape);
    if d == OpponentBehavior::spec_wait_before(REACTION_DELAY, f) {
        f.behavior()
    } else {
        d
    }
}

/// What `me`, currently doing `b`, does after a step of `delta` microseconds.
/// While a delay runs it stays frozen; when it runs out the follow-up is taken
/// up and decided on at once (see `adopted_decision`), and without one a
/// fresh decision is made. `escape` is the
/// random escape direction used should it start to panic.
pub open spec fn decide_step(
    b: OpponentBehavior,
    me: Character,
    rifle: Rifle,
    rifle_position: Vector3,
    chars: Seq<Character>,
    delta: nat,
    escape: Vector3,
) -> OpponentBehavior {
    match b {
        OpponentBehavior::WaitBefore { timer, followup } => {
            let t = timer.ticked(delta);
            if !t.is_finished() {
                OpponentBehavior::WaitBefore { timer: t, followup }
            } else {
                match followup {
                    Some(f) => adopted_decision(f, me, rifle, rifle_position, chars, escape),
                    None => fresh_decision(
                        OpponentBehavior::WaitBefore { timer: t, followup },
                        me,
                        rifle,
                        rifle_position,
                        chars,
                        escape,
                    ),
                }
            }
        },
        _ => fresh_decision(b, me, rifle, rifle_position, chars, escape),
    }
}

/// The new behavior of the record at `i`: only live opponents decide.
pub open spec fn decided(
    chars: Seq<Character>,
    i: int,
    rifle: Rifle,
    rifle_position: Vector3,
    delta: nat,
    escape: Vector3,
) -> Option<OpponentBehavior> {
    match chars[i].behavior {
        None => None,
        Some(b) => if chars[i].killable.killed {
            Some(b)
        } else {
            Some(decide_step(b, chars[i], rifle, rifle_position, chars, delta, escape))
        },
    }
}

pub open spec fn behaviors_wf(chars: Seq<Character>) -> bool {
    forall|i: int| 0 <= i < chars.len() && (#[trigger] chars[i]).behavior is Some ==> chars[i].behavior->Some_0.wf()
}

fn aiming_at_target_exec(chars: &Vec<Character>, me: &Character) -> (r: bool)
    ensures
        r == aiming_at_target(chars@, *me),
{
    let mut i: usize = 0;
    while i < chars.len()
        invariant
            i <= chars.len(),
            forall|j: int|
                0 <= j < i ==> !(far_and_alive(chars@, j, *me) && #[trigger] chars@[j].aimed.aimed_at_by
                    == Some(me.entity)),
        decreases chars.len() - i,
    {
        let c = &chars[i];
        if !c.killable.killed && c.aimed.aimed_at_by == Some(me.entity)
            && c.position.horizontally_farther_than(me.position, ENGAGEMENT_DISTANCE) {
            assert(far_and_alive(chars@, i as int, *me));
            return true;
        }
        i = i + 1;
    }
    false
}

fn threat_to_exec(chars: &Vec<Character>, me: &Character) -> (r: Option<EntityId>)
    requires
        unique_entities(chars@),
    ensures
        r == threat_to(chars@, *me),
{
    match me.aimed.aimed_at_by {
        None => None,
        Some(a) => match find_character(chars, a) {
            None => None,
            Some(i) => {
                proof {
                    lemma_index_of(chars@, i as int);
                }
                let c = &chars[i];
                if c.is_player || c.position.horizontally_farther_than(
                    me.position,
                    ENGAGEMENT_DISTANCE,
                ) {
                    Some(a)
                } else {
                    None
                }
            },
        },
    }
}

fn danger_position_exec(chars: &Vec<Character>, holder: EntityId, rifle_position: Vector3) -> (r:
    Vector3)
    requires
        unique_entities(chars@),
    ensures
        r == danger_position(chars@, holder, rifle_position),
{
    match find_character(chars, holder) {
        None => rifle_position,
        Some(i) => {
            proof {
                lemma_index_of(chars@, i as int);
            }
            chars[i].position
        },
    }
}

fn fresh_decision_exec(
    b: OpponentBehavior,
    me: &Character,
    rifle: &Rifle,
    rifle_position: Vector3,
    chars: &Vec<Character>,
    escape: Vector3,
) -> (r: OpponentBehavior)
    requires
        unique_entities(chars@),
        b.wf(),
        escape_wf(escape),
    ensures
        r == fresh_decision(b, *me, *rifle, rifle_position, chars@, escape),
        r.wf(),
{
    match rifle.status {
        RifleStatus::Equiped(holder) => {
            if holder == me.entity {
                if aiming_at_target_exec(chars, me) {
                    OpponentBehavior::wait_before(
                        REACTION_DELAY,
                        Followup::Shoot { rifle: rifle.entity },
                    )
                } else if let OpponentBehavior::FindTarget = b {
                    b
                } else {
                    OpponentBehavior::wait_before(REACTION_DELAY, Followup::FindTarget)
                }
            } else if let OpponentBehavior::Shoot { .. } = b {
                OpponentBehavior::wait_before(REACTION_DELAY, Followup::GetRifle)
            } else if let Some(threat) = threat_to_exec(chars, me) {
                OpponentBehavior::HandsUp { aimed_at_by: threat }
            } else if let OpponentBehavior::Panic { run_from: _, run_direction_in_shooter_coord } = b {
                OpponentBehavior::Panic {
                    run_from: danger_position_exec(chars, holder, rifle_position),
                    run_direction_in_shooter_coord,
                }
            } else if let OpponentBehavior::HandsUp { .. } = b {
                OpponentBehavior::wait(REACTION_DELAY)
            } else {
                OpponentBehavior::Panic {
                    run_from: danger_position_exec(chars, holder, rifle_position),
                    run_direction_in_shooter_coord: escape,
                }
            }
        },
        _ => {
            if let OpponentBehavior::Shoot { .. } = b {
                OpponentBehavior::wait_before(REACTION_DELAY, Followup::GetRifle)
            } else {
                OpponentBehavior::GetRifle
            }
        },
    }
}

fn decide_step_exec(
    b: OpponentBehavior,
    me: &Character,
    rifle: &Rifle,
    rifle_position: Vector3,
    chars: &Vec<Character>,
    delta: u64,
    escape: Vector3,
) -> (r: OpponentBehavior)
    requires
        unique_entities(chars@),
        b.wf(),
        escape_wf(escape),
    ensures
        r == decide_step(b, *me, *rifle, rifle_position, chars@, delta as nat, escape),
        r.wf(),
{
    match b {
        OpponentBehavior::WaitBefore { timer, followup } => {
            let mut t = timer;
            t.tick(delta);
            if !t.finished() {
                OpponentBehavior::WaitBefore { timer: t, followup }
            } else {
                match followup {
                    Some(f) => {
                        let d = fresh_decision_exec(
                            f.to_behavior(),
                            me,
                            rifle,
                            rifle_position,
                            chars,
                            escape,
                        );
                        if d == OpponentBehavior::wait_before(REACTION_DELAY, f) {
                            f.to_behavior()
                        } else {
                            d
                        }
                    },
                    None => fresh_decision_exec(
                        OpponentBehavior::WaitBefore { timer: t, followup },
                        me,
                        rifle,
                        rifle_position,
                        chars,
                        escape,
                    ),
                }
            }
        },
        _ => fresh_decision_exec(b, me, rifle, rifle_position, chars, escape),
    }
}

/// Lets every live opponent decide what to do this step (see `decide_step`),
/// reading the world as it stood before the step. `escapes` holds, for each
/// record, the random escape direction it uses should it start to panic.
pub fn decide_what_to_do(
    chars: &mut Vec<Character>,
    rifle: &Rifle,
    rifle_position: Vector3,
    delta: u64,
    escapes: &Vec<Vector3>,
)
    requires
        unique_entities(old(chars)@),
        behaviors_wf(old(chars)@),
        escapes.len() == old(chars)@.len(),
        forall|i: int| 0 <= i < escapes.len() ==> escape_wf(#[trigger] escapes@[i]),
    ensures
        final(chars)@.len() == old(chars)@.len(),
        forall|i: int|
            0 <= i < old(chars)@.len() ==> #[trigger] final(chars)@[i] == (Character {
                behavior: decided(old(chars)@, i, *rifle, rifle_position, delta as nat, escapes@[i]),
                ..old(chars)@[i]
            }),
        unique_entities(final(chars)@),
        behaviors_wf(final(chars)@),
{
    let snapshot: &Vec<Character> = chars;
    let mut decisions: Vec<Option<OpponentBehavior>> = Vec::new();
    let mut k: usize = 0;
    while k < snapshot.len()
        invariant
            k <= snapshot.len() == escapes.len(),
            snapshot@ == old(chars)@,
            unique_entities(snapshot@),
            behaviors_wf(snapshot@),
            forall|i: int| 0 <= i < escapes.len() ==> escape_wf(#[trigger] escapes@[i]),
            decisions.len() == k,
            forall|i: int|
                0 <= i < k ==> #[trigger] decisions@[i] == decided(
                    snapshot@,
                    i,
                    *rifle,
                    rifle_position,
                    delta as nat,
                    escapes@[i],
                ),
            forall|i: int| 0 <= i < k && (#[trigger] decisions@[i]) is Some ==> decisions@[i]->Some_0.wf(),
        decreases snapshot.len() - k,
    {
        let c = &snapshot[k];
        let d = match c.behavior {
            None => None,
            Some(b) => {
                assert(snapshot@[k as int].behavior is Some);
                if c.killable.killed {
                    Some(b)
                } else {
                    Some(decide_step_exec(b, c, rifle, rifle_position, snapshot, delta, escapes[k]))
                }
            },
        };
        decisions.push(d);
        k = k + 1;
    }
    let mut j: usize = 0;
    while j < chars.len()
        invariant
            j <= chars.len() == decisions.len() == old(chars)@.len(),
            forall|i: int|
                0 <= i < decisions.len() ==> #[trigger] decisions@[i] == decided(
                    old(chars)@,
                    i,
                    *rifle,
                    rifle_position,
                    delta as nat,
                    escapes@[i],
                ),
            forall|i: int| 0 <= i < decisions.len() && (#[trigger] decisions@[i]) is Some ==> decisions@[i]->Some_0.wf(),
            forall|i: int|
                0 <= i < j ==> #[trigger] chars@[i] == (Character {
                    behavior: decisions@[i],
                    ..old(chars)@[i]
                }),
            forall|i: int| j <= i < chars.len() ==> #[trigger] chars@[i] == old(chars)@[i],
        decreases chars.len() - j,
    {
        let c = chars[j];
        chars[j] = Character { behavior: decisions[j], ..c };
        j = j + 1;
    }
    assert forall|a: int, b: int|
        0 <= a < chars@.len() && 0 <= b < chars@.len() && a != b implies #[trigger] chars@[a].entity
        != #[trigger] chars@[b].entity by {
        assert(chars@[a].entity == old(chars)@[a].entity);
        assert(chars@[b].entity == old(chars)@[b].entity);
    }
}

/// What an opponent's behavior asks of its movement controller and of the
/// rifle this step. `None` leaves the current value alone. Directions are not
/// normalized; the zero direction means standing still, or no facing.
#[derive(Clone, Copy, Debug, PartialEq, Eq, Structural)]
pub struct BehaviorAction {
    pub desired_velocity: Option<Direction>,
    pub desired_forward: Option<Direction>,
    pub fire: Option<ShootCommand>,
}

pub open spec fn zero_direction() -> Direction {
    Direction { x: 0, y: 0, z: 0 }
}

/// The horizontal direction from `from` to `to`.
pub open spec fn horizontal_towards(from: Vector3, to: Vector3) -> Direction {
    from.spec_offset_to(to).spec_horizontal()
}

/// Whether the record at `i` may be chosen as a target by `me`: another live
/// character beyond the engagement distance.
pub open spec fn eligible_target(chars: Seq<Character>, i: int, me: Character) -> bool {
    far_and_alive(chars, i, me) && chars[i].entity != me.entity
}

/// The eligible target whose direction makes the smallest angle with the
/// opponent's facing (`angles[i]` for the record at `i`), the first of equals.
pub open spec fn is_best_target(chars: Seq<Character>, angles: Seq<u64>, i: int, me: Character) -> bool {
    &&& eligible_target(chars, i, me)
    &&& forall|j: int| eligible_target(chars, j, me) ==> angles[i] <= #[trigger] angles[j]
    &&& forall|j: int| 0 <= j < i && eligible_target(chars, j, me) ==> angles[i] < #[trigger] angles[j]
}

/// The escape direction of a panic, turned into the world: `dir` is relative to
/// a frame looking from the danger at `run_from` towards `me`; its x leads to
/// the side, its z back towards the danger. Scaled by the horizontal distance
/// to the danger.
pub open spec fn panic_direction(run_from: Vector3, me: Vector3, dir: Vector3) -> Direction {
    let d = horizontal_towards(run_from, me);
    Direction {
        x: (-(d.z * dir.x) - d.x * dir.z) as i64,
        y: 0,
        z: (d.x * dir.x - d.z * dir.z) as i64,
    }
}

/// What an opponent at `me`, with behavior `b`, does this step. `muzzle` is
/// where its rifle would fire from, and `angles` the angle, for each record,
/// between its facing and the direction from the muzzle to that character.
pub open spec fn action_of(
    b: OpponentBehavior,
    me: Character,
    chars: Seq<Character>,
    rifle_position: Vector3,
    muzzle: Vector3,
    angles: Seq<u64>,
) -> BehaviorAction {
    match b {
        OpponentBehavior::GetRifle => {
            let d = horizontal_towards(me.position, rifle_position);
            BehaviorAction { desired_velocity: Some(d), desired_forward: Some(d), fire: None }
        },
        OpponentBehavior::FindTarget => BehaviorAction {
            desired_velocity: Some(zero_direction()),
            desired_forward: if exists|i: int| is_best_target(chars, angles, i, me) {
                let i = choose|i: int| is_best_target(chars, angles, i, me);
                Some(horizontal_towards(muzzle, chars[i].position))
            } else {
                None
            },
            fire: None,
        },
        OpponentBehavior::Shoot { rifle } => BehaviorAction {
            desired_velocity: None,
            desired_forward: None,
            fire: Some(ShootCommand { shooter: me.entity, rifle }),
        },
        OpponentBehavior::HandsUp { aimed_at_by } => BehaviorAction {
            desired_velocity: Some(zero_direction()),
            desired_forward: Some(
                if has_character(chars, aimed_at_by) {
                    horizontal_towards(me.position, chars[index_of(chars, aimed_at_by)].position)
                } else {
                    zero_direction()
                },
            ),
            fire: None,
        },
        OpponentBehavior::Panic { run_from, run_direction_in_shooter_coord } => {
            let d = panic_direction(run_from, me.position, run_direction_in_shooter_coord);
            BehaviorAction { desired_velocity: Some(d), desired_forward: Some(d), fire: None }
        },
        OpponentBehavior::WaitBefore { .. } => BehaviorAction {
            desired_velocity: Some(zero_direction()),
            desired_forward: Some(zero_direction()),
            fire: None,
        },
    }
}

fn horizontal_towards_exec(from: Vector3, to: Vector3) -> (r: Direction)
    ensures
        r == horizontal_towards(from, to),
{
    let d = from.offset_to(to);
    crate::utils::horizontal(d)
}

proof fn lemma_best_unique(chars: Seq<Character>, angles: Seq<u64>, i: int, j: int, me: Character)
    requires
        is_best_target(chars, angles, i, me),
        is_best_target(chars, angles, j, me),
    ensures
        i == j,
{
    if i < j {
        assert(angles[j] < angles[i]);
        assert(angles[j] <= angles[i]);
        assert(angles[i] <= angles[j]);
    } else if j < i {
        assert(angles[i] < angles[j]);
        assert(angles[j] <= angles[i]);
    }
}

fn best_target(chars: &Vec<Character>, angles: &Vec<u64>, me: &Character) -> (r: Option<usize>)
    requires
        angles.len() == chars.len(),
    ensures
        r matches Some(i) ==> i < chars.len() && is_best_target(chars@, angles@, i as int, *me),
        r is None ==> !exists|i: int| is_best_target(chars@, angles@, i, *me),
        r is None ==> forall|i: int| !eligible_target(chars@, i, *me),
{
    let mut best: Option<usize> = None;
    let mut k: usize = 0;
    while k < chars.len()
        invariant
            k <= chars.len() == angles.len(),
            best is None ==> forall|j: int| 0 <= j < k ==> !eligible_target(chars@, j, *me),
            best matches Some(b) ==> {
                &&& b < k
                &&& eligible_target(chars@, b as int, *me)
                &&& forall|j: int|
                    0 <= j < k && eligible_target(chars@, j, *me) ==> angles@[b as int]
                        <= #[trigger] angles@[j]
                &&& forall|j: int|
                    0 <= j < b && eligible_target(chars@, j, *me) ==> angles@[b as int]
                        < #[trigger] angles@[j]
            },
        decreases chars.len() - k,
    {
        let c = &chars[k];
        if c.entity != me.entity && !c.killable.killed && c.position.horizontally_farther_than(
            me.position,
            ENGAGEMENT_DISTANCE,
        ) {
            assert(eligible_target(chars@, k as int, *me));
            match best {
                None => {
                    best = Some(k);
                },
                Some(b) => {
                    if angles[k] < angles[b] {
                        best = Some(k);
                    }
                },
            }
        } else {
            assert(!eligible_target(chars@, k as int, *me));
        }
        k = k + 1;
    }
    proof {
        if best is None {
            assert forall|i: int| !eligible_target(chars@, i, *me) by {
                if 0 <= i < chars@.len() {
                }
            }
        }
    }
    best
}

/// What the opponent recorded at `me_index` does this step (see `action_of`).
pub fn process_behavior(
    chars: &Vec<Character>,
    me_index: usize,
    rifle_position: Vector3,
    muzzle: Vector3,
    angles: &Vec<u64>,
) -> (r: Option<BehaviorAction>)
    requires
        me_index < chars.len(),
        unique_entities(chars@),
        behaviors_wf(chars@),
        angles.len() == chars.len(),
    ensures
        r == match chars@[me_index as int].behavior {
            None => None,
            Some(b) => if chars@[me_index as int].killable.killed {
                None
            } else {
                Some(action_of(b, chars@[me_index as int], chars@, rifle_position, muzzle, angles@))
            },
        },
{
    let me = &chars[me_index];
    let b = match me.behavior {
        None => {
            return None;
        },
        Some(b) => b,
    };
    if me.killable.killed {
        return None;
    }
    assert(chars@[me_index as int].behavior is Some);
    let action = match b {
        OpponentBehavior::GetRifle => {
            let d = horizontal_towards_exec(me.position, rifle_position);
            BehaviorAction { desired_velocity: Some(d), desired_forward: Some(d), fire: None }
        },
        OpponentBehavior::FindTarget => {
            let forward = match best_target(chars, angles, me) {
                Some(i) => {
                    proof {
                        let j = choose|j: int| is_best_target(chars@, angles@, j, *me);
                        lemma_best_unique(chars@, angles@, i as int, j, *me);
                    }
                    Some(horizontal_towards_exec(muzzle, chars[i].position))
                },
                None => None,
            };
            BehaviorAction { desired_velocity: Some(Direction::zero()), desired_forward: forward, fire: None }
        },
        OpponentBehavior::Shoot { rifle } => BehaviorAction {
            desired_velocity: None,
            desired_forward: None,
            fire: Some(ShootCommand { shooter: me.entity, rifle }),
        },
        OpponentBehavior::HandsUp { aimed_at_by } => {
            let forward = match find_character(chars, aimed_at_by) {
                Some(i) => {
                    proof {
                        lemma_index_of(chars@, i as int);
                    }
                    horizontal_towards_exec(me.position, chars[i].position)
                },
                None => Direction::zero(),
            };
            BehaviorAction {
                desired_velocity: Some(Direction::zero()),
                desired_forward: Some(forward),
                fire: None,
            }
        },
        OpponentBehavior::Panic { run_from, run_direction_in_shooter_coord: dir } => {
            let d = horizontal_towards_exec(run_from, me.position);
            assert(escape_wf(dir));
            let dx = d.x;
            let dz = d.z;
            let vx = dir.x as i64;
            let vz = dir.z as i64;
            assert(-0x1_0000_0000 <= dx <= 0x1_0000_0000 && -0x1_0000_0000 <= dz <= 0x1_0000_0000);
            assert(-0x1000_0000_0000 <= dz * vx <= 0x1000_0000_0000) by (nonlinear_arith)
                requires
                    -0x1_0000_0000 <= dz <= 0x1_0000_0000,
                    -1000 <= vx <= 1000,
            ;
            assert(-0x1000_0000_0000 <= dx * vz <= 0x1000_0000_0000) by (nonlinear_arith)
                requires
                    -0x1_0000_0000 <= dx <= 0x1_0000_0000,
                    -1000 <= vz <= 1000,
            ;
            assert(-0x1000_0000_0000 <= dx * vx <= 0x1000_0000_0000) by (nonlinear_arith)
                requires
                    -0x1_0000_0000 <= dx <= 0x1_0000_0000,
                    -1000 <= vx <= 1000,
            ;
            assert(-0x1000_0000_0000 <= dz * vz <= 0x1000_0000_0000) by (nonlinear_arith)
                requires
                    -0x1_0000_0000 <= dz <= 0x1_0000_0000,
                    -1000 <= vz <= 1000,
            ;
            let p = Direction { x: -(dz * vx) - dx * vz, y: 0, z: dx * vx - dz * vz };
            BehaviorAction { desired_velocity: Some(p), desired_forward: Some(p), fire: None }
        },
        OpponentBehavior::WaitBefore { .. } => BehaviorAction {
            desired_velocity: Some(Direction::zero()),
            desired_forward: Some(Direction::zero()),
            fire: None,
        },
    };
    Some(action)
}


/// An opponent that keeps panicking keeps the escape direction it chose when
/// the panic started; only the point it runs from follows the danger.
pub proof fn lemma_panic_keeps_direction(
    b: OpponentBehavior,
    me: Character,
    rifle: Rifle,
    rifle_position: Vector3,
    chars: Seq<Character>,
    delta: nat,
    escape: Vector3,
)
    requires
        b is Panic,
        decide_step(b, me, rifle, rifle_position, chars, delta, escape) is Panic,
    ensures
        decide_step(b, me, rifle, rifle_position, chars, delta, escape)->run_direction_in_shooter_coord
            == b->run_direction_in_shooter_coord,
        rifle.status matches RifleStatus::Equiped(h) ==> decide_step(
            b,
            me,
            rifle,
            rifle_position,
            chars,
            delta,
            escape,
        )->run_from == danger_position(chars, h, rifle_position),
{
}

/// Being aimed at by the player takes precedence over panicking: an opponent
/// without the rifle, not about to shoot and not waiting, raises its hands.
pub proof fn lemma_hands_up_before_panic(
    b: OpponentBehavior,
    me: Character,
    rifle: Rifle,
    rifle_position: Vector3,
    chars: Seq<Character>,
    delta: nat,
    escape: Vector3,
    player: int,
)
    requires
        rifle.status is Equiped,
        rifle.status->Equiped_0 != me.entity,
        !(b is Shoot),
        !(b is WaitBefore),
        unique_entities(chars),
        0 <= player < chars.len(),
        chars[player].is_player,
        me.aimed.aimed_at_by == Some(chars[player].entity),
    ensures
        decide_step(b, me, rifle, rifle_position, chars, delta, escape) == (OpponentBehavior::HandsUp {
            aimed_at_by: chars[player].entity,
        }),
{
    lemma_index_of(chars, player);
}

} // verus!
