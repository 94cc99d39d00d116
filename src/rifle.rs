use vstd::prelude::*;

use crate::character::{find_character, has_character, unique_entities, Character};
use crate::entity::{CollisionEvent, EntityId};
use crate::geometry::Vector3;
use crate::timer::Timer;
use crate::utils::{entities_ordered_by_type, ordered_by_roles, roles_view, table_contains};

verus! {

/// How long a rifle that touched the ground waits before it starts to float.
pub const WAIT_BEFORE_FLOAT: u64 = 500_000;

/// How long a rifle that was just fired stays out of reach.
pub const RIFLE_COOLDOWN: u64 = 1_000_000;

/// The height a floating rifle hovers at, in thousandths.
pub const HOVER_HEIGHT: i32 = 2000;

/// The fastest a floating rifle moves up or down, in thousandths per second.
pub const HOVER_MAX_SPEED: i32 = 5000;

/// How fast a floating rifle spins about the vertical axis, in thousandths of a
/// radian per second.
pub const HOVER_SPIN: i32 = 2000;

/// How far to the side of its holder a held rifle sits, in thousandths.
pub const HOLD_OFFSET: i32 = 650;

/// How far each unit of random jitter throws a fired rifle sideways.
pub const RECOIL_JITTER: i32 = 15;

/// How fast a fired rifle is thrown upwards, in thousandths per second.
pub const RECOIL_LIFT: i32 = 20000;

/// Random jitter is given in thousandths between minus and plus one.
pub const JITTER_LIMIT: i32 = 1000;

/// How high a character aims, in thousandths of a radian.
#[derive(Clone, Copy, Debug, PartialEq, Eq, Structural)]
pub struct AimElevation(pub i32);

/// Whether a character holds a rifle, and which.
#[derive(Clone, Copy, Debug, PartialEq, Eq, Structural)]
pub enum RifleHolder {
    NoRifle,
    HasRifle(EntityId),
}

/// Where the rifle is in its life cycle.
#[derive(Clone, Copy, Debug, PartialEq, Eq, Structural)]
pub enum RifleStatus {
    Ragdoll,
    WaitBeforeFloat(Timer),
    Floating,
    Equiped(EntityId),
    Cooldown(Timer),
}

/// A request to fire `rifle`.
#[derive(Clone, Copy, Debug, PartialEq, Eq, Structural)]
pub struct ShootCommand {
    pub shooter: EntityId,
    pub rifle: EntityId,
}

/// The joint that fastens a held rifle to its holder: where on the holder it
/// sits, and how far it is pitched up.
#[derive(Clone, Copy, Debug, PartialEq, Eq, Structural)]
pub struct RifleJoint {
    pub holder: EntityId,
    pub anchor: Vector3,
    pub pitch: i32,
}

/// The rifle.
#[derive(Clone, Copy, Debug, PartialEq, Eq, Structural)]
pub struct Rifle {
    pub entity: EntityId,
    pub status: RifleStatus,
    pub joint: Option<RifleJoint>,
}

/// What the physics engine should do with the rifle's motion this step.
/// `Hover` sets only the vertical speed, in thousandths per second, and leaves
/// the horizontal velocity to the physics engine; it also sets the spin
/// (angular velocity, in thousandths of a radian per second).
#[derive(Clone, Copy, Debug, PartialEq, Eq, Structural)]
pub enum RifleMotion {
    Unchanged,
    Hover { vertical_speed: i32, angvel: Vector3 },
}

impl Rifle {
    /// Timers are well formed, and the rifle has a joint exactly when it is
    /// held, fastened to its holder.
    pub open spec fn wf(self) -> bool {
        &&& match self.status {
            RifleStatus::WaitBeforeFloat(t) => t.wf(),
            RifleStatus::Cooldown(t) => t.wf(),
            _ => true,
        }
        &&& (self.joint is Some <==> self.status is Equiped)
        &&& self.status matches RifleStatus::Equiped(h) ==> self.joint->Some_0.holder == h
    }

    /// A rifle hovering in the air, ready to be picked up.
    pub fn new_floating(entity: EntityId) -> (r: Rifle)
        ensures
            r == (Rifle { entity, status: RifleStatus::Floating, joint: None }),
            r.wf(),
    {
        Rifle { entity, status: RifleStatus::Floating, joint: None }
    }
}

/// The rifle and the characters' holder records agree: a character records
/// that it has the rifle exactly when the rifle records that character as its
/// holder.
pub open spec fn holding_consistent(rifle: Rifle, chars: Seq<Character>) -> bool {
    &&& unique_entities(chars)
    &&& rifle.wf()
    &&& forall|i: int|
        0 <= i < chars.len() && #[trigger] chars[i].holder == RifleHolder::HasRifle(rifle.entity)
            ==> rifle.status == RifleStatus::Equiped(chars[i].entity)
    &&& rifle.status matches RifleStatus::Equiped(h) ==> exists|i: int|
        0 <= i < chars.len() && #[trigger] chars[i].entity == h && chars[i].holder
            == RifleHolder::HasRifle(rifle.entity)
}

/// At most one character holds a given rifle, and it is the one the rifle
/// names as its holder.
pub proof fn lemma_single_holder(rifle: Rifle, chars: Seq<Character>, i: int, j: int)
    requires
        holding_consistent(rifle, chars),
        0 <= i < chars.len(),
        0 <= j < chars.len(),
        chars[i].holder == RifleHolder::HasRifle(rifle.entity),
        chars[j].holder == RifleHolder::HasRifle(rifle.entity),
    ensures
        i == j,
        rifle.status == RifleStatus::Equiped(chars[i].entity),
{
}

/// The other party of a collision that involves the rifle.
pub open spec fn other_party(event: CollisionEvent, rifle: EntityId) -> Option<EntityId> {
    if event.first == rifle {
        Some(event.second)
    } else if event.second == rifle {
        Some(event.first)
    } else {
        None
    }
}

/// Whether the character recorded at `i` may pick up the rifle.
pub open spec fn can_pick_up(chars: Seq<Character>, i: int, other: EntityId) -> bool {
    0 <= i < chars.len() && chars[i].entity == other && chars[i].holder == RifleHolder::NoRifle
        && !chars[i].killable.killed
}

/// The rifle held by `holder`, fastened to its side.
pub open spec fn equipped_by(rifle: Rifle, holder: EntityId) -> Rifle {
    Rifle {
        entity: rifle.entity,
        status: RifleStatus::Equiped(holder),
        joint: Some(
            RifleJoint { holder, anchor: Vector3 { x: HOLD_OFFSET, y: 0, z: 0 }, pitch: 0 },
        ),
    }
}

/// What one collision does to the rifle and the characters. A held rifle and
/// a rifle in cooldown ignore collisions. Touching the ground makes it wait
/// before floating; touching a character without a rifle hands it over.
pub open spec fn rifle_collision_outcome(
    event: CollisionEvent,
    rifle: Rifle,
    grounds: Seq<EntityId>,
    chars: Seq<Character>,
) -> (Rifle, Seq<Character>) {
    match other_party(event, rifle.entity) {
        None => (rifle, chars),
        Some(other) => if rifle.status is Equiped || rifle.status is Cooldown {
            (rifle, chars)
        } else if grounds.contains(other) {
            (
                Rifle {
                    status: RifleStatus::WaitBeforeFloat(
                        Timer { duration: WAIT_BEFORE_FLOAT, elapsed: 0 },
                    ),
                    ..rifle
                },
                chars,
            )
        } else if exists|i: int| can_pick_up(chars, i, other) {
            let i = choose|i: int| can_pick_up(chars, i, other);
            (
                equipped_by(rifle, other),
                chars.update(
                    i,
                    Character { holder: RifleHolder::HasRifle(rifle.entity), ..chars[i] },
                ),
            )
        } else {
            (rifle, chars)
        },
    }
}

/// What a batch of collisions does, taken in order.
pub open spec fn rifle_collisions_outcome(
    events: Seq<CollisionEvent>,
    rifle: Rifle,
    grounds: Seq<EntityId>,
    chars: Seq<Character>,
) -> (Rifle, Seq<Character>)
    decreases events.len(),
{
    if events.len() == 0 {
        (rifle, chars)
    } else {
        let before = rifle_collisions_outcome(events.drop_last(), rifle, grounds, chars);
        rifle_collision_outcome(events.last(), before.0, grounds, before.1)
    }
}

proof fn lemma_pick_up_index(chars: Seq<Character>, i: int, other: EntityId)
    requires
        unique_entities(chars),
        can_pick_up(chars, i, other),
    ensures
        (choose|j: int| can_pick_up(chars, j, other)) == i,
{
    let j = choose|j: int| can_pick_up(chars, j, other);
    assert(chars[j].entity == chars[i].entity);
}

fn rifle_collision(
    event: CollisionEvent,
    rifle: &mut Rifle,
    grounds: &Vec<EntityId>,
    chars: &mut Vec<Character>,
)
    requires
        holding_consistent(*old(rifle), old(chars)@),
    ensures
        (*final(rifle), final(chars)@) == rifle_collision_outcome(
            event,
            *old(rifle),
            grounds@,
            old(chars)@,
        ),
        holding_consistent(*final(rifle), final(chars)@),
{
    let mut pair: Vec<EntityId> = Vec::new();
    pair.push(event.first);
    pair.push(event.second);
    let mut rifles: Vec<EntityId> = Vec::new();
    rifles.push(rifle.entity);
    let mut roles: Vec<Vec<EntityId>> = Vec::new();
    roles.push(rifles);
    let ghost s = pair@;
    let ghost rv = roles_view(roles@);
    assert(rv[0] == seq![rifle.entity]);
    assert(seq![rifle.entity][0] == rifle.entity);
    assert(forall|e: EntityId| seq![rifle.entity].contains(e) <==> e == rifle.entity);
    assert(s[0] == event.first && s[1] == event.second);
    let ordered = entities_ordered_by_type(pair, &roles);
    proof {
        reveal_with_fuel(ordered_by_roles, 2);
        reveal_with_fuel(crate::utils::first_in_role, 3);
        assert(ordered_by_roles(s, rv, 0) == Some(s));
    }
    let other = match ordered {
        None => {
            assert(other_party(event, rifle.entity) is None);
            return;
        },
        Some(v) => {
            assert(v@.len() == 2);
            v[1]
        },
    };
    assert(other_party(event, rifle.entity) == Some(other));
    match rifle.status {
        RifleStatus::Equiped(_) => {
            return;
        },
        RifleStatus::Cooldown(_) => {
            return;
        },
        _ => {},
    }
    if table_contains(grounds, &other) {
        rifle.status = RifleStatus::WaitBeforeFloat(Timer::from_micros(WAIT_BEFORE_FLOAT));
        return;
    }
    match find_character(chars, other) {
        None => {
            assert(!exists|i: int| can_pick_up(old(chars)@, i, other));
        },
        Some(i) => {
            let c = chars[i];
            if !c.killable.killed && c.holder == RifleHolder::NoRifle {
                proof {
                    lemma_pick_up_index(chars@, i as int, other);
                }
                assert(can_pick_up(old(chars)@, i as int, other));
                let ghost old_rifle = *rifle;
                let entity = rifle.entity;
                chars[i] = Character { holder: RifleHolder::HasRifle(entity), ..c };
                *rifle = Rifle {
                    entity,
                    status: RifleStatus::Equiped(other),
                    joint: Some(
                        RifleJoint { holder: other, anchor: Vector3 { x: HOLD_OFFSET, y: 0, z: 0 }, pitch: 0 },
                    ),
                };
                assert(chars@[i as int].entity == other);
                assert(*rifle == equipped_by(old_rifle, other));
                assert(chars@ == old(chars)@.update(
                    i as int,
                    Character { holder: RifleHolder::HasRifle(entity), ..old(chars)@[i as int] },
                ));
            } else {
                assert forall|j: int| !can_pick_up(old(chars)@, j, other) by {
                    if can_pick_up(old(chars)@, j, other) {
                        assert(old(chars)@[j].entity == old(chars)@[i as int].entity);
                    }
                }
            }
        },
    }
}

/// Lets the rifle react to the collisions of one step, in order: the ground
/// makes it wait before floating, and a character without a rifle that
/// touches it picks it up (unless it is held or in cooldown).
pub fn handle_rifle_collisions(
    events: &Vec<CollisionEvent>,
    rifle: &mut Rifle,
    grounds: &Vec<EntityId>,
    chars: &mut Vec<Character>,
)
    requires
        holding_consistent(*old(rifle), old(chars)@),
    ensures
        (*final(rifle), final(chars)@) == rifle_collisions_outcome(
            events@,
            *old(rifle),
            grounds@,
            old(chars)@,
        ),
        holding_consistent(*final(rifle), final(chars)@),
{
    let mut k: usize = 0;
    while k < events.len()
        invariant
            k <= events.len(),
            (*rifle, chars@) == rifle_collisions_outcome(
                events@.subrange(0, k as int),
                *old(rifle),
                grounds@,
                old(chars)@,
            ),
            holding_consistent(*rifle, chars@),
        decreases events.len() - k,
    {
        assert(events@.subrange(0, k as int + 1).drop_last() == events@.subrange(0, k as int));
        rifle_collision(events[k], rifle, grounds, chars);
        k = k + 1;
    }
    assert(events@.subrange(0, events.len() as int) == events@);
}

/// Integer division that rounds towards zero.
pub open spec fn toward_zero_div(a: int, b: int) -> int {
    if a >= 0 {
        a / b
    } else {
        -((-a) / b)
    }
}

/// The vertical speed that would bring a rifle at `height` to the hover height
/// within one step of `delta` microseconds, held to the maximum hover speed.
pub open spec fn hover_speed(height: int, delta: int) -> int {
    let v = toward_zero_div((HOVER_HEIGHT - height) * 1_000_000, delta);
    if v > HOVER_MAX_SPEED {
        HOVER_MAX_SPEED as int
    } else if v < -HOVER_MAX_SPEED {
        -HOVER_MAX_SPEED
    } else {
        v
    }
}

/// The aim elevation of the character recorded for `e`, if any.
pub open spec fn aim_of(chars: Seq<Character>, e: EntityId) -> Option<i32> {
    if has_character(chars, e) {
        let i = choose|i: int| 0 <= i < chars.len() && #[trigger] chars[i].entity == e;
        Some(chars[i].aim_elevation.0)
    } else {
        None
    }
}

/// What one step of `delta` microseconds does to the rifle by itself: timers
/// run, a floating rifle is steered to its hover height and spun, and a held
/// rifle is pitched to its holder's aim. Only the vertical speed of a floating
/// rifle is set. A step of no time changes nothing.
pub open spec fn pose_outcome(rifle: Rifle, chars: Seq<Character>, height: int, delta: nat) -> (
    Rifle,
    RifleMotion,
) {
    if delta == 0 {
        (rifle, RifleMotion::Unchanged)
    } else {
        match rifle.status {
            RifleStatus::Ragdoll => (rifle, RifleMotion::Unchanged),
            RifleStatus::WaitBeforeFloat(t) => {
                let t2 = t.ticked(delta);
                (
                    Rifle {
                        status: if t2.is_finished() {
                            RifleStatus::Floating
                        } else {
                            RifleStatus::WaitBeforeFloat(t2)
                        },
                        ..rifle
                    },
                    RifleMotion::Unchanged,
                )
            },
            RifleStatus::Floating => (
                rifle,
                RifleMotion::Hover {
                    vertical_speed: hover_speed(height, delta as int) as i32,
                    angvel: Vector3 { x: 0, y: HOVER_SPIN, z: 0 },
                },
            ),
            RifleStatus::Equiped(h) => match (aim_of(chars, h), rifle.joint) {
                (Some(aim), Some(j)) => (
                    Rifle { joint: Some(RifleJoint { pitch: aim, ..j }), ..rifle },
                    RifleMotion::Unchanged,
                ),
                _ => (rifle, RifleMotion::Unchanged),
            },
            RifleStatus::Cooldown(t) => {
                let t2 = t.ticked(delta);
                (
                    Rifle {
                        status: if t2.is_finished() {
                            RifleStatus::Ragdoll
                        } else {
                            RifleStatus::Cooldown(t2)
                        },
                        ..rifle
                    },
                    RifleMotion::Unchanged,
                )
            },
        }
    }
}

fn hover_vertical_speed(height: i32, delta: u64) -> (r: i32)
    requires
        delta > 0,
    ensures
        r == hover_speed(height as int, delta as int),
{
    let diff: i64 = HOVER_HEIGHT as i64 - height as i64;
    let num: i64 = diff * 1_000_000;
    let magnitude: u64 = if num >= 0 { num as u64 } else { (-num) as u64 };
    let q: u64 = magnitude / delta;
    if num >= 0 {
        if q > HOVER_MAX_SPEED as u64 { HOVER_MAX_SPEED } else { q as i32 }
    } else {
        if q > HOVER_MAX_SPEED as u64 { -HOVER_MAX_SPEED } else { -(q as i32) }
    }
}

fn lookup_aim(chars: &Vec<Character>, e: EntityId) -> (r: Option<i32>)
    requires
        unique_entities(chars@),
    ensures
        r == aim_of(chars@, e),
{
    match find_character(chars, e) {
        None => None,
        Some(i) => {
            let ghost j = choose|j: int| 0 <= j < chars@.len() && #[trigger] chars@[j].entity == e;
            assert(chars@[j].entity == chars@[i as int].entity);
            Some(chars[i].aim_elevation.0)
        },
    }
}

/// Advances the rifle by one step of `delta` microseconds, given its current
/// height (see `pose_outcome`). Returns how the physics engine should move it.
pub fn pose_rifle(rifle: &mut Rifle, chars: &Vec<Character>, height: i32, delta: u64) -> (r:
    RifleMotion)
    requires
        holding_consistent(*old(rifle), chars@),
    ensures
        (*final(rifle), r) == pose_outcome(*old(rifle), chars@, height as int, delta as nat),
        holding_consistent(*final(rifle), chars@),
{
    if delta == 0 {
        return RifleMotion::Unchanged;
    }
    match rifle.status {
        RifleStatus::Ragdoll => RifleMotion::Unchanged,
        RifleStatus::WaitBeforeFloat(t) => {
            let mut t2 = t;
            t2.tick(delta);
            if t2.finished() {
                rifle.status = RifleStatus::Floating;
            } else {
                rifle.status = RifleStatus::WaitBeforeFloat(t2);
            }
            RifleMotion::Unchanged
        },
        RifleStatus::Floating => RifleMotion::Hover {
            vertical_speed: hover_vertical_speed(height, delta),
            angvel: Vector3 { x: 0, y: HOVER_SPIN, z: 0 },
        },
        RifleStatus::Equiped(h) => {
            match (lookup_aim(chars, h), rifle.joint) {
                (Some(aim), Some(j)) => {
                    rifle.joint = Some(RifleJoint { pitch: aim, ..j });
                },
                _ => {},
            }
            RifleMotion::Unchanged
        },
        RifleStatus::Cooldown(t) => {
            let mut t2 = t;
            t2.tick(delta);
            if t2.finished() {
                rifle.status = RifleStatus::Ragdoll;
            } else {
                rifle.status = RifleStatus::Cooldown(t2);
            }
            RifleMotion::Unchanged
        },
    }
}

/// The velocity, in the rifle's own frame, that firing gives it: thrown up,
/// and sideways by the random jitter.
pub open spec fn recoil_velocity(jitter_x: int, jitter_z: int) -> Vector3 {
    Vector3 {
        x: (RECOIL_JITTER * jitter_x) as i32,
        y: RECOIL_LIFT,
        z: (RECOIL_JITTER * jitter_z) as i32,
    }
}

/// Random jitter for one shot, each part in thousandths between -1 and 1.
#[derive(Clone, Copy, Debug, PartialEq, Eq, Structural)]
pub struct Jitter {
    pub x: i32,
    pub z: i32,
}

impl Jitter {
    pub open spec fn wf(self) -> bool {
        -JITTER_LIMIT <= self.x <= JITTER_LIMIT && -JITTER_LIMIT <= self.z <= JITTER_LIMIT
    }
}

/// The characters after the record for `e`, if there is one, lets go of its
/// rifle.
pub open spec fn released_by(chars: Seq<Character>, e: EntityId) -> Seq<Character> {
    if has_character(chars, e) {
        let i = choose|i: int| 0 <= i < chars.len() && #[trigger] chars[i].entity == e;
        chars.update(i, Character { holder: RifleHolder::NoRifle, ..chars[i] })
    } else {
        chars
    }
}

/// What one fire command does. A command for another rifle does nothing. Any
/// command for this rifle loosens its joint; if the rifle was held, it goes
/// into cooldown, its holder lets go, and it is thrown off with a recoil.
pub open spec fn shot_outcome(cmd: ShootCommand, jitter: Jitter, rifle: Rifle, chars: Seq<
    Character,
>) -> (Rifle, Seq<Character>, Option<Vector3>) {
    if cmd.rifle != rifle.entity {
        (rifle, chars, None)
    } else {
        match rifle.status {
            RifleStatus::Equiped(h) => (
                Rifle {
                    entity: rifle.entity,
                    status: RifleStatus::Cooldown(Timer { duration: RIFLE_COOLDOWN, elapsed: 0 }),
                    joint: None,
                },
                released_by(chars, h),
                Some(recoil_velocity(jitter.x as int, jitter.z as int)),
            ),
            _ => (Rifle { joint: None, ..rifle }, chars, None),
        }
    }
}

/// What a batch of fire commands does, taken in order, each with its jitter.
/// The recoil is that of the last command that fired.
pub open spec fn shots_outcome(
    cmds: Seq<ShootCommand>,
    jitters: Seq<Jitter>,
    rifle: Rifle,
    chars: Seq<Character>,
) -> (Rifle, Seq<Character>, Option<Vector3>)
    decreases cmds.len(),
{
    if cmds.len() == 0 {
        (rifle, chars, None)
    } else {
        let n = cmds.len() - 1;
        let before = shots_outcome(cmds.drop_last(), jitters, rifle, chars);
        let step = shot_outcome(cmds[n], jitters[n], before.0, before.1);
        (step.0, step.1, if step.2 is Some { step.2 } else { before.2 })
    }
}

fn shoot_once(cmd: ShootCommand, jitter: Jitter, rifle: &mut Rifle, chars: &mut Vec<Character>) -> (r:
    Option<Vector3>)
    requires
        holding_consistent(*old(rifle), old(chars)@),
        jitter.wf(),
    ensures
        (*final(rifle), final(chars)@, r) == shot_outcome(cmd, jitter, *old(rifle), old(chars)@),
        holding_consistent(*final(rifle), final(chars)@),
{
    if cmd.rifle != rifle.entity {
        return None;
    }
    rifle.joint = None;
    match rifle.status {
        RifleStatus::Equiped(h) => {
            rifle.status = RifleStatus::Cooldown(Timer::from_micros(RIFLE_COOLDOWN));
            match find_character(chars, h) {
                Some(i) => {
                    let ghost j = choose|j: int|
                        0 <= j < chars@.len() && #[trigger] chars@[j].entity == h;
                    assert(chars@[j].entity == chars@[i as int].entity);
                    let c = chars[i];
                    chars[i] = Character { holder: RifleHolder::NoRifle, ..c };
                },
                None => {},
            }
            Some(
                Vector3 { x: RECOIL_JITTER * jitter.x, y: RECOIL_LIFT, z: RECOIL_JITTER * jitter.z },
            )
        },
        _ => None,
    }
}

/// Carries out the fire commands of one step, each with the random jitter
/// drawn for it. Returns the recoil velocity, in the rifle's own frame, of the
/// shot that went off, if one did.
pub fn handle_shooting(
    cmds: &Vec<ShootCommand>,
    jitters: &Vec<Jitter>,
    rifle: &mut Rifle,
    chars: &mut Vec<Character>,
) -> (r: Option<Vector3>)
    requires
        holding_consistent(*old(rifle), old(chars)@),
        jitters.len() == cmds.len(),
        forall|i: int| 0 <= i < jitters.len() ==> (#[trigger] jitters@[i]).wf(),
    ensures
        (*final(rifle), final(chars)@, r) == shots_outcome(cmds@, jitters@, *old(rifle), old(chars)@),
        holding_consistent(*final(rifle), final(chars)@),
{
    let mut recoil: Option<Vector3> = None;
    let mut k: usize = 0;
    while k < cmds.len()
        invariant
            k <= cmds.len() == jitters.len(),
            forall|i: int| 0 <= i < jitters.len() ==> (#[trigger] jitters@[i]).wf(),
            (*rifle, chars@, recoil) == shots_outcome(
                cmds@.subrange(0, k as int),
                jitters@,
                *old(rifle),
                old(chars)@,
            ),
            holding_consistent(*rifle, chars@),
        decreases cmds.len() - k,
    {
        assert(cmds@.subrange(0, k as int + 1).drop_last() == cmds@.subrange(0, k as int));
        let fired = shoot_once(cmds[k], jitters[k], rifle, chars);
        if fired.is_some() {
            recoil = fired;
        }
        k = k + 1;
    }
    assert(cmds@.subrange(0, cmds.len() as int) == cmds@);
    recoil
}


/// Steps that leave every character's entity and holder record alone keep the
/// rifle and its holder in agreement.
pub proof fn lemma_holders_untouched(rifle: Rifle, before: Seq<Character>, after: Seq<Character>)
    requires
        holding_consistent(rifle, before),
        after.len() == before.len(),
        forall|i: int|
            0 <= i < before.len() ==> (#[trigger] after[i]).entity == before[i].entity
                && after[i].holder == before[i].holder,
    ensures
        holding_consistent(rifle, after),
{
    assert forall|i: int, j: int|
        0 <= i < after.len() && 0 <= j < after.len() && i != j implies #[trigger] after[i].entity
        != #[trigger] after[j].entity by {
        assert(after[i].entity == before[i].entity);
        assert(after[j].entity == before[j].entity);
    }
    assert forall|i: int|
        0 <= i < after.len() && #[trigger] after[i].holder == RifleHolder::HasRifle(
            rifle.entity,
        ) implies rifle.status == RifleStatus::Equiped(after[i].entity) by {
        assert(before[i].holder == after[i].holder);
    }
    if rifle.status is Equiped {
        let h = rifle.status->Equiped_0;
        let i = choose|i: int|
            0 <= i < before.len() && #[trigger] before[i].entity == h && before[i].holder
                == RifleHolder::HasRifle(rifle.entity);
        assert(after[i].entity == h);
    }
}

/// A rifle in cooldown is not picked up, whatever it collides with: the
/// collisions leave the rifle and the characters as they were.
pub proof fn lemma_cooldown_ignores_collisions(
    events: Seq<CollisionEvent>,
    rifle: Rifle,
    grounds: Seq<EntityId>,
    chars: Seq<Character>,
)
    requires
        rifle.status is Cooldown,
    ensures
        rifle_collisions_outcome(events, rifle, grounds, chars) == (rifle, chars),
    decreases events.len(),
{
    if events.len() > 0 {
        lemma_cooldown_ignores_collisions(events.drop_last(), rifle, grounds, chars);
    }
}

/// A floating, waiting or fallen rifle that a live character without a rifle
/// touches is picked up by it, whichever party the collision names first: the
/// rifle is fastened to that character and its record now holds the rifle.
pub proof fn lemma_pickup(
    event: CollisionEvent,
    rifle: Rifle,
    grounds: Seq<EntityId>,
    chars: Seq<Character>,
    i: int,
)
    requires
        unique_entities(chars),
        !(rifle.status is Equiped),
        !(rifle.status is Cooldown),
        0 <= i < chars.len(),
        chars[i].holder == RifleHolder::NoRifle,
        !chars[i].killable.killed,
        chars[i].entity != rifle.entity,
        !grounds.contains(chars[i].entity),
        (event.first == rifle.entity && event.second == chars[i].entity) || (event.first
            == chars[i].entity && event.second == rifle.entity),
    ensures
        rifle_collision_outcome(event, rifle, grounds, chars) == (
            equipped_by(rifle, chars[i].entity),
            chars.update(
                i,
                Character { holder: RifleHolder::HasRifle(rifle.entity), ..chars[i] },
            ),
        ),
{
    assert(can_pick_up(chars, i, chars[i].entity));
    lemma_pick_up_index(chars, i, chars[i].entity);
}

} // verus!
