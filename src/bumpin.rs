use vstd::prelude::*;

use crate::character::{has_character, index_of, lemma_index_of, unique_entities, Character, find_character};
use crate::entity::{CollisionEvent, EntityId};
use crate::geometry::Vector3;
use crate::timer::Timer;

verus! {

/// How long a bumped character stays off balance.
pub const LOST_FOOTING: u64 = 500_000;

/// The value a bump lowers the movement parameters to, in thousandths.
pub const LOWERED_ACCELERATION: i32 = -60_000;

/// How hard a bump pushes: the unit contact normal, in thousandths, is
/// multiplied by this.
pub const BUMP_STRENGTH: i32 = 20;

/// The movement parameters of a character that a bump suppresses for a while,
/// in thousandths of a unit per second squared.
#[derive(Clone, Copy, Debug, PartialEq, Eq, Structural)]
pub struct Movement {
    pub acceleration: i32,
    pub air_acceleration: i32,
}

/// The value a movement parameter had before a bump, and the value it was
/// lowered to.
#[derive(Clone, Copy, Debug, PartialEq, Eq, Structural)]
pub struct AccelerationRestoration {
    pub original: i32,
    pub lowered: i32,
}

/// Where a character stands in the bump reaction.
#[derive(Clone, Copy, Debug, PartialEq, Eq, Structural)]
pub enum BumpStatus {
    NoBump,
    TriggerBump { impulse: Vector3 },
    LostFooting {
        timer: Timer,
        acceleration_restoration: AccelerationRestoration,
        air_acceleration_restoration: AccelerationRestoration,
    },
}

/// The larger of a value and zero.
pub open spec fn floor_zero(v: int) -> int {
    if v < 0 {
        0
    } else {
        v
    }
}

impl AccelerationRestoration {
    /// The value between `lowered` and `original` at `elapsed` out of
    /// `duration`, rounded towards `lowered`, and never below zero. With no
    /// duration the restoration is complete.
    pub open spec fn spec_calc(self, elapsed: int, duration: int) -> int {
        let o = self.original as int;
        let l = self.lowered as int;
        floor_zero(
            if duration <= 0 {
                o
            } else if o >= l {
                l + (o - l) * elapsed / duration
            } else {
                l - (l - o) * elapsed / duration
            },
        )
    }

    /// Records the value behind `target` and lowers it (never below zero).
    pub fn get_and_update(target: &mut i32, lowered: i32) -> (r: Self)
        ensures
            r == (AccelerationRestoration { original: *old(target), lowered }),
            *final(target) == floor_zero(lowered as int),
    {
        let result = AccelerationRestoration { original: *target, lowered };
        *target = if lowered < 0 { 0 } else { lowered };
        result
    }

    /// The restored value at `elapsed` out of `duration` (see `spec_calc`).
    pub fn calc(&self, elapsed: u64, duration: u64) -> (r: i32)
        requires
            elapsed <= duration,
        ensures
            r == self.spec_calc(elapsed as int, duration as int),
    {
        if duration == 0 {
            return if self.original < 0 { 0 } else { self.original };
        }
        let o = self.original as i64;
        let l = self.lowered as i64;
        let gap: u64 = if o >= l { (o - l) as u64 } else { (l - o) as u64 };
        assert((gap as int) * (elapsed as int) <= 0x1_0000_0000 * 0x1_0000_0000_0000_0000)
            by (nonlinear_arith)
            requires
                gap <= 0x1_0000_0000,
                elapsed <= 0xffff_ffff_ffff_ffff,
        ;
        let prod: u128 = gap as u128 * elapsed as u128;
        assert(prod <= gap * duration) by (nonlinear_arith)
            requires
                prod == gap * elapsed,
                elapsed <= duration,
        ;
        let step: u128 = prod / duration as u128;
        assert(step <= gap) by (nonlinear_arith)
            requires
                step == (prod as int) / (duration as int),
                prod <= gap * duration,
                duration > 0,
        ;
        let v: i64 = if o >= l { l + step as i64 } else { l - step as i64 };
        if v < 0 { 0 } else { v as i32 }
    }
}

impl BumpStatus {
    /// Starts a bump with `impulse`, unless one is already under way.
    pub fn trigger_bump_if_empty(&mut self, impulse: Vector3)
        ensures
            *old(self) is NoBump ==> *final(self) == (BumpStatus::TriggerBump { impulse }),
            !(*old(self) is NoBump) ==> *final(self) == *old(self),
    {
        if let BumpStatus::NoBump = self {
            *self = BumpStatus::TriggerBump { impulse };
        }
    }

    pub open spec fn wf(self) -> bool {
        self matches BumpStatus::LostFooting { timer, .. } ==> timer.wf()
    }

    pub open spec fn triggered(self, impulse: Vector3) -> BumpStatus {
        if self is NoBump {
            BumpStatus::TriggerBump { impulse }
        } else {
            self
        }
    }
}

/// All bump timers of the characters are well formed.
pub open spec fn bumps_wf(chars: Seq<Character>) -> bool {
    forall|i: int| 0 <= i < chars.len() ==> (#[trigger] chars[i]).bump.wf()
}

/// What one step of `delta` microseconds of the bump reaction does to a
/// character. A pending bump pushes it and lowers its movement parameters; a
/// character off balance regains them gradually, and fully when its timer runs
/// out. Killed characters take no part.
pub open spec fn bump_step(c: Character, delta: nat) -> Character {
    if c.killable.killed {
        c
    } else {
        match c.bump {
            BumpStatus::NoBump => c,
            BumpStatus::TriggerBump { impulse } => Character {
                velocity: c.velocity.saturating_sum(impulse),
                movement: Movement {
                    acceleration: floor_zero(LOWERED_ACCELERATION as int) as i32,
                    air_acceleration: floor_zero(LOWERED_ACCELERATION as int) as i32,
                },
                bump: BumpStatus::LostFooting {
                    timer: Timer { duration: LOST_FOOTING, elapsed: 0 },
                    acceleration_restoration: AccelerationRestoration {
                        original: c.movement.acceleration,
                        lowered: LOWERED_ACCELERATION,
                    },
                    air_acceleration_restoration: AccelerationRestoration {
                        original: c.movement.air_acceleration,
                        lowered: LOWERED_ACCELERATION,
                    },
                },
                ..c
            },
            BumpStatus::LostFooting {
                timer,
                acceleration_restoration,
                air_acceleration_restoration,
            } => {
                let t = timer.ticked(delta);
                if t.is_finished() {
                    Character {
                        movement: Movement {
                            acceleration: acceleration_restoration.original,
                            air_acceleration: air_acceleration_restoration.original,
                        },
                        bump: BumpStatus::NoBump,
                        ..c
                    }
                } else {
                    Character {
                        movement: Movement {
                            acceleration: acceleration_restoration.spec_calc(
                                t.elapsed as int,
                                t.duration as int,
                            ) as i32,
                            air_acceleration: air_acceleration_restoration.spec_calc(
                                t.elapsed as int,
                                t.duration as int,
                            ) as i32,
                        },
                        bump: BumpStatus::LostFooting {
                            timer: t,
                            acceleration_restoration,
                            air_acceleration_restoration,
                        },
                        ..c
                    }
                }
            },
        }
    }
}

fn apply_bump_to(c: Character, delta: u64) -> (r: Character)
    requires
        c.bump.wf(),
    ensures
        r == bump_step(c, delta as nat),
        r.bump.wf(),
{
    if c.killable.killed {
        return c;
    }
    match c.bump {
        BumpStatus::NoBump => c,
        BumpStatus::TriggerBump { impulse } => {
            let mut movement = c.movement;
            let acceleration_restoration = AccelerationRestoration::get_and_update(
                &mut movement.acceleration,
                LOWERED_ACCELERATION,
            );
            let air_acceleration_restoration = AccelerationRestoration::get_and_update(
                &mut movement.air_acceleration,
                LOWERED_ACCELERATION,
            );
            Character {
                velocity: c.velocity.saturating_add(impulse),
                movement,
                bump: BumpStatus::LostFooting {
                    timer: Timer::from_micros(LOST_FOOTING),
                    acceleration_restoration,
                    air_acceleration_restoration,
                },
                ..c
            }
        },
        BumpStatus::LostFooting { timer, acceleration_restoration, air_acceleration_restoration } => {
            let mut t = timer;
            t.tick(delta);
            if t.finished() {
                Character {
                    movement: Movement {
                        acceleration: acceleration_restoration.original,
                        air_acceleration: air_acceleration_restoration.original,
                    },
                    bump: BumpStatus::NoBump,
                    ..c
                }
            } else {
                Character {
                    movement: Movement {
                        acceleration: acceleration_restoration.calc(t.elapsed, t.duration),
                        air_acceleration: air_acceleration_restoration.calc(t.elapsed, t.duration),
                    },
                    bump: BumpStatus::LostFooting {
                        timer: t,
                        acceleration_restoration,
                        air_acceleration_restoration,
                    },
                    ..c
                }
            }
        },
    }
}

/// Runs one step of `delta` microseconds of the bump reaction on every
/// character (see `bump_step`).
pub fn apply_bumpin(chars: &mut Vec<Character>, delta: u64)
    requires
        bumps_wf(old(chars)@),
    ensures
        final(chars)@.len() == old(chars)@.len(),
        forall|i: int|
            0 <= i < old(chars)@.len() ==> #[trigger] final(chars)@[i] == bump_step(
                old(chars)@[i],
                delta as nat,
            ),
        bumps_wf(final(chars)@),
{
    let mut k: usize = 0;
    while k < chars.len()
        invariant
            k <= chars.len() == old(chars)@.len(),
            forall|i: int|
                0 <= i < k ==> #[trigger] chars@[i] == bump_step(old(chars)@[i], delta as nat),
            forall|i: int| k <= i < chars.len() ==> #[trigger] chars@[i] == old(chars)@[i],
            bumps_wf(chars@),
        decreases chars.len() - k,
    {
        let c = apply_bump_to(chars[k], delta);
        chars[k] = c;
        k = k + 1;
    }
}

/// The contact between two bodies as the physics engine reports it: the sum of
/// its contact normals brought to unit length (in thousandths), pointing away
/// from `collider1`.
#[derive(Clone, Copy, Debug, PartialEq, Eq, Structural)]
pub struct Contact {
    pub normal: Vector3,
    pub collider1: EntityId,
}

/// Whether `e` is a character that starts bumps.
pub open spec fn is_initiator(chars: Seq<Character>, e: EntityId) -> bool {
    exists|i: int| 0 <= i < chars.len() && #[trigger] chars[i].entity == e && chars[i].bump_initiator
}

/// Whether `e` is a character that can be bumped (it has a record and is
/// alive).
pub open spec fn bumpable(chars: Seq<Character>, e: EntityId) -> bool {
    has_character(chars, e) && !chars[index_of(chars, e)].killable.killed
}

/// The impulse a bump gives the initiator `ie`: the contact normal oriented
/// away from the other party, at bump strength.
pub open spec fn initiator_impulse(ie: EntityId, contact: Contact) -> Vector3 {
    let n = if ie == contact.collider1 {
        contact.normal.spec_neg()
    } else {
        contact.normal
    };
    n.spec_scaled(BUMP_STRENGTH as int)
}

/// What one collision does to the bump statuses: when one party starts bumps
/// and both can be bumped, each is pushed away from the other, unless it is
/// already being bumped.
pub open spec fn bump_detect_outcome(
    event: CollisionEvent,
    contact: Option<Contact>,
    chars: Seq<Character>,
) -> Seq<Character> {
    let roles = if is_initiator(chars, event.first) {
        Some((event.first, event.second))
    } else if is_initiator(chars, event.second) {
        Some((event.second, event.first))
    } else {
        None
    };
    match (roles, contact) {
        (Some((ie, oe)), Some(ct)) => if ie != oe && bumpable(chars, ie) && bumpable(chars, oe) {
            let ii = index_of(chars, ie);
            let oi = index_of(chars, oe);
            let impulse = initiator_impulse(ie, ct);
            chars.update(
                ii,
                Character { bump: chars[ii].bump.triggered(impulse), ..chars[ii] },
            ).update(
                oi,
                Character { bump: chars[oi].bump.triggered(impulse.spec_neg()), ..chars[oi] },
            )
        } else {
            chars
        },
        _ => chars,
    }
}

/// What a batch of collisions does to the bump statuses, in order.
pub open spec fn bumps_detected(
    events: Seq<CollisionEvent>,
    contacts: Seq<Option<Contact>>,
    chars: Seq<Character>,
) -> Seq<Character>
    decreases events.len(),
{
    if events.len() == 0 {
        chars
    } else {
        let n = events.len() - 1;
        bump_detect_outcome(events[n], contacts[n], bumps_detected(events.drop_last(), contacts, chars))
    }
}

fn initiator_record(chars: &Vec<Character>, e: EntityId) -> (r: bool)
    requires
        unique_entities(chars@),
    ensures
        r == is_initiator(chars@, e),
{
    match find_character(chars, e) {
        None => false,
        Some(i) => {
            proof {
                lemma_index_of(chars@, i as int);
            }
            if chars[i].bump_initiator {
                true
            } else {
                assert forall|j: int|
                    0 <= j < chars@.len() && #[trigger] chars@[j].entity == e implies !chars@[j].bump_initiator by {
                    assert(chars@[j].entity == chars@[i as int].entity);
                }
                false
            }
        },
    }
}

fn bumpable_record(chars: &Vec<Character>, e: EntityId) -> (r: Option<usize>)
    requires
        unique_entities(chars@),
    ensures
        r is Some <==> bumpable(chars@, e),
        r matches Some(i) ==> i == index_of(chars@, e) && i < chars.len(),
{
    match find_character(chars, e) {
        None => None,
        Some(i) => {
            proof {
                lemma_index_of(chars@, i as int);
            }
            if chars[i].killable.killed {
                None
            } else {
                Some(i)
            }
        },
    }
}

fn detect_one(event: CollisionEvent, contact: Option<Contact>, chars: &mut Vec<Character>)
    requires
        unique_entities(old(chars)@),
        bumps_wf(old(chars)@),
    ensures
        final(chars)@ == bump_detect_outcome(event, contact, old(chars)@),
        unique_entities(final(chars)@),
        bumps_wf(final(chars)@),
        final(chars)@.len() == old(chars)@.len(),
        forall|i: int|
            0 <= i < old(chars)@.len() ==> (#[trigger] final(chars)@[i]).entity == old(chars)@[i].entity
                && final(chars)@[i].holder == old(chars)@[i].holder,
{
    let (ie, oe) = if initiator_record(chars, event.first) {
        (event.first, event.second)
    } else if initiator_record(chars, event.second) {
        (event.second, event.first)
    } else {
        return;
    };
    let ct = match contact {
        Some(ct) => ct,
        None => {
            return;
        },
    };
    if ie == oe {
        return;
    }
    let ii = match bumpable_record(chars, ie) {
        Some(i) => i,
        None => {
            return;
        },
    };
    let oi = match bumpable_record(chars, oe) {
        Some(i) => i,
        None => {
            return;
        },
    };
    let oriented = if ie == ct.collider1 {
        ct.normal.neg()
    } else {
        ct.normal
    };
    let impulse = oriented.scaled(BUMP_STRENGTH);
    let mut a = chars[ii];
    a.bump.trigger_bump_if_empty(impulse);
    chars[ii] = a;
    let mut b = chars[oi];
    b.bump.trigger_bump_if_empty(impulse.neg());
    chars[oi] = b;
}

/// Starts bumps for the collisions of one step, in order, each with the
/// contact the physics engine reports for it (see `bump_detect_outcome`).
pub fn detect_bumpin(
    events: &Vec<CollisionEvent>,
    contacts: &Vec<Option<Contact>>,
    chars: &mut Vec<Character>,
)
    requires
        events.len() == contacts.len(),
        unique_entities(old(chars)@),
        bumps_wf(old(chars)@),
    ensures
        final(chars)@ == bumps_detected(events@, contacts@, old(chars)@),
        unique_entities(final(chars)@),
        bumps_wf(final(chars)@),
        final(chars)@.len() == old(chars)@.len(),
        forall|i: int|
            0 <= i < old(chars)@.len() ==> (#[trigger] final(chars)@[i]).entity == old(chars)@[i].entity
                && final(chars)@[i].holder == old(chars)@[i].holder,
{
    let mut k: usize = 0;
    while k < events.len()
        invariant
            k <= events.len() == contacts.len(),
            chars@ == bumps_detected(events@.subrange(0, k as int), contacts@, old(chars)@),
            unique_entities(chars@),
            bumps_wf(chars@),
            chars@.len() == old(chars)@.len(),
            forall|i: int|
                0 <= i < old(chars)@.len() ==> (#[trigger] chars@[i]).entity == old(chars)@[i].entity
                    && chars@[i].holder == old(chars)@[i].holder,
        decreases events.len() - k,
    {
        assert(events@.subrange(0, k as int + 1).drop_last() == events@.subrange(0, k as int));
        assert(events@.subrange(0, k as int + 1)[k as int] == events@[k as int]);
        detect_one(events[k], contacts[k], chars);
        k = k + 1;
    }
    assert(events@.subrange(0, events.len() as int) == events@);
}


proof fn lemma_div_monotonic(g: int, e1: int, e2: int, d: int)
    requires
        0 <= g,
        0 <= e1 <= e2,
        0 < d,
    ensures
        g * e1 / d <= g * e2 / d,
{
    assert(g * e1 <= g * e2) by (nonlinear_arith)
        requires
            0 <= g,
            e1 <= e2,
    ;
    vstd::arithmetic::div_mod::lemma_div_is_ordered(g * e1, g * e2, d);
}

/// While a character is off balance, the restored value of a movement
/// parameter never decreases as time goes on. (A restoration from a value
/// below a positive lowered value would decrease; the bump reaction always
/// lowers to a negative value.)
pub proof fn lemma_restoration_monotonic(r: AccelerationRestoration, e1: int, e2: int, duration: int)
    requires
        0 <= e1 <= e2 <= duration,
        r.lowered <= r.original || r.lowered <= 0,
    ensures
        r.spec_calc(e1, duration) <= r.spec_calc(e2, duration),
{
    if duration > 0 {
        let o = r.original as int;
        let l = r.lowered as int;
        if o >= l {
            lemma_div_monotonic(o - l, e1, e2, duration);
        } else {
            assert((l - o) * e1 / duration >= 0) by (nonlinear_arith)
                requires
                    l - o > 0,
                    e1 >= 0,
                    duration > 0,
            ;
            assert((l - o) * e2 / duration >= 0) by (nonlinear_arith)
                requires
                    l - o > 0,
                    e2 >= 0,
                    duration > 0,
            ;
        }
    }
}

/// At the end of the interval the restored value is the original one (for a
/// parameter that is not negative).
pub proof fn lemma_restoration_complete(r: AccelerationRestoration, duration: int)
    requires
        duration > 0,
        r.original >= 0,
    ensures
        r.spec_calc(duration, duration) == r.original,
{
    let o = r.original as int;
    let l = r.lowered as int;
    if o >= l {
        vstd::arithmetic::div_mod::lemma_div_by_multiple(o - l, duration);
    } else {
        vstd::arithmetic::div_mod::lemma_div_by_multiple(l - o, duration);
    }
}

/// A character that is already off balance ignores further bumps: neither its
/// impulse nor its timer changes.
pub proof fn lemma_no_bump_stacking(status: BumpStatus, impulse: Vector3)
    requires
        status is LostFooting,
    ensures
        status.triggered(impulse) == status,
{
}

} // verus!
