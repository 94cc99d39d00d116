use vstd::prelude::*;

use crate::entity::EntityId;
use crate::geometry::Direction;

verus! {

/// Entities of a short list, of which the first `settled` have been given
/// their role; the others still wait for one.
#[derive(Debug)]
pub struct Unresolved<T> {
    pub items: Vec<T>,
    pub settled: usize,
}

/// Moves the first unsettled item that belongs to a role's table to the front
/// of the unsettled part and settles it. A list where no unsettled item belongs
/// to the table cannot be resolved and becomes `None`.
pub trait ReorderItem: Sized {
    type Type;

    fn reorder_item(self, role: &Vec<Self::Type>) -> Self;
}

/// `s` with the items at `i` and `j` exchanged.
pub open spec fn swapped<T>(s: Seq<T>, i: int, j: int) -> Seq<T> {
    s.update(i, s[j]).update(j, s[i])
}

/// What settling one more item for `role` makes of `u`.
pub open spec fn reordered(u: Unresolved<EntityId>, role: Seq<EntityId>) -> Option<Seq<EntityId>> {
    let i = first_in_role(u.items@, u.settled as int, role);
    if u.settled > u.items.len() || i < 0 {
        None
    } else {
        Some(swapped(u.items@, u.settled as int, i))
    }
}

/// Settles the first unsettled item of `u` that belongs to `role`.
fn settle_next(u: Unresolved<EntityId>, role: &Vec<EntityId>) -> (r: Option<Unresolved<EntityId>>)
    ensures
        r is Some <==> reordered(u, role@) is Some,
        r is Some ==> r->Some_0.items@ == reordered(u, role@)->Some_0 && r->Some_0.settled
            == u.settled + 1,
{
    if u.settled > u.items.len() {
        return None;
    }
    let settled = u.settled;
    let mut idx: usize = settled;
    let mut found = false;
    while idx < u.items.len()
        invariant
            settled == u.settled,
            settled <= idx <= u.items.len(),
            found ==> idx < u.items.len() && role@.contains(u.items@[idx as int]),
            forall|j: int| settled <= j < idx ==> !role@.contains(#[trigger] u.items@[j]),
        ensures
            found ==> idx < u.items.len() && role@.contains(u.items@[idx as int]),
            !found ==> idx == u.items.len(),
            forall|j: int| settled <= j < idx ==> !role@.contains(#[trigger] u.items@[j]),
        decreases u.items.len() - idx,
    {
        if table_contains(&role, &u.items[idx]) {
            found = true;
            break;
        }
        idx = idx + 1;
    }
    if !found {
        proof {
            lemma_first_in_role_none(u.items@, settled as int, role@);
        }
        return None;
    }
    proof {
        lemma_first_in_role(u.items@, settled as int, role@, idx as int);
    }
    let ghost before = u.items@;
    let mut items = u.items;
    let front = items[settled];
    let chosen = items[idx];
    items[settled] = chosen;
    items[idx] = front;
    assert(items@ == swapped(before, settled as int, idx as int));
    Some(Unresolved { items, settled: settled + 1 })
}

impl ReorderItem for Option<Unresolved<EntityId>> {
    type Type = EntityId;

    fn reorder_item(self, role: &Vec<EntityId>) -> (r: Self)
        ensures
            self is None ==> r is None,
            self is Some ==> {
                let u = self->Some_0;
                &&& r is Some <==> reordered(u, role@) is Some
                &&& r is Some ==> r->Some_0.items@ == reordered(u, role@)->Some_0
                    && r->Some_0.settled == u.settled + 1
            },
    {
        match self {
            None => None,
            Some(u) => settle_next(u, role),
        }
    }
}

/// The first index at or after `from` whose entity belongs to `role`, or -1.
pub open spec fn first_in_role(s: Seq<EntityId>, from: int, role: Seq<EntityId>) -> int
    decreases s.len() - from,
{
    if from < 0 || from >= s.len() {
        -1
    } else if role.contains(s[from]) {
        from
    } else {
        first_in_role(s, from + 1, role)
    }
}

/// The order of `s` after the first `k` roles have each claimed an entity: the
/// entity for role `i` stands at position `i`. `None` once a role finds no
/// entity left.
pub open spec fn ordered_by_roles(s: Seq<EntityId>, roles: Seq<Seq<EntityId>>, k: nat) -> Option<
    Seq<EntityId>,
>
    decreases k,
{
    if k == 0 {
        Some(s)
    } else {
        match ordered_by_roles(s, roles, (k - 1) as nat) {
            None => None,
            Some(t) => {
                let i = first_in_role(t, k - 1, roles[k - 1]);
                if i < 0 {
                    None
                } else {
                    Some(swapped(t, k - 1, i))
                }
            },
        }
    }
}

pub open spec fn roles_view(roles: Seq<Vec<EntityId>>) -> Seq<Seq<EntityId>> {
    roles.map_values(|r: Vec<EntityId>| r@)
}

/// Whether `e` is one of `table`.
pub fn table_contains(table: &Vec<EntityId>, e: &EntityId) -> (r: bool)
    ensures
        r == table@.contains(*e),
{
    let mut i: usize = 0;
    while i < table.len()
        invariant
            i <= table.len(),
            forall|j: int| 0 <= j < i ==> table@[j] != *e,
        decreases table.len() - i,
    {
        if table[i] == *e {
            assert(table@[i as int] == *e);
            return true;
        }
        i = i + 1;
    }
    false
}

proof fn lemma_first_in_role(s: Seq<EntityId>, from: int, role: Seq<EntityId>, i: int)
    requires
        0 <= from <= i < s.len(),
        role.contains(s[i]),
        forall|j: int| from <= j < i ==> !role.contains(#[trigger] s[j]),
    ensures
        first_in_role(s, from, role) == i,
    decreases i - from,
{
    if from < i {
        lemma_first_in_role(s, from + 1, role, i);
    }
}

proof fn lemma_first_in_role_range(s: Seq<EntityId>, from: int, role: Seq<EntityId>)
    ensures
        first_in_role(s, from, role) == -1 || (0 <= from <= first_in_role(s, from, role) < s.len()
            && role.contains(s[first_in_role(s, from, role)])),
    decreases s.len() - from,
{
    if 0 <= from < s.len() && !role.contains(s[from]) {
        lemma_first_in_role_range(s, from + 1, role);
    }
}

proof fn lemma_first_in_role_none(s: Seq<EntityId>, from: int, role: Seq<EntityId>)
    requires
        0 <= from <= s.len(),
        forall|j: int| from <= j < s.len() ==> !role.contains(#[trigger] s[j]),
    ensures
        first_in_role(s, from, role) == -1,
    decreases s.len() - from,
{
    if from < s.len() {
        lemma_first_in_role_none(s, from + 1, role);
    }
}

/// Orders `entities` so that the entity at position `i` plays role `i`: each
/// role in turn claims the first entity not yet claimed that belongs to its
/// table. `None` when some role finds no such entity.
pub fn entities_ordered_by_type(entities: Vec<EntityId>, roles: &Vec<Vec<EntityId>>) -> (r: Option<
    Vec<EntityId>,
>)
    ensures
        r matches Some(v) ==> ordered_by_roles(entities@, roles_view(roles@), roles.len() as nat)
            == Some(v@),
        r is None ==> ordered_by_roles(entities@, roles_view(roles@), roles.len() as nat) is None,
{
    let ghost rv = roles_view(roles@);
    let mut unresolved: Option<Unresolved<EntityId>> = Some(Unresolved { items: entities, settled: 0 });
    let mut k: usize = 0;
    while k < roles.len()
        invariant
            k <= roles.len(),
            rv == roles_view(roles@),
            unresolved is None ==> ordered_by_roles(entities@, rv, k as nat) is None,
            unresolved matches Some(u) ==> {
                &&& ordered_by_roles(entities@, rv, k as nat) == Some(u.items@)
                &&& u.settled == k
                &&& u.items.len() == entities.len()
            },
        decreases roles.len() - k,
    {
        let role = &roles[k];
        assert(rv[k as int] == role@);
        let ghost before = unresolved;
        unresolved = unresolved.reorder_item(role);
        proof {
            assert(ordered_by_roles(entities@, rv, (k + 1) as nat) == match ordered_by_roles(
                entities@,
                rv,
                k as nat,
            ) {
                None => None,
                Some(t) => {
                    let i = first_in_role(t, k as int, rv[k as int]);
                    if i < 0 {
                        None
                    } else {
                        Some(swapped(t, k as int, i))
                    }
                },
            });
            if before is Some && unresolved is Some {
                let bu = before->Some_0;
                let i = first_in_role(bu.items@, bu.settled as int, role@);
                lemma_first_in_role_range(bu.items@, bu.settled as int, role@);
                assert(swapped(bu.items@, bu.settled as int, i).len() == bu.items@.len());
                assert(unresolved->Some_0.items@.len() == before->Some_0.items@.len());
            }
        }
        k = k + 1;
    }
    match unresolved {
        Some(u) => Some(u.items),
        None => None,
    }
}

/// Limit on each component of a vector handed to `project_by_normal`.
pub const PROJECTED_LIMIT: i64 = 0x2_0000_0000;

/// Limit on each component of a plane normal handed to `project_by_normal`.
pub const NORMAL_LIMIT: i64 = 1024;

pub open spec fn dot(a: Direction, b: Direction) -> int {
    a.x * b.x + a.y * b.y + a.z * b.z
}

/// Integer division of `a` by a positive `b`, rounding towards zero.
pub open spec fn toward_zero_quotient(a: int, b: int) -> int {
    if a >= 0 {
        a / b
    } else {
        -((-a) / b)
    }
}

/// The projection of `v` onto the plane through the origin with normal `n`:
/// `v - n * (v . n) / |n|^2`, where the part along the normal is rounded
/// towards zero. A zero normal leaves `v` as it is.
pub open spec fn projection(v: Direction, n: Direction) -> Direction {
    let l = dot(n, n);
    let d = dot(v, n);
    if l == 0 {
        v
    } else {
        Direction {
            x: (v.x - toward_zero_quotient(n.x * d, l)) as i64,
            y: (v.y - toward_zero_quotient(n.y * d, l)) as i64,
            z: (v.z - toward_zero_quotient(n.z * d, l)) as i64,
        }
    }
}

pub open spec fn within(d: Direction, limit: int) -> bool {
    -limit <= d.x <= limit && -limit <= d.y <= limit && -limit <= d.z <= limit
}

fn projected_component(vc: i64, nc: i64, l: i128, d: i128) -> (r: i64)
    requires
        -PROJECTED_LIMIT <= vc <= PROJECTED_LIMIT,
        -NORMAL_LIMIT <= nc <= NORMAL_LIMIT,
        0 < l,
        -3 * PROJECTED_LIMIT * NORMAL_LIMIT <= d <= 3 * PROJECTED_LIMIT * NORMAL_LIMIT,
    ensures
        r == vc - toward_zero_quotient(nc * d, l as int),
{
    assert(-0x0C00_0000_0000_0000 <= (nc as int) * (d as int) <= 0x0C00_0000_0000_0000)
        by (nonlinear_arith)
        requires
            -1024 <= nc <= 1024,
            -0x1800_0000_0000 <= d <= 0x1800_0000_0000,
    ;
    let num: i128 = nc as i128 * d;
    let magnitude: u128 = if num >= 0 { num as u128 } else { (-num) as u128 };
    let q: u128 = magnitude / (l as u128);
    assert(q <= magnitude) by (nonlinear_arith)
        requires
            q == (magnitude as int) / (l as int),
            l >= 1,
    ;
    if num >= 0 {
        vc - q as i64
    } else {
        vc + q as i64
    }
}

fn bounded_product(a: i64, b: i64, la: i64, lb: i64) -> (r: i128)
    requires
        0 <= la <= PROJECTED_LIMIT,
        0 <= lb <= PROJECTED_LIMIT,
        -la <= a <= la,
        -lb <= b <= lb,
    ensures
        r == a * b,
        -(la * lb) <= r <= la * lb,
{
    assert(-((la as int) * (lb as int)) <= (a as int) * (b as int) <= (la as int) * (lb as int))
        by (nonlinear_arith)
        requires
            -la <= a <= la,
            -lb <= b <= lb,
    ;
    assert((la as int) * (lb as int) <= 0x4_0000_0000_0000_0000) by (nonlinear_arith)
        requires
            0 <= la <= 0x2_0000_0000,
            0 <= lb <= 0x2_0000_0000,
    ;
    a as i128 * b as i128
}

/// Projects `vector` onto the plane whose normal is `plane_normal` (see
/// `projection`).
pub fn project_by_normal(vector: Direction, plane_normal: Direction) -> (r: Direction)
    requires
        within(vector, PROJECTED_LIMIT as int),
        within(plane_normal, NORMAL_LIMIT as int),
    ensures
        r == projection(vector, plane_normal),
{
    let n = plane_normal;
    let v = vector;
    let l: i128 = bounded_product(n.x, n.x, NORMAL_LIMIT, NORMAL_LIMIT) + bounded_product(
        n.y,
        n.y,
        NORMAL_LIMIT,
        NORMAL_LIMIT,
    ) + bounded_product(n.z, n.z, NORMAL_LIMIT, NORMAL_LIMIT);
    assert(0 <= l) by (nonlinear_arith)
        requires
            l == n.x * n.x + n.y * n.y + n.z * n.z,
    ;
    let d: i128 = bounded_product(v.x, n.x, PROJECTED_LIMIT, NORMAL_LIMIT) + bounded_product(
        v.y,
        n.y,
        PROJECTED_LIMIT,
        NORMAL_LIMIT,
    ) + bounded_product(v.z, n.z, PROJECTED_LIMIT, NORMAL_LIMIT);
    if l == 0 {
        return v;
    }
    Direction {
        x: projected_component(v.x, n.x, l, d),
        y: projected_component(v.y, n.y, l, d),
        z: projected_component(v.z, n.z, l, d),
    }
}

/// The horizontal part of a direction: its projection on the plane whose
/// normal points up.
pub fn horizontal(v: Direction) -> (r: Direction)
    requires
        within(v, PROJECTED_LIMIT as int),
    ensures
        r == v.spec_horizontal(),
{
    let r = project_by_normal(v, Direction::up());
    assert(toward_zero_quotient(0, 1) == 0);
    assert(toward_zero_quotient(v.y as int, 1) == v.y) by {
        if v.y < 0 {
            assert((-v.y) / 1 == -v.y);
        } else {
            assert(v.y / 1 == v.y);
        }
    }
    assert(projection(v, Direction { x: 0, y: 1, z: 0 }) == v.spec_horizontal());
    r
}

} // verus!
