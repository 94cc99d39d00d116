use vstd::prelude::*;

verus! {

/// A point, velocity or impulse in thousandths of a world unit along each axis.
/// The second component points up.
#[derive(Clone, Copy, Debug, PartialEq, Eq, Structural)]
pub struct Vector3 {
    pub x: i32,
    pub y: i32,
    pub z: i32,
}

/// A direction that has not been brought to unit length: only where it points
/// matters. The zero direction stands for "no direction".
#[derive(Clone, Copy, Debug, PartialEq, Eq, Structural)]
pub struct Direction {
    pub x: i64,
    pub y: i64,
    pub z: i64,
}

/// Clamps a whole number into the range of a vector component.
pub open spec fn clamp_component(v: int) -> int {
    if v > i32::MAX {
        i32::MAX as int
    } else if v < i32::MIN {
        i32::MIN as int
    } else {
        v
    }
}

pub fn clamp_to_component(v: i64) -> (r: i32)
    ensures
        r == clamp_component(v as int),
{
    if v > i32::MAX as i64 {
        i32::MAX
    } else if v < i32::MIN as i64 {
        i32::MIN
    } else {
        v as i32
    }
}

/// The exact product of two components.
fn wide_mul(a: i32, b: i32) -> (r: i64)
    ensures
        r == a * b,
{
    assert(-0x4000_0000_0000_0000 <= (a as int) * (b as int) <= 0x4000_0000_0000_0000)
        by (nonlinear_arith)
        requires
            -0x8000_0000 <= a <= 0x7fff_ffff,
            -0x8000_0000 <= b <= 0x7fff_ffff,
    ;
    a as i64 * b as i64
}

impl Vector3 {
    pub open spec fn saturating_sum(self, o: Vector3) -> Vector3 {
        Vector3 {
            x: clamp_component(self.x + o.x) as i32,
            y: clamp_component(self.y + o.y) as i32,
            z: clamp_component(self.z + o.z) as i32,
        }
    }

    /// Component-wise sum, held at the ends of the representable range.
    pub fn saturating_add(self, o: Vector3) -> (r: Vector3)
        ensures
            r == self.saturating_sum(o),
    {
        Vector3 {
            x: clamp_to_component(self.x as i64 + o.x as i64),
            y: clamp_to_component(self.y as i64 + o.y as i64),
            z: clamp_to_component(self.z as i64 + o.z as i64),
        }
    }

    pub open spec fn spec_neg(self) -> Vector3 {
        Vector3 {
            x: clamp_component(-self.x) as i32,
            y: clamp_component(-self.y) as i32,
            z: clamp_component(-self.z) as i32,
        }
    }

    /// The opposite vector (the one component value without an opposite,
    /// `i32::MIN`, maps to `i32::MAX`).
    pub fn neg(self) -> (r: Vector3)
        ensures
            r == self.spec_neg(),
    {
        Vector3 {
            x: clamp_to_component(-(self.x as i64)),
            y: clamp_to_component(-(self.y as i64)),
            z: clamp_to_component(-(self.z as i64)),
        }
    }

    pub open spec fn spec_scaled(self, k: int) -> Vector3 {
        Vector3 {
            x: clamp_component(self.x * k) as i32,
            y: clamp_component(self.y * k) as i32,
            z: clamp_component(self.z * k) as i32,
        }
    }

    /// Each component multiplied by `k`, held at the ends of the range.
    pub fn scaled(self, k: i32) -> (r: Vector3)
        ensures
            r == self.spec_scaled(k as int),
    {
        Vector3 {
            x: clamp_to_component(wide_mul(self.x, k)),
            y: clamp_to_component(wide_mul(self.y, k)),
            z: clamp_to_component(wide_mul(self.z, k)),
        }
    }

    pub open spec fn spec_offset_to(self, to: Vector3) -> Direction {
        Direction {
            x: (to.x - self.x) as i64,
            y: (to.y - self.y) as i64,
            z: (to.z - self.z) as i64,
        }
    }

    /// The direction from `self` to `to`, not normalized.
    pub fn offset_to(self, to: Vector3) -> (r: Direction)
        ensures
            r == self.spec_offset_to(to),
    {
        Direction {
            x: to.x as i64 - self.x as i64,
            y: to.y as i64 - self.y as i64,
            z: to.z as i64 - self.z as i64,
        }
    }

    /// The squared distance between two points in the horizontal plane.
    pub open spec fn horizontal_distance_squared(self, o: Vector3) -> int {
        (o.x - self.x) * (o.x - self.x) + (o.z - self.z) * (o.z - self.z)
    }

    /// Whether the horizontal distance between two points exceeds `limit`.
    pub fn horizontally_farther_than(self, o: Vector3, limit: u32) -> (r: bool)
        ensures
            r == (self.horizontal_distance_squared(o) > limit * limit),
    {
        let dx: i128 = o.x as i128 - self.x as i128;
        let dz: i128 = o.z as i128 - self.z as i128;
        let l: i128 = limit as i128;
        assert(dx * dx <= 0x1_0000_0000_0000_0000) by (nonlinear_arith)
            requires -0x1_0000_0000 <= dx <= 0x1_0000_0000;
        assert(dz * dz <= 0x1_0000_0000_0000_0000) by (nonlinear_arith)
            requires -0x1_0000_0000 <= dz <= 0x1_0000_0000;
        assert(0 <= l * l <= 0x1_0000_0000_0000_0000) by (nonlinear_arith)
            requires 0 <= l <= 0x1_0000_0000;
        assert(0 <= dx * dx && 0 <= dz * dz) by (nonlinear_arith);
        dx * dx + dz * dz > l * l
    }
}

impl Direction {
    pub fn zero() -> (r: Direction)
        ensures
            r.is_zero(),
    {
        Direction { x: 0, y: 0, z: 0 }
    }

    /// The upward axis, the normal of the horizontal plane.
    pub fn up() -> (r: Direction)
        ensures
            r == (Direction { x: 0, y: 1, z: 0 }),
    {
        Direction { x: 0, y: 1, z: 0 }
    }

    pub open spec fn is_zero(self) -> bool {
        self.x == 0 && self.y == 0 && self.z == 0
    }

    /// The same direction without its vertical part.
    pub open spec fn spec_horizontal(self) -> Direction {
        Direction { x: self.x, y: 0, z: self.z }
    }
}

} // verus!
