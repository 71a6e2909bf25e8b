use vstd::prelude::*;

verus! {

/// Fixed-point steps in one world unit.
pub const STEPS_PER_UNIT: i32 = 80;

/// A length, speed or axis value in fixed point: `Unit(n)` stands for
/// `n / 80` world units.
#[derive(Clone, Copy, Debug, Default, PartialEq, Eq, Structural)]
pub struct Unit(pub i32);

/// `a / b` rounded toward zero, as Rust's integer division does.
pub open spec fn div_toward_zero(a: int, b: int) -> int
    recommends
        b > 0,
{
    if a >= 0 {
        a / b
    } else {
        -((-a) / b)
    }
}

/// The fixed-point product of two values, rounded toward zero.
pub open spec fn product_spec(a: int, b: int) -> int {
    div_toward_zero(a * b, STEPS_PER_UNIT as int)
}

/// `v` brought into the range of `i32`.
pub open spec fn saturate(v: int) -> int {
    if v < i32::MIN {
        i32::MIN as int
    } else if v > i32::MAX {
        i32::MAX as int
    } else {
        v
    }
}

/// The fixed-point product of two `i32` values, rounded toward zero, which
/// always fits in `i64`.
pub fn product_i64(a: i32, b: i32) -> (r: i64)
    ensures
        r == product_spec(a as int, b as int),
{
    assert(-0x4000_0000_0000_0000 <= a * b <= 0x4000_0000_0000_0000) by (nonlinear_arith)
        requires
            -0x8000_0000 <= a <= 0x7fff_ffff,
            -0x8000_0000 <= b <= 0x7fff_ffff,
    ;
    let p: i64 = a as i64 * b as i64;
    if p >= 0 {
        p / 80
    } else {
        -((-p) / 80)
    }
}

/// A wide value as a `Unit`, held at the ends of its range.
pub fn saturating_unit(v: i64) -> (r: Unit)
    ensures
        r.0 == saturate(v as int),
{
    if v < i32::MIN as i64 {
        Unit(i32::MIN)
    } else if v > i32::MAX as i64 {
        Unit(i32::MAX)
    } else {
        Unit(v as i32)
    }
}

/// `|product_spec(a, b)| <= |a|` whenever `|b|` is at most one world unit.
pub proof fn lemma_product_bounded(a: int, b: int)
    requires
        -(STEPS_PER_UNIT as int) <= b <= STEPS_PER_UNIT as int,
    ensures
        a >= 0 ==> -a <= product_spec(a, b) <= a,
        a < 0 ==> a <= product_spec(a, b) <= -a,
{
    let p = a * b;
    if a >= 0 {
        assert(-(a * 80) <= p <= a * 80) by (nonlinear_arith)
            requires
                p == a * b,
                a >= 0,
                -80 <= b <= 80,
        ;
    } else {
        assert(a * 80 <= p <= -(a * 80)) by (nonlinear_arith)
            requires
                p == a * b,
                a < 0,
                -80 <= b <= 80,
        ;
    }
}

impl Unit {
    /// A value from a whole number of fixed-point steps.
    pub fn from_steps(steps: i32) -> (r: Unit)
        ensures
            r.0 == steps,
    {
        Unit(steps)
    }

    /// The number of fixed-point steps.
    pub fn steps(self) -> (r: i32)
        ensures
            r == self.0,
    {
        self.0
    }

    /// The fixed-point product `self * k`, rounded toward zero and held at
    /// the ends of the range of `i32`.
    pub fn scaled_by(self, k: Unit) -> (r: Unit)
        ensures
            r.0 == saturate(product_spec(self.0 as int, k.0 as int)),
    {
        saturating_unit(product_i64(self.0, k.0))
    }
}

impl core::ops::Add for Unit {
    type Output = Unit;

    fn add(self, rhs: Unit) -> (r: Unit) {
        Unit(self.0 + rhs.0)
    }
}

impl vstd::std_specs::ops::AddSpecImpl for Unit {
    open spec fn obeys_add_spec() -> bool {
        true
    }

    open spec fn add_req(self, rhs: Unit) -> bool {
        i32::MIN <= self.0 + rhs.0 <= i32::MAX
    }

    open spec fn add_spec(self, rhs: Unit) -> Unit {
        Unit((self.0 + rhs.0) as i32)
    }
}

/// `+=` held at the ends of the range of `i32`.
impl core::ops::AddAssign for Unit {
    fn add_assign(&mut self, rhs: Unit)
        ensures
            final(self).0 == saturate(old(self).0 + rhs.0),
    {
        *self = saturating_unit(self.0 as i64 + rhs.0 as i64);
    }
}

/// `-=` held at the ends of the range of `i32`.
impl core::ops::SubAssign for Unit {
    fn sub_assign(&mut self, rhs: Unit)
        ensures
            final(self).0 == saturate(old(self).0 - rhs.0),
    {
        *self = saturating_unit(self.0 as i64 - rhs.0 as i64);
    }
}

impl core::ops::Sub for Unit {
    type Output = Unit;

    fn sub(self, rhs: Unit) -> (r: Unit) {
        Unit(self.0 - rhs.0)
    }
}

impl vstd::std_specs::ops::SubSpecImpl for Unit {
    open spec fn obeys_sub_spec() -> bool {
        true
    }

    open spec fn sub_req(self, rhs: Unit) -> bool {
        i32::MIN <= self.0 - rhs.0 <= i32::MAX
    }

    open spec fn sub_spec(self, rhs: Unit) -> Unit {
        Unit((self.0 - rhs.0) as i32)
    }
}

impl core::convert::From<i32> for Unit {
    fn from(value: i32) -> (r: Unit) {
        Unit(value)
    }
}

impl vstd::std_specs::convert::FromSpecImpl<i32> for Unit {
    open spec fn obeys_from_spec() -> bool {
        true
    }

    open spec fn from_spec(v: i32) -> Unit {
        Unit(v)
    }
}

/// A vector of three fixed-point components.
#[derive(Clone, Copy, Debug, Default, PartialEq, Eq, Structural)]
pub struct UVec {
    pub x: Unit,
    pub y: Unit,
    pub z: Unit,
}

impl UVec {
    pub fn new(x: Unit, y: Unit, z: Unit) -> (r: UVec)
        ensures
            r == (UVec { x, y, z }),
    {
        UVec { x, y, z }
    }

    /// A vector from whole numbers of fixed-point steps.
    pub fn from_ints(x: i32, y: i32, z: i32) -> (r: UVec)
        ensures
            r.x.0 == x,
            r.y.0 == y,
            r.z.0 == z,
    {
        UVec { x: Unit(x), y: Unit(y), z: Unit(z) }
    }

    /// The zero vector.
    pub fn zero() -> (r: UVec)
        ensures
            r.is_zero(),
    {
        UVec { x: Unit(0), y: Unit(0), z: Unit(0) }
    }

    pub open spec fn is_zero(self) -> bool {
        self.x.0 == 0 && self.y.0 == 0 && self.z.0 == 0
    }

    /// The squared length, in squared steps.
    pub open spec fn length_squared(self) -> int {
        self.x.0 * self.x.0 + self.y.0 * self.y.0 + self.z.0 * self.z.0
    }
}

} // verus!
