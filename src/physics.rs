use vstd::prelude::*;

use crate::units::{div_toward_zero, saturate, saturating_unit, UVec, Unit};

verus! {

/// Squared length, in squared steps, from which a direction counts as active
/// (a length of 0.3 world units, 24 steps).
pub const ACTIVE_LENGTH_SQUARED: i32 = 576;

/// Milliseconds in one second times steps in one world unit: the divisor that
/// turns `gap * delta_ms * accel` back into a gap.
pub const ACCEL_DIVISOR: u64 = 80000;

/// Fine steps in one step: a running speed is held at 1/80000 of a world
/// unit per second, so that it can keep rising in small frames.
pub const FINE_PER_STEP: i64 = 1000;

/// Fine steps in one world unit.
pub const FINE_PER_UNIT: i64 = 80000;

/// Turn rate per unit of speed (0.85 in fixed point).
pub const TURN_FACTOR: i32 = 68;

/// The desired movement direction of a character.
#[derive(Clone, Copy, Debug, Default, PartialEq, Eq, Structural)]
pub struct Direction(pub UVec);

impl Direction {
    /// A direction counts as active when its length is at least 0.3 world units.
    pub open spec fn active_spec(&self) -> bool {
        self.0.length_squared() >= ACTIVE_LENGTH_SQUARED as int
    }

    pub fn get(&self) -> (r: UVec)
        ensures
            r == self.0,
    {
        self.0
    }

    pub fn set(&mut self, value: UVec)
        ensures
            final(self).0 == value,
    {
        self.0 = value;
    }

    /// Whether any component is nonzero.
    pub fn is_any(&self) -> (r: bool)
        ensures
            r == !self.0.is_zero(),
    {
        self.0.x.0 != 0 || self.0.y.0 != 0 || self.0.z.0 != 0
    }

    pub fn is_active(&self) -> (r: bool)
        ensures
            r == self.active_spec(),
    {
        let x = self.0.x.0 as i128;
        let y = self.0.y.0 as i128;
        let z = self.0.z.0 as i128;
        assert(0 <= x * x <= 0x4000_0000_0000_0000) by (nonlinear_arith)
            requires
                -0x8000_0000 <= x <= 0x7fff_ffff,
        ;
        assert(0 <= y * y <= 0x4000_0000_0000_0000) by (nonlinear_arith)
            requires
                -0x8000_0000 <= y <= 0x7fff_ffff,
        ;
        assert(0 <= z * z <= 0x4000_0000_0000_0000) by (nonlinear_arith)
            requires
                -0x8000_0000 <= z <= 0x7fff_ffff,
        ;
        x * x + y * y + z * z >= ACTIVE_LENGTH_SQUARED as i128
    }
}

/// Drift applied to a character beside its own movement.
#[derive(Clone, Copy, Debug, Default, PartialEq, Eq, Structural)]
pub struct Drift(pub UVec);

/// The speed a character currently moves at, in fine steps (1/80000 of a
/// world unit) per second.
pub struct Momentum(i64);

impl View for Momentum {
    type V = int;

    closed spec fn view(&self) -> int {
        self.0 as int
    }
}

impl Default for Momentum {
    fn default() -> (r: Momentum)
        ensures
            r@ == 0,
    {
        Momentum(0)
    }
}

impl Momentum {
    /// The momentum in fine steps.
    pub fn get(&self) -> (r: i64)
        ensures
            r == self@,
    {
        self.0
    }

    pub fn set(&mut self, value: i64)
        ensures
            final(self)@ == value,
    {
        self.0 = value;
    }

    pub fn is_any(&self) -> (r: bool)
        ensures
            r == (self@ != 0),
    {
        self.0 != 0
    }

    pub fn reset(&mut self)
        ensures
            final(self)@ == 0,
    {
        self.0 = 0;
    }
}

/// The mathematical state of a [`Speed`]: `current` in fine steps per
/// second; `base`, `max` and `base_max` in steps per second; `accel` in steps
/// per second per second of the remaining gap; times in milliseconds.
pub struct SpeedModel {
    pub current: int,
    pub accel: int,
    pub base: int,
    pub max: int,
    pub base_max: int,
    pub elapsed_ms: int,
    pub cooldown_ms: int,
    pub finished: bool,
}

/// How far one frame of `delta_ms` milliseconds moves a speed `gap` fine
/// steps below its maximum: the share `delta_ms * accel / 80000` of the gap,
/// rounded down, and never past the gap.
pub open spec fn approach_step(gap: int, delta_ms: int, accel: int) -> int {
    let step = gap * delta_ms * accel / (ACCEL_DIVISOR as int);
    if step >= gap {
        gap
    } else {
        step
    }
}

impl SpeedModel {
    pub open spec fn wf(self) -> bool {
        &&& 0 <= self.base <= self.max <= i32::MAX
        &&& self.base * FINE_PER_STEP <= self.current <= self.max * FINE_PER_STEP
        &&& self.base <= self.base_max <= i32::MAX
        &&& 0 <= self.accel <= i32::MAX
        &&& 0 <= self.elapsed_ms <= self.cooldown_ms <= u32::MAX
        &&& self.finished ==> self.elapsed_ms == self.cooldown_ms
    }

    /// The maximum in fine steps.
    pub open spec fn fine_max(self) -> int {
        self.max * FINE_PER_STEP
    }

    /// Motion has been sustained for the whole cooldown: the timer has
    /// finished on some frame since it was last restarted.
    pub open spec fn cooled_down(self) -> bool {
        self.finished
    }

    /// The cooldown timer after a frame of `delta_ms` milliseconds. A
    /// finished timer stays as it is; otherwise the time adds up, stopping
    /// at the cooldown, and the timer finishes once it gets there.
    pub open spec fn ticked(self, delta_ms: int) -> SpeedModel {
        let e = self.elapsed_ms + delta_ms;
        if self.finished {
            self
        } else {
            SpeedModel {
                elapsed_ms: if e >= self.cooldown_ms {
                    self.cooldown_ms
                } else {
                    e
                },
                finished: e >= self.cooldown_ms,
                ..self
            }
        }
    }

    /// One frame of sustained motion: the timer runs, and once it has run
    /// out the speed moves toward its maximum.
    pub open spec fn accelerated(self, delta_ms: int) -> SpeedModel {
        let t = self.ticked(delta_ms);
        if !t.cooled_down() {
            t
        } else {
            SpeedModel {
                current: t.current + approach_step(t.fine_max() - t.current, delta_ms, t.accel),
                ..t
            }
        }
    }

    /// Back to the starting speed, with the timer restarted.
    pub open spec fn reset(self) -> SpeedModel {
        SpeedModel {
            current: self.base * FINE_PER_STEP,
            max: self.base_max,
            elapsed_ms: 0,
            finished: false,
            ..self
        }
    }
}

/// The speed of a character, which grows toward a maximum once motion has
/// been sustained for a cooldown.
pub struct Speed {
    current: i64,
    accel: Unit,
    base: Unit,
    max: Unit,
    base_max: Unit,
    elapsed_ms: u32,
    cooldown_ms: u32,
    finished: bool,
}

impl View for Speed {
    type V = SpeedModel;

    closed spec fn view(&self) -> SpeedModel {
        SpeedModel {
            current: self.current as int,
            accel: self.accel.0 as int,
            base: self.base.0 as int,
            max: self.max.0 as int,
            base_max: self.base_max.0 as int,
            elapsed_ms: self.elapsed_ms as int,
            cooldown_ms: self.cooldown_ms as int,
            finished: self.finished,
        }
    }
}

impl Default for Speed {
    /// Everything zero: no speed, no acceleration, no cooldown.
    fn default() -> (r: Speed)
        ensures
            r@ == (SpeedModel {
                current: 0,
                accel: 0,
                base: 0,
                max: 0,
                base_max: 0,
                elapsed_ms: 0,
                cooldown_ms: 0,
                finished: false,
            }),
            r@.wf(),
    {
        Speed {
            current: 0,
            accel: Unit(0),
            base: Unit(0),
            max: Unit(0),
            base_max: Unit(0),
            elapsed_ms: 0,
            cooldown_ms: 0,
            finished: false,
        }
    }
}

/// `gap * delta_ms * accel` fits in 128 bits.
proof fn lemma_accel_product_fits(gap: int, delta_ms: int, accel: int)
    requires
        0 <= gap <= 0x200_0000_0000,
        0 <= delta_ms <= u32::MAX,
        0 <= accel <= i32::MAX,
    ensures
        0 <= gap * delta_ms <= 0x200_0000_0000 * 0xffff_ffff,
        0 <= gap * delta_ms * accel <= 0xffff_ffff_ffff_ffff_ffff_ffff_ffff_ffff,
{
    assert(0 <= gap * delta_ms <= 0x200_0000_0000 * 0xffff_ffff) by (nonlinear_arith)
        requires
            0 <= gap <= 0x200_0000_0000,
            0 <= delta_ms <= 0xffff_ffff,
    ;
    let gd = gap * delta_ms;
    assert(0 <= gd * accel <= 0x200_0000_0000 * 0xffff_ffff * 0xffff_ffff) by (nonlinear_arith)
        requires
            0 <= gd <= 0x200_0000_0000 * 0xffff_ffff,
            0 <= accel <= 0xffff_ffff,
    ;
}

impl Speed {
    /// A speed that starts at `base` and grows toward `max` at rate `accel`
    /// once motion has lasted `cooldown_ms` milliseconds.
    pub fn new(base: Unit, max: Unit, accel: Unit, cooldown_ms: u32) -> (r: Speed)
        requires
            0 <= base.0 <= max.0,
            0 <= accel.0,
        ensures
            r@ == (SpeedModel {
                current: base.0 * FINE_PER_STEP,
                accel: accel.0 as int,
                base: base.0 as int,
                max: max.0 as int,
                base_max: max.0 as int,
                elapsed_ms: 0,
                cooldown_ms: cooldown_ms as int,
                finished: false,
            }),
            r@.wf(),
    {
        Speed {
            current: base.0 as i64 * FINE_PER_STEP,
            accel,
            base,
            max,
            base_max: max,
            elapsed_ms: 0,
            cooldown_ms,
            finished: false,
        }
    }

    /// The speed a character starts with: base 3.0, maximum 7.5,
    /// acceleration 2.5, cooldown 0.6 s.
    pub fn character() -> (r: Speed)
        ensures
            r@ == (SpeedModel {
                current: 240000,
                accel: 200,
                base: 240,
                max: 600,
                base_max: 600,
                elapsed_ms: 0,
                cooldown_ms: 600,
                finished: false,
            }),
            r@.wf(),
    {
        Speed::new(Unit(240), Unit(600), Unit(200), 600)
    }

    /// The current speed in fine steps (1/80000 of a world unit) per second.
    pub fn current(&self) -> (r: i64)
        ensures
            r == self@.current,
    {
        self.current
    }

    pub fn base(&self) -> (r: Unit)
        ensures
            r.0 == self@.base,
    {
        self.base
    }

    pub fn max(&self) -> (r: Unit)
        ensures
            r.0 == self@.max,
    {
        self.max
    }

    pub fn accel(&self) -> (r: Unit)
        ensures
            r.0 == self@.accel,
    {
        self.accel
    }

    /// Whether motion has lasted the whole cooldown.
    pub fn cooled_down(&self) -> (r: bool)
        ensures
            r == self@.cooled_down(),
    {
        self.finished
    }

    pub fn reset(&mut self)
        requires
            old(self)@.wf(),
        ensures
            final(self)@ == old(self)@.reset(),
            final(self)@.wf(),
    {
        self.current = self.base.0 as i64 * FINE_PER_STEP;
        self.max = self.base_max;
        self.elapsed_ms = 0;
        self.finished = false;
    }

    /// One frame of sustained motion lasting `delta_ms` milliseconds. Once
    /// the cooldown has run out, a frame whose share `delta_ms * accel /
    /// 80000` is below one raises the speed strictly, and keeps it strictly
    /// below the maximum, while the gap is at least `80000 / (delta_ms *
    /// accel)` fine steps.
    pub fn accelerate(&mut self, delta_ms: u32)
        requires
            old(self)@.wf(),
        ensures
            final(self)@ == old(self)@.accelerated(delta_ms as int),
            final(self)@.wf(),
            old(self)@.current <= final(self)@.current <= final(self)@.fine_max(),
            ({
                let t = old(self)@.ticked(delta_ms as int);
                let gap = t.fine_max() - t.current;
                t.cooled_down() && delta_ms * t.accel < ACCEL_DIVISOR as int && gap * delta_ms
                    * t.accel >= ACCEL_DIVISOR as int ==> old(self)@.current
                    < final(self)@.current < final(self)@.fine_max()
            }),
    {
        proof {
            lemma_acceleration_approaches_max(self@, delta_ms as int);
        }
        if !self.finished {
            if delta_ms >= self.cooldown_ms - self.elapsed_ms {
                self.elapsed_ms = self.cooldown_ms;
                self.finished = true;
            } else {
                self.elapsed_ms = self.elapsed_ms + delta_ms;
            }
        }
        if self.finished {
            let fine_max: i64 = self.max.0 as i64 * FINE_PER_STEP;
            let gap: u64 = (fine_max - self.current) as u64;
            proof {
                lemma_accel_product_fits(gap as int, delta_ms as int, self.accel.0 as int);
            }
            let product: u128 = gap as u128 * delta_ms as u128 * self.accel.0 as u128;
            let step: u128 = product / ACCEL_DIVISOR as u128;
            if step >= gap as u128 {
                self.current = fine_max;
            } else {
                self.current = self.current + step as i64;
            }
        }
    }
}

/// A frame of sustained motion keeps the speed model well formed, never
/// lowers the speed, never takes it past its maximum, and leaves the maximum
/// as it was. Once the cooldown has run out, a frame whose share
/// `delta_ms * accel / 80000` is below one keeps the speed strictly below
/// its maximum, and raises it strictly where the gap times
/// `delta_ms * accel` reaches 80000.
pub proof fn lemma_acceleration_approaches_max(s: SpeedModel, delta_ms: int)
    requires
        s.wf(),
        0 <= delta_ms <= u32::MAX,
    ensures
        s.accelerated(delta_ms).wf(),
        s.current <= s.accelerated(delta_ms).current <= s.accelerated(delta_ms).fine_max(),
        s.accelerated(delta_ms).max == s.max,
        s.accelerated(delta_ms).accel == s.accel,
        ({
            let t = s.ticked(delta_ms);
            let gap = t.fine_max() - t.current;
            t.cooled_down() && delta_ms * t.accel < ACCEL_DIVISOR as int && gap * delta_ms * t.accel
                >= ACCEL_DIVISOR as int ==> s.current < s.accelerated(delta_ms).current
                < s.accelerated(delta_ms).fine_max()
        }),
{
    let t = s.ticked(delta_ms);
    let gap = t.fine_max() - t.current;
    let p = gap * delta_ms * t.accel;
    assert(p >= 0) by (nonlinear_arith)
        requires
            gap >= 0,
            delta_ms >= 0,
            t.accel >= 0,
            p == gap * delta_ms * t.accel,
    ;
    if t.cooled_down() && delta_ms * t.accel < ACCEL_DIVISOR as int && p >= ACCEL_DIVISOR as int {
        assert(gap > 0) by (nonlinear_arith)
            requires
                gap >= 0,
                p >= 80000,
                p == gap * delta_ms * t.accel,
        ;
        assert(p < gap * 80000) by (nonlinear_arith)
            requires
                gap > 0,
                delta_ms * t.accel < 80000,
                p == gap * delta_ms * t.accel,
        ;
        assert(p / 80000 < gap);
        assert(p / 80000 >= 1);
    }
}

/// The speed model after a run of frames of sustained motion, the frame
/// lengths given in milliseconds in order.
pub open spec fn sustained(s: SpeedModel, deltas: Seq<u32>) -> SpeedModel
    decreases deltas.len(),
{
    if deltas.len() == 0 {
        s
    } else {
        sustained(s, deltas.drop_last()).accelerated(deltas.last() as int)
    }
}

/// The total length of a run of frames, in milliseconds.
pub open spec fn total_ms(deltas: Seq<u32>) -> int
    decreases deltas.len(),
{
    if deltas.len() == 0 {
        0
    } else {
        total_ms(deltas.drop_last()) + deltas.last()
    }
}

/// Over any run of frames of sustained motion the speed never falls and
/// never passes its maximum; once the run has lasted the remaining cooldown,
/// the cooldown has run out, and further frames raise the speed as
/// `lemma_acceleration_approaches_max` states. A timer restarted
/// with no cooldown still waits for one frame.
pub proof fn lemma_sustained_motion(s: SpeedModel, deltas: Seq<u32>)
    requires
        s.wf(),
    ensures
        sustained(s, deltas).wf(),
        sustained(s, deltas).max == s.max,
        sustained(s, deltas).accel == s.accel,
        sustained(s, deltas).cooldown_ms == s.cooldown_ms,
        sustained(s, deltas).elapsed_ms == if s.elapsed_ms + total_ms(deltas) >= s.cooldown_ms {
            s.cooldown_ms
        } else {
            s.elapsed_ms + total_ms(deltas)
        },
        s.current <= sustained(s, deltas).current <= s.fine_max(),
        sustained(s, deltas).cooled_down() == (s.cooled_down() || (deltas.len() > 0
            && s.elapsed_ms + total_ms(deltas) >= s.cooldown_ms)),
    decreases deltas.len(),
{
    if deltas.len() > 0 {
        let prefix = deltas.drop_last();
        lemma_sustained_motion(s, prefix);
        lemma_acceleration_approaches_max(sustained(s, prefix), deltas.last() as int);
    }
}

/// `b` to the power `n`.
pub open spec fn power(b: int, n: nat) -> int
    decreases n,
{
    if n == 0 {
        1
    } else {
        b * power(b, (n - 1) as nat)
    }
}

proof fn lemma_power_nonnegative(b: int, n: nat)
    requires
        b >= 0,
    ensures
        power(b, n) >= 0,
    decreases n,
{
    if n > 0 {
        lemma_power_nonnegative(b, (n - 1) as nat);
        let q = power(b, (n - 1) as nat);
        assert(b * q >= 0) by (nonlinear_arith)
            requires
                b >= 0,
                q >= 0,
        ;
    }
}

/// After the cooldown, a frame with `delta_ms * accel <= 80000` leaves at
/// most the share `1 - delta_ms * accel / 80000` of the gap to the maximum,
/// plus less than one fine step lost to rounding.
pub proof fn lemma_gap_contracts(t: SpeedModel, delta_ms: int)
    requires
        t.wf(),
        t.cooled_down(),
        0 <= delta_ms <= u32::MAX,
        delta_ms * t.accel <= ACCEL_DIVISOR as int,
    ensures
        (t.fine_max() - t.accelerated(delta_ms).current) * (ACCEL_DIVISOR as int) < (t.fine_max()
            - t.current) * (ACCEL_DIVISOR as int - delta_ms * t.accel) + ACCEL_DIVISOR as int,
{
    let gap = t.fine_max() - t.current;
    let c = ACCEL_DIVISOR as int - delta_ms * t.accel;
    let p = gap * delta_ms * t.accel;
    assert(gap * c >= 0) by (nonlinear_arith)
        requires
            gap >= 0,
            c >= 0,
    ;
    assert(p >= 0) by (nonlinear_arith)
        requires
            gap >= 0,
            delta_ms >= 0,
            t.accel >= 0,
            p == gap * delta_ms * t.accel,
    ;
    assert((p / 80000) * 80000 > p - 80000);
    assert(gap * 80000 - p == gap * c) by (nonlinear_arith)
        requires
            p == gap * delta_ms * t.accel,
            c == 80000 - delta_ms * t.accel,
    ;
}

/// Over `n` equal frames of sustained motion after the cooldown, with
/// `delta_ms * accel <= 80000`, the gap to the maximum shrinks geometrically
/// up to rounding: `gap_n * 80000^n <= gap_0 * (80000 - delta_ms * accel)^n
/// + n * 80000^n`, so the speed comes within `n` fine steps of
/// `max - gap_0 * (1 - delta_ms * accel / 80000)^n`.
pub proof fn lemma_gap_shrinks_geometrically(s: SpeedModel, deltas: Seq<u32>, delta_ms: u32)
    requires
        s.wf(),
        s.cooled_down(),
        forall|i: int| 0 <= i < deltas.len() ==> deltas[i] == delta_ms,
        delta_ms * s.accel <= ACCEL_DIVISOR as int,
    ensures
        (s.fine_max() - sustained(s, deltas).current) * power(ACCEL_DIVISOR as int, deltas.len())
            <= (s.fine_max() - s.current) * power(
            ACCEL_DIVISOR as int - delta_ms * s.accel,
            deltas.len(),
        ) + deltas.len() * power(ACCEL_DIVISOR as int, deltas.len()),
    decreases deltas.len(),
{
    let n = deltas.len();
    if n > 0 {
        let prefix = deltas.drop_last();
        assert forall|i: int| 0 <= i < prefix.len() implies prefix[i] == delta_ms by {
            assert(prefix[i] == deltas[i]);
        }
        lemma_gap_shrinks_geometrically(s, prefix, delta_ms);
        lemma_sustained_motion(s, prefix);
        let t = sustained(s, prefix);
        assert(deltas.last() == delta_ms);
        lemma_gap_contracts(t, delta_ms as int);
        let b = ACCEL_DIVISOR as int;
        let c = b - delta_ms * s.accel;
        let g0 = s.fine_max() - s.current;
        let g = s.fine_max() - t.current;
        let g1 = s.fine_max() - sustained(s, deltas).current;
        let bn = power(b, (n - 1) as nat);
        let cn = power(c, (n - 1) as nat);
        let m = (n - 1) as int;
        lemma_power_nonnegative(b, (n - 1) as nat);
        lemma_power_nonnegative(c, (n - 1) as nat);
        assert(g1 * b * bn <= (g * c + b) * bn) by (nonlinear_arith)
            requires
                g1 * b < g * c + b,
                bn >= 0,
        ;
        assert((g * c + b) * bn == c * (g * bn) + b * bn) by (nonlinear_arith);
        assert(c * (g * bn) <= c * (g0 * cn + m * bn)) by (nonlinear_arith)
            requires
                g * bn <= g0 * cn + m * bn,
                c >= 0,
        ;
        assert(c * (m * bn) <= b * (m * bn)) by (nonlinear_arith)
            requires
                0 <= c <= b,
                m * bn >= 0,
        ;
        assert(m * bn >= 0) by (nonlinear_arith)
            requires
                m >= 0,
                bn >= 0,
        ;
        assert(c * (g0 * cn + m * bn) == g0 * (c * cn) + c * (m * bn)) by (nonlinear_arith);
        assert(b * (m * bn) + b * bn == (m + 1) * (b * bn)) by (nonlinear_arith);
        assert(g1 * b * bn == g1 * (b * bn)) by (nonlinear_arith);
    }
}

/// One frame of speed handling for a grounded character: sustained active
/// motion accelerates and carries the speed into the momentum; anything
/// else stops the character and restores the starting speed.
pub fn handle_speed(momentum: &mut Momentum, speed: &mut Speed, direction: &Direction, delta_ms: u32)
    requires
        old(speed)@.wf(),
    ensures
        final(speed)@.wf(),
        direction.active_spec() ==> final(speed)@ == old(speed)@.accelerated(delta_ms as int)
            && final(momentum)@ == final(speed)@.current,
        !direction.active_spec() ==> final(speed)@ == old(speed)@.reset() && final(momentum)@
            == 0,
{
    if direction.is_active() {
        speed.accelerate(delta_ms);
        momentum.set(speed.current());
    } else {
        momentum.reset();
        speed.reset();
    }
}

/// One component of the velocity that a momentum of `m` fine steps gives
/// along a facing component `f` (in steps), rounded toward zero and held at
/// the ends of the range of `i32`.
pub open spec fn along(f: int, m: int) -> int {
    saturate(div_toward_zero(f * m, FINE_PER_UNIT as int))
}

fn along_exec(f: i32, m: i64) -> (r: Unit)
    ensures
        r.0 == along(f as int, m as int),
{
    assert(-0x8000_0000 * 0x8000_0000_0000_0000 <= f * m <= 0x8000_0000 * 0x8000_0000_0000_0000)
        by (nonlinear_arith)
        requires
            -0x8000_0000 <= f <= 0x7fff_ffff,
            -0x8000_0000_0000_0000 <= m <= 0x7fff_ffff_ffff_ffff,
    ;
    let p: i128 = f as i128 * m as i128;
    let q: i128 = if p >= 0 {
        p / 80000
    } else {
        -((-p) / 80000)
    };
    assert(-0x1_0000_0000_0000_0000_0000 <= q <= 0x1_0000_0000_0000_0000_0000);
    if q < i32::MIN as i128 {
        Unit(i32::MIN)
    } else if q > i32::MAX as i128 {
        Unit(i32::MAX)
    } else {
        Unit(q as i32)
    }
}

/// Sets the horizontal velocity from the facing direction and the momentum;
/// without momentum the velocity is left alone. Returns whether the
/// velocity was set.
pub fn apply_momentum(velocity: &mut UVec, forward: &UVec, momentum: &Momentum) -> (r: bool)
    ensures
        r == (momentum@ != 0),
        momentum@ != 0 ==> *final(velocity) == (UVec {
            x: Unit(along(forward.x.0 as int, momentum@) as i32),
            y: old(velocity).y,
            z: Unit(along(forward.z.0 as int, momentum@) as i32),
        }),
        momentum@ == 0 ==> *final(velocity) == *old(velocity),
{
    if momentum.is_any() {
        let m = momentum.get();
        velocity.x = along_exec(forward.x.0, m);
        velocity.z = along_exec(forward.z.0, m);
        true
    } else {
        false
    }
}

/// The flat direction a grounded character turns to face, if it has one.
pub fn facing_target(direction: &Direction) -> (r: Option<UVec>)
    ensures
        direction.0.x.0 == 0 && direction.0.z.0 == 0 ==> r.is_none(),
        !(direction.0.x.0 == 0 && direction.0.z.0 == 0) ==> r == Some(
            UVec { x: direction.0.x, y: Unit(0), z: direction.0.z },
        ),
{
    if direction.0.x.0 == 0 && direction.0.z.0 == 0 {
        None
    } else {
        Some(UVec { x: direction.0.x, y: Unit(0), z: direction.0.z })
    }
}

/// How fast a character turns toward its target: 0.85 per unit of speed,
/// in steps, rounded down.
pub fn turn_speed(speed: &Speed) -> (r: Unit)
    requires
        speed@.wf(),
    ensures
        r.0 == speed@.current * TURN_FACTOR / FINE_PER_UNIT as int,
{
    let c = speed.current();
    assert(0 <= c * 68 <= 0x7fff_ffff * 1000 * 68) by (nonlinear_arith)
        requires
            0 <= c <= 0x7fff_ffff * 1000,
    ;
    saturating_unit(c * TURN_FACTOR as i64 / FINE_PER_UNIT)
}

} // verus!
