use vstd::prelude::*;

use crate::units::{
    div_toward_zero, product_i64, product_spec, saturate, saturating_unit, UVec, Unit,
};

verus! {

/// Degrees the camera turns per press.
pub const CAMERA_STEP_DEGREES: i32 = 45;

/// How the camera follows the player.
#[derive(Clone, Copy, Debug, Default, PartialEq, Eq, Structural)]
pub enum CameraMode {
    #[default]
    Fixed,
    Follow,
}

/// The game camera: where it wants to be relative to the player, its yaw in
/// whole degrees, and how quickly it eases toward its target.
#[derive(Clone, Copy, Debug, PartialEq, Eq, Structural)]
pub struct MainCamera {
    pub offset: UVec,
    pub angle: i32,
    pub easing: Unit,
    pub camera_mode: CameraMode,
    pub desired_position: UVec,
}

impl MainCamera {
    /// The yaw stays within one turn either way.
    pub open spec fn wf(&self) -> bool {
        -360 <= self.angle <= 360
    }

    /// The camera as the game starts: 7 units up and 10 back, facing ahead,
    /// easing at 4 per second, in the fixed mode.
    pub fn initial() -> (r: MainCamera)
        ensures
            r.offset == (UVec { x: Unit(0i32), y: Unit(560i32), z: Unit(800i32) }),
            r.angle == 0,
            r.easing.0 == 320,
            r.camera_mode == CameraMode::Fixed,
            r.desired_position.is_zero(),
            r.wf(),
    {
        MainCamera {
            offset: UVec { x: Unit(0), y: Unit(560), z: Unit(800) },
            angle: 0,
            easing: Unit(320),
            camera_mode: CameraMode::Fixed,
            desired_position: UVec::zero(),
        }
    }
}

/// The yaw after the turn presses of one frame: 45 degrees to the right
/// for a right press, 45 to the left for a left press, brought back by a
/// full turn once past 360 either way.
pub open spec fn rotated_angle(angle: int, left: bool, right: bool) -> int {
    let a = angle + CAMERA_STEP_DEGREES * ((if right {
        1int
    } else {
        0int
    }) - (if left {
        1int
    } else {
        0int
    }));
    if a > 360 {
        a - 360
    } else if a < -360 {
        a + 360
    } else {
        a
    }
}

/// Turns the camera for one set of presses of the turn buttons. A yaw
/// within one turn stays within one turn.
pub fn rotate_camera(camera: &mut MainCamera, left: bool, right: bool)
    ensures
        final(camera).angle == saturate(rotated_angle(old(camera).angle as int, left, right)),
        old(camera).wf() ==> final(camera).wf(),
        *final(camera) == (MainCamera { angle: final(camera).angle, ..*old(camera) }),
{
    let mut a: i64 = camera.angle as i64;
    if left {
        a = a - CAMERA_STEP_DEGREES as i64;
    }
    if right {
        a = a + CAMERA_STEP_DEGREES as i64;
    }
    if a > 360 {
        a = a - 360;
    } else if a < -360 {
        a = a + 360;
    }
    camera.angle = saturating_unit(a).0;
}

/// Where the camera wants to be: from the player along the camera's
/// flattened forward axis by the offset's depth, and up by its height, each
/// component held at the ends of the range of `i32`.
pub open spec fn desired_spec(player: UVec, forward: UVec, offset: UVec) -> UVec {
    UVec {
        x: Unit(saturate(player.x.0 + product_spec(forward.x.0 as int, offset.z.0 as int)) as i32),
        y: Unit(
            saturate(player.y.0 + product_spec(forward.y.0 as int, offset.z.0 as int) + offset.y.0)
                as i32,
        ),
        z: Unit(saturate(player.z.0 + product_spec(forward.z.0 as int, offset.z.0 as int)) as i32),
    }
}

/// Sets the camera's desired position from the player's position and the
/// camera's forward axis (turned by its yaw and flattened).
pub fn update_camera_desired_position(camera: &mut MainCamera, player: UVec, forward: UVec)
    ensures
        *final(camera) == (MainCamera {
            desired_position: desired_spec(player, forward, old(camera).offset),
            ..*old(camera)
        }),
{
    let depth = camera.offset.z.0;
    let px = product_i64(forward.x.0, depth);
    let py = product_i64(forward.y.0, depth);
    let pz = product_i64(forward.z.0, depth);
    proof {
        lemma_wide_product_bounded(forward.x.0 as int, depth as int);
        lemma_wide_product_bounded(forward.y.0 as int, depth as int);
        lemma_wide_product_bounded(forward.z.0 as int, depth as int);
    }
    camera.desired_position = UVec {
        x: saturating_unit(player.x.0 as i64 + px),
        y: saturating_unit(player.y.0 as i64 + py + camera.offset.y.0 as i64),
        z: saturating_unit(player.z.0 as i64 + pz),
    };
}

/// The fixed-point product of two `i32` values lies well inside `i64`.
proof fn lemma_wide_product_bounded(a: int, b: int)
    requires
        i32::MIN <= a <= i32::MAX,
        i32::MIN <= b <= i32::MAX,
    ensures
        -0x1000_0000_0000_0000 <= product_spec(a, b) <= 0x1000_0000_0000_0000,
{
    assert(-0x4000_0000_0000_0000 <= a * b <= 0x4000_0000_0000_0000) by (nonlinear_arith)
        requires
            -0x8000_0000 <= a <= 0x7fff_ffff,
            -0x8000_0000 <= b <= 0x7fff_ffff,
    ;
}

/// One component eased from `from` toward `to` by the share
/// `delta_ms * easing / 80000`, rounded toward zero; a share past one
/// overshoots and a negative one moves away, as a linear interpolation does.
pub open spec fn eased(from: int, to: int, delta_ms: int, easing: int) -> int {
    from + div_toward_zero((to - from) * delta_ms * easing, 80000)
}

/// In the fixed mode, the camera's position after easing toward its
/// desired position for `delta_ms` milliseconds, each component held at the
/// ends of the range of `i32`; in the follow mode, none.
pub fn position_camera(camera: &MainCamera, position: UVec, delta_ms: u32) -> (r: Option<UVec>)
    ensures
        camera.camera_mode == CameraMode::Follow ==> r.is_none(),
        camera.camera_mode == CameraMode::Fixed ==> r == Some(
            UVec {
                x: Unit(saturate(eased(position.x.0 as int, camera.desired_position.x.0 as int, delta_ms as int, camera.easing.0 as int)) as i32),
                y: Unit(saturate(eased(position.y.0 as int, camera.desired_position.y.0 as int, delta_ms as int, camera.easing.0 as int)) as i32),
                z: Unit(saturate(eased(position.z.0 as int, camera.desired_position.z.0 as int, delta_ms as int, camera.easing.0 as int)) as i32),
            },
        ),
{
    match camera.camera_mode {
        CameraMode::Fixed => {
            let d = camera.desired_position;
            Some(
                UVec {
                    x: ease(position.x, d.x, delta_ms, camera.easing),
                    y: ease(position.y, d.y, delta_ms, camera.easing),
                    z: ease(position.z, d.z, delta_ms, camera.easing),
                },
            )
        },
        CameraMode::Follow => None,
    }
}

fn ease(from: Unit, to: Unit, delta_ms: u32, easing: Unit) -> (r: Unit)
    ensures
        r.0 == saturate(eased(from.0 as int, to.0 as int, delta_ms as int, easing.0 as int)),
{
    let gap: i64 = to.0 as i64 - from.0 as i64;
    assert(-0xffff_ffff * 0x8000_0000 <= delta_ms as int * easing.0 as int <= 0xffff_ffff
        * 0x8000_0000) by (nonlinear_arith)
        requires
            0 <= delta_ms <= 0xffff_ffff,
            -0x8000_0000 <= easing.0 <= 0x7fff_ffff,
    ;
    let de: i64 = delta_ms as i64 * easing.0 as i64;
    proof {
        let g = gap as int;
        let e = de as int;
        assert(-0x1_0000_0000 * (0xffff_ffff * 0x8000_0000) <= g * e <= 0x1_0000_0000 * (
        0xffff_ffff * 0x8000_0000)) by (nonlinear_arith)
            requires
                -0x1_0000_0000 <= g <= 0x1_0000_0000,
                -0xffff_ffff * 0x8000_0000 <= e <= 0xffff_ffff * 0x8000_0000,
        ;
        assert((to.0 - from.0) * delta_ms * easing.0 == g * e) by (nonlinear_arith)
            requires
                g == to.0 - from.0,
                e == delta_ms as int * easing.0 as int,
        ;
    }
    let p: i128 = gap as i128 * de as i128;
    let step: i128 = if p >= 0 {
        p / 80000
    } else {
        -((-p) / 80000)
    };
    let v: i128 = from.0 as i128 + step;
    if v < i32::MIN as i128 {
        Unit(i32::MIN)
    } else if v > i32::MAX as i128 {
        Unit(i32::MAX)
    } else {
        Unit(v as i32)
    }
}

} // verus!
