use platformer::camera::{
    position_camera, rotate_camera, update_camera_desired_position, CameraMode, MainCamera,
};
use platformer::units::UVec;

#[test]
fn camera_turns_in_steps_and_wraps() {
    let mut cam = MainCamera::initial();
    rotate_camera(&mut cam, false, true);
    assert_eq!(cam.angle, 45);
    rotate_camera(&mut cam, true, true);
    assert_eq!(cam.angle, 45);
    cam.angle = 360;
    rotate_camera(&mut cam, false, true);
    assert_eq!(cam.angle, 45);
    cam.angle = -360;
    rotate_camera(&mut cam, true, false);
    assert_eq!(cam.angle, -45);
}

#[test]
fn desired_position_sits_behind_and_above() {
    let mut cam = MainCamera::initial();
    update_camera_desired_position(&mut cam, UVec::from_ints(80, 0, 160), UVec::from_ints(0, 0, -80));
    // offset depth 10 along forward (0, 0, -1), height 7.
    assert_eq!(cam.desired_position, UVec::from_ints(80, 560, -640));
}

#[test]
fn fixed_camera_eases_toward_target() {
    let mut cam = MainCamera::initial();
    cam.desired_position = UVec::from_ints(800, 0, -400);
    // easing 4 per second over 100 ms: 0.4 of the way.
    let p = position_camera(&cam, UVec::zero(), 100).unwrap();
    assert_eq!(p, UVec::from_ints(320, 0, -160));
    cam.camera_mode = CameraMode::Follow;
    assert_eq!(position_camera(&cam, UVec::zero(), 100), None);
}

#[test]
fn negative_easing_moves_away() {
    let mut cam = MainCamera::initial();
    cam.easing = platformer::units::Unit(-320);
    cam.desired_position = UVec::from_ints(800, 0, 0);
    let p = position_camera(&cam, UVec::zero(), 100).unwrap();
    assert_eq!(p, UVec::from_ints(-320, 0, 0));
}

#[test]
fn yaw_out_of_range_wraps_once() {
    let mut cam = MainCamera::initial();
    cam.angle = i32::MAX;
    rotate_camera(&mut cam, false, true);
    assert_eq!(cam.angle, i32::MAX - 315);
    cam.angle = 100;
    rotate_camera(&mut cam, true, false);
    assert_eq!(cam.angle, 55);
}
