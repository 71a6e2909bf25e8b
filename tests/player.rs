use platformer::animation::{AnimationTransitionEvent, Clip};
use platformer::common::IndexPointer;
use platformer::physics::{handle_speed, Direction, Momentum, Speed};
use platformer::player::{
    get_direction_in_camera_space, ground_probe, handle_grounded,
    handle_state_transition_events, run_to_idle, set_player_direction, Player, PlayerData,
    RayHit,
};
use platformer::units::{UVec, Unit};

#[test]
fn idle_grounded_player_fades_to_idle() {
    let direction = Direction(UVec::zero());
    let mut momentum = Momentum::default();
    momentum.set(300_000);
    let mut speed = Speed::character();
    handle_speed(&mut momentum, &mut speed, &direction, 16);
    assert_eq!(momentum.get(), 0);
    assert_eq!(
        run_to_idle(7, &direction, true),
        Some(AnimationTransitionEvent { entity: 7, clip: Clip::Idle, transition_ms: 300 })
    );
}

#[test]
fn moving_grounded_player_fades_to_run() {
    let direction = Direction(UVec::from_ints(80, 0, 0));
    assert_eq!(
        run_to_idle(3, &direction, true),
        Some(AnimationTransitionEvent { entity: 3, clip: Clip::Run, transition_ms: 200 })
    );
    // Any nonzero direction counts, even below the acceleration threshold.
    let tiny = Direction(UVec::from_ints(1, 0, 0));
    assert_eq!(run_to_idle(3, &tiny, true).unwrap().clip, Clip::Run);
}

#[test]
fn airborne_player_gets_no_transition() {
    assert_eq!(run_to_idle(3, &Direction(UVec::from_ints(80, 0, 0)), false), None);
    assert_eq!(run_to_idle(3, &Direction(UVec::zero()), false), None);
}

#[test]
fn ground_probe_points_down_eleven_tenths() {
    let p = ground_probe(UVec::from_ints(10, 200, -5));
    assert_eq!(p.origin, UVec::from_ints(10, 200, -5));
    assert_eq!(p.direction, UVec::from_ints(0, -80, 0));
    assert_eq!(p.max_distance.steps(), 88);
    assert!(p.solid && p.exclude_dynamic && p.exclude_sensors);
}

#[test]
fn grounded_follows_each_probe() {
    let mut data = PlayerData::default();
    data.kicked_wall = Some(9);
    let hit = RayHit { toi: Unit(40), normal: UVec::from_ints(0, 80, 0) };
    assert!(handle_grounded(&mut data, Some(hit)));
    assert_eq!(data.distance_from_floor.steps(), 40);
    assert_eq!(data.floor_normal, UVec::from_ints(0, 80, 0));
    assert_eq!(data.kicked_wall, None);
    assert!(handle_grounded(&mut data, Some(hit)));
    // A miss clears the grounded state and leaves the recorded data.
    let before = data;
    assert!(!handle_grounded(&mut data, None));
    assert_eq!(data, before);
    assert_eq!(data.held_object_index, IndexPointer::Empty);
}

#[test]
fn direction_follows_camera_axes() {
    let right = UVec::from_ints(80, 0, 0);
    let forward = UVec::from_ints(0, 0, -80);
    let d = get_direction_in_camera_space(right, forward, Some((Unit(80), Unit(40))));
    assert_eq!(d, UVec::from_ints(80, 0, -40));
    let none = get_direction_in_camera_space(right, forward, None);
    assert_eq!(none, UVec::zero());
    let diag = get_direction_in_camera_space(
        UVec::from_ints(56, 0, -56),
        UVec::from_ints(-56, 0, -56),
        Some((Unit(-80), Unit(80))),
    );
    assert_eq!(diag, UVec::from_ints(-112, 0, 0));
}

#[test]
fn airborne_player_stops_steering() {
    let mut direction = Direction(UVec::from_ints(10, 0, 10));
    set_player_direction(&mut direction, false, UVec::from_ints(80, 0, 0));
    assert!(!direction.is_any());
    set_player_direction(&mut direction, true, UVec::from_ints(80, 0, 0));
    assert_eq!(direction.get(), UVec::from_ints(80, 0, 0));
}

#[test]
fn state_change_is_reported_once() {
    let mut previous = Player::default();
    assert_eq!(previous, Player::Idle);
    let e = handle_state_transition_events(&mut previous, Player::Running).unwrap();
    assert_eq!(e.current_state, Player::Idle);
    assert_eq!(e.new_state, Player::Running);
    assert_eq!(previous, Player::Running);
    assert!(handle_state_transition_events(&mut previous, Player::Running).is_none());
}

#[test]
fn sustained_run_scenario() {
    // Direction (1, 0, 0) held for one second on the ground, base 3.0,
    // max 7.5, accel 2.5, at 20 ms a frame.
    let direction = Direction(UVec::from_ints(80, 0, 0));
    let mut momentum = Momentum::default();
    let mut speed = Speed::character();
    let mut speeds = Vec::new();
    for _ in 0..50 {
        handle_speed(&mut momentum, &mut speed, &direction, 20);
        speeds.push(speed.current());
        assert_eq!(
            run_to_idle(1, &direction, true),
            Some(AnimationTransitionEvent { entity: 1, clip: Clip::Run, transition_ms: 200 })
        );
    }
    // The cooldown of 0.6 s keeps the base speed for the first 29 frames.
    assert!(speeds[..29].iter().all(|&s| s == 240_000));
    for w in speeds[29..].windows(2) {
        assert!(w[0] < w[1]);
    }
    assert!(speeds[29] > 240_000);
    assert!(*speeds.last().unwrap() < 600_000);
}
