use platformer::physics::{
    apply_momentum, facing_target, handle_speed, turn_speed, Direction, Momentum, Speed,
};
use platformer::units::{UVec, Unit};

fn dir(x: i32, y: i32, z: i32) -> Direction {
    Direction(UVec::from_ints(x, y, z))
}

#[test]
fn idle_direction_resets_momentum_and_speed() {
    let mut momentum = Momentum::default();
    let mut speed = Speed::character();
    let moving = dir(80, 0, 0);
    for _ in 0..60 {
        handle_speed(&mut momentum, &mut speed, &moving, 16);
    }
    assert!(speed.current() > 240_000);
    assert!(momentum.get() > 240_000);
    handle_speed(&mut momentum, &mut speed, &dir(0, 0, 0), 16);
    assert_eq!(momentum.get(), 0);
    assert!(!momentum.is_any());
    assert_eq!(speed.current(), 240_000);
    assert_eq!(speed.max().steps(), 600);
    assert!(!speed.cooled_down());
}

#[test]
fn short_direction_counts_as_idle() {
    // 0.29 world units is below the 0.3 threshold; 0.3 is not.
    assert!(!dir(23, 0, 0).is_active());
    assert!(dir(24, 0, 0).is_active());
    assert!(!dir(13, 0, 19).is_active());
    assert!(dir(0, 0, -24).is_active());
    let mut momentum = Momentum::default();
    momentum.set(500_000);
    let mut speed = Speed::character();
    handle_speed(&mut momentum, &mut speed, &dir(23, 0, 0), 16);
    assert_eq!(momentum.get(), 0);
    assert_eq!(speed.current(), 240_000);
}

#[test]
fn sustained_direction_accelerates_toward_max() {
    // base 3.0, max 7.5, accel 2.5, held for one second at 16 ms a frame.
    let mut momentum = Momentum::default();
    let mut speed = Speed::character();
    assert_eq!(speed.base().steps(), 240);
    assert_eq!(speed.max().steps(), 600);
    assert_eq!(speed.accel().steps(), 200);
    let moving = dir(80, 0, 0);
    let mut last = speed.current();
    let mut elapsed = 0u32;
    for _ in 0..63 {
        handle_speed(&mut momentum, &mut speed, &moving, 16);
        elapsed += 16;
        let now = speed.current();
        assert!(now <= 600_000);
        assert_eq!(momentum.get(), now);
        if elapsed < 600 {
            assert_eq!(now, 240_000);
        } else {
            assert!(now > last, "speed must rise after the cooldown: {} -> {}", last, now);
        }
        last = now;
    }
    assert!(last > 240_000 && last < 600_000);
}

#[test]
fn first_step_after_cooldown_is_exact() {
    let mut speed = Speed::character();
    speed.accelerate(599);
    assert_eq!(speed.current(), 240_000);
    // gap 360000 fine steps, 16 ms, accel 200: 360000 * 16 * 200 / 80000.
    speed.accelerate(16);
    assert!(speed.cooled_down());
    assert_eq!(speed.current(), 254_400);
}

#[test]
fn long_frame_stops_at_max() {
    let mut speed = Speed::new(Unit(240), Unit(600), Unit(200), 0);
    speed.accelerate(1000);
    assert_eq!(speed.current(), 600_000);
    speed.accelerate(1000);
    assert_eq!(speed.current(), 600_000);
}

#[test]
fn zero_accel_keeps_speed() {
    let mut speed = Speed::new(Unit(100), Unit(300), Unit(0), 0);
    speed.accelerate(16);
    assert_eq!(speed.current(), 100_000);
}

#[test]
fn momentum_sets_horizontal_velocity() {
    let mut momentum = Momentum::default();
    momentum.set(400_000);
    let mut velocity = UVec::from_ints(7, -30, 9);
    assert!(apply_momentum(&mut velocity, &UVec::from_ints(0, 0, -80), &momentum));
    assert_eq!(velocity, UVec::from_ints(0, -30, -400));
    apply_momentum(&mut velocity, &UVec::from_ints(40, 0, -40), &momentum);
    assert_eq!(velocity, UVec::from_ints(200, -30, -200));
}

#[test]
fn no_momentum_leaves_velocity() {
    let momentum = Momentum::default();
    let mut velocity = UVec::from_ints(7, -30, 9);
    assert!(!apply_momentum(&mut velocity, &UVec::from_ints(0, 0, -80), &momentum));
    assert_eq!(velocity, UVec::from_ints(7, -30, 9));
}

#[test]
fn facing_ignores_height() {
    assert_eq!(facing_target(&dir(0, 50, 0)), None);
    assert_eq!(facing_target(&dir(10, 50, -3)), Some(UVec::from_ints(10, 0, -3)));
}

#[test]
fn turn_speed_is_085_of_speed() {
    let speed = Speed::character();
    // 3.0 * 0.85 = 2.55, 204 steps.
    assert_eq!(turn_speed(&speed).steps(), 204);
}

#[test]
fn unit_arithmetic() {
    assert_eq!(Unit(5) + Unit(7), Unit(12));
    assert_eq!(Unit(5) - Unit(7), Unit(-2));
    assert_eq!(Unit::from(9), Unit(9));
    assert_eq!(Unit(-81).scaled_by(Unit(40)), Unit(-40));
    assert_eq!(Unit(81).scaled_by(Unit(40)), Unit(40));
    let v = UVec::new(Unit(1), Unit(2), Unit(3));
    assert_eq!(v, UVec::from_ints(1, 2, 3));
    assert_eq!(UVec::zero(), UVec::from_ints(0, 0, 0));
}

#[test]
fn default_speed_is_zero() {
    let speed = Speed::default();
    assert_eq!(speed.current(), 0);
    assert_eq!(speed.base().steps(), 0);
    assert_eq!(speed.max().steps(), 0);
    assert_eq!(speed.accel().steps(), 0);
    assert!(!speed.cooled_down());
}

#[test]
fn reset_restarts_a_zero_cooldown() {
    let mut speed = Speed::new(Unit(240), Unit(600), Unit(200), 0);
    assert!(!speed.cooled_down());
    speed.accelerate(16);
    assert!(speed.cooled_down());
    speed.reset();
    assert!(!speed.cooled_down());
    assert_eq!(speed.current(), 240_000);
    speed.accelerate(0);
    assert!(speed.cooled_down());
}

#[test]
fn products_saturate() {
    assert_eq!(Unit(i32::MIN).scaled_by(Unit(-80)), Unit(i32::MAX));
    assert_eq!(Unit(i32::MAX).scaled_by(Unit(160)), Unit(i32::MAX));
    let mut momentum = Momentum::default();
    momentum.set(i64::MIN);
    let mut velocity = UVec::zero();
    apply_momentum(&mut velocity, &UVec::from_ints(-80, 0, 80), &momentum);
    assert_eq!(velocity, UVec::from_ints(i32::MAX, 0, i32::MIN));
}

#[test]
fn uneven_frames_keep_rising_after_cooldown() {
    // 1 s in frames of 399, 201, 399 and 1 ms; each frame's share is below one.
    let direction = dir(80, 0, 0);
    let mut momentum = Momentum::default();
    let mut speed = Speed::character();
    let mut seen = Vec::new();
    for dt in [399u32, 201, 399, 1] {
        handle_speed(&mut momentum, &mut speed, &direction, dt);
        seen.push(speed.current());
    }
    assert_eq!(seen[0], 240_000);
    assert!(seen[1] > seen[0]);
    assert!(seen[2] > seen[1]);
    assert!(seen[3] > seen[2]);
    assert!(seen[3] < 600_000);
}

#[test]
fn millisecond_frames_keep_rising_for_a_second() {
    let direction = dir(80, 0, 0);
    let mut momentum = Momentum::default();
    let mut speed = Speed::character();
    let mut last = speed.current();
    for ms in 1..=1000u32 {
        handle_speed(&mut momentum, &mut speed, &direction, 1);
        let now = speed.current();
        if ms >= 600 {
            assert!(now > last, "frame {}: {} -> {}", ms, last, now);
        } else {
            assert_eq!(now, 240_000);
        }
        assert!(now < 600_000);
        last = now;
    }
}

#[test]
fn unit_compound_assignment() {
    let mut u = Unit(10);
    u += Unit(5);
    assert_eq!(u, Unit(15));
    u -= Unit(20);
    assert_eq!(u, Unit(-5));
    let mut big = Unit(i32::MAX);
    big += Unit(1);
    assert_eq!(big, Unit(i32::MAX));
}
