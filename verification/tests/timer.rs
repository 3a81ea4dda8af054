use bevy_space::common::{exec_in_rect, exec_shifted, exec_travel, Direction3, Vec2, PX, SECOND};
use bevy_space::timer::Timer;

#[test]
fn timer_counts_within_its_period() {
    let mut t = Timer::new(2 * SECOND);
    assert!(!t.tick(750_000));
    assert_eq!(t.elapsed, 750_000);
    assert_eq!(t.duration, 2_000_000);
}

#[test]
fn timer_wraps_and_reports_the_end_of_a_period() {
    let mut t = Timer::new(2 * SECOND);
    assert!(!t.tick(750_000));
    assert!(t.tick(1_500_000));
    assert_eq!(t.elapsed, 250_000);
    assert!(!t.tick(1_000_000));
    assert_eq!(t.elapsed, 1_250_000);
}

#[test]
fn timer_expires_exactly_at_the_boundary() {
    let mut t = Timer::new(1_000);
    assert!(!t.tick(999));
    assert!(t.tick(1));
    assert_eq!(t.elapsed, 0);
}

#[test]
fn timer_reports_once_for_several_periods() {
    let mut t = Timer::new(1_000);
    assert!(t.tick(3_500));
    assert_eq!(t.elapsed, 500);
}

#[test]
fn timer_of_one_unit_survives_the_longest_tick() {
    let mut t = Timer::new(1);
    assert!(t.tick(u32::MAX));
    assert_eq!(t.elapsed, 0);
    assert!(!t.tick(0));
}

#[test]
fn timer_with_the_longest_period() {
    let mut t = Timer { duration: u32::MAX, elapsed: u32::MAX - 1 };
    assert!(t.tick(u32::MAX));
    assert_eq!(t.elapsed, u32::MAX - 1);
}

#[test]
fn timer_reset_starts_the_period_over() {
    let mut t = Timer::new(1_000);
    t.tick(400);
    t.reset();
    assert_eq!(t, Timer { duration: 1_000, elapsed: 0 });
}

#[test]
fn two_ticks_are_one_tick_of_their_sum() {
    let mut a = Timer::new(700);
    let mut b = Timer::new(700);
    a.tick(500);
    a.tick(450);
    b.tick(950);
    assert_eq!(a, b);
}

#[test]
fn travel_is_speed_times_time() {
    assert_eq!(exec_travel(30, 100_000), 3_000_000);
    assert_eq!(exec_travel(0, 5), 0);
    assert_eq!(exec_travel(u32::MAX, u32::MAX), 18_446_744_065_119_617_025);
}

#[test]
fn coordinates_stop_at_the_end_of_their_range() {
    assert_eq!(exec_shifted(10, 3, true), 13);
    assert_eq!(exec_shifted(10, 30, false), -20);
    assert_eq!(exec_shifted(i64::MAX - 1, 5, true), i64::MAX);
    assert_eq!(exec_shifted(i64::MIN + 1, u64::MAX, false), i64::MIN);
    assert_eq!(exec_shifted(i64::MIN, u64::MAX, true), i64::MAX);
}

#[test]
fn rectangle_includes_its_border() {
    let target = Vec2 { x: 100 * PX, y: 50 * PX };
    let size = Vec2 { x: 64 * PX, y: 40 * PX };
    assert!(exec_in_rect(target, target, size));
    assert!(exec_in_rect(Vec2 { x: 132 * PX, y: 70 * PX }, target, size));
    assert!(exec_in_rect(Vec2 { x: 68 * PX, y: 30 * PX }, target, size));
    assert!(!exec_in_rect(Vec2 { x: 132 * PX + 1, y: 70 * PX }, target, size));
    assert!(!exec_in_rect(Vec2 { x: 132 * PX, y: 70 * PX + 1 }, target, size));
    assert!(!exec_in_rect(Vec2 { x: 68 * PX - 1, y: 30 * PX }, target, size));
    assert!(!exec_in_rect(Vec2 { x: 68 * PX, y: 30 * PX - 1 }, target, size));
}

#[test]
fn rectangle_test_is_symmetric() {
    let a = Vec2 { x: -3, y: 7 };
    let b = Vec2 { x: 2, y: 4 };
    let size = Vec2 { x: 10, y: 6 };
    assert_eq!(exec_in_rect(a, b, size), exec_in_rect(b, a, size));
    assert!(exec_in_rect(a, b, size));
    let far = Vec2 { x: 9, y: 4 };
    assert_eq!(exec_in_rect(a, far, size), exec_in_rect(far, a, size));
    assert!(!exec_in_rect(a, far, size));
}

#[test]
fn rectangle_of_odd_size_keeps_its_half_units() {
    let target = Vec2 { x: 0, y: 0 };
    let size = Vec2 { x: 3, y: 3 };
    assert!(exec_in_rect(Vec2 { x: 1, y: -1 }, target, size));
    assert!(!exec_in_rect(Vec2 { x: 2, y: 0 }, target, size));
}

#[test]
fn rectangle_at_the_ends_of_the_range() {
    let size = Vec2 { x: i64::MAX, y: i64::MAX };
    assert!(!exec_in_rect(Vec2 { x: i64::MIN, y: 0 }, Vec2 { x: i64::MAX, y: 0 }, size));
    assert!(!exec_in_rect(Vec2 { x: 0, y: 0 }, Vec2 { x: 0, y: 0 }, Vec2 { x: -1, y: 5 }));
}

#[test]
fn direction_defaults_to_neutral() {
    assert_eq!(Direction3::default(), Direction3::Neutral);
}
