use ragnarek_core::estimator::{
    calculate_intercept_time, predict_position, predict_position_with_physics, MotionEstimator,
    VelocityTracker,
};
use ragnarek_core::vecmath::WorldVec;

fn pos(x: i64, y: i64, z: i64) -> WorldVec {
    WorldVec::new(x, y, z)
}

#[test]
fn velocity_is_none_until_two_samples() {
    let mut t = VelocityTracker::new();
    assert!(t.velocity().is_none());
    t.observe(pos(0, 0, 0), 1000);
    assert!(t.velocity().is_none());
    t.observe(pos(1000, 0, 0), 1100);
    assert!(t.velocity().is_some());
}

#[test]
fn stale_timestamp_does_not_change_history() {
    let mut t = VelocityTracker::new();
    t.observe(pos(0, 0, 0), 1000);
    t.observe(pos(1000, 0, 0), 1100);
    let v_before = t.velocity();
    // Not newer than the stored newest: dropped entirely.
    t.observe(pos(999_000, 0, 0), 1100);
    t.observe(pos(999_000, 0, 0), 900);
    assert_eq!(t.velocity(), v_before);
    assert_eq!(t.samples.len(), 2);
}

#[test]
fn three_uniform_samples_give_exact_velocity_and_zero_acceleration() {
    // Samples at t = 0, 0.1s, 0.2s with positions 0, 1, 2 units along x.
    let mut t = VelocityTracker::new();
    t.observe(pos(0, 0, 0), 0);
    t.observe(pos(1000, 0, 0), 100);
    t.observe(pos(2000, 0, 0), 200);
    // 10 units per second, in milli-units per second.
    assert_eq!(t.velocity(), Some(WorldVec::new(10_000, 0, 0)));
    assert_eq!(t.acceleration(), Some(WorldVec::new(0, 0, 0)));
}

#[test]
fn acceleration_needs_three_samples() {
    let mut t = VelocityTracker::new();
    t.observe(pos(0, 0, 0), 0);
    t.observe(pos(1000, 0, 0), 100);
    assert!(t.acceleration().is_none());
}

#[test]
fn prediction_extrapolates_position() {
    let mut t = VelocityTracker::new();
    t.observe(pos(0, 0, 0), 0);
    t.observe(pos(1000, 0, 0), 100);
    t.observe(pos(2000, 0, 0), 200);
    // Constant velocity: after another 100 ms the point is one more
    // unit along x.
    assert_eq!(t.predict(100), Some(WorldVec::new(3000, 0, 0)));
    assert!(VelocityTracker::new().predict(100).is_none());
}

#[test]
fn samples_older_than_age_cutoff_are_evicted() {
    let mut t = VelocityTracker::new();
    t.observe(pos(0, 0, 0), 0);
    t.observe(pos(1000, 0, 0), 100);
    // The next observation is more than one second past the old ones.
    t.observe(pos(5000, 0, 0), 2000);
    assert_eq!(t.samples.len(), 1);
    assert!(t.velocity().is_none());
}

#[test]
fn history_capped_at_ten_samples_oldest_first() {
    let mut t = VelocityTracker::new();
    let mut now: u64 = 10_000;
    for k in 0..15i64 {
        t.observe(pos(k * 10, 0, 0), now);
        now += 10;
    }
    assert_eq!(t.samples.len(), 10);
    assert_eq!(t.samples[0].position.x, 5 * 10);
}

#[test]
fn estimator_tracks_entities_separately() {
    let mut est = MotionEstimator::new();
    est.observe(1, pos(0, 0, 0), 0);
    est.observe(1, pos(1000, 0, 0), 100);
    est.observe(2, pos(0, 0, 0), 100);
    assert_eq!(est.velocity(1), Some(WorldVec::new(10_000, 0, 0)));
    assert!(est.velocity(2).is_none());
    assert!(est.velocity(3).is_none());
}

#[test]
fn sweep_removes_entities_not_seen_within_eviction_window() {
    let mut est = MotionEstimator::new();
    est.observe(1, pos(0, 0, 0), 0);
    est.observe(2, pos(0, 0, 0), 4_000);
    // Entity 1's newest sample is more than five seconds old.
    est.sweep(6_000);
    assert!(est.velocity(1).is_none());
    assert_eq!(est.trackers.len(), 1);
    assert_eq!(est.trackers[0].0, 2);
}

#[test]
fn store_does_not_grow_unbounded_under_distinct_ids() {
    let mut est = MotionEstimator::new();
    let mut now: u64 = 0;
    for id in 0..100u32 {
        est.observe(id, pos(0, 0, 0), now);
        now += 1_000;
        if id % 10 == 9 {
            est.sweep(now);
        }
    }
    // Only entities seen within the last five seconds survive sweeps.
    assert!(est.trackers.len() <= 10);
}

#[test]
fn physics_prediction_formula_is_exact() {
    // One second at 10 units per second moves 10 units.
    let p = predict_position(
        WorldVec::new(0, 0, 0),
        WorldVec::new(10_000, 0, 0),
        1000,
    );
    assert_eq!(p, WorldVec::new(10_000, 0, 0));
    // With 2 units per second squared of acceleration, s = ut + at^2/2
    // adds one more unit over the second.
    let q = predict_position_with_physics(
        WorldVec::new(0, 0, 0),
        WorldVec::new(10_000, 0, 0),
        WorldVec::new(2_000, 0, 0),
        1000,
        false,
    );
    assert_eq!(q, WorldVec::new(11_000, 0, 0));
    // Gravity pulls the z axis down when applied.
    let g = predict_position_with_physics(
        WorldVec::new(0, 0, 0),
        WorldVec::new(0, 0, 0),
        WorldVec::new(0, 0, 0),
        1000,
        true,
    );
    assert!(g.z < 0);
    assert_eq!(g.z, -515_025 / 2);
}

#[test]
fn intercept_time_for_a_stationary_target_is_distance_over_speed() {
    // 100 units away, projectile at 1000 units per second: 100 ms.
    let t = calculate_intercept_time(
        WorldVec::new(0, 0, 0),
        WorldVec::new(100_000, 0, 0),
        WorldVec::new(0, 0, 0),
        1_000_000,
    );
    assert_eq!(t, Some(100));
}

#[test]
fn intercept_degenerates_to_none() {
    // A target receding exactly at projectile speed degenerates the
    // quadratic; a faster one leaves no real root.
    let shooter = WorldVec::new(0, 0, 0);
    let target = WorldVec::new(100_000, 0, 0);
    assert_eq!(
        calculate_intercept_time(shooter, target, WorldVec::new(1_000_000, 0, 0), 1_000_000),
        None
    );
    assert_eq!(
        calculate_intercept_time(shooter, target, WorldVec::new(2_000_000, 0, 0), 1_000_000),
        None
    );
}
