use rand::Rng;

use ragnarek_core::planner::{
    clamp_delta, BezierCurve, SmoothController, SmoothingType, CLAMP_MAX_MILLI,
};
use ragnarek_core::vecmath::ScreenVec;

fn sv(x: i64, y: i64) -> ScreenVec {
    ScreenVec::new(x, y)
}

fn run_to_completion(ctl: &mut SmoothController, start_ms: u64) -> (ScreenVec, u64) {
    let mut now = start_ms;
    let mut last = ctl.current_position;
    let mut polls = 0u64;
    while ctl.is_active() {
        now += 16;
        if let Some(p) = ctl.update(now) {
            last = p;
        }
        polls += 1;
        assert!(polls < 100_000, "planner failed to complete");
    }
    (last, polls)
}

#[test]
fn linear_plan_reaches_goal_exactly() {
    let mut ctl = SmoothController::new(SmoothingType::Linear, 2000);
    ctl.move_to(sv(0, 0), sv(50_000, -30_000), 0);
    let (end, _) = run_to_completion(&mut ctl, 0);
    assert_eq!(end, sv(50_000, -30_000));
    assert_eq!(ctl.current_position, sv(50_000, -30_000));
}

#[test]
fn exponential_plan_reaches_goal_exactly() {
    let mut ctl = SmoothController::new(SmoothingType::Exponential, 3000);
    ctl.move_to(sv(1000, 1000), sv(80_000, 20_000), 0);
    let (end, _) = run_to_completion(&mut ctl, 0);
    assert_eq!(end, sv(80_000, 20_000));
}

#[test]
fn bezier_plan_reaches_goal_exactly_after_duration() {
    let mut ctl = SmoothController::new(SmoothingType::Bezier, 2000);
    ctl.move_to(sv(0, 0), sv(60_000, 10_000), 100);
    // Polling far past the longest admissible duration must land
    // exactly on the goal and clear the plan.
    let p = ctl.update(100 + 5_000).expect("active curve");
    assert_eq!(p, sv(60_000, 10_000));
    assert!(!ctl.is_active());
}

#[test]
fn natural_plan_reaches_goal_exactly_after_duration() {
    let mut ctl = SmoothController::new(SmoothingType::Natural, 2000);
    ctl.move_to(sv(-5_000, 3_000), sv(90_000, -40_000), 0);
    let p = ctl.update(5_000).expect("active curve");
    assert_eq!(p, sv(90_000, -40_000));
    assert!(!ctl.is_active());
}

#[test]
fn short_travel_snaps_without_a_plan() {
    let mut ctl = SmoothController::new(SmoothingType::Bezier, 2000);
    // Less than one pixel of travel: snap, no curve, no target.
    ctl.move_to(sv(0, 0), sv(600, 500), 0);
    assert!(!ctl.is_active());
    assert_eq!(ctl.current_position, sv(600, 500));
}

#[test]
fn stop_cancels_the_plan_immediately() {
    let mut ctl = SmoothController::new(SmoothingType::Natural, 2000);
    ctl.move_to(sv(0, 0), sv(50_000, 0), 0);
    assert!(ctl.is_active());
    ctl.stop();
    assert!(!ctl.is_active());
    assert!(ctl.update(16).is_none());
}

#[test]
fn curve_starts_at_start_and_ends_at_goal() {
    let c = BezierCurve::new_cubic(sv(1_000, 2_000), sv(40_000, -7_000), 500, 2000, 0);
    assert_eq!(c.evaluate_at(0), sv(1_000, 2_000));
    assert_eq!(c.evaluate_at(1000), sv(40_000, -7_000));
    let n = BezierCurve::new_natural(sv(0, 0), sv(90_000, 90_000), 800, 500, 0);
    assert_eq!(n.evaluate_at(0), sv(0, 0));
    assert_eq!(n.evaluate_at(1000), sv(90_000, 90_000));
}

#[test]
fn no_delta_ever_exceeds_the_clamp() {
    let mut rng = rand::thread_rng();
    for _ in 0..500 {
        let d = sv(
            rng.gen_range(-1_000_000_000..1_000_000_000),
            rng.gen_range(-1_000_000_000..1_000_000_000),
        );
        let out = clamp_delta(d);
        assert!(out.x.abs() <= CLAMP_MAX_MILLI);
        assert!(out.y.abs() <= CLAMP_MAX_MILLI);
        // The clamp only ever shortens an axis, never flips it.
        assert!(out.x.abs() <= d.x.abs() && out.x.signum() * d.x.signum() >= 0);
        assert!(out.y.abs() <= d.y.abs() && out.y.signum() * d.y.signum() >= 0);
    }
}

#[test]
fn small_deltas_pass_the_clamp_unchanged() {
    let out = clamp_delta(sv(1_500, -900));
    assert_eq!(out, sv(1_500, -900));
}

#[test]
fn larger_corrections_get_larger_budgets() {
    // A small raw correction is clamped to the minimum level; a huge
    // one to the maximum.
    let small = clamp_delta(sv(7_000, 0));
    assert_eq!(small, sv(2_000, 0));
    let huge = clamp_delta(sv(10_000_000, 0));
    assert_eq!(huge, sv(80_000, 0));
}

#[test]
fn linear_deltas_between_polls_are_bounded_by_the_step() {
    let mut ctl = SmoothController::new(SmoothingType::Linear, 2000);
    ctl.move_to(sv(0, 0), sv(95_000_000, 40_000_000), 0);
    // max_speed 1_000_000 * 16 / 2000 = 8000 milli-pixels per poll.
    let mut prev = ctl.current_position;
    let mut now = 0u64;
    for _ in 0..100 {
        now += 16;
        match ctl.update(now) {
            Some(p) => {
                assert!((p.x - prev.x).abs() <= 8_000);
                assert!((p.y - prev.y).abs() <= 8_000);
                prev = p;
            },
            None => break,
        }
    }
}
