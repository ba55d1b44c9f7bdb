use ragnarek_core::humanize::{humanize_point_from, HumanizationParameters, MISS_CHANCE_CAP_MILLI};
use ragnarek_core::vecmath::ScreenVec;

#[test]
fn delays_stay_in_the_adjusted_band() {
    let p = HumanizationParameters::new();
    // Fresh parameters: fatigue 1000, consistency 850 give a spread of
    // 1075, so [80, 200] stretches to [80, 215].
    for _ in 0..100 {
        let d = p.humanized_delay(80, 200);
        assert!((80..=215).contains(&d));
    }
}

#[test]
fn swapped_bounds_self_correct() {
    let p = HumanizationParameters::new();
    // base_min > base_max: the crossed bounds swap rather than fail.
    for _ in 0..50 {
        let d = p.humanized_delay(200, 80);
        assert!((86..=200).contains(&d));
    }
}

#[test]
fn fatigue_accrues_and_caps() {
    let mut p = HumanizationParameters::new();
    p.update_fatigue(0, 0);
    assert_eq!(p.fatigue_milli, 1000);
    // One hour: 100 per-mille points; 50 shots: 50 more.
    p.update_fatigue(3_600_000, 50);
    assert_eq!(p.fatigue_milli, 1150);
    p.update_fatigue(360_000_000, 10_000);
    assert_eq!(p.fatigue_milli, 2000);
}

#[test]
fn consistency_degrades_with_streaks_but_floors() {
    let mut p = HumanizationParameters::new();
    p.update_consistency(5);
    assert_eq!(p.consistency_milli, 850);
    p.update_consistency(15);
    assert_eq!(p.consistency_milli, 800);
    p.update_consistency(100);
    assert_eq!(p.consistency_milli, 600);
}

#[test]
fn miss_chance_formula_is_exact() {
    let mut p = HumanizationParameters::new();
    // Base 20, far target, no streak, fresh fatigue: 20 * 1000 / 1000.
    assert_eq!(p.miss_chance(5_000_000, 0), 20);
    // Streak of 9: four extra hits past five add 40.
    assert_eq!(p.miss_chance(5_000_000, 9), 60);
    // Close range halves the raised chance before scaling.
    assert_eq!(p.miss_chance(500_000, 9), 30);
    // Fatigue scales it, capped at 1.5.
    p.fatigue_milli = 2000;
    assert_eq!(p.miss_chance(5_000_000, 9), 90);
    // The ceiling can never be exceeded.
    p.miss_chance_milli = 1000;
    assert_eq!(p.miss_chance(5_000_000, 100), MISS_CHANCE_CAP_MILLI);
}

#[test]
fn zero_chance_never_misses() {
    let mut p = HumanizationParameters::new();
    p.miss_chance_milli = 0;
    for _ in 0..50 {
        assert!(!p.should_miss(5_000_000, 0));
    }
}

#[test]
fn miss_decision_matches_the_roll() {
    let p = HumanizationParameters::new();
    assert!(p.should_miss_from(0, 5_000_000, 0));
    assert!(p.should_miss_from(19, 5_000_000, 0));
    assert!(!p.should_miss_from(20, 5_000_000, 0));
}

#[test]
fn overshoot_extends_past_the_target_along_the_ray() {
    let p = HumanizationParameters::new();
    let center = ScreenVec::new(0, 0);
    let target = ScreenVec::new(10_000, 0);
    // A roll under the overshoot chance with a 5 percent factor lands
    // 5 percent past the target; far target, so no jitter.
    let out = humanize_point_from(&p, target, 5_000_000, center, 0, 1050, 0, 0);
    assert_eq!(out, ScreenVec::new(10_500, 0));
    // A roll at or above the chance leaves the point untouched.
    let out2 = humanize_point_from(&p, target, 5_000_000, center, 150, 1050, 0, 0);
    assert_eq!(out2, target);
}

#[test]
fn close_targets_get_micro_jitter() {
    let p = HumanizationParameters::new();
    let center = ScreenVec::new(0, 0);
    let target = ScreenVec::new(10_000, 0);
    let out = humanize_point_from(&p, target, 100_000, center, 999, 1050, 300, -200);
    assert_eq!(out, ScreenVec::new(10_300, -200));
}

#[test]
fn humanized_points_stay_bounded() {
    let p = HumanizationParameters::new();
    let center = ScreenVec::new(960_000, 540_000);
    let target = ScreenVec::new(1_000_000, 600_000);
    for _ in 0..100 {
        let out = p.humanize_point(target, 100_000, center);
        assert!(out.x.abs() <= 400_000_000);
        assert!(out.y.abs() <= 400_000_000);
    }
}
