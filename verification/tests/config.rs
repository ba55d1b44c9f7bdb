use ragnarek_core::config::{
    default_acquisition_delay, default_bone_scan_delay, default_max_consecutive_headshots,
    default_min_shot_delay, default_shot_delay, default_shot_duration, AimbotConfig, AimbotProfile,
    TargetZone,
};
use ragnarek_core::machine::KeyToggleMode;
use ragnarek_core::planner::SmoothingType;

#[test]
fn stock_configuration_values() {
    let cfg = AimbotConfig::default();
    assert!(!cfg.enabled);
    assert_eq!(cfg.toggle_mode, KeyToggleMode::Hold);
    assert_eq!(cfg.fov, 5);
    assert_eq!(cfg.max_distance, 5_000_000);
    assert!(cfg.visible_only && cfg.team_check && cfg.prefer_head);
    assert_eq!(cfg.target_zone, TargetZone::Head);
    assert_eq!(cfg.smooth_factor_milli, 2000);
    assert_eq!(cfg.smoothing_type, SmoothingType::Natural);
    assert_eq!(cfg.fov_weight, 3000);
    assert_eq!(cfg.distance_weight, 1000);
    assert_eq!(cfg.health_weight, 500);
    assert_eq!(cfg.hitbox_weight, 2000);
    assert_eq!(cfg.visibility_bonus, 5000);
    assert_eq!(cfg.time_penalty, 2000);
    assert_eq!(cfg.miss_chance_milli, 20);
    assert_eq!(cfg.overshoot_chance_milli, 150);
    assert!(!cfg.auto_shoot);
}

#[test]
fn default_setting_functions() {
    assert_eq!(default_shot_delay(), 50);
    assert_eq!(default_shot_duration(), 100);
    assert_eq!(default_acquisition_delay(), 100);
    assert_eq!(default_min_shot_delay(), 50);
    assert_eq!(default_max_consecutive_headshots(), 5);
    assert_eq!(default_bone_scan_delay(), 10);
}

#[test]
fn profiles_differ_as_documented() {
    let legit = AimbotProfile::legit_profile();
    assert!(legit.config.legit_mode);
    assert_eq!(legit.config.fov, 2);
    assert_eq!(legit.config.smooth_factor_milli, 5000);
    assert_eq!(legit.config.miss_chance_milli, 50);
    assert_eq!(legit.config.max_consecutive_headshots, 3);
    assert_eq!(legit.name, "Legit");

    let rage = AimbotProfile::rage_profile();
    assert!(!rage.config.legit_mode);
    assert_eq!(rage.config.fov, 180);
    assert!(rage.config.auto_shoot);
    assert!(rage.advanced.multi_point && rage.advanced.backtrack);

    let semi = AimbotProfile::semi_rage_profile();
    assert_eq!(semi.config.fov, 8);
    assert!(!semi.config.auto_shoot);
    assert!(semi.advanced.backtrack && semi.advanced.auto_stop);
}
