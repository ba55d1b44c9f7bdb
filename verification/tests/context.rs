use ragnarek_core::config::AimbotConfig;
use ragnarek_core::context::RagnarekContext;
use ragnarek_core::evaluator::{Bone, EntitySnapshot, LocalPlayer};
use ragnarek_core::machine::EngagementState;
use ragnarek_core::planner::CLAMP_MAX_MILLI;
use ragnarek_core::vecmath::{ScreenVec, WorldVec};
use ragnarek_core::weapons::WeaponType;

fn local() -> LocalPlayer {
    LocalPlayer {
        eye_position: WorldVec::new(0, 0, 0),
        team: 1,
        view_dir: WorldVec::new(1000, 0, 0),
    }
}

fn enemy(now: u64) -> EntitySnapshot {
    EntitySnapshot {
        id: 42,
        position: WorldVec::new(1_000_000, 0, 0),
        team: 2,
        health: 100,
        alive: true,
        visible: true,
        weapon: WeaponType::Rifle,
        bones: vec![Bone {
            name: String::from("head"),
            position: WorldVec::new(1_000_000, 0, 72_000),
        }],
        last_seen: now,
    }
}

fn combat_config() -> AimbotConfig {
    let mut cfg = AimbotConfig::default();
    cfg.fov = 10;
    cfg.max_distance = 2_000_000;
    cfg.visible_only = false;
    cfg.auto_shoot = true;
    cfg
}

#[test]
fn pipeline_walks_the_full_engagement_cycle() {
    let cfg = combat_config();
    let mut ctx = RagnarekContext::new(&cfg, 0);
    // Make the miss draw deterministic for the test.
    ctx.humanization.miss_chance_milli = 0;

    let d0 = ctx.tick(&cfg, &vec![enemy(0)], Some(&local()), true, 0);
    assert!(matches!(d0.state, EngagementState::Acquiring { target: 42, .. }));

    // Before the acquisition delay elapses the machine keeps acquiring.
    let d1 = ctx.tick(&cfg, &vec![enemy(50)], Some(&local()), true, 50);
    assert!(matches!(d1.state, EngagementState::Acquiring { target: 42, .. }));

    // After the delay it tracks, and aims at the (predicted) target.
    let d2 = ctx.tick(&cfg, &vec![enemy(100)], Some(&local()), true, 100);
    assert!(matches!(d2.state, EngagementState::Tracking { target: 42 }));
    assert!(d2.aim_world.is_some());

    // With auto-fire on and no miss, the next tick opens fire.
    let d3 = ctx.tick(&cfg, &vec![enemy(116)], Some(&local()), true, 116);
    assert!(matches!(d3.state, EngagementState::Shooting { target: 42, .. }));
    assert!(d3.press_fire);

    // Long after the longest shot duration, fire releases into cooldown.
    let d4 = ctx.tick(&cfg, &vec![enemy(5_000)], Some(&local()), true, 5_000);
    assert!(matches!(d4.state, EngagementState::Cooldown { .. }));
    assert!(d4.release_fire && d4.shot_completed);

    // And long after the cooldown the machine is idle again.
    let d5 = ctx.tick(&cfg, &vec![enemy(10_000)], Some(&local()), true, 10_000);
    assert_eq!(d5.state, EngagementState::Idle);
}

#[test]
fn disabling_cancels_everything_immediately() {
    let cfg = combat_config();
    let mut ctx = RagnarekContext::new(&cfg, 0);
    ctx.humanization.miss_chance_milli = 0;
    let _ = ctx.tick(&cfg, &vec![enemy(0)], Some(&local()), true, 0);
    let _ = ctx.plan_move(ScreenVec::new(0, 0), ScreenVec::new(50_000, 0), 0);
    let d = ctx.tick(&cfg, &vec![enemy(16)], Some(&local()), false, 16);
    assert_eq!(d.state, EngagementState::Idle);
    assert!(d.aim_world.is_none() && !d.press_fire);
    assert!(ctx.locked_target.is_none());
    assert!(!ctx.planner.is_active());
}

#[test]
fn missing_local_player_holds_the_state() {
    let cfg = combat_config();
    let mut ctx = RagnarekContext::new(&cfg, 0);
    let d0 = ctx.tick(&cfg, &vec![enemy(0)], Some(&local()), true, 0);
    let held = ctx.tick(&cfg, &vec![enemy(16)], None, true, 16);
    assert_eq!(held.state, d0.state);
    assert!(held.aim_world.is_none());
}

#[test]
fn empty_snapshot_list_is_no_candidates_not_an_error() {
    let cfg = combat_config();
    let mut ctx = RagnarekContext::new(&cfg, 0);
    let d = ctx.tick(&cfg, &Vec::new(), Some(&local()), true, 0);
    assert_eq!(d.state, EngagementState::Idle);
    assert!(d.aim_world.is_none());
}

#[test]
fn planned_moves_respect_the_clamp() {
    let cfg = combat_config();
    let mut ctx = RagnarekContext::new(&cfg, 0);
    let mut now = 0u64;
    let mut current = ScreenVec::new(0, 0);
    for _ in 0..50 {
        now += 16;
        if let Some(d) = ctx.plan_move(current, ScreenVec::new(90_000_000, -3_000_000), now) {
            assert!(d.x.abs() <= CLAMP_MAX_MILLI && d.y.abs() <= CLAMP_MAX_MILLI);
            current = ScreenVec::new(current.x + d.x, current.y + d.y);
        }
    }
}

#[test]
fn shot_results_feed_back_into_humanization() {
    let cfg = combat_config();
    let mut ctx = RagnarekContext::new(&cfg, 1_000);
    let before = ctx.humanization.miss_chance_milli;
    for k in 0..20u64 {
        ctx.record_shot_result(true, true, 1_000 + (k + 1) * 10_000);
    }
    // Twenty straight headshot hits: the streak builds and the risk
    // feedback never lowers caution.
    assert_eq!(ctx.consecutive_hits, 20);
    assert!(ctx.humanization.miss_chance_milli >= before);
    assert!(ctx.humanization.consistency_milli < 850);
    let missed_at = ctx.consecutive_hits;
    ctx.record_shot_result(false, false, 400_000);
    assert!(missed_at > 0 && ctx.consecutive_hits == 0);
}

#[test]
fn rate_limit_suppresses_back_to_back_shots() {
    let mut cfg = combat_config();
    cfg.min_shot_delay = 10_000;
    let mut ctx = RagnarekContext::new(&cfg, 0);
    ctx.humanization.miss_chance_milli = 0;
    // Walk to the first completed shot.
    let mut now = 0u64;
    let mut completed = 0u32;
    for _ in 0..600 {
        now += 16;
        let d = ctx.tick(&cfg, &vec![enemy(now)], Some(&local()), true, now);
        if d.shot_completed {
            completed += 1;
            break;
        }
    }
    assert_eq!(completed, 1);
    let shot_at = now;
    // Within the rate limit the machine may keep tracking but never
    // opens fire again.
    while now < shot_at + 9_000 {
        now += 16;
        let d = ctx.tick(&cfg, &vec![enemy(now)], Some(&local()), true, now);
        assert!(!d.press_fire, "fired inside the rate limit");
    }
}

#[test]
fn statistics_track_recorded_shots() {
    let cfg = combat_config();
    let mut ctx = RagnarekContext::new(&cfg, 0);
    ctx.record_shot_result(true, true, 1_000);
    ctx.record_shot_result(true, false, 2_000);
    ctx.record_shot_result(false, false, 3_000);
    let s = ctx.get_statistics(4_000);
    assert_eq!(s.total_shots, 3);
    assert_eq!(s.total_hits, 2);
    assert_eq!(s.headshots, 1);
    assert_eq!(s.accuracy_milli, 2000 / 3);
    assert_eq!(s.consecutive_hits, 0);
    assert_eq!(s.session_time_ms, 4_000);
    ctx.reset_statistics(5_000);
    let z = ctx.get_statistics(5_000);
    assert_eq!(z.total_shots, 0);
    assert_eq!(z.session_time_ms, 0);
    assert_eq!(ctx.shots_fired, 0);
}

#[test]
fn completed_headshots_advance_the_streak() {
    let cfg = combat_config();
    let mut ctx = RagnarekContext::new(&cfg, 0);
    ctx.humanization.miss_chance_milli = 0;
    let mut now = 0u64;
    for _ in 0..600 {
        now += 16;
        let d = ctx.tick(&cfg, &vec![enemy(now)], Some(&local()), true, now);
        if d.shot_completed {
            // The scenario's target resolves to its head bone.
            assert_eq!(ctx.consecutive_headshots, 1);
            assert_eq!(ctx.last_shot_time, now);
            assert_eq!(ctx.shots_fired, 1);
            return;
        }
    }
    panic!("no shot completed");
}

#[test]
fn tracking_ticks_always_carry_an_aim_point() {
    let cfg = combat_config();
    let mut ctx = RagnarekContext::new(&cfg, 0);
    ctx.humanization.miss_chance_milli = 0;
    let _ = ctx.tick(&cfg, &vec![enemy(0)], Some(&local()), true, 0);
    let d = ctx.tick(&cfg, &vec![enemy(100)], Some(&local()), true, 100);
    assert!(matches!(d.state, EngagementState::Tracking { .. }));
    // The motion estimate tracks base positions, so the extrapolated
    // point of a stationary target is its (unmoved) base.
    let w = d.aim_world.expect("an aim point while tracking");
    assert_eq!(w, WorldVec::new(1_000_000, 0, 0));
    // With prediction off, the aim point is the resolved head bone.
    let mut cfg2 = combat_config();
    cfg2.prediction_enabled = false;
    let mut ctx2 = RagnarekContext::new(&cfg2, 0);
    ctx2.humanization.miss_chance_milli = 0;
    let _ = ctx2.tick(&cfg2, &vec![enemy(0)], Some(&local()), true, 0);
    let d2 = ctx2.tick(&cfg2, &vec![enemy(100)], Some(&local()), true, 100);
    let w2 = d2.aim_world.expect("an aim point while tracking");
    assert_eq!(w2, WorldVec::new(1_000_000, 0, 72_000));
}
