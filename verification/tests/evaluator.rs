use ragnarek_core::bones::BoneMap;
use ragnarek_core::config::AimbotConfig;
use ragnarek_core::evaluator::{evaluate, fov_limit, fov_milli_tan, Bone, EntitySnapshot, LocalPlayer};
use ragnarek_core::vecmath::WorldVec;
use ragnarek_core::weapons::WeaponType;

fn local_at_origin() -> LocalPlayer {
    LocalPlayer {
        eye_position: WorldVec::new(0, 0, 0),
        team: 1,
        view_dir: WorldVec::new(1000, 0, 0),
    }
}

fn enemy(id: u32, x_units: i64, head_z_units: i64) -> EntitySnapshot {
    EntitySnapshot {
        id,
        position: WorldVec::new(x_units * 1000, 0, 0),
        team: 2,
        health: 100,
        alive: true,
        visible: true,
        weapon: WeaponType::Rifle,
        bones: vec![Bone {
            name: String::from("head"),
            position: WorldVec::new(x_units * 1000, 0, head_z_units * 1000),
        }],
        last_seen: 0,
    }
}

fn scenario_config() -> AimbotConfig {
    let mut cfg = AimbotConfig::default();
    cfg.fov = 10;
    cfg.max_distance = 2_000_000; // 2000 units, in milli-units
    cfg.visible_only = false;
    cfg
}

#[test]
fn single_enemy_in_fov_is_selected() {
    // Local player at the origin looking along +x; one enemy at
    // (1000, 0, 0) with its head bone at (1000, 0, 72).
    let cfg = scenario_config();
    let map = BoneMap::new();
    let local = local_at_origin();
    let entities = vec![enemy(1, 1000, 72)];
    let best = evaluate(&entities, &local, &cfg, &map, None, 0).expect("a candidate");
    assert_eq!(best.id, 1);
    assert_eq!(best.aim_point, WorldVec::new(1_000_000, 0, 72_000));
}

#[test]
fn closer_enemy_outside_fov_is_not_selected() {
    // A second enemy much closer but at a steep angle to the view ray:
    // its head sits 72 units up only 50 units out, far outside 10
    // degrees.
    let cfg = scenario_config();
    let map = BoneMap::new();
    let local = local_at_origin();
    let entities = vec![enemy(1, 1000, 72), enemy(2, 50, 72)];
    let best = evaluate(&entities, &local, &cfg, &map, None, 0).expect("a candidate");
    assert_eq!(best.id, 1);
}

#[test]
fn zero_fov_passes_no_candidate() {
    let mut cfg = scenario_config();
    cfg.fov = 0;
    let map = BoneMap::new();
    let local = local_at_origin();
    let entities = vec![enemy(1, 1000, 72)];
    assert!(evaluate(&entities, &local, &cfg, &map, None, 0).is_none());
}

#[test]
fn fov_boundary_is_exclusive() {
    // The deviation of a head at (1000, 0, 72) units is exactly 72
    // milli-tangents.  A limit of exactly 72 excludes it; 73 admits it.
    let local = local_at_origin();
    let p = WorldVec::new(1_000_000, 0, 72_000);
    let deviation = fov_milli_tan(&local, p).expect("in front");
    assert_eq!(deviation, 72);
    // Ten degrees allow 174 milli-tangents of deviation; zero allows
    // none at all.
    assert_eq!(fov_limit(10), 174);
    assert_eq!(fov_limit(0), 0);

    // A head placed so its deviation is exactly the ten-degree limit
    // is excluded (the boundary is exclusive); a wider angle admits it.
    let map = BoneMap::new();
    let mut e = enemy(1, 1000, 72);
    e.bones[0].position = WorldVec::new(1_000_000, 0, 174_500);
    let mut cfg = scenario_config();
    cfg.fov = 10;
    assert!(evaluate(&vec![e], &local, &cfg, &map, None, 0).is_none());
    let mut e2 = enemy(1, 1000, 72);
    e2.bones[0].position = WorldVec::new(1_000_000, 0, 174_500);
    cfg.fov = 11;
    assert_eq!(fov_limit(11), 191);
    assert!(evaluate(&vec![e2], &local, &cfg, &map, None, 0).is_some());
}

#[test]
fn evaluation_is_deterministic() {
    let cfg = scenario_config();
    let map = BoneMap::new();
    let local = local_at_origin();
    let entities = vec![enemy(1, 1000, 72), enemy(2, 500, 36)];
    let a = evaluate(&entities, &local, &cfg, &map, None, 0);
    let b = evaluate(&entities, &local, &cfg, &map, None, 0);
    assert_eq!(a, b);
}

#[test]
fn dead_and_friendly_entities_are_filtered() {
    let cfg = scenario_config();
    let map = BoneMap::new();
    let local = local_at_origin();
    let mut dead = enemy(1, 1000, 72);
    dead.alive = false;
    let mut friendly = enemy(2, 1000, 72);
    friendly.team = 1;
    let mut hurt = enemy(3, 1000, 72);
    hurt.health = 0;
    assert!(evaluate(&vec![dead, friendly, hurt], &local, &cfg, &map, None, 0).is_none());
}

#[test]
fn visibility_requirement_filters_invisible_targets() {
    let mut cfg = scenario_config();
    cfg.visible_only = true;
    let map = BoneMap::new();
    let local = local_at_origin();
    let mut hidden = enemy(1, 1000, 72);
    hidden.visible = false;
    assert!(evaluate(&vec![hidden], &local, &cfg, &map, None, 0).is_none());
}

#[test]
fn lock_stickiness_prefers_current_target() {
    // Entity 2 scores higher (closer to the ray), but a live lock on
    // entity 1 is kept.
    let cfg = scenario_config();
    let map = BoneMap::new();
    let local = local_at_origin();
    let near_axis = {
        let mut e = enemy(2, 1000, 1);
        e.health = 100;
        e
    };
    let entities = vec![enemy(1, 1000, 72), near_axis];
    let unlocked = evaluate(&entities, &local, &cfg, &map, None, 0).unwrap();
    assert_eq!(unlocked.id, 2);
    let locked = evaluate(&entities, &local, &cfg, &map, Some(1), 0).unwrap();
    assert_eq!(locked.id, 1);
}

#[test]
fn missing_bone_falls_back_to_vertical_offset() {
    let cfg = scenario_config();
    let map = BoneMap::new();
    let local = local_at_origin();
    let mut e = enemy(1, 1000, 72);
    e.bones = Vec::new();
    let best = evaluate(&vec![e], &local, &cfg, &map, None, 0).expect("fallback candidate");
    // Head zone falls back to base + 72 units vertically.
    assert_eq!(best.aim_point, WorldVec::new(1_000_000, 0, 72_000));
}

#[test]
fn ties_break_toward_smaller_distance_then_smaller_id() {
    let cfg = scenario_config();
    let map = BoneMap::new();
    let local = local_at_origin();
    // Two identical enemies at the same place: the smaller id wins.
    let entities = vec![enemy(7, 1000, 72), enemy(3, 1000, 72)];
    let best = evaluate(&entities, &local, &cfg, &map, None, 0).unwrap();
    assert_eq!(best.id, 3);
}
