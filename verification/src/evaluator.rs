//! Target evaluation: filtering, scoring and ranking of entity
//! snapshots.
//!
//! The evaluator is a pure function of its inputs: the same snapshot
//! list, local state and configuration always produce the same ranked
//! choice.  The field-of-view gate is angular and resolution
//! independent: the deviation of a candidate from the view direction
//! is measured as a milli-tangent (1000 times the tangent of the
//! angle between them), and the admissible limit grows linearly with
//! the configured field of view in degrees.  The test is exclusive: a
//! candidate exactly at the limit does not pass, so a zero limit
//! admits no candidate.

use vstd::prelude::*;

use crate::bones::{spec_resolve, BodyPart, BoneMap, Hitbox};
use crate::config::{AimbotConfig, TargetZone};
use crate::estimator::TIME_LIMIT;
use crate::vecmath::{
    div_trunc_i128, isqrt, lemma_mul_bound2, spec_div_trunc, spec_sqrt_floor, wide_mul, WorldVec,
};
use crate::weapons::WeaponType;

verus! {

/// Largest admissible magnitude of a snapshot coordinate, in
/// milli-units; chosen so derived aim points stay within the vector
/// arithmetic's own bounds.
pub const ENTITY_COORD_LIMIT: i64 = 1_000_000_000;

/// Largest admissible magnitude of a view-direction component; view
/// directions are milli-scaled unit vectors.
pub const VIEW_DIR_LIMIT: i64 = 10_000;

/// Largest admissible health magnitude.
pub const HEALTH_LIMIT: i64 = 1_000_000;

/// Milli-tangent units per hundred degrees of field of view (the
/// limit is a linear, monotone function of the configured angle,
/// matching the tangent for small angles: one degree is about 17.45
/// milli-tangents).
pub const MILLI_TAN_PER_CENTIDEG: i64 = 1745;

/// One named bone of a snapshot.
#[derive(Debug)]
pub struct Bone {
    pub name: String,
    pub position: WorldVec,
}

/// One tick's immutable view of one candidate entity.
#[derive(Debug)]
pub struct EntitySnapshot {
    pub id: u32,
    pub position: WorldVec,
    pub team: u8,
    pub health: i64,
    pub alive: bool,
    pub visible: bool,
    pub weapon: WeaponType,
    pub bones: Vec<Bone>,
    pub last_seen: u64,
}

/// The local player's own state for one tick.
#[derive(Debug)]
pub struct LocalPlayer {
    pub eye_position: WorldVec,
    pub team: u8,
    pub view_dir: WorldVec,
}

/// A scored candidate derived from one snapshot; lives one tick.
#[derive(Clone, Copy, Debug, PartialEq, Eq, Structural)]
pub struct Candidate {
    pub id: u32,
    pub aim_point: WorldVec,
    pub distance: u64,
    pub fov_milli_tan: i64,
    pub visible: bool,
    pub health: i64,
    pub hitbox: Hitbox,
    pub weapon: WeaponType,
    pub score: i64,
}

/// The admissible range of a derived aim point: entity bounds plus the
/// largest vertical fallback offset.
pub open spec fn aim_point_ok(v: WorldVec) -> bool {
    -ENTITY_COORD_LIMIT <= v.x <= ENTITY_COORD_LIMIT && -ENTITY_COORD_LIMIT <= v.y
        <= ENTITY_COORD_LIMIT && -ENTITY_COORD_LIMIT <= v.z <= ENTITY_COORD_LIMIT + 72_000
}

pub open spec fn entity_coord_ok(v: WorldVec) -> bool {
    -ENTITY_COORD_LIMIT <= v.x <= ENTITY_COORD_LIMIT && -ENTITY_COORD_LIMIT <= v.y
        <= ENTITY_COORD_LIMIT && -ENTITY_COORD_LIMIT <= v.z <= ENTITY_COORD_LIMIT
}

impl EntitySnapshot {
    pub open spec fn wf(&self) -> bool {
        &&& entity_coord_ok(self.position)
        &&& forall|i: int|
            0 <= i < self.bones@.len() ==> entity_coord_ok((#[trigger] self.bones@[i]).position)
        &&& -HEALTH_LIMIT <= self.health <= HEALTH_LIMIT
        &&& self.last_seen <= TIME_LIMIT
    }
}

impl LocalPlayer {
    pub open spec fn wf(&self) -> bool {
        &&& entity_coord_ok(self.eye_position)
        &&& -VIEW_DIR_LIMIT <= self.view_dir.x <= VIEW_DIR_LIMIT
        &&& -VIEW_DIR_LIMIT <= self.view_dir.y <= VIEW_DIR_LIMIT
        &&& -VIEW_DIR_LIMIT <= self.view_dir.z <= VIEW_DIR_LIMIT
    }
}

/// Component of the offset along the view direction (unnormalized).
pub open spec fn spec_par(d: WorldVec, u: (int, int, int)) -> int {
    d.x * u.0 + d.y * u.1 + d.z * u.2
}

/// Squared magnitude of the cross product of direction and offset: the
/// squared sideways component scaled by the direction's length.
pub open spec fn spec_cross_sq(d: WorldVec, u: (int, int, int)) -> int {
    (d.y * u.2 - d.z * u.1) * (d.y * u.2 - d.z * u.1) + (d.z * u.0 - d.x * u.2) * (d.z * u.0 - d.x
        * u.2) + (d.x * u.1 - d.y * u.0) * (d.x * u.1 - d.y * u.0)
}

/// The offset from the eye to a point, as mathematical components.
pub open spec fn spec_offset(eye: WorldVec, p: WorldVec) -> (int, int, int) {
    (p.x - eye.x, p.y - eye.y, p.z - eye.z)
}

/// Angular deviation of a point from the view ray in milli-tangents:
/// `1000 * |perpendicular| / |parallel|`, meaningful when the point is
/// in front (`spec_par > 0`).
pub open spec fn spec_fov_milli_tan(local: LocalPlayer, p: WorldVec) -> int {
    let u = spec_offset(local.eye_position, p);
    spec_div_trunc(
        spec_sqrt_floor(spec_cross_sq(local.view_dir, u) as nat) as int * 1000,
        spec_par(local.view_dir, u),
    )
}

/// The admissible milli-tangent deviation for a field of view in
/// degrees: linear and monotone in the angle.
pub open spec fn spec_fov_limit(fov_deg: int) -> int {
    fov_deg * MILLI_TAN_PER_CENTIDEG / 100
}

/// The milli-tangent limit of a configured field of view.
pub fn fov_limit(fov_deg: u32) -> (r: i64)
    requires
        fov_deg <= 360,
    ensures
        r == spec_fov_limit(fov_deg as int),
        0 <= r <= 6_282,
{
    (fov_deg as i64) * MILLI_TAN_PER_CENTIDEG / 100
}

/// A candidate is inside the field of view exactly when it lies in
/// front of the eye and its deviation is strictly under the limit.
pub open spec fn spec_in_fov(local: LocalPlayer, p: WorldVec, fov_deg: int) -> bool {
    let u = spec_offset(local.eye_position, p);
    spec_par(local.view_dir, u) > 0 && spec_fov_milli_tan(local, p) < spec_fov_limit(fov_deg)
}

/// A zero field-of-view limit admits no candidate at all.
pub proof fn lemma_zero_fov_excludes_all(local: LocalPlayer, p: WorldVec)
    ensures
        !spec_in_fov(local, p, 0),
{
    let u = spec_offset(local.eye_position, p);
    if spec_par(local.view_dir, u) > 0 {
        let c = spec_cross_sq(local.view_dir, u);
        let root = spec_sqrt_floor(c as nat) as int;
        assert(root * 1000 >= 0) by (nonlinear_arith)
            requires
                root >= 0,
        {}
        crate::vecmath::lemma_div_trunc_nonneg(root * 1000, spec_par(local.view_dir, u));
    }
}

/// Parallel and perpendicular parts of the eye-to-point offset against
/// the view direction: `(par, perp)` with `perp` the floor square root
/// of the cross-product magnitude.
fn fov_parts(local: &LocalPlayer, p: WorldVec) -> (r: (i128, u64))
    requires
        local.wf(),
        aim_point_ok(p),
    ensures
        r.0 == spec_par(local.view_dir, spec_offset(local.eye_position, p)),
        r.1 == spec_sqrt_floor(
            spec_cross_sq(local.view_dir, spec_offset(local.eye_position, p)) as nat,
        ),
        -90_000_000_000_000 <= r.0 <= 90_000_000_000_000,
        r.1 <= 200_000_000_000_000,
{
    let d = local.view_dir;
    let ux = p.x - local.eye_position.x;
    let uy = p.y - local.eye_position.y;
    let uz = p.z - local.eye_position.z;
    let px = wide_mul(d.x, ux);
    let py = wide_mul(d.y, uy);
    let pz = wide_mul(d.z, uz);
    proof {
        lemma_mul_bound2(d.x as int, ux as int, VIEW_DIR_LIMIT as int, 3_000_000_000);
        lemma_mul_bound2(d.y as int, uy as int, VIEW_DIR_LIMIT as int, 3_000_000_000);
        lemma_mul_bound2(d.z as int, uz as int, VIEW_DIR_LIMIT as int, 3_000_000_000);
    }
    let par: i128 = px + py + pz;
    let qyz = wide_mul(d.y, uz);
    let qzy = wide_mul(d.z, uy);
    let qzx = wide_mul(d.z, ux);
    let qxz = wide_mul(d.x, uz);
    let qxy = wide_mul(d.x, uy);
    let qyx = wide_mul(d.y, ux);
    proof {
        lemma_mul_bound2(d.y as int, uz as int, VIEW_DIR_LIMIT as int, 3_000_000_000);
        lemma_mul_bound2(d.z as int, uy as int, VIEW_DIR_LIMIT as int, 3_000_000_000);
        lemma_mul_bound2(d.z as int, ux as int, VIEW_DIR_LIMIT as int, 3_000_000_000);
        lemma_mul_bound2(d.x as int, uz as int, VIEW_DIR_LIMIT as int, 3_000_000_000);
        lemma_mul_bound2(d.x as int, uy as int, VIEW_DIR_LIMIT as int, 3_000_000_000);
        lemma_mul_bound2(d.y as int, ux as int, VIEW_DIR_LIMIT as int, 3_000_000_000);
    }
    let cx: i128 = qyz - qzy;
    let cy: i128 = qzx - qxz;
    let cz: i128 = qxy - qyx;
    let sx = square_i128(cx);
    let sy = square_i128(cy);
    let sz = square_i128(cz);
    let cross_sq: i128 = sx + sy + sz;
    let perp = isqrt(cross_sq as u128);
    proof {
        let n = cross_sq as nat;
        crate::vecmath::lemma_sqrt_floor_bounds(n);
        if spec_sqrt_floor(n) > 200_000_000_000_000 {
            assert(spec_sqrt_floor(n) * spec_sqrt_floor(n) > 40_000_000_000_000_000_000_000_000_000)
                by (nonlinear_arith)
                requires
                    spec_sqrt_floor(n) > 200_000_000_000_000,
            {}
        }
    }
    (par, perp)
}

/// The square of a bounded wide value.
fn square_i128(v: i128) -> (r: i128)
    requires
        -80_000_000_000_000 <= v <= 80_000_000_000_000,
    ensures
        r == v * v,
        0 <= r <= 6_400_000_000_000_000_000_000_000_000,
{
    proof {
        assert(0 <= (v as int) * (v as int) <= 6_400_000_000_000_000_000_000_000_000)
            by (nonlinear_arith)
            requires
                -80_000_000_000_000 <= v <= 80_000_000_000_000,
        {}
    }
    v * v
}

/// Angular deviation in milli-tangents, or `None` when the point is
/// not strictly in front of the eye.
pub fn fov_milli_tan(local: &LocalPlayer, p: WorldVec) -> (r: Option<i64>)
    requires
        local.wf(),
        aim_point_ok(p),
    ensures
        ({
            let u = spec_offset(local.eye_position, p);
            &&& (r is Some <==> spec_par(local.view_dir, u) > 0)
            &&& (r matches Some(v) ==> v == spec_fov_milli_tan(*local, p) && v >= 0)
        }),
{
    let (par, perp) = fov_parts(local, p);
    if par <= 0 {
        return None;
    }
    let scaled = (perp as i128) * 1000;
    proof {
        crate::vecmath::lemma_div_trunc_nonneg(scaled as int, par as int);
    }
    let q = div_trunc_i128(scaled, par);
    Some(q as i64)
}

/// The bone resolution order of a target zone, most preferred first.
pub open spec fn spec_zone_parts(zone: TargetZone) -> Seq<BodyPart> {
    match zone {
        TargetZone::Head => seq![BodyPart::Head, BodyPart::Neck],
        TargetZone::Chest => seq![BodyPart::UpperSpine, BodyPart::MiddleSpine],
        TargetZone::Pelvis => seq![BodyPart::Pelvis, BodyPart::LowerSpine],
    }
}

/// The hitbox a body part counts as for scoring.
pub open spec fn spec_hitbox_of(part: BodyPart) -> Hitbox {
    match part {
        BodyPart::Head => Hitbox::Head,
        BodyPart::Neck => Hitbox::Neck,
        BodyPart::UpperSpine => Hitbox::UpperChest,
        BodyPart::MiddleSpine => Hitbox::Chest,
        BodyPart::LowerSpine => Hitbox::LowerChest,
        _ => Hitbox::Pelvis,
    }
}

/// The fixed vertical fallback offset of a zone, in milli-units, used
/// when no named bone of the zone resolves.
pub open spec fn spec_zone_fallback_z(zone: TargetZone) -> int {
    match zone {
        TargetZone::Head => 72_000,
        TargetZone::Chest => 48_000,
        TargetZone::Pelvis => 36_000,
    }
}

pub open spec fn spec_zone_fallback_hitbox(zone: TargetZone) -> Hitbox {
    match zone {
        TargetZone::Head => Hitbox::Head,
        TargetZone::Chest => Hitbox::Chest,
        TargetZone::Pelvis => Hitbox::Pelvis,
    }
}

/// The character sequences of a snapshot's bone names.
pub open spec fn spec_bone_names(bs: Seq<Bone>) -> Seq<Seq<char>> {
    bs.map(|i: int, b: Bone| b.name@)
}

/// Aim-point resolution over the zone's body parts in priority order;
/// the fixed vertical offset from the entity base if none resolves.
pub open spec fn spec_aim_point(e: &EntitySnapshot, zone: TargetZone, map: &BoneMap) -> (
    WorldVec,
    Hitbox,
)
    decreases spec_zone_parts(zone).len(),
{
    spec_aim_point_rec(e, spec_zone_parts(zone), zone, map)
}

pub open spec fn spec_aim_point_rec(
    e: &EntitySnapshot,
    parts: Seq<BodyPart>,
    zone: TargetZone,
    map: &BoneMap,
) -> (WorldVec, Hitbox)
    decreases parts.len(),
{
    if parts.len() == 0 {
        (
            WorldVec {
                x: e.position.x,
                y: e.position.y,
                z: (e.position.z + spec_zone_fallback_z(zone)) as i64,
            },
            spec_zone_fallback_hitbox(zone),
        )
    } else {
        match spec_resolve(map.spec_names(parts.first()), spec_bone_names(e.bones@)) {
            Some(i) => if 0 <= i < e.bones@.len() {
                (e.bones@[i].position, spec_hitbox_of(parts.first()))
            } else {
                spec_aim_point_rec(e, parts.drop_first(), zone, map)
            },
            None => spec_aim_point_rec(e, parts.drop_first(), zone, map),
        }
    }
}

/// Resolves the aim point of one snapshot.
pub fn resolve_aim_point(e: &EntitySnapshot, zone: TargetZone, map: &BoneMap) -> (r: (
    WorldVec,
    Hitbox,
))
    requires
        e.wf(),
        map.wf(),
    ensures
        r == spec_aim_point(e, zone, map),
        aim_point_ok(r.0),
{
    let mut names: Vec<String> = Vec::new();
    let mut i: usize = 0;
    while i < e.bones.len()
        invariant
            i <= e.bones@.len(),
            crate::bones::names_view(names@) =~= spec_bone_names(e.bones@).subrange(0, i as int),
        decreases e.bones@.len() - i,
    {
        let ghost prev = names@;
        names.push(e.bones[i].name.clone());
        proof {
            assert(crate::bones::names_view(names@) =~= crate::bones::names_view(prev).push(
                e.bones@[i as int].name@,
            ));
            assert(spec_bone_names(e.bones@).subrange(0, i + 1) =~= spec_bone_names(
                e.bones@,
            ).subrange(0, i as int).push(e.bones@[i as int].name@));
        }
        i = i + 1;
    }
    proof {
        assert(crate::bones::names_view(names@) =~= spec_bone_names(e.bones@));
    }
    let parts: (BodyPart, BodyPart) = match zone {
        TargetZone::Head => (BodyPart::Head, BodyPart::Neck),
        TargetZone::Chest => (BodyPart::UpperSpine, BodyPart::MiddleSpine),
        TargetZone::Pelvis => (BodyPart::Pelvis, BodyPart::LowerSpine),
    };
    let ghost pseq = spec_zone_parts(zone);
    proof {
        assert(pseq.len() == 2 && pseq[0] == parts.0 && pseq[1] == parts.1);
        assert(pseq.drop_first() =~= seq![parts.1]);
        assert(pseq.drop_first().drop_first() =~= Seq::<BodyPart>::empty());
    }
    match map.find_bone_index(parts.0, names.as_slice()) {
        Some(bi) => {
            proof {
                assert(spec_resolve(map.spec_names(parts.0), spec_bone_names(e.bones@)) == Some(
                    bi as int,
                ));
                assert(spec_aim_point(e, zone, map) == (
                    e.bones@[bi as int].position,
                    spec_hitbox_of(parts.0),
                ));
            }
            return (e.bones[bi].position, hitbox_of(parts.0));
        },
        None => {
            proof {
                assert(spec_resolve(map.spec_names(parts.0), spec_bone_names(e.bones@)) is None);
            }
        },
    }
    match map.find_bone_index(parts.1, names.as_slice()) {
        Some(bi) => {
            proof {
                assert(spec_resolve(map.spec_names(parts.1), spec_bone_names(e.bones@)) == Some(
                    bi as int,
                ));
                assert(spec_aim_point_rec(e, pseq.drop_first(), zone, map) == (
                    e.bones@[bi as int].position,
                    spec_hitbox_of(parts.1),
                ));
            }
            return (e.bones[bi].position, hitbox_of(parts.1));
        },
        None => {
            proof {
                assert(spec_resolve(map.spec_names(parts.1), spec_bone_names(e.bones@)) is None);
                assert(spec_aim_point(e, zone, map) == spec_aim_point_rec(
                    e,
                    pseq.drop_first(),
                    zone,
                    map,
                ));
                assert(spec_aim_point_rec(e, pseq.drop_first(), zone, map) == spec_aim_point_rec(
                    e,
                    pseq.drop_first().drop_first(),
                    zone,
                    map,
                ));
                assert(spec_aim_point_rec(e, pseq.drop_first().drop_first(), zone, map)
                    == spec_aim_point_rec(e, Seq::<BodyPart>::empty(), zone, map));
            }
        },
    }
    let fallback_z: i64 = match zone {
        TargetZone::Head => 72_000,
        TargetZone::Chest => 48_000,
        TargetZone::Pelvis => 36_000,
    };
    let hb = match zone {
        TargetZone::Head => Hitbox::Head,
        TargetZone::Chest => Hitbox::Chest,
        TargetZone::Pelvis => Hitbox::Pelvis,
    };
    (
        WorldVec { x: e.position.x, y: e.position.y, z: e.position.z + fallback_z },
        hb,
    )
}

/// The hitbox a body part counts as for scoring.
fn hitbox_of(part: BodyPart) -> (r: Hitbox)
    ensures
        r == spec_hitbox_of(part),
{
    match part {
        BodyPart::Head => Hitbox::Head,
        BodyPart::Neck => Hitbox::Neck,
        BodyPart::UpperSpine => Hitbox::UpperChest,
        BodyPart::MiddleSpine => Hitbox::Chest,
        BodyPart::LowerSpine => Hitbox::LowerChest,
        _ => Hitbox::Pelvis,
    }
}

/// Seconds since a candidate was last seen, capped so the penalty term
/// stays bounded.
pub open spec fn spec_seconds_since(now: int, last_seen: int) -> int {
    let s = (now - last_seen) / 1000;
    if s > 1_000_000 {
        1_000_000
    } else {
        s
    }
}

/// The multi-criteria score of a passing candidate: proximity to the
/// view ray and to the eye, low health, hitbox priority and visibility
/// raise it; time out of sight lowers it.
pub open spec fn spec_score(
    cfg: &AimbotConfig,
    fovd: int,
    dist: int,
    health: int,
    hb_prio: int,
    visible: bool,
    now: int,
    last_seen: int,
) -> int {
    cfg.fov_weight * (spec_fov_limit(cfg.fov as int) - fovd) + cfg.distance_weight * (
    cfg.max_distance - dist) + cfg.health_weight * (100 - health) + cfg.hitbox_weight * hb_prio + (
    if visible {
        cfg.visibility_bonus as int
    } else {
        0
    }) - cfg.time_penalty * spec_seconds_since(now, last_seen)
}

/// Whether a snapshot passes the validity filter: alive, positive
/// health, an enemy when team checking is on, within range, inside the
/// field of view, and visible when visibility is required.
pub open spec fn spec_passes(
    e: &EntitySnapshot,
    local: &LocalPlayer,
    cfg: &AimbotConfig,
    map: &BoneMap,
    now: int,
) -> bool {
    let ap = spec_aim_point(e, cfg.target_zone, map).0;
    &&& e.alive
    &&& e.health > 0
    &&& (cfg.team_check ==> e.team != local.team)
    &&& crate::vecmath::spec_dist(ap, local.eye_position) <= cfg.max_distance
    &&& spec_in_fov(*local, ap, cfg.fov as int)
    &&& (cfg.visible_only ==> e.visible)
}

/// The candidate a passing snapshot yields.
pub open spec fn spec_candidate(
    e: &EntitySnapshot,
    local: &LocalPlayer,
    cfg: &AimbotConfig,
    map: &BoneMap,
    now: int,
) -> Candidate {
    let (ap, hb) = spec_aim_point(e, cfg.target_zone, map);
    let dist = crate::vecmath::spec_dist(ap, local.eye_position);
    let fovd = spec_fov_milli_tan(*local, ap);
    Candidate {
        id: e.id,
        aim_point: ap,
        distance: dist as u64,
        fov_milli_tan: fovd as i64,
        visible: e.visible,
        health: e.health,
        hitbox: hb,
        weapon: e.weapon,
        score: spec_score(
            cfg,
            fovd,
            dist,
            e.health as int,
            hb.spec_priority() as int,
            e.visible,
            now,
            e.last_seen as int,
        ) as i64,
    }
}

/// Filters and scores a snapshot.
pub fn build_candidate(
    e: &EntitySnapshot,
    local: &LocalPlayer,
    cfg: &AimbotConfig,
    map: &BoneMap,
    now: u64,
) -> (r: Option<Candidate>)
    requires
        e.wf(),
        local.wf(),
        cfg.valid(),
        map.wf(),
        e.last_seen <= now,
        now <= TIME_LIMIT,
    ensures
        r is Some <==> spec_passes(e, local, cfg, map, now as int),
        r matches Some(c) ==> c == spec_candidate(e, local, cfg, map, now as int),
{
    if !e.alive {
        return None;
    }
    if e.health <= 0 {
        return None;
    }
    if cfg.team_check && e.team == local.team {
        return None;
    }
    let (ap, hb) = resolve_aim_point(e, cfg.target_zone, map);
    let dist = crate::vecmath::dist(ap, local.eye_position);
    if dist > cfg.max_distance {
        return None;
    }
    let limit = fov_limit(cfg.fov);
    let fovd = match fov_milli_tan(local, ap) {
        None => {
            return None;
        },
        Some(v) => v,
    };
    if fovd >= limit {
        return None;
    }
    if cfg.visible_only && !e.visible {
        return None;
    }
    let prio = hb.priority();
    let score = score_of(cfg, limit, fovd, dist, e.health, prio, e.visible, now, e.last_seen);
    Some(
        Candidate {
            id: e.id,
            aim_point: ap,
            distance: dist,
            fov_milli_tan: fovd,
            visible: e.visible,
            health: e.health,
            hitbox: hb,
            weapon: e.weapon,
            score,
        },
    )
}

/// Computes the score with exact fixed-point arithmetic.
#[verifier::rlimit(30)]
fn score_of(
    cfg: &AimbotConfig,
    limit: i64,
    fovd: i64,
    dist: u64,
    health: i64,
    hb_prio: u8,
    visible: bool,
    now: u64,
    last_seen: u64,
) -> (r: i64)
    requires
        cfg.valid(),
        limit == spec_fov_limit(cfg.fov as int),
        0 <= fovd < limit,
        dist <= cfg.max_distance,
        -HEALTH_LIMIT <= health <= HEALTH_LIMIT,
        hb_prio <= 8,
        last_seen <= now,
    ensures
        r == spec_score(
            cfg,
            fovd as int,
            dist as int,
            health as int,
            hb_prio as int,
            visible,
            now as int,
            last_seen as int,
        ),
{
    let t_fov = wide_mul(cfg.fov_weight, limit - fovd);
    let t_dist = wide_mul(cfg.distance_weight, (cfg.max_distance - dist) as i64);
    let t_health = wide_mul(cfg.health_weight, 100 - health);
    let t_hb = wide_mul(cfg.hitbox_weight, hb_prio as i64);
    let t_vis: i128 = if visible {
        cfg.visibility_bonus as i128
    } else {
        0
    };
    let since_raw = (now - last_seen) / 1000;
    let since = if since_raw > 1_000_000 {
        1_000_000
    } else {
        since_raw
    };
    let t_time = wide_mul(cfg.time_penalty, since as i64);
    proof {
        lemma_mul_bound2(cfg.fov_weight as int, limit - fovd, 1_000_000, 6_282);
        lemma_mul_bound2(
            cfg.distance_weight as int,
            cfg.max_distance - dist,
            1_000_000,
            8_000_000_000,
        );
        lemma_mul_bound2(cfg.health_weight as int, 100 - health, 1_000_000, 1_000_100);
        lemma_mul_bound2(cfg.hitbox_weight as int, hb_prio as int, 1_000_000, 8);
        lemma_mul_bound2(cfg.time_penalty as int, since as int, 1_000_000, 1_000_000);
        assert(spec_seconds_since(now as int, last_seen as int) == since as int);
    }
    let total: i128 = t_fov + t_dist + t_health + t_hb + t_vis - t_time;
    total as i64
}

/// Strict preference between candidates: higher score first, then the
/// smaller distance, then the smaller entity id.
pub open spec fn spec_better(a: Candidate, b: Candidate) -> bool {
    ||| a.score > b.score
    ||| (a.score == b.score && a.distance < b.distance)
    ||| (a.score == b.score && a.distance == b.distance && a.id < b.id)
}

/// The best candidate of a list; earlier entries win exact ties.
pub open spec fn spec_select(s: Seq<Candidate>) -> Option<Candidate>
    decreases s.len(),
{
    if s.len() == 0 {
        None
    } else {
        match spec_select(s.drop_first()) {
            None => Some(s.first()),
            Some(b) => if spec_better(b, s.first()) {
                Some(b)
            } else {
                Some(s.first())
            },
        }
    }
}

/// The selected candidate is a member of the list and no member is
/// strictly better than it.
pub proof fn lemma_select_is_max(s: Seq<Candidate>)
    ensures
        s.len() == 0 <==> spec_select(s) is None,
        spec_select(s) matches Some(r) ==> (exists|i: int| 0 <= i < s.len() && s[i] == r)
            && forall|i: int| 0 <= i < s.len() ==> !spec_better(#[trigger] s[i], r),
    decreases s.len(),
{
    if s.len() > 0 {
        lemma_select_is_max(s.drop_first());
        let r = spec_select(s)->Some_0;
        match spec_select(s.drop_first()) {
            None => {
                assert(s[0] == r);
            },
            Some(b) => {
                if spec_better(b, s.first()) {
                    let j = choose|j: int|
                        0 <= j < s.drop_first().len() && s.drop_first()[j] == b;
                    assert(s[j + 1] == b);
                } else {
                    assert(s[0] == r);
                }
                assert forall|i: int| 0 <= i < s.len() implies !spec_better(
                    #[trigger] s[i],
                    r,
                ) by {
                    if i > 0 {
                        assert(s[i] == s.drop_first()[i - 1]);
                        assert(!spec_better(s.drop_first()[i - 1], b));
                    }
                }
            },
        }
    }
}

/// The passing candidates of a snapshot list, in list order.
pub open spec fn spec_candidates(
    s: Seq<EntitySnapshot>,
    local: &LocalPlayer,
    cfg: &AimbotConfig,
    map: &BoneMap,
    now: int,
) -> Seq<Candidate>
    decreases s.len(),
{
    if s.len() == 0 {
        Seq::empty()
    } else {
        let rest = spec_candidates(s.drop_first(), local, cfg, map, now);
        if spec_passes(&s.first(), local, cfg, map, now) {
            seq![spec_candidate(&s.first(), local, cfg, map, now)] + rest
        } else {
            rest
        }
    }
}

/// The first candidate carrying an id, if any.
pub open spec fn spec_find_by_id(s: Seq<Candidate>, id: u32) -> Option<Candidate>
    decreases s.len(),
{
    if s.len() == 0 {
        None
    } else if s.first().id == id {
        Some(s.first())
    } else {
        spec_find_by_id(s.drop_first(), id)
    }
}

/// The evaluator's full result: a still-valid locked target is kept in
/// preference to any higher-scoring alternative; otherwise the best
/// passing candidate wins.
pub open spec fn spec_evaluate(
    s: Seq<EntitySnapshot>,
    local: &LocalPlayer,
    cfg: &AimbotConfig,
    map: &BoneMap,
    locked: Option<u32>,
    now: int,
) -> Option<Candidate> {
    let cands = spec_candidates(s, local, cfg, map, now);
    match locked {
        Some(id) => match spec_find_by_id(cands, id) {
            Some(c) => Some(c),
            None => spec_select(cands),
        },
        None => spec_select(cands),
    }
}

/// Every snapshot of a list is well formed and not seen in the future.
pub open spec fn snapshots_wf(s: Seq<EntitySnapshot>, now: int) -> bool {
    forall|i: int| 0 <= i < s.len() ==> (#[trigger] s[i]).wf() && s[i].last_seen <= now
}

/// Evaluates one tick's snapshot list: filters, scores, honors an
/// existing lock, and otherwise returns the best-scoring candidate
/// (ties to the smaller distance, then the smaller id).  A pure
/// function of its inputs: equal inputs give the equal choice.
pub fn evaluate(
    entities: &Vec<EntitySnapshot>,
    local: &LocalPlayer,
    cfg: &AimbotConfig,
    map: &BoneMap,
    locked: Option<u32>,
    now: u64,
) -> (r: Option<Candidate>)
    requires
        snapshots_wf(entities@, now as int),
        local.wf(),
        cfg.valid(),
        map.wf(),
        now <= TIME_LIMIT,
    ensures
        r == spec_evaluate(entities@, local, cfg, map, locked, now as int),
{
    let ghost all = entities@;
    let mut cands: Vec<Candidate> = Vec::new();
    proof {
        assert(all.skip(0) =~= all);
    }
    let mut i: usize = 0;
    while i < entities.len()
        invariant
            i <= all.len(),
            all == entities@,
            snapshots_wf(all, now as int),
            local.wf(),
            cfg.valid(),
            map.wf(),
            now <= TIME_LIMIT,
            spec_candidates(all, local, cfg, map, now as int) =~= cands@ + spec_candidates(
                all.skip(i as int),
                local,
                cfg,
                map,
                now as int,
            ),
        decreases all.len() - i,
    {
        proof {
            assert(all.skip(i as int).first() == all[i as int]);
            assert(all.skip(i as int).drop_first() =~= all.skip(i + 1));
        }
        let e = &entities[i];
        match build_candidate(e, local, cfg, map, now) {
            Some(c) => {
                cands.push(c);
            },
            None => {},
        }
        i = i + 1;
    }
    proof {
        assert(all.skip(i as int).len() == 0);
        assert(spec_candidates(all.skip(i as int), local, cfg, map, now as int) =~= Seq::<
            Candidate,
        >::empty());
        assert(cands@ =~= spec_candidates(all, local, cfg, map, now as int));
    }
    let ghost cseq = cands@;
    match locked {
        Some(id) => {
            let mut j: usize = 0;
            proof {
                assert(cseq.skip(0) =~= cseq);
            }
            while j < cands.len()
                invariant
                    j <= cseq.len(),
                    cseq == cands@,
                    cseq == spec_candidates(entities@, local, cfg, map, now as int),
                    locked == Some(id),
                    spec_find_by_id(cseq, id) == spec_find_by_id(cseq.skip(j as int), id),
                decreases cseq.len() - j,
            {
                proof {
                    assert(cseq.skip(j as int).first() == cseq[j as int]);
                    assert(cseq.skip(j as int).drop_first() =~= cseq.skip(j + 1));
                }
                if cands[j].id == id {
                    proof {
                        assert(spec_find_by_id(cseq, id) == Some(cseq[j as int]));
                    }
                    return Some(cands[j]);
                }
                j = j + 1;
            }
            proof {
                assert(cseq.skip(j as int).len() == 0);
            }
            select_best(&cands)
        },
        None => select_best(&cands),
    }
}

/// The best candidate of a list by `spec_better`, earlier entries
/// winning exact ties.
fn select_best(cands: &Vec<Candidate>) -> (r: Option<Candidate>)
    ensures
        r == spec_select(cands@),
{
    let ghost cseq = cands@;
    let mut best: Option<Candidate> = None;
    let mut i: usize = cands.len();
    proof {
        assert(cseq.skip(cands@.len() as int).len() == 0);
    }
    while i > 0
        invariant
            i <= cseq.len(),
            cseq == cands@,
            best == spec_select(cseq.skip(i as int)),
        decreases i,
    {
        i = i - 1;
        proof {
            assert(cseq.skip(i as int).first() == cseq[i as int]);
            assert(cseq.skip(i as int).drop_first() =~= cseq.skip(i + 1));
        }
        let c = cands[i];
        best = match best {
            None => Some(c),
            Some(b) => {
                if b.score > c.score || (b.score == c.score && b.distance < c.distance) || (
                b.score == c.score && b.distance == c.distance && b.id < c.id) {
                    Some(b)
                } else {
                    Some(c)
                }
            },
        };
    }
    proof {
        assert(cseq.skip(0) =~= cseq);
    }
    best
}

/// The evaluator is deterministic: two results obtained from the same
/// snapshot list, local state, configuration, bone map and lock are
/// the same candidate.
pub proof fn lemma_evaluate_deterministic(
    r1: Option<Candidate>,
    r2: Option<Candidate>,
    s: Seq<EntitySnapshot>,
    local: &LocalPlayer,
    cfg: &AimbotConfig,
    map: &BoneMap,
    locked: Option<u32>,
    now: int,
)
    requires
        r1 == spec_evaluate(s, local, cfg, map, locked, now),
        r2 == spec_evaluate(s, local, cfg, map, locked, now),
    ensures
        r1 == r2,
{
}

} // verus!
