//! Aimbot configuration.
//!
//! All tunables of the pipeline, read fresh each tick by the caller.
//! Fractional settings are fixed-point per-mille values (suffix
//! `_milli`, 1000 = 1.0); distances are milli-units; times are
//! milliseconds; the field of view is whole degrees.

use vstd::prelude::*;

use crate::machine::KeyToggleMode;
use crate::planner::SmoothingType;

verus! {

/// Largest admissible field of view, in degrees.
pub const FOV_DEG_LIMIT: u32 = 180;

/// Largest admissible targeting distance, in milli-units.
pub const DISTANCE_LIMIT: u64 = 8_000_000_000;

/// Largest admissible scoring weight, per-mille.
pub const WEIGHT_LIMIT: i64 = 1_000_000;

/// The preferred target zone, resolved to bones in priority order.
#[derive(Clone, Copy, Debug, PartialEq, Eq, Structural)]
pub enum TargetZone {
    Head,
    Chest,
    Pelvis,
}

/// Complete aimbot configuration.
#[derive(Clone, Debug)]
pub struct AimbotConfig {
    // Core settings.
    pub enabled: bool,
    pub toggle_mode: KeyToggleMode,
    // Targeting settings.
    pub fov: u32,
    pub max_distance: u64,
    pub visible_only: bool,
    pub team_check: bool,
    pub prefer_head: bool,
    pub target_zone: TargetZone,
    // Smoothing settings.
    pub smooth_enabled: bool,
    pub smooth_factor_milli: u64,
    pub smoothing_type: SmoothingType,
    pub max_smooth_speed: u64,
    // Prediction settings.
    pub prediction_enabled: bool,
    pub prediction_factor_milli: u64,
    // Auto-shooting settings.
    pub auto_shoot: bool,
    pub shot_delay: u32,
    pub shot_duration: u32,
    pub acquisition_delay: u32,
    // Target priority weights, per-mille.
    pub fov_weight: i64,
    pub distance_weight: i64,
    pub health_weight: i64,
    pub hitbox_weight: i64,
    pub visibility_bonus: i64,
    pub time_penalty: i64,
    // Humanization settings.
    pub humanization_enabled: bool,
    pub reaction_time_ms: u32,
    pub micro_corrections: bool,
    pub overshoot_chance_milli: u32,
    // Suppression settings.
    pub legit_mode: bool,
    pub miss_chance_milli: u32,
    pub min_shot_delay: u64,
    pub max_consecutive_headshots: u32,
    pub randomize_timing: bool,
    // Bone scan settings.
    pub bone_scan: bool,
    pub bone_scan_delay: u32,
}

impl AimbotConfig {
    /// Ranges every tunable must stay within for the pipeline's
    /// arithmetic to be exact.
    pub open spec fn valid(&self) -> bool {
        &&& self.fov <= FOV_DEG_LIMIT
        &&& self.max_distance <= DISTANCE_LIMIT
        &&& 0 <= self.fov_weight <= WEIGHT_LIMIT
        &&& 0 <= self.distance_weight <= WEIGHT_LIMIT
        &&& 0 <= self.health_weight <= WEIGHT_LIMIT
        &&& 0 <= self.hitbox_weight <= WEIGHT_LIMIT
        &&& 0 <= self.visibility_bonus <= WEIGHT_LIMIT
        &&& 0 <= self.time_penalty <= WEIGHT_LIMIT
        &&& 100 <= self.smooth_factor_milli <= 10_000
        &&& self.miss_chance_milli <= 1000
        &&& self.overshoot_chance_milli <= 1000
    }
}

impl Default for AimbotConfig {
    /// The stock configuration: conservative targeting, natural
    /// smoothing, humanization on, automatic fire off.
    fn default() -> (r: AimbotConfig)
        ensures
            r.valid(),
            !r.enabled,
            r.toggle_mode == KeyToggleMode::Hold,
            r.fov == 5 && r.max_distance == 5_000_000,
            r.visible_only && r.team_check && r.prefer_head,
            r.target_zone == TargetZone::Head,
            r.smooth_enabled && r.smooth_factor_milli == 2000,
            r.smoothing_type == SmoothingType::Natural,
            r.max_smooth_speed == 1_000_000,
            r.prediction_enabled && r.prediction_factor_milli == 1000,
            !r.auto_shoot,
            r.shot_delay == 50,
            r.shot_duration == 100,
            r.acquisition_delay == 100,
            r.fov_weight == 3000 && r.distance_weight == 1000 && r.health_weight == 500,
            r.hitbox_weight == 2000 && r.visibility_bonus == 5000 && r.time_penalty == 2000,
            r.humanization_enabled && r.reaction_time_ms == 100,
            r.micro_corrections,
            r.overshoot_chance_milli == 150,
            !r.legit_mode && r.miss_chance_milli == 20,
            r.min_shot_delay == 50,
            r.max_consecutive_headshots == 5,
            !r.randomize_timing,
            !r.bone_scan && r.bone_scan_delay == 10,
    {
        AimbotConfig {
            enabled: bool_false(),
            toggle_mode: default_toggle_mode(),
            fov: 5,
            max_distance: 5_000_000,
            visible_only: bool_true(),
            team_check: bool_true(),
            prefer_head: bool_true(),
            target_zone: TargetZone::Head,
            smooth_enabled: bool_true(),
            smooth_factor_milli: 2000,
            smoothing_type: default_smoothing_type(),
            max_smooth_speed: 1_000_000,
            prediction_enabled: bool_true(),
            prediction_factor_milli: 1000,
            auto_shoot: bool_false(),
            shot_delay: default_shot_delay(),
            shot_duration: default_shot_duration(),
            acquisition_delay: default_acquisition_delay(),
            fov_weight: 3000,
            distance_weight: 1000,
            health_weight: 500,
            hitbox_weight: 2000,
            visibility_bonus: 5000,
            time_penalty: 2000,
            humanization_enabled: bool_true(),
            reaction_time_ms: 100,
            micro_corrections: default_micro_corrections(),
            overshoot_chance_milli: 150,
            legit_mode: bool_false(),
            miss_chance_milli: 20,
            min_shot_delay: default_min_shot_delay(),
            max_consecutive_headshots: default_max_consecutive_headshots(),
            randomize_timing: bool_false(),
            bone_scan: bool_false(),
            bone_scan_delay: default_bone_scan_delay(),
        }
    }
}

// Stock values of the individual settings.

pub fn bool_false() -> (r: bool)
    ensures
        !r,
{
    false
}

pub fn bool_true() -> (r: bool)
    ensures
        r,
{
    true
}

pub fn default_toggle_mode() -> (r: KeyToggleMode)
    ensures
        r == KeyToggleMode::Hold,
{
    KeyToggleMode::Hold
}

pub fn default_smoothing_type() -> (r: SmoothingType)
    ensures
        r == SmoothingType::Natural,
{
    SmoothingType::Natural
}

pub fn default_shot_delay() -> (r: u32)
    ensures
        r == 50,
{
    50
}

pub fn default_shot_duration() -> (r: u32)
    ensures
        r == 100,
{
    100
}

pub fn default_acquisition_delay() -> (r: u32)
    ensures
        r == 100,
{
    100
}

pub fn default_micro_corrections() -> (r: bool)
    ensures
        r,
{
    true
}

pub fn default_min_shot_delay() -> (r: u64)
    ensures
        r == 50,
{
    50
}

pub fn default_max_consecutive_headshots() -> (r: u32)
    ensures
        r == 5,
{
    5
}

pub fn default_bone_scan_delay() -> (r: u32)
    ensures
        r == 10,
{
    10
}

pub fn default_resolver_type() -> (r: ResolverType)
    ensures
        r == ResolverType::Smart,
{
    ResolverType::Smart
}

pub fn default_stop_type() -> (r: AutoStopType)
    ensures
        r == AutoStopType::Full,
{
    AutoStopType::Full
}

/// Per-weapon overrides of the core settings.
#[derive(Clone, Copy, Debug, PartialEq, Eq, Structural)]
pub struct WeaponAimbotConfig {
    pub smooth_factor_milli: u64,
    pub fov: u32,
    pub prediction_enabled: bool,
    pub auto_shoot: bool,
    pub shot_delay: u32,
    pub prefer_head: bool,
}

impl Default for WeaponAimbotConfig {
    fn default() -> (r: WeaponAimbotConfig)
        ensures
            r.smooth_factor_milli == 2000 && r.fov == 5,
            r.prediction_enabled && !r.auto_shoot,
            r.shot_delay == 50 && r.prefer_head,
    {
        WeaponAimbotConfig {
            smooth_factor_milli: 2000,
            fov: 5,
            prediction_enabled: true,
            auto_shoot: false,
            shot_delay: 50,
            prefer_head: true,
        }
    }
}

/// How an angle resolver decides on a stored pose.
#[derive(Clone, Copy, Debug, PartialEq, Eq, Structural)]
pub enum ResolverType {
    Bruteforce,
    Smart,
    Adaptive,
}

/// How movement is stopped before a committed shot.
#[derive(Clone, Copy, Debug, PartialEq, Eq, Structural)]
pub enum AutoStopType {
    Full,
    Minimal,
    Early,
}

/// Extended settings for the advanced targeting features.
#[derive(Clone, Copy, Debug, PartialEq, Eq, Structural)]
pub struct AdvancedAimbotSettings {
    pub multi_point: bool,
    pub point_scale_milli: u32,
    pub backtrack: bool,
    pub backtrack_time_ms: u32,
    pub resolver: bool,
    pub resolver_type: ResolverType,
    pub hitchance_milli: u32,
    pub auto_scope: bool,
    pub auto_stop: bool,
    pub stop_type: AutoStopType,
}

impl Default for AdvancedAimbotSettings {
    fn default() -> (r: AdvancedAimbotSettings)
        ensures
            !r.multi_point && r.point_scale_milli == 700,
            !r.backtrack && r.backtrack_time_ms == 200,
            !r.resolver && r.resolver_type == ResolverType::Smart,
            r.hitchance_milli == 600,
            !r.auto_scope && !r.auto_stop && r.stop_type == AutoStopType::Full,
    {
        AdvancedAimbotSettings {
            multi_point: false,
            point_scale_milli: 700,
            backtrack: false,
            backtrack_time_ms: 200,
            resolver: false,
            resolver_type: default_resolver_type(),
            hitchance_milli: 600,
            auto_scope: false,
            auto_stop: false,
            stop_type: default_stop_type(),
        }
    }
}

/// A named bundle of core and advanced settings.
#[derive(Clone, Debug)]
pub struct AimbotProfile {
    pub name: String,
    pub config: AimbotConfig,
    pub advanced: AdvancedAimbotSettings,
    pub description: String,
}

impl AimbotProfile {
    /// Cautious settings: heavy smoothing, narrow field of view,
    /// humanization and random timing on.
    pub fn legit_profile() -> (r: AimbotProfile)
        ensures
            r.config.valid(),
            r.config.legit_mode,
            r.config.smooth_factor_milli == 5000,
            r.config.fov == 2,
            r.config.humanization_enabled,
            r.config.miss_chance_milli == 50,
            r.config.max_consecutive_headshots == 3,
            r.config.randomize_timing,
    {
        let mut config = AimbotConfig::default();
        config.legit_mode = true;
        config.smooth_factor_milli = 5000;
        config.fov = 2;
        config.humanization_enabled = true;
        config.miss_chance_milli = 50;
        config.max_consecutive_headshots = 3;
        config.randomize_timing = true;
        AimbotProfile {
            name: String::from_str("Legit"),
            config,
            advanced: AdvancedAimbotSettings::default(),
            description: String::from_str("Safe settings for matchmaking"),
        }
    }

    /// Aggressive settings: no smoothing to speak of, the widest field
    /// of view, automatic fire, every advanced feature on.
    pub fn rage_profile() -> (r: AimbotProfile)
        ensures
            r.config.valid(),
            !r.config.legit_mode,
            r.config.smooth_factor_milli == 1000,
            r.config.fov == 180,
            r.config.auto_shoot,
            r.advanced.multi_point && r.advanced.backtrack && r.advanced.resolver
                && r.advanced.auto_stop,
    {
        let mut config = AimbotConfig::default();
        config.legit_mode = false;
        config.smooth_factor_milli = 1000;
        config.fov = 180;
        config.auto_shoot = true;
        let mut advanced = AdvancedAimbotSettings::default();
        advanced.multi_point = true;
        advanced.backtrack = true;
        advanced.resolver = true;
        advanced.auto_stop = true;
        AimbotProfile {
            name: String::from_str("Rage"),
            config,
            advanced,
            description: String::from_str("Aggressive settings for HvH"),
        }
    }

    /// Middle ground: moderate smoothing and field of view, backtrack
    /// and auto-stop on, no automatic fire.
    pub fn semi_rage_profile() -> (r: AimbotProfile)
        ensures
            r.config.valid(),
            !r.config.legit_mode,
            r.config.smooth_factor_milli == 2500,
            r.config.fov == 8,
            !r.config.auto_shoot,
            r.config.humanization_enabled,
            r.config.miss_chance_milli == 20,
            r.advanced.backtrack && r.advanced.auto_stop,
    {
        let mut config = AimbotConfig::default();
        config.legit_mode = false;
        config.smooth_factor_milli = 2500;
        config.fov = 8;
        config.auto_shoot = false;
        config.humanization_enabled = true;
        config.miss_chance_milli = 20;
        let mut advanced = AdvancedAimbotSettings::default();
        advanced.backtrack = true;
        advanced.auto_stop = true;
        AimbotProfile {
            name: String::from_str("Semi-Rage"),
            config,
            advanced,
            description: String::from_str("Balanced settings for semi-rage play"),
        }
    }
}

} // verus!
