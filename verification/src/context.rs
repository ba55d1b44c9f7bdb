//! The top-level pipeline context.
//!
//! One value owns every piece of mutable state — motion histories, the
//! engagement state, humanization parameters, the risk controller and
//! the movement planner — and is threaded through each tick call.  The
//! configuration is passed in fresh on every tick, never cached.
//!
//! Each tick consumes plain snapshot values and returns a plain
//! decision; projecting world points to the screen and delivering
//! device input stay outside.

use vstd::prelude::*;

use crate::bones::BoneMap;
use crate::config::AimbotConfig;
use crate::estimator::{
    spec_find_idx, spec_live, spec_predict_of, MotionEstimator, PREDICT_LIMIT_MS, TIME_LIMIT,
};
use crate::evaluator::{
    evaluate, snapshots_wf, spec_evaluate, Candidate, EntitySnapshot, LocalPlayer,
};
use crate::humanize::{spec_consistency, spec_fatigue, HumanizationParameters};
use crate::machine::{spec_action, spec_step, step, EngagementAction, EngagementState, TickInput};
use crate::planner::{
    clamp_delta, screen_in_bounds, spec_clamp_axis, spec_clamp_level, spec_dist2, spec_linf,
    SmoothController, CLAMP_MAX_MILLI, SNAP_MILLI,
};
use crate::risk::{
    apply_level_feedback, spec_level_miss_floor, spec_level_variation, spec_sat_add_u32,
    StealthManager,
};
use crate::rng::random_in_range;
use crate::vecmath::ScreenVec;
use crate::vecmath::WorldVec;
use crate::weapons::{calculate_optimal_prediction_time, spec_prediction_time_ms};

verus! {

/// The id of a resolved candidate, if any.
pub open spec fn spec_id_of(r: Option<Candidate>) -> Option<u32> {
    match r {
        Some(c) => Some(c.id),
        None => None,
    }
}

/// The machine input a tick builds from its resolved target and its
/// humanized draws.
pub open spec fn spec_tick_input(
    resolved_id: Option<u32>,
    auto_fire: bool,
    miss: bool,
    acquisition_delay: u64,
    shot_duration: u64,
    cooldown_duration: u64,
) -> TickInput {
    TickInput {
        enabled: true,
        resolved: resolved_id,
        auto_fire,
        miss,
        acquisition_delay,
        shot_duration,
        cooldown_duration,
    }
}

/// The extrapolation horizon a candidate earns: the projectile's
/// travel time over its (capped) distance, itself capped at the
/// estimator's supported horizon.
pub open spec fn spec_aim_horizon_ms(c: Candidate) -> int {
    let dist = if c.distance > 8_000_000_000 {
        8_000_000_000int
    } else {
        c.distance as int
    };
    let t0 = spec_prediction_time_ms(dist, c.weapon.spec_projectile_speed() as int);
    if t0 > PREDICT_LIMIT_MS {
        PREDICT_LIMIT_MS as int
    } else {
        t0
    }
}

/// Shots on one target within this window count toward its rate limit.
pub const TARGET_RATE_WINDOW_MS: u64 = 5_000;

/// Shot-history entries older than this are discarded.
pub const TARGET_HISTORY_RETENTION_MS: u64 = 30_000;

/// Most shots the rate limit allows on one target within its window.
pub const TARGET_RATE_LIMIT: u64 = 3;

/// How many recorded shots hit `id` within the rate window at `now`.
pub open spec fn spec_recent_target_shots(s: Seq<(u32, u64)>, id: u32, now: int) -> int
    decreases s.len(),
{
    if s.len() == 0 {
        0
    } else {
        (if s.first().0 == id && s.first().1 + TARGET_RATE_WINDOW_MS > now {
            1int
        } else {
            0
        }) + spec_recent_target_shots(s.drop_first(), id, now)
    }
}

/// Dropping entries past retention from the front of a time-ordered
/// history leaves every windowed count unchanged.
pub open spec fn spec_drop_old_shots(s: Seq<(u32, u64)>, now: int) -> Seq<(u32, u64)>
    decreases s.len(),
{
    if s.len() == 0 {
        s
    } else if s.first().1 + TARGET_HISTORY_RETENTION_MS > now {
        s
    } else {
        spec_drop_old_shots(s.drop_first(), now)
    }
}

pub proof fn lemma_drop_old_shots_count(s: Seq<(u32, u64)>, id: u32, now: int)
    ensures
        spec_recent_target_shots(spec_drop_old_shots(s, now), id, now) == spec_recent_target_shots(
            s,
            id,
            now,
        ),
    decreases s.len(),
{
    if s.len() > 0 && !(s.first().1 + TARGET_HISTORY_RETENTION_MS > now) {
        lemma_drop_old_shots_count(s.drop_first(), id, now);
    }
}

/// A shot history is time-ordered with nothing in the future.
pub open spec fn shot_history_wf(s: Seq<(u32, u64)>, now: int) -> bool {
    &&& forall|i: int, j: int|
        #![trigger s[i], s[j]]
        0 <= i < j < s.len() ==> s[i].1 <= s[j].1
    &&& forall|i: int| 0 <= i < s.len() ==> (#[trigger] s[i]).1 <= now
}

/// What one tick decided: the machine's next phase, the world point to
/// aim at (if any), and the fire edges to emit.
#[derive(Clone, Copy, Debug, PartialEq, Eq, Structural)]
pub struct TickDecision {
    pub state: EngagementState,
    pub aim_world: Option<WorldVec>,
    pub press_fire: bool,
    pub release_fire: bool,
    pub shot_completed: bool,
}

/// Rolling counters of the running engagement session.
#[derive(Clone, Copy, Debug, PartialEq, Eq, Structural)]
pub struct EngagementStatistics {
    pub total_shots: u32,
    pub total_hits: u32,
    pub headshots: u32,
    /// Hits per thousand shots.
    pub accuracy_milli: u64,
    pub consecutive_hits: u32,
    pub session_time_ms: u64,
    pub since_last_shot_ms: u64,
}

/// The whole pipeline's mutable state.
#[derive(Debug)]
pub struct RagnarekContext {
    pub estimator: MotionEstimator,
    pub engagement: EngagementState,
    pub humanization: HumanizationParameters,
    pub stealth: StealthManager,
    pub planner: SmoothController,
    pub bone_map: BoneMap,
    pub locked_target: Option<u32>,
    pub target_shot_history: Vec<(u32, u64)>,
    pub shots_fired: u32,
    pub consecutive_hits: u32,
    pub consecutive_headshots: u32,
    pub last_shot_time: u64,
    pub session_start: u64,
}

impl RagnarekContext {
    pub open spec fn wf(&self, now: int) -> bool {
        &&& self.estimator.wf()
        &&& self.engagement.wf(now as u64)
        &&& self.humanization.wf()
        &&& self.humanization.reaction_time_max_ms <= 1_000_000
        &&& self.stealth.wf(now)
        &&& self.planner.wf()
        &&& self.bone_map.wf()
        &&& (self.planner.current_curve matches Some(c) ==> c.start_time_ms <= now)
        &&& self.session_start <= now
        &&& self.last_shot_time <= now
        &&& shot_history_wf(self.target_shot_history@, now)
    }

    /// A fresh context at rest: idle machine, empty histories, stock
    /// humanization, safe risk level, no plan in flight.
    pub fn new(cfg: &AimbotConfig, now: u64) -> (r: RagnarekContext)
        requires
            now <= TIME_LIMIT,
        ensures
            r.wf(now as int),
            r.engagement == EngagementState::Idle,
            r.locked_target is None,
            r.estimator.contents().len() == 0,
            r.shots_fired == 0,
            r.consecutive_hits == 0,
            r.consecutive_headshots == 0,
            r.last_shot_time == now,
            r.session_start == now,
            r.target_shot_history@.len() == 0,
    {
        RagnarekContext {
            estimator: MotionEstimator::new(),
            engagement: EngagementState::Idle,
            humanization: HumanizationParameters::new(),
            stealth: StealthManager::new(now),
            planner: SmoothController::new(cfg.smoothing_type, cfg.smooth_factor_milli),
            bone_map: BoneMap::new(),
            locked_target: None,
            target_shot_history: Vec::new(),
            shots_fired: 0,
            consecutive_hits: 0,
            consecutive_headshots: 0,
            last_shot_time: now,
            session_start: now,
        }
    }

    /// Runs one tick of the decision pipeline.
    ///
    /// Disabling cancels everything at once: the machine drops to Idle,
    /// any in-flight plan is cleared, and nothing is aimed or fired.
    /// Missing local-player data holds the current state and skips the
    /// tick.  Otherwise every snapshot feeds the motion estimator,
    /// stale entities are swept out, the evaluator resolves the target
    /// (honoring the existing lock), shot suppression and the humanized
    /// miss draw gate firing, and the engagement machine advances by
    /// exactly one transition of its step function.  The aim point is
    /// the resolved candidate's, carried forward by the motion estimate
    /// over the projectile's travel time when prediction is on.
    pub fn tick(
        &mut self,
        cfg: &AimbotConfig,
        snapshots: &Vec<EntitySnapshot>,
        local: Option<&LocalPlayer>,
        enabled: bool,
        now: u64,
    ) -> (r: TickDecision)
        requires
            old(self).wf(now as int),
            cfg.valid(),
            snapshots_wf(snapshots@, now as int),
            (local matches Some(l) ==> l.wf()),
            now <= TIME_LIMIT,
        ensures
            final(self).wf(now as int),
            r.state == final(self).engagement,
            final(self).consecutive_hits == old(self).consecutive_hits,
            !enabled ==> r.state == EngagementState::Idle && final(self).planner.current_curve
                is None && final(self).planner.target_position is None && r.aim_world is None
                && !r.press_fire && !r.shot_completed && final(self).shots_fired == old(self).shots_fired && final(self).consecutive_headshots == old(self).consecutive_headshots,
            (enabled && local is None) ==> (r.state == old(self).engagement && r.aim_world
                is None && !r.press_fire && !r.release_fire && !r.shot_completed && final(self).shots_fired == old(self).shots_fired && final(self).consecutive_headshots == old(self).consecutive_headshots),
            // The machine advances by exactly one step for some
            // humanized draws.
            enabled ==> (local matches Some(l) ==> exists|miss: bool, sd: u64, cd: u64|
                {
                    r.state == #[trigger] spec_step(
                        old(self).engagement,
                        now,
                        spec_tick_input(
                            spec_id_of(
                                spec_evaluate(
                                    snapshots@,
                                    l,
                                    cfg,
                                    &old(self).bone_map,
                                    old(self).locked_target,
                                    now as int,
                                ),
                            ),
                            cfg.auto_shoot,
                            miss,
                            cfg.acquisition_delay as u64,
                            sd,
                            cd,
                        ),
                    ) && spec_action(old(self).engagement, r.state) == (EngagementAction {
                        aim_at: match r.state {
                            EngagementState::Tracking { target } => Some(target),
                            EngagementState::Shooting { target, .. } => Some(target),
                            _ => None,
                        },
                        press_fire: r.press_fire,
                        release_fire: r.release_fire,
                        shot_completed: r.shot_completed,
                    })
                }),
            // After the tick, the motion store holds only entities seen
            // within the eviction window.
            enabled && local is Some ==> forall|i: int|
                0 <= i < final(self).estimator.contents().len() ==> spec_live(
                    (#[trigger] final(self).estimator.contents()[i]).1,
                    now as int,
                ),
            // Shot bookkeeping: a completed shot bumps the counter,
            // stamps the shot clock, and advances or resets the
            // consecutive-headshot streak by the resolved hitbox.
            r.shot_completed ==> final(self).shots_fired == spec_sat_add_u32(
                old(self).shots_fired as int,
                1,
            ) && final(self).last_shot_time == now,
            !r.shot_completed ==> final(self).shots_fired == old(self).shots_fired && final(self).last_shot_time == old(self).last_shot_time,
            enabled ==> (local matches Some(l) ==> (r.shot_completed ==> final(self).consecutive_headshots == (match spec_evaluate(
                snapshots@,
                l,
                cfg,
                &old(self).bone_map,
                old(self).locked_target,
                now as int,
            ) {
                Some(c) => if c.hitbox is Head {
                    spec_sat_add_u32(old(self).consecutive_headshots as int, 1) as u32
                } else {
                    0u32
                },
                None => old(self).consecutive_headshots,
            }))),
            !r.shot_completed && !(old(self).engagement is Tracking) ==> final(self).consecutive_headshots == old(self).consecutive_headshots,
            old(self).engagement is Tracking ==> final(self).consecutive_headshots == old(self).consecutive_headshots || final(self).consecutive_headshots == 0,
            // Shot suppression: while tracking, a shot within the rate
            // limit never fires, and a shot fired past the
            // consecutive-headshot cap only fires because the streak
            // was just reset.
            (enabled && local is Some && old(self).engagement is Tracking && old(self).shots_fired
                > 0 && now - old(self).last_shot_time < cfg.min_shot_delay) ==> !(r.state
                is Shooting),
            (enabled && local is Some && old(self).engagement is Tracking && old(self).consecutive_headshots >= cfg.max_consecutive_headshots && r.state is Shooting)
                ==> final(self).consecutive_headshots == 0,
            // The aim point follows the resolved candidate: its stored
            // aim point, or the motion estimate extrapolated over the
            // projectile's travel time when prediction is on.
            enabled ==> (local matches Some(l) ==> {
                let resolved = spec_evaluate(
                    snapshots@,
                    l,
                    cfg,
                    &old(self).bone_map,
                    old(self).locked_target,
                    now as int,
                );
                &&& (r.aim_world is Some <==> ((r.state is Tracking || r.state is Shooting)
                    && resolved is Some))
                &&& (r.aim_world matches Some(w) ==> (resolved matches Some(c) ==> {
                    let idx = spec_find_idx(final(self).estimator.contents(), c.id);
                    if cfg.prediction_enabled && idx >= 0 && final(self).estimator.contents()[idx].1.len() >= 2 {
                        (w.x as int, w.y as int, w.z as int) == spec_predict_of(
                            final(self).estimator.contents()[idx].1,
                            spec_aim_horizon_ms(c),
                        )
                    } else {
                        w == c.aim_point
                    }
                }))
            }),
            // The lock mirrors the machine: held in the active phases only.
            final(self).locked_target == match final(self).engagement {
                EngagementState::Acquiring { target, .. } => Some(target),
                EngagementState::Tracking { target } => Some(target),
                EngagementState::Shooting { target, .. } => Some(target),
                _ => None::<u32>,
            },
    {
        if !enabled {
            self.engagement = EngagementState::Idle;
            self.planner.stop();
            self.locked_target = None;
            return TickDecision {
                state: EngagementState::Idle,
                aim_world: None,
                press_fire: false,
                release_fire: false,
                shot_completed: false,
            };
        }
        let l = match local {
            None => {
                self.locked_target = match self.engagement {
                    EngagementState::Acquiring { target, .. } => Some(target),
                    EngagementState::Tracking { target } => Some(target),
                    EngagementState::Shooting { target, .. } => Some(target),
                    _ => None,
                };
                return TickDecision {
                    state: self.engagement,
                    aim_world: None,
                    press_fire: false,
                    release_fire: false,
                    shot_completed: false,
                };
            },
            Some(l) => l,
        };
        // Feed every snapshot into the motion estimator.
        let mut i: usize = 0;
        while i < snapshots.len()
            invariant
                i <= snapshots@.len(),
                snapshots_wf(snapshots@, now as int),
                now <= TIME_LIMIT,
                self.estimator.wf(),
                self.engagement == old(self).engagement,
                self.engagement.wf(now),
                self.humanization == old(self).humanization,
                self.humanization.wf(),
                self.humanization.reaction_time_max_ms <= 1_000_000,
                self.stealth == old(self).stealth,
                self.stealth.wf(now as int),
                self.planner == old(self).planner,
                self.planner.wf(),
                self.bone_map == old(self).bone_map,
                self.bone_map.wf(),
                self.locked_target == old(self).locked_target,
                self.target_shot_history@ == old(self).target_shot_history@,
                shot_history_wf(self.target_shot_history@, now as int),
                self.shots_fired == old(self).shots_fired,
                self.consecutive_hits == old(self).consecutive_hits,
                self.consecutive_headshots == old(self).consecutive_headshots,
                self.last_shot_time == old(self).last_shot_time,
                self.last_shot_time <= now,
                self.session_start == old(self).session_start,
                self.session_start <= now,
                (self.planner.current_curve matches Some(cv) ==> cv.start_time_ms <= now),
            decreases snapshots@.len() - i,
        {
            let e = &snapshots[i];
            self.estimator.observe(e.id, e.position, now);
            i = i + 1;
        }
        // Sweep out entities not seen within the eviction window, so
        // the store stays bounded under a stream of distinct ids.
        self.estimator.sweep(now);
        // Discard per-target shot records past retention.
        let ghost swept = self.estimator;
        let ghost hist0 = self.target_shot_history@;
        while self.target_shot_history.len() > 0 && self.target_shot_history[0].1
            + TARGET_HISTORY_RETENTION_MS <= now
            invariant
                shot_history_wf(self.target_shot_history@, now as int),
                spec_drop_old_shots(hist0, now as int) == spec_drop_old_shots(
                    self.target_shot_history@,
                    now as int,
                ),
                now <= TIME_LIMIT,
                snapshots_wf(snapshots@, now as int),
                self.estimator == swept,
                self.estimator.wf(),
                forall|k: int|
                    0 <= k < self.estimator.contents().len() ==> spec_live(
                        (#[trigger] self.estimator.contents()[k]).1,
                        now as int,
                    ),
                self.engagement == old(self).engagement,
                self.engagement.wf(now),
                self.humanization == old(self).humanization,
                self.humanization.wf(),
                self.humanization.reaction_time_max_ms <= 1_000_000,
                self.stealth == old(self).stealth,
                self.stealth.wf(now as int),
                self.planner == old(self).planner,
                self.planner.wf(),
                self.bone_map == old(self).bone_map,
                self.bone_map.wf(),
                self.locked_target == old(self).locked_target,
                self.shots_fired == old(self).shots_fired,
                self.consecutive_hits == old(self).consecutive_hits,
                self.consecutive_headshots == old(self).consecutive_headshots,
                self.last_shot_time == old(self).last_shot_time,
                self.last_shot_time <= now,
                self.session_start == old(self).session_start,
                self.session_start <= now,
                (self.planner.current_curve matches Some(cv) ==> cv.start_time_ms <= now),
            decreases self.target_shot_history@.len(),
        {
            let ghost before = self.target_shot_history@;
            self.target_shot_history.remove(0);
            proof {
                assert(self.target_shot_history@ =~= before.drop_first());
                assert(shot_history_wf(before.drop_first(), now as int));
            }
        }
        proof {
            assert(spec_drop_old_shots(self.target_shot_history@, now as int)
                =~= self.target_shot_history@);
        }
        // Resolve this tick's target, honoring the existing lock.
        let resolved = evaluate(snapshots, l, cfg, &self.bone_map, self.locked_target, now);
        // Humanized decisions and shot suppression for this tick.
        let miss_draw = match &resolved {
            Some(c) => self.humanization.should_miss(c.distance, self.consecutive_hits),
            None => false,
        };
        let tracking_now = match self.engagement {
            EngagementState::Tracking { .. } => true,
            _ => false,
        };
        let mut suppress = false;
        if tracking_now {
            // Rate limit between shots.
            if self.shots_fired > 0 && now - self.last_shot_time < cfg.min_shot_delay {
                suppress = true;
            }
            // Consecutive-headshot cap, with a random streak reset.
            if self.consecutive_headshots >= cfg.max_consecutive_headshots {
                let roll = random_in_range(0, 1000);
                if roll < 300 {
                    self.consecutive_headshots = 0;
                } else {
                    suppress = true;
                }
            }
            // Cautious-profile suppression against the configured chance.
            if cfg.legit_mode {
                let roll2 = random_in_range(0, 1000) as u32;
                if roll2 < cfg.miss_chance_milli {
                    suppress = true;
                }
            }
            // Per-target rate limit: no more than a few recent shots on
            // the same target.
            match &resolved {
                Some(c) => {
                    if count_recent_shots(&self.target_shot_history, c.id, now)
                        > TARGET_RATE_LIMIT {
                        suppress = true;
                    }
                },
                None => {},
            }
        }
        let miss = miss_draw || suppress;
        let shot_duration = self.humanization.humanized_delay(
            self.humanization.shot_duration_min_ms,
            self.humanization.shot_duration_max_ms,
        );
        let cooldown = self.humanization.humanized_delay(50, 150);
        let input = TickInput {
            enabled: true,
            resolved: match &resolved {
                Some(c) => Some(c.id),
                None => None,
            },
            auto_fire: cfg.auto_shoot,
            miss,
            acquisition_delay: cfg.acquisition_delay as u64,
            shot_duration,
            cooldown_duration: cooldown,
        };
        let (next, action) = step(self.engagement, now, input);
        let ghost old_state = self.engagement;
        self.engagement = next;
        self.locked_target = match next {
            EngagementState::Acquiring { target, .. } => Some(target),
            EngagementState::Tracking { target } => Some(target),
            EngagementState::Shooting { target, .. } => Some(target),
            _ => None,
        };
        if action.shot_completed {
            self.shots_fired = if self.shots_fired == u32::MAX {
                u32::MAX
            } else {
                self.shots_fired + 1
            };
            self.last_shot_time = now;
            match &resolved {
                Some(c) => {
                    let ghost hist_before = self.target_shot_history@;
                    self.target_shot_history.push((c.id, now));
                    proof {
                        let h = self.target_shot_history@;
                        assert forall|a: int, b: int|
                            #![trigger h[a], h[b]]
                            0 <= a < b < h.len() implies h[a].1 <= h[b].1 by {
                            if b < h.len() - 1 {
                                assert(hist_before[a].1 <= hist_before[b].1);
                            } else {
                                assert(h[a] == hist_before[a]);
                            }
                        }
                    }
                    let is_head = match c.hitbox {
                        crate::bones::Hitbox::Head => true,
                        _ => false,
                    };
                    if is_head {
                        self.consecutive_headshots = if self.consecutive_headshots == u32::MAX {
                            u32::MAX
                        } else {
                            self.consecutive_headshots + 1
                        };
                    } else {
                        self.consecutive_headshots = 0;
                    }
                },
                None => {},
            }
        }
        // The aim point: the resolved candidate's aim point, carried
        // forward by the motion estimate over the projectile's travel
        // time when prediction is on.
        let aim_world = match (&action.aim_at, &resolved) {
            (Some(_t), Some(c)) => {
                if cfg.prediction_enabled {
                    let dt = calculate_optimal_prediction_time(
                        if c.distance > 8_000_000_000 {
                            8_000_000_000
                        } else {
                            c.distance
                        },
                        c.weapon,
                    );
                    let capped = if dt > PREDICT_LIMIT_MS {
                        PREDICT_LIMIT_MS
                    } else {
                        dt
                    };
                    match self.estimator.predict(c.id, capped) {
                        Some(p) => Some(p),
                        None => Some(c.aim_point),
                    }
                } else {
                    Some(c.aim_point)
                }
            },
            _ => None,
        };
        proof {
            let resolved_spec = spec_evaluate(
                snapshots@,
                local->Some_0,
                cfg,
                &old(self).bone_map,
                old(self).locked_target,
                now as int,
            );
            let input_spec = spec_tick_input(
                spec_id_of(resolved_spec),
                cfg.auto_shoot,
                miss,
                cfg.acquisition_delay as u64,
                shot_duration,
                cooldown,
            );
            assert(input == input_spec);
            assert(next == spec_step(old(self).engagement, now, input_spec));
        }
        TickDecision {
            state: next,
            aim_world,
            press_fire: action.press_fire,
            release_fire: action.release_fire,
            shot_completed: action.shot_completed,
        }
    }

    /// Plans and clamps one pointer movement toward a projected target.
    /// The caller supplies the current pointer position and the
    /// projected, already-humanized screen target.  Whenever a plan is
    /// in flight — or the travel is long enough to start one — a delta
    /// comes back: the planner's next position relative to `current`,
    /// cut to the per-axis clamp.
    pub fn plan_move(&mut self, current: ScreenVec, target: ScreenVec, now: u64) -> (r: Option<
        ScreenVec,
    >)
        requires
            old(self).wf(now as int),
            screen_in_bounds(current),
            screen_in_bounds(target),
            now <= TIME_LIMIT,
        ensures
            final(self).wf(now as int),
            final(self).engagement == old(self).engagement,
            final(self).locked_target == old(self).locked_target,
            final(self).shots_fired == old(self).shots_fired,
            final(self).consecutive_hits == old(self).consecutive_hits,
            final(self).consecutive_headshots == old(self).consecutive_headshots,
            // Success is owed whenever a plan exists or can be started.
            ({
                let pl = old(self).planner;
                let curve_mode = pl.smoothing_type is Bezier || pl.smoothing_type is Natural
                    || pl.smoothing_type is Humanized;
                &&& (curve_mode && pl.current_curve is Some ==> r is Some)
                &&& (!curve_mode && pl.target_position is Some ==> r is Some)
                &&& (!pl.spec_is_active() && spec_dist2(current, target) >= SNAP_MILLI ==> r
                    is Some)
            }),
            // The delta is exactly the clamp of (next planned position
            // minus the current pointer position).
            r matches Some(d) ==> ({
                let raw = ScreenVec {
                    x: (final(self).planner.current_position.x - current.x) as i64,
                    y: (final(self).planner.current_position.y - current.y) as i64,
                };
                &&& d.x == spec_clamp_axis(raw.x as int, spec_clamp_level(spec_linf(raw)))
                &&& d.y == spec_clamp_axis(raw.y as int, spec_clamp_level(spec_linf(raw)))
                &&& -CLAMP_MAX_MILLI <= d.x <= CLAMP_MAX_MILLI
                &&& -CLAMP_MAX_MILLI <= d.y <= CLAMP_MAX_MILLI
            }),
    {
        let active = self.planner.is_active();
        if !active {
            self.planner.move_to(current, target, now);
        }
        proof {
            if self.planner.current_curve is Some {
                assert(self.planner.current_curve->Some_0.start_time_ms <= now);
            }
        }
        let pos = self.planner.update(now);
        match pos {
            None => None,
            Some(p) => {
                let dx = p.x - current.x;
                let dy = p.y - current.y;
                Some(clamp_delta(ScreenVec { x: dx, y: dy }))
            },
        }
    }

    /// Records the outcome of one completed shot and feeds the risk
    /// signal back into the humanization parameters: statistics and
    /// their anomalies are recorded, fatigue accrues with session time
    /// and shots fired, consistency degrades with the hit streak, and a
    /// raised detection level only ever makes the parameters more
    /// cautious.
    pub fn record_shot_result(&mut self, hit: bool, headshot: bool, now: u64)
        requires
            old(self).wf(now as int),
            now <= TIME_LIMIT,
        ensures
            final(self).wf(now as int),
            final(self).engagement == old(self).engagement,
            final(self).shots_fired == old(self).shots_fired,
            // The hit streak advances or resets exactly.
            final(self).consecutive_hits == if hit {
                spec_sat_add_u32(old(self).consecutive_hits as int, 1) as u32
            } else {
                0u32
            },
            // The session statistics grow by exactly this shot.
            final(self).stealth.session_stats.total_shots == spec_sat_add_u32(
                old(self).stealth.session_stats.total_shots as int,
                1,
            ),
            final(self).stealth.session_stats.total_hits == spec_sat_add_u32(
                old(self).stealth.session_stats.total_hits as int,
                if hit {
                    1int
                } else {
                    0int
                },
            ),
            final(self).stealth.session_stats.headshots == spec_sat_add_u32(
                old(self).stealth.session_stats.headshots as int,
                if headshot {
                    1int
                } else {
                    0int
                },
            ),
            // Fatigue accrues from session time and shots fired.
            final(self).humanization.fatigue_milli as int == spec_fatigue(
                if now - old(self).session_start > 36_000_000_000 {
                    36_000_000_000int
                } else {
                    now - old(self).session_start
                },
                old(self).shots_fired as int,
            ),
            // Consistency degrades with the new streak.
            final(self).humanization.consistency_milli as int == spec_consistency(
                final(self).consecutive_hits as int,
            ),
            // Risk feedback: the miss chance is raised to the floor of
            // the re-derived detection level and the reaction window is
            // widened by its variation factor; neither ever shrinks.
            final(self).humanization.miss_chance_milli as int == (
            if old(self).humanization.miss_chance_milli as int >= spec_level_miss_floor(
                final(self).stealth.detection_level,
            ) {
                old(self).humanization.miss_chance_milli as int
            } else {
                spec_level_miss_floor(final(self).stealth.detection_level)
            }),
            final(self).humanization.reaction_time_max_ms as int == (
            if old(self).humanization.reaction_time_max_ms + old(self).humanization.reaction_time_max_ms * spec_level_variation(
                final(self).stealth.detection_level,
            ) / 1000 > 1_000_000 {
                1_000_000int
            } else {
                old(self).humanization.reaction_time_max_ms + old(self).humanization.reaction_time_max_ms * spec_level_variation(
                    final(self).stealth.detection_level,
                ) / 1000
            }),
            final(self).humanization.miss_chance_milli >= old(self).humanization.miss_chance_milli,
            final(self).humanization.reaction_time_max_ms >= old(self).humanization.reaction_time_max_ms,
    {
        if hit {
            self.consecutive_hits = if self.consecutive_hits == u32::MAX {
                u32::MAX
            } else {
                self.consecutive_hits + 1
            };
        } else {
            self.consecutive_hits = 0;
        }
        self.stealth.update_session_stats(
            1,
            if hit {
                1
            } else {
                0
            },
            if headshot {
                1
            } else {
                0
            },
            now,
        );
        let session_ms = now - self.session_start;
        let capped_session = if session_ms > 36_000_000_000 {
            36_000_000_000
        } else {
            session_ms
        };
        self.humanization.update_fatigue(capped_session, self.shots_fired);
        self.humanization.update_consistency(self.consecutive_hits);
        let level = self.stealth.analyze_detection_risk(now);
        let adjusted = apply_level_feedback(&self.humanization, level);
        self.humanization = adjusted;
    }

    /// The session's rolling performance counters.
    pub fn get_statistics(&self, now: u64) -> (r: EngagementStatistics)
        requires
            self.wf(now as int),
        ensures
            r.total_shots == self.stealth.session_stats.total_shots,
            r.total_hits == self.stealth.session_stats.total_hits,
            r.headshots == self.stealth.session_stats.headshots,
            r.accuracy_milli == (self.stealth.session_stats.total_hits as int) * 1000 / (
            if self.stealth.session_stats.total_shots > 0 {
                self.stealth.session_stats.total_shots as int
            } else {
                1int
            }),
            r.consecutive_hits == self.consecutive_hits,
            r.session_time_ms == now - self.session_start,
            r.since_last_shot_ms == now - self.last_shot_time,
    {
        let shots = self.stealth.session_stats.total_shots;
        let hits = self.stealth.session_stats.total_hits;
        let denom: u64 = if shots > 0 {
            shots as u64
        } else {
            1
        };
        EngagementStatistics {
            total_shots: shots,
            total_hits: hits,
            headshots: self.stealth.session_stats.headshots,
            accuracy_milli: (hits as u64) * 1000 / denom,
            consecutive_hits: self.consecutive_hits,
            session_time_ms: now - self.session_start,
            since_last_shot_ms: now - self.last_shot_time,
        }
    }

    /// Clears the session's statistics and streaks and restarts the
    /// session clock.
    pub fn reset_statistics(&mut self, now: u64)
        requires
            old(self).wf(now as int),
            now <= TIME_LIMIT,
        ensures
            final(self).wf(now as int),
            final(self).shots_fired == 0,
            final(self).consecutive_hits == 0,
            final(self).consecutive_headshots == 0,
            final(self).session_start == now,
            final(self).stealth.session_stats.total_shots == 0,
            final(self).stealth.anomaly_tracker.anomalies@.len() == 0,
            final(self).engagement == old(self).engagement,
    {
        self.shots_fired = 0;
        self.consecutive_hits = 0;
        self.consecutive_headshots = 0;
        self.session_start = now;
        self.stealth.reset_session_stats(now);
    }
}

/// How many recorded shots hit `id` within the rate window.
fn count_recent_shots(history: &Vec<(u32, u64)>, id: u32, now: u64) -> (r: u64)
    requires
        history@.len() <= u64::MAX,
        shot_history_wf(history@, now as int),
        now <= TIME_LIMIT,
    ensures
        r == spec_recent_target_shots(history@, id, now as int),
{
    let ghost all = history@;
    proof {
        assert(all.skip(0) =~= all);
    }
    let mut count: u64 = 0;
    let mut i: usize = 0;
    while i < history.len()
        invariant
            i <= all.len(),
            all == history@,
            all.len() <= u64::MAX,
            shot_history_wf(all, now as int),
            now <= TIME_LIMIT,
            count <= i,
            count + spec_recent_target_shots(all.skip(i as int), id, now as int)
                == spec_recent_target_shots(all, id, now as int),
        decreases all.len() - i,
    {
        proof {
            assert(all.skip(i as int).first() == all[i as int]);
            assert(all.skip(i as int).drop_first() =~= all.skip(i + 1));
            lemma_recent_shots_nonneg(all.skip(i + 1), id, now as int);
        }
        let e = &history[i];
        if e.0 == id && e.1 + TARGET_RATE_WINDOW_MS > now {
            count = count + 1;
        }
        i = i + 1;
    }
    proof {
        assert(all.skip(i as int).len() == 0);
    }
    count
}

/// The windowed shot count never goes negative.
proof fn lemma_recent_shots_nonneg(s: Seq<(u32, u64)>, id: u32, now: int)
    ensures
        spec_recent_target_shots(s, id, now) >= 0,
    decreases s.len(),
{
    if s.len() > 0 {
        lemma_recent_shots_nonneg(s.drop_first(), id, now);
    }
}

} // verus!
