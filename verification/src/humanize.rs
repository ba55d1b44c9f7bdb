//! The humanization layer.
//!
//! Timing, aim points and firing decisions are perturbed so the
//! pipeline's output does not look machine-perfect.  Every random
//! draw enters through a bounded wrapper; the deterministic part of
//! each perturbation is a pure function of the draw, stated exactly.

use vstd::prelude::*;

use crate::rng::random_in_range;
use crate::vecmath::{spec_div_trunc, wide_mul, ScreenVec};
use crate::planner::SCREEN_LIMIT;

verus! {

/// Largest admissible base delay, in milliseconds.
pub const DELAY_LIMIT_MS: u64 = 10_000_000;

/// Distance below which a target counts as close, in milli-units.
pub const CLOSE_RANGE_MILLI: u64 = 1_000_000;

/// The ceiling of the miss chance, per-mille: behavior never
/// degenerates into constant missing.
pub const MISS_CHANCE_CAP_MILLI: u32 = 150;

/// The mutable humanization record: timing ranges, chances, and the
/// fatigue and consistency factors the risk controller feeds back.
#[derive(Clone, Copy, Debug, PartialEq, Eq, Structural)]
pub struct HumanizationParameters {
    pub reaction_time_min_ms: u64,
    pub reaction_time_max_ms: u64,
    pub shot_duration_min_ms: u64,
    pub shot_duration_max_ms: u64,
    pub miss_chance_milli: u32,
    pub overshoot_chance_milli: u32,
    pub micro_movements: bool,
    /// Grows with session time and shots fired; 1000 is fresh, 2000 the cap.
    pub fatigue_milli: u32,
    /// Shrinks as hit streaks grow; smaller widens the timing spread.
    pub consistency_milli: u32,
}

impl HumanizationParameters {
    pub open spec fn wf(&self) -> bool {
        &&& self.reaction_time_min_ms <= DELAY_LIMIT_MS
        &&& self.reaction_time_max_ms <= DELAY_LIMIT_MS
        &&& self.shot_duration_min_ms <= DELAY_LIMIT_MS
        &&& self.shot_duration_max_ms <= DELAY_LIMIT_MS
        &&& self.miss_chance_milli <= 1000
        &&& self.overshoot_chance_milli <= 1000
        &&& 1000 <= self.fatigue_milli <= 2000
        &&& 600 <= self.consistency_milli <= 1000
    }

    /// Fresh-session parameters.
    pub fn new() -> (r: HumanizationParameters)
        ensures
            r.wf(),
            r.reaction_time_min_ms == 80 && r.reaction_time_max_ms == 200,
            r.shot_duration_min_ms == 50 && r.shot_duration_max_ms == 150,
            r.miss_chance_milli == 20,
            r.overshoot_chance_milli == 150,
            r.micro_movements,
            r.fatigue_milli == 1000,
            r.consistency_milli == 850,
    {
        HumanizationParameters {
            reaction_time_min_ms: 80,
            reaction_time_max_ms: 200,
            shot_duration_min_ms: 50,
            shot_duration_max_ms: 150,
            miss_chance_milli: 20,
            overshoot_chance_milli: 150,
            micro_movements: true,
            fatigue_milli: 1000,
            consistency_milli: 850,
        }
    }

    /// Accrues fatigue from session length and shots fired: one
    /// per-mille point per 36 seconds and per shot, capped at double.
    /// Monotone in both inputs.
    pub fn update_fatigue(&mut self, session_ms: u64, shot_count: u32)
        requires
            old(self).wf(),
        ensures
            final(self).wf(),
            final(self).fatigue_milli == spec_fatigue(session_ms as int, shot_count as int),
            *final(self) == (HumanizationParameters {
                fatigue_milli: final(self).fatigue_milli,
                ..*old(self)
            }),
    {
        let hours_part = session_ms / 36_000;
        let raw: u64 = 1000 + hours_part + (shot_count as u64);
        self.fatigue_milli = if raw > 2000 {
            2000
        } else {
            raw as u32
        };
    }

    /// Degrades consistency once a hit streak passes ten: ten
    /// per-mille points per extra hit, floored at 600.
    pub fn update_consistency(&mut self, consecutive_hits: u32)
        requires
            old(self).wf(),
        ensures
            final(self).wf(),
            final(self).consistency_milli == spec_consistency(consecutive_hits as int),
            *final(self) == (HumanizationParameters {
                consistency_milli: final(self).consistency_milli,
                ..*old(self)
            }),
    {
        if consecutive_hits > 10 {
            let drop = (consecutive_hits as u64 - 10) * 10;
            self.consistency_milli = if drop >= 250 {
                600
            } else {
                (850 - drop) as u32
            };
        } else {
            self.consistency_milli = 850;
        }
    }

    /// A humanized delay drawn uniformly from the fatigue- and
    /// consistency-adjusted range of `[base_min, base_max]`.  Whatever
    /// the draw, the result stays within the stated bounds.
    pub fn humanized_delay(&self, base_min_ms: u64, base_max_ms: u64) -> (r: u64)
        requires
            self.wf(),
            base_min_ms <= DELAY_LIMIT_MS,
            base_max_ms <= DELAY_LIMIT_MS,
        ensures
            spec_delay_bounds(
                base_min_ms as int,
                base_max_ms as int,
                self.fatigue_milli as int,
                self.consistency_milli as int,
            ).0 <= r <= spec_delay_bounds(
                base_min_ms as int,
                base_max_ms as int,
                self.fatigue_milli as int,
                self.consistency_milli as int,
            ).1,
    {
        let (lo, hi) = delay_bounds(
            base_min_ms,
            base_max_ms,
            self.fatigue_milli,
            self.consistency_milli,
        );
        if lo == hi {
            return lo;
        }
        let roll = random_in_range(lo as i64, hi as i64 + 1);
        roll as u64
    }

    /// The miss chance for one shot, per-mille: the base chance, plus
    /// ten per extra hit past a streak of five, halved at close range,
    /// scaled by fatigue (capped at 1.5) and clamped to the ceiling.
    pub fn miss_chance(&self, distance_milli: u64, consecutive_hits: u32) -> (r: u32)
        requires
            self.wf(),
        ensures
            r == spec_miss_chance(
                self.miss_chance_milli as int,
                self.fatigue_milli as int,
                distance_milli as int,
                consecutive_hits as int,
            ),
            r <= MISS_CHANCE_CAP_MILLI,
    {
        let streak_extra: u64 = if consecutive_hits > 5 {
            (consecutive_hits as u64 - 5) * 10
        } else {
            0
        };
        let mut chance: u64 = self.miss_chance_milli as u64 + if streak_extra > 1000 {
            1000
        } else {
            streak_extra
        };
        if distance_milli < CLOSE_RANGE_MILLI {
            chance = chance / 2;
        }
        let fat: u64 = if self.fatigue_milli > 1500 {
            1500
        } else {
            self.fatigue_milli as u64
        };
        proof {
            assert(chance * fat <= 3_000_000) by (nonlinear_arith)
                requires
                    0 <= chance <= 2000,
                    0 <= fat <= 1500,
            {}
        }
        chance = chance * fat / 1000;
        if chance > MISS_CHANCE_CAP_MILLI as u64 {
            MISS_CHANCE_CAP_MILLI
        } else {
            chance as u32
        }
    }

    /// Whether a given per-mille roll misses under the computed chance.
    pub fn should_miss_from(&self, roll_milli: u32, distance_milli: u64, consecutive_hits: u32)
        -> (r: bool)
        requires
            self.wf(),
        ensures
            r == (roll_milli < spec_miss_chance(
                self.miss_chance_milli as int,
                self.fatigue_milli as int,
                distance_milli as int,
                consecutive_hits as int,
            )),
    {
        roll_milli < self.miss_chance(distance_milli, consecutive_hits)
    }

    /// Draws this shot's miss decision.  Whatever the draw, a zero
    /// computed chance never misses, and the chance itself never
    /// exceeds the ceiling.
    pub fn should_miss(&self, distance_milli: u64, consecutive_hits: u32) -> (r: bool)
        requires
            self.wf(),
        ensures
            spec_miss_chance(
                self.miss_chance_milli as int,
                self.fatigue_milli as int,
                distance_milli as int,
                consecutive_hits as int,
            ) == 0 ==> !r,
    {
        let roll = random_in_range(0, 1000) as u32;
        self.should_miss_from(roll, distance_milli, consecutive_hits)
    }

    /// Perturbs an aim point: with the configured probability the
    /// point overshoots 2 to 8 percent past the target along the
    /// center-to-target ray, and close-range targets additionally get
    /// small zero-mean jitter.  The result always equals the exact
    /// perturbation formula applied to some in-range draws.
    pub fn humanize_point(&self, target: ScreenVec, distance_milli: u64, center: ScreenVec) -> (r:
        ScreenVec)
        requires
            self.wf(),
            -SCREEN_LIMIT <= target.x <= SCREEN_LIMIT,
            -SCREEN_LIMIT <= target.y <= SCREEN_LIMIT,
            -SCREEN_LIMIT <= center.x <= SCREEN_LIMIT,
            -SCREEN_LIMIT <= center.y <= SCREEN_LIMIT,
        ensures
            exists|oroll: int, factor: int, jx: int, jy: int|
                0 <= oroll < 1000 && 1020 <= factor <= 1080 && -500 <= jx <= 500 && -500 <= jy
                    <= 500 && r == spec_humanize_point(
                    *self,
                    target,
                    distance_milli as int,
                    center,
                    oroll,
                    factor,
                    jx,
                    jy,
                ),
            -400_000_000 <= r.x <= 400_000_000,
            -400_000_000 <= r.y <= 400_000_000,
    {
        let oroll = random_in_range(0, 1000);
        let factor = random_in_range(1020, 1081);
        let jx = random_in_range(-500, 501);
        let jy = random_in_range(-500, 501);
        let r = humanize_point_from(
            self,
            target,
            distance_milli,
            center,
            oroll as u32,
            factor as u32,
            jx,
            jy,
        );
        proof {
            assert(spec_humanize_point(
                *self,
                target,
                distance_milli as int,
                center,
                oroll as int,
                factor as int,
                jx as int,
                jy as int,
            ) == r);
        }
        r
    }
}

/// Fatigue from session time and shot count, per-mille, capped at 2000.
pub open spec fn spec_fatigue(session_ms: int, shot_count: int) -> int {
    let raw = 1000 + session_ms / 36_000 + shot_count;
    if raw > 2000 {
        2000
    } else {
        raw
    }
}

/// Fatigue never decreases in either of its inputs.
pub proof fn lemma_fatigue_monotone(s1: int, s2: int, c1: int, c2: int)
    requires
        0 <= s1 <= s2,
        0 <= c1 <= c2,
    ensures
        spec_fatigue(s1, c1) <= spec_fatigue(s2, c2),
{
    assert(s1 / 36_000 <= s2 / 36_000) by (nonlinear_arith)
        requires
            0 <= s1 <= s2,
    {}
}

/// Consistency after a hit streak, per-mille, floored at 600.
pub open spec fn spec_consistency(consecutive_hits: int) -> int {
    if consecutive_hits > 10 {
        let c = 850 - (consecutive_hits - 10) * 10;
        if c < 600 {
            600
        } else {
            c
        }
    } else {
        850
    }
}

/// The widening factor the consistency induces on the delay spread:
/// `1 + (1 - consistency) / 2`, never below one.
pub open spec fn spec_spread(consistency_milli: int) -> int {
    1000 + (1000 - consistency_milli) / 2
}

/// The humanized delay range for a base range: the low bound scaled by
/// fatigue, the high bound by fatigue and the consistency spread; a
/// crossed pair of bounds is self-corrected by swapping.
pub open spec fn spec_delay_bounds(
    base_min: int,
    base_max: int,
    fatigue_milli: int,
    consistency_milli: int,
) -> (int, int) {
    let lo = base_min * fatigue_milli / 1000;
    let hi = base_max * fatigue_milli * spec_spread(consistency_milli) / 1_000_000;
    if lo <= hi {
        (lo, hi)
    } else {
        (hi, lo)
    }
}

/// Computes the humanized delay range.
fn delay_bounds(base_min: u64, base_max: u64, fatigue_milli: u32, consistency_milli: u32) -> (r: (
    u64,
    u64,
))
    requires
        base_min <= DELAY_LIMIT_MS,
        base_max <= DELAY_LIMIT_MS,
        1000 <= fatigue_milli <= 2000,
        600 <= consistency_milli <= 1000,
    ensures
        (r.0 as int, r.1 as int) == spec_delay_bounds(
            base_min as int,
            base_max as int,
            fatigue_milli as int,
            consistency_milli as int,
        ),
        r.0 <= r.1 <= 100_000_000,
{
    proof {
        assert(base_min * (fatigue_milli as int) <= 20_000_000_000 && base_max * (
        fatigue_milli as int) <= 20_000_000_000) by (nonlinear_arith)
            requires
                0 <= base_min <= 10_000_000,
                0 <= base_max <= 10_000_000,
                0 <= fatigue_milli <= 2000,
        {}
    }
    let lo = base_min * (fatigue_milli as u64) / 1000;
    let spread = 1000 + (1000 - consistency_milli as u64) / 2;
    let hi_raw = base_max * (fatigue_milli as u64);
    proof {
        assert(hi_raw * spread <= 24_000_000_000_000) by (nonlinear_arith)
            requires
                0 <= hi_raw <= 20_000_000_000,
                0 <= spread <= 1200,
        {}
        assert(lo <= 20_000_000) by (nonlinear_arith)
            requires
                lo == base_min * (fatigue_milli as int) / 1000,
                0 <= base_min * (fatigue_milli as int) <= 20_000_000_000,
        {}
        assert(hi_raw * spread / 1_000_000 <= 24_000_000) by (nonlinear_arith)
            requires
                0 <= hi_raw * spread <= 24_000_000_000_000,
        {}
    }
    let hi = hi_raw * spread / 1_000_000;
    if lo <= hi {
        (lo, hi)
    } else {
        (hi, lo)
    }
}

/// Miss chance, per-mille: base plus streak surcharge, halved at close
/// range, scaled by capped fatigue, clamped to the ceiling.
pub open spec fn spec_miss_chance(
    base_milli: int,
    fatigue_milli: int,
    distance_milli: int,
    consecutive_hits: int,
) -> int {
    let extra = if consecutive_hits > 5 {
        let e = (consecutive_hits - 5) * 10;
        if e > 1000 {
            1000
        } else {
            e
        }
    } else {
        0
    };
    let near = if distance_milli < CLOSE_RANGE_MILLI {
        (base_milli + extra) / 2
    } else {
        base_milli + extra
    };
    let fat = if fatigue_milli > 1500 {
        1500
    } else {
        fatigue_milli
    };
    let scaled = near * fat / 1000;
    if scaled > MISS_CHANCE_CAP_MILLI {
        MISS_CHANCE_CAP_MILLI as int
    } else {
        scaled
    }
}

/// The exact perturbation a draw tuple induces: overshoot along the
/// center-to-target ray when the roll falls under the configured
/// chance, then jitter when close-range micro-movement is active.
pub open spec fn spec_humanize_point(
    params: HumanizationParameters,
    target: ScreenVec,
    distance_milli: int,
    center: ScreenVec,
    overshoot_roll: int,
    factor_milli: int,
    jx: int,
    jy: int,
) -> ScreenVec {
    let base = if overshoot_roll < params.overshoot_chance_milli {
        ScreenVec {
            x: (center.x + spec_div_trunc((target.x - center.x) * factor_milli, 1000)) as i64,
            y: (center.y + spec_div_trunc((target.y - center.y) * factor_milli, 1000)) as i64,
        }
    } else {
        target
    };
    if params.micro_movements && distance_milli < CLOSE_RANGE_MILLI {
        ScreenVec { x: (base.x + jx) as i64, y: (base.y + jy) as i64 }
    } else {
        base
    }
}

/// Applies the perturbation formula to explicit draws.
pub fn humanize_point_from(
    params: &HumanizationParameters,
    target: ScreenVec,
    distance_milli: u64,
    center: ScreenVec,
    overshoot_roll: u32,
    factor_milli: u32,
    jx: i64,
    jy: i64,
) -> (r: ScreenVec)
    requires
        params.wf(),
        -SCREEN_LIMIT <= target.x <= SCREEN_LIMIT,
        -SCREEN_LIMIT <= target.y <= SCREEN_LIMIT,
        -SCREEN_LIMIT <= center.x <= SCREEN_LIMIT,
        -SCREEN_LIMIT <= center.y <= SCREEN_LIMIT,
        1020 <= factor_milli <= 1080,
        -500 <= jx <= 500,
        -500 <= jy <= 500,
    ensures
        r == spec_humanize_point(
            *params,
            target,
            distance_milli as int,
            center,
            overshoot_roll as int,
            factor_milli as int,
            jx as int,
            jy as int,
        ),
        -400_000_000 <= r.x <= 400_000_000,
        -400_000_000 <= r.y <= 400_000_000,
{
    let base = if overshoot_roll < params.overshoot_chance_milli {
        let ox = overshoot_axis(center.x, target.x, factor_milli);
        let oy = overshoot_axis(center.y, target.y, factor_milli);
        ScreenVec { x: ox, y: oy }
    } else {
        target
    };
    if params.micro_movements && distance_milli < CLOSE_RANGE_MILLI {
        ScreenVec { x: base.x + jx, y: base.y + jy }
    } else {
        base
    }
}

/// One axis of the overshoot: `center + (target - center) * f / 1000`.
fn overshoot_axis(c: i64, t: i64, factor_milli: u32) -> (r: i64)
    requires
        -SCREEN_LIMIT <= c <= SCREEN_LIMIT,
        -SCREEN_LIMIT <= t <= SCREEN_LIMIT,
        1020 <= factor_milli <= 1080,
    ensures
        r == c + spec_div_trunc((t - c) * factor_milli, 1000),
        -316_000_000 <= r <= 316_000_000,
{
    let prod = wide_mul(t - c, factor_milli as i64);
    proof {
        crate::vecmath::lemma_mul_bound2(t - c, factor_milli as int, 200_000_000, 1080);
        crate::vecmath::lemma_div_trunc_scaled((t - c) * (factor_milli as int), 1000, 216_000_000);
    }
    let q = crate::vecmath::div_trunc_i128(prod, 1000) as i64;
    c + q
}

} // verus!
