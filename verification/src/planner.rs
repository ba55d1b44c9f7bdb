//! Aim trajectory planning.
//!
//! A plan carries the pointer from a start point toward a goal point
//! over a bounded duration.  Curved modes evaluate an integer Bezier
//! curve by de Casteljau reduction at parametric time
//! `t = elapsed * 1000 / duration`; linear and exponential modes step
//! the current position toward the target each poll.  Every emitted
//! delta passes a scaled per-axis clamp.
//!
//! Units: screen coordinates in milli-pixels, time in milliseconds.

use vstd::prelude::*;

use crate::rng::random_in_range;
use crate::vecmath::{
    div_trunc_i128, isqrt, lemma_div_trunc_scaled, lemma_mul_bound2, spec_div_trunc,
    spec_sqrt_floor, wide_mul, ScreenVec,
};

verus! {

/// Largest admissible magnitude of a control-point coordinate.
pub const CPOINT_LIMIT: i64 = 1_000_000_000_000;

/// Largest admissible magnitude of a screen coordinate, in milli-pixels.
pub const SCREEN_LIMIT: i64 = 100_000_000;

/// Travel below this snaps directly to the goal: one milli-pixel short
/// of one pixel of movement deserves no curve.
pub const SNAP_MILLI: u64 = 1_000;

/// Shortest and longest admissible plan durations, in milliseconds.
pub const MIN_PLAN_MS: u64 = 10;

pub const MAX_PLAN_MS: u64 = 2_000;

/// The supported interpolation modes.
#[derive(Clone, Copy, Debug, PartialEq, Eq, Structural)]
pub enum SmoothingType {
    Linear,
    Exponential,
    Bezier,
    Natural,
    Humanized,
}

/// Integer interpolation between `a` and `b` at parameter `t` of 1000.
pub open spec fn spec_lerp(a: int, b: int, t: int) -> int {
    a + spec_div_trunc((b - a) * t, 1000)
}

/// One de Casteljau reduction round over point pairs.
pub open spec fn spec_dc_round(pts: Seq<(int, int)>, t: int) -> Seq<(int, int)> {
    Seq::new(
        (pts.len() - 1) as nat,
        |i: int| (spec_lerp(pts[i].0, pts[i + 1].0, t), spec_lerp(pts[i].1, pts[i + 1].1, t)),
    )
}

/// Full de Casteljau evaluation of a control polygon at `t` of 1000.
pub open spec fn spec_curve_at(pts: Seq<(int, int)>, t: int) -> (int, int)
    recommends
        pts.len() >= 1,
    decreases pts.len(),
{
    if pts.len() <= 1 {
        pts[0]
    } else {
        spec_curve_at(spec_dc_round(pts, t), t)
    }
}

/// The integer coordinates of a control-point list.
pub open spec fn pts_view(s: Seq<ScreenVec>) -> Seq<(int, int)> {
    s.map(|i: int, p: ScreenVec| (p.x as int, p.y as int))
}

/// A point lies near the straight segment from `a` to `b`: it is some
/// interpolation point of the segment displaced on each axis by at
/// most `m`.
pub open spec fn spec_displaced(a: (int, int), b: (int, int), t: int, ox: int, oy: int) -> (
    int,
    int,
) {
    (spec_lerp(a.0, b.0, t) + ox, spec_lerp(a.1, b.1, t) + oy)
}

pub open spec fn spec_near_segment(p: (int, int), a: (int, int), b: (int, int), m: int) -> bool {
    exists|t: int, ox: int, oy: int|
        0 <= t <= 1000 && -m <= ox <= m && -m <= oy <= m && p == #[trigger] spec_displaced(
            a,
            b,
            t,
            ox,
            oy,
        )
}

/// The sideways budget of a cubic curve's inner control points: eight
/// percent of the travel distance, up to one unit of rounding.
pub open spec fn spec_cubic_offset_bound(dist: int) -> int {
    spec_div_trunc(80_000 * dist, 1_000_000) + 1
}

/// Interpolation never leaves the segment between its endpoints.
pub proof fn lemma_lerp_between(a: int, b: int, t: int)
    requires
        0 <= t <= 1000,
    ensures
        a <= b ==> a <= spec_lerp(a, b, t) <= b,
        b <= a ==> b <= spec_lerp(a, b, t) <= a,
{
    let d = b - a;
    if d >= 0 {
        assert(d * t <= d * 1000) by (nonlinear_arith)
            requires
                0 <= t <= 1000,
                d >= 0,
        {}
        assert(0 <= d * t) by (nonlinear_arith)
            requires
                0 <= t,
                d >= 0,
        {}
        lemma_div_trunc_scaled(d * t, 1000, d);
    } else {
        assert(-((-d) * 1000) <= d * t <= 0) by (nonlinear_arith)
            requires
                0 <= t <= 1000,
                d < 0,
        {}
        lemma_div_trunc_scaled(d * t, 1000, -d);
    }
}

/// At the final parameter the interpolation lands exactly on `b`.
pub proof fn lemma_lerp_at_end(a: int, b: int)
    ensures
        spec_lerp(a, b, 1000) == b,
        spec_lerp(a, b, 0) == a,
{
    let d = b - a;
    if d >= 0 {
        assert((d * 1000) / 1000 == d) by (nonlinear_arith)
            requires
                d >= 0,
        {}
    } else {
        assert(((-d) * 1000) / 1000 == -d) by (nonlinear_arith)
            requires
                d < 0,
        {}
        assert(-(d * 1000) == (-d) * 1000) by (nonlinear_arith);
    }
    assert(spec_div_trunc(d * 0, 1000) == 0);
}

/// At the final parameter the whole curve lands exactly on the last
/// control point; at zero it sits on the first.
pub proof fn lemma_curve_endpoints(pts: Seq<(int, int)>)
    requires
        pts.len() >= 1,
    ensures
        spec_curve_at(pts, 1000) == pts.last(),
        spec_curve_at(pts, 0) == pts.first(),
    decreases pts.len(),
{
    if pts.len() > 1 {
        let r1 = spec_dc_round(pts, 1000);
        let r0 = spec_dc_round(pts, 0);
        assert forall|i: int| 0 <= i < r1.len() implies r1[i] == pts[i + 1] by {
            lemma_lerp_at_end(pts[i].0, pts[i + 1].0);
            lemma_lerp_at_end(pts[i].1, pts[i + 1].1);
        }
        assert(r1 =~= pts.drop_first());
        assert forall|i: int| 0 <= i < r0.len() implies r0[i] == pts[i] by {
            lemma_lerp_at_end(pts[i].0, pts[i + 1].0);
            lemma_lerp_at_end(pts[i].1, pts[i + 1].1);
        }
        assert(r0 =~= pts.drop_last());
        lemma_curve_endpoints(pts.drop_first());
        lemma_curve_endpoints(pts.drop_last());
        assert(pts.drop_first().last() == pts.last());
        assert(pts.drop_last().first() == pts.first());
    }
}

/// Coordinates of a control polygon stay within a magnitude bound.
pub open spec fn pts_bounded(pts: Seq<(int, int)>, m: int) -> bool {
    forall|i: int|
        0 <= i < pts.len() ==> -m <= (#[trigger] pts[i]).0 <= m && -m <= pts[i].1 <= m
}

/// A reduction round keeps the polygon inside its coordinate bound.
pub proof fn lemma_dc_round_bounded(pts: Seq<(int, int)>, t: int, m: int)
    requires
        pts.len() >= 1,
        0 <= t <= 1000,
        pts_bounded(pts, m),
    ensures
        pts_bounded(spec_dc_round(pts, t), m),
{
    let r = spec_dc_round(pts, t);
    assert forall|i: int| 0 <= i < r.len() implies -m <= (#[trigger] r[i]).0 <= m && -m <= r[i].1
        <= m by {
        assert(r[i] == (
            spec_lerp(pts[i].0, pts[i + 1].0, t),
            spec_lerp(pts[i].1, pts[i + 1].1, t),
        ));
        assert(-m <= pts[i].0 <= m && -m <= pts[i].1 <= m);
        assert(-m <= pts[i + 1].0 <= m && -m <= pts[i + 1].1 <= m);
        lemma_lerp_between(pts[i].0, pts[i + 1].0, t);
        lemma_lerp_between(pts[i].1, pts[i + 1].1, t);
    }
}

/// Interpolation of one axis.
fn lerp(a: i64, b: i64, t: u64) -> (r: i64)
    requires
        0 <= t <= 1000,
        -CPOINT_LIMIT <= a <= CPOINT_LIMIT,
        -CPOINT_LIMIT <= b <= CPOINT_LIMIT,
    ensures
        r == spec_lerp(a as int, b as int, t as int),
        -CPOINT_LIMIT <= r <= CPOINT_LIMIT,
{
    let prod: i128 = wide_mul(b - a, t as i64);
    proof {
        lemma_mul_bound2(b - a, t as int, 2 * CPOINT_LIMIT as int, 1000);
    }
    let q = div_trunc_i128(prod, 1000);
    proof {
        lemma_lerp_between(a as int, b as int, t as int);
    }
    a + (q as i64)
}

/// A time-parameterized curve from a start point to an end point.
#[derive(Debug)]
pub struct BezierCurve {
    pub control_points: Vec<ScreenVec>,
    pub duration_ms: u64,
    pub start_time_ms: u64,
}

impl BezierCurve {
    pub open spec fn wf(&self) -> bool {
        &&& 2 <= self.control_points@.len() <= 6
        &&& MIN_PLAN_MS <= self.duration_ms <= MAX_PLAN_MS
        &&& pts_bounded(pts_view(self.control_points@), CPOINT_LIMIT as int)
    }

    pub open spec fn spec_start(&self) -> (int, int) {
        pts_view(self.control_points@).first()
    }

    pub open spec fn spec_goal(&self) -> (int, int) {
        pts_view(self.control_points@).last()
    }

    /// The curve's position at parameter `t` of 1000.
    pub fn evaluate_at(&self, t: u64) -> (r: ScreenVec)
        requires
            self.wf(),
            t <= 1000,
        ensures
            (r.x as int, r.y as int) == spec_curve_at(pts_view(self.control_points@), t as int),
            -CPOINT_LIMIT <= r.x <= CPOINT_LIMIT,
            -CPOINT_LIMIT <= r.y <= CPOINT_LIMIT,
    {
        let mut pts: Vec<ScreenVec> = Vec::new();
        let mut i: usize = 0;
        while i < self.control_points.len()
            invariant
                i <= self.control_points@.len(),
                pts@ =~= self.control_points@.subrange(0, i as int),
            decreases self.control_points@.len() - i,
        {
            pts.push(self.control_points[i]);
            i = i + 1;
        }
        proof {
            assert(pts@ =~= self.control_points@);
        }
        while pts.len() > 1
            invariant
                1 <= pts@.len() <= 6,
                t <= 1000,
                pts_bounded(pts_view(pts@), CPOINT_LIMIT as int),
                spec_curve_at(pts_view(pts@), t as int) == spec_curve_at(
                    pts_view(self.control_points@),
                    t as int,
                ),
            decreases pts@.len(),
        {
            let ghost cur = pts_view(pts@);
            let mut next: Vec<ScreenVec> = Vec::new();
            let mut j: usize = 0;
            while j < pts.len() - 1
                invariant
                    pts@.len() >= 2,
                    j <= pts@.len() - 1,
                    t <= 1000,
                    cur == pts_view(pts@),
                    pts_bounded(cur, CPOINT_LIMIT as int),
                    next@.len() == j,
                    forall|k: int|
                        0 <= k < j ==> (
                        ((#[trigger] next@[k]).x as int, next@[k].y as int) == spec_dc_round(
                            cur,
                            t as int,
                        )[k] && -CPOINT_LIMIT <= next@[k].x <= CPOINT_LIMIT && -CPOINT_LIMIT
                            <= next@[k].y <= CPOINT_LIMIT),
                decreases pts@.len() - 1 - j,
            {
                let a = pts[j];
                let b = pts[j + 1];
                proof {
                    assert(cur[j as int] == (a.x as int, a.y as int));
                    assert(cur[j as int + 1] == (b.x as int, b.y as int));
                }
                let x = lerp(a.x, b.x, t);
                let y = lerp(a.y, b.y, t);
                next.push(ScreenVec { x, y });
                proof {
                    assert(spec_dc_round(cur, t as int)[j as int] == (
                        spec_lerp(cur[j as int].0, cur[j as int + 1].0, t as int),
                        spec_lerp(cur[j as int].1, cur[j as int + 1].1, t as int),
                    ));
                }
                j = j + 1;
            }
            proof {
                assert(pts_view(next@) =~= spec_dc_round(cur, t as int));
                lemma_dc_round_bounded(cur, t as int, CPOINT_LIMIT as int);
            }
            pts = next;
        }
        let r = pts[0];
        proof {
            assert(pts_view(pts@)[0] == (r.x as int, r.y as int));
        }
        r
    }

    /// The position the curve prescribes at wall-clock `now`: the goal
    /// once the duration has elapsed, else the point at the elapsed
    /// fraction of the duration.
    pub fn position_at(&self, now: u64) -> (r: ScreenVec)
        requires
            self.wf(),
            now >= self.start_time_ms,
        ensures
            now - self.start_time_ms >= self.duration_ms ==> (r.x as int, r.y as int)
                == self.spec_goal(),
            now - self.start_time_ms < self.duration_ms ==> (r.x as int, r.y as int)
                == spec_curve_at(
                pts_view(self.control_points@),
                spec_div_trunc((now - self.start_time_ms) * 1000, self.duration_ms as int),
            ),
            -CPOINT_LIMIT <= r.x <= CPOINT_LIMIT,
            -CPOINT_LIMIT <= r.y <= CPOINT_LIMIT,
    {
        let elapsed = now - self.start_time_ms;
        if elapsed >= self.duration_ms {
            let n = self.control_points.len();
            let r = self.control_points[n - 1];
            proof {
                assert(pts_view(self.control_points@).last() == (r.x as int, r.y as int));
            }
            r
        } else {
            let t = elapsed * 1000 / self.duration_ms;
            proof {
                assert(elapsed * 1000 / (self.duration_ms as int) <= 1000) by (nonlinear_arith)
                    requires
                        0 <= elapsed < self.duration_ms,
                        self.duration_ms >= 1,
                {}
                assert(elapsed * 1000 >= 0) by (nonlinear_arith)
                    requires
                        elapsed >= 0,
                {}
            }
            self.evaluate_at(t)
        }
    }

    /// Whether the curve's time window has fully elapsed at `now`.
    pub fn is_complete(&self, now: u64) -> (r: bool)
        requires
            now >= self.start_time_ms,
        ensures
            r == (now - self.start_time_ms >= self.duration_ms),
    {
        now - self.start_time_ms >= self.duration_ms
    }

    /// Milliseconds of the curve's window still ahead at `now`.
    pub fn remaining_time(&self, now: u64) -> (r: u64)
        requires
            now >= self.start_time_ms,
        ensures
            r == if now - self.start_time_ms >= self.duration_ms {
                0
            } else {
                self.duration_ms - (now - self.start_time_ms)
            },
    {
        let elapsed = now - self.start_time_ms;
        if elapsed >= self.duration_ms {
            0
        } else {
            self.duration_ms - elapsed
        }
    }

    /// A cubic curve whose inner control points sit along the travel
    /// direction, displaced sideways by a bounded random offset.
    pub fn new_cubic(
        start: ScreenVec,
        end: ScreenVec,
        duration_ms: u64,
        smoothness_milli: u64,
        now: u64,
    ) -> (r: BezierCurve)
        requires
            screen_in_bounds(start),
            screen_in_bounds(end),
            MIN_PLAN_MS <= duration_ms <= MAX_PLAN_MS,
        ensures
            r.wf(),
            r.spec_start() == (start.x as int, start.y as int),
            r.spec_goal() == (end.x as int, end.y as int),
            r.duration_ms == duration_ms,
            r.start_time_ms == now,
            r.control_points@.len() == 4,
            // The two inner control points sit on the straight segment,
            // displaced sideways by at most eight percent of the travel
            // distance (up to rounding).
            forall|k: int|
                1 <= k < 3 ==> spec_near_segment(
                    #[trigger] pts_view(r.control_points@)[k],
                    (start.x as int, start.y as int),
                    (end.x as int, end.y as int),
                    spec_cubic_offset_bound(spec_dist2(start, end)),
                ),
    {
        let dx = end.x - start.x;
        let dy = end.y - start.y;
        let d0 = dist2(start, end);
        proof {
            lemma_dist2_bound(start, end);
        }
        let dist = if d0 == 0 {
            1
        } else {
            d0 as i64
        };
        let sm = clamp_u64(smoothness_milli, 100, 1000);
        let cf = sm * 400 / 1000;
        let roll = random_in_range(-200, 200);
        // Sideways displacement magnitude: a fraction of the travel
        // distance scaled by the control factor.
        let p1 = wide_mul(roll, dist);
        proof {
            lemma_mul_bound2(roll as int, dist as int, 200, 400_000_000);
            lemma_mul_bound2(p1 as int, cf as int, 80_000_000_000, 400);
        }
        let p2 = p1 * (cf as i128);
        let off = div_trunc_i128(p2, 1_000_000);
        let ghost obound = spec_cubic_offset_bound(spec_dist2(start, end));
        proof {
            lemma_div_trunc_scaled(p2 as int, 1_000_000, 32_000_000);
            assert(1_000_000 * ((80_000 * spec_dist2(start, end)) / 1_000_000) > 80_000
                * spec_dist2(start, end) - 1_000_000) by (nonlinear_arith)
                requires
                    spec_dist2(start, end) >= 0,
            {}
            assert(80_000 * (dist as int) <= 80_000 * spec_dist2(start, end) + 80_000)
                by (nonlinear_arith)
                requires
                    dist <= spec_dist2(start, end) + 1,
            {}
            assert(-(80_000 * (dist as int)) <= p2 && p2 <= 80_000 * (dist as int))
                by (nonlinear_arith)
                requires
                    -200 <= roll <= 200,
                    dist >= 1,
                    0 <= cf <= 400,
                    p1 == roll * dist,
                    p2 == p1 * (cf as int),
            {}
            assert(-(obound * 1_000_000) <= p2 <= obound * 1_000_000) by (nonlinear_arith)
                requires
                    -(80_000 * (dist as int)) <= p2 <= 80_000 * (dist as int),
                    80_000 * (dist as int) <= obound * 1_000_000,
            {}
            lemma_div_trunc_scaled(p2 as int, 1_000_000, obound);
        }
        let offm = off as i64;
        let pdx = if -dist <= dx && dx <= dist {
            dx
        } else {
            0
        };
        let pdy = if -dist <= dy && dy <= dist {
            dy
        } else {
            0
        };
        let (px, py) = perp_offset(pdx, pdy, offm, dist);
        let fx = forward_component(dx, cf);
        let fy = forward_component(dy, cf);
        let back = 1000 - cf;
        let gx = forward_component(dx, back);
        let gy = forward_component(dy, back);
        let c1 = ScreenVec { x: start.x + fx + px, y: start.y + fy + py };
        let c2 = ScreenVec { x: start.x + gx - px, y: start.y + gy - py };
        let mut control_points: Vec<ScreenVec> = Vec::new();
        control_points.push(start);
        control_points.push(c1);
        control_points.push(c2);
        control_points.push(end);
        let r = BezierCurve { control_points, duration_ms, start_time_ms: now };
        proof {
            let pv = pts_view(r.control_points@);
            let sa = (start.x as int, start.y as int);
            let ea = (end.x as int, end.y as int);
            assert(pv =~= seq![
                sa,
                (c1.x as int, c1.y as int),
                (c2.x as int, c2.y as int),
                ea,
            ]);
            assert(pv.first() == sa);
            assert(pv.last() == ea);
            assert forall|k: int| 0 <= k < pv.len() implies -CPOINT_LIMIT <= (
            #[trigger] pv[k]).0 <= CPOINT_LIMIT && -CPOINT_LIMIT <= pv[k].1 <= CPOINT_LIMIT by {
                if k == 0 {
                    assert(pv[k] == sa);
                } else if k == 1 {
                    assert(pv[k] == (c1.x as int, c1.y as int));
                } else if k == 2 {
                    assert(pv[k] == (c2.x as int, c2.y as int));
                } else {
                    assert(pv[k] == ea);
                }
            }
            assert(abs_int(offm as int) <= obound);
            assert(abs_int(px as int) <= obound && abs_int(py as int) <= obound);
            assert(c1.x as int == spec_lerp(sa.0, ea.0, cf as int) + px && c1.y as int
                == spec_lerp(sa.1, ea.1, cf as int) + py);
            assert(spec_near_segment(pv[1], sa, ea, obound)) by {
                assert(0 <= cf as int <= 1000 && -obound <= px as int <= obound && -obound
                    <= py as int <= obound && pv[1] == spec_displaced(
                    sa,
                    ea,
                    cf as int,
                    px as int,
                    py as int,
                ));
            }
            assert(c2.x as int == spec_lerp(sa.0, ea.0, back as int) + (-px) && c2.y as int
                == spec_lerp(sa.1, ea.1, back as int) + (-py));
            assert(spec_near_segment(pv[2], sa, ea, obound)) by {
                assert(0 <= back as int <= 1000 && -obound <= -px as int <= obound && -obound
                    <= -py as int <= obound && pv[2] == spec_displaced(
                    sa,
                    ea,
                    back as int,
                    -px as int,
                    -py as int,
                ));
            }
        }
        r
    }

    /// A multi-point curve: evenly spaced points along the travel
    /// direction, each displaced sideways by bounded random variation.
    /// Short travels fall back to a straight two-point segment.
    pub fn new_natural(
        start: ScreenVec,
        end: ScreenVec,
        duration_ms: u64,
        variation_milli: u64,
        now: u64,
    ) -> (r: BezierCurve)
        requires
            screen_in_bounds(start),
            screen_in_bounds(end),
            MIN_PLAN_MS <= duration_ms <= MAX_PLAN_MS,
            variation_milli <= 1000,
        ensures
            r.wf(),
            r.spec_start() == (start.x as int, start.y as int),
            r.spec_goal() == (end.x as int, end.y as int),
            r.duration_ms == duration_ms,
            r.start_time_ms == now,
            // Short travel degenerates to the straight two-point segment.
            spec_dist2(start, end) < 10_000 ==> r.control_points@.len() == 2,
            // Every interior point sits on the straight segment displaced
            // sideways by at most a tenth of the travel distance scaled
            // by the configured variation.
            forall|k: int|
                1 <= k < r.control_points@.len() - 1 ==> spec_near_segment(
                    #[trigger] pts_view(r.control_points@)[k],
                    (start.x as int, start.y as int),
                    (end.x as int, end.y as int),
                    spec_div_trunc(variation_milli * spec_dist2(start, end), 10_000),
                ),
    {
        let dx = end.x - start.x;
        let dy = end.y - start.y;
        let d0 = dist2(start, end);
        proof {
            lemma_dist2_bound(start, end);
        }
        let dist = d0 as i64;
        let ghost sa = (start.x as int, start.y as int);
        let ghost ea = (end.x as int, end.y as int);
        let ghost nbound = spec_div_trunc(variation_milli * spec_dist2(start, end), 10_000);
        let mut control_points: Vec<ScreenVec> = Vec::new();
        control_points.push(start);
        proof {
            assert(pts_view(control_points@) =~= seq![(start.x as int, start.y as int)]);
        }
        if dist >= 10_000 {
            // Sideways variation budget: a tenth of the travel distance
            // scaled by the configured variation.
            let p1 = wide_mul(variation_milli as i64, dist);
            proof {
                lemma_mul_bound2(variation_milli as int, dist as int, 1000, 400_000_000);
                lemma_div_trunc_scaled(p1 as int, 10_000, 40_000_000);
            }
            let va = div_trunc_i128(p1, 10_000);
            proof {
                crate::vecmath::lemma_div_trunc_nonneg(p1 as int, 10_000);
            }
            let vam = va as i64;
            let nc = clamp_u64((dist / 100_000) as u64, 2, 5);
            let mut i: u64 = 1;
            while i < nc
                invariant
                    1 <= i <= nc,
                    2 <= nc <= 5,
                    dist >= 1,
                    -400_000_000 <= dx <= 400_000_000,
                    -400_000_000 <= dy <= 400_000_000,
                    0 <= vam <= 40_000_000,
                    vam as int == nbound,
                    sa == (start.x as int, start.y as int),
                    ea == (end.x as int, end.y as int),
                    screen_in_bounds(start),
                    screen_in_bounds(end),
                    dx == end.x - start.x,
                    dy == end.y - start.y,
                    control_points@.len() == i,
                    control_points@.first() == start,
                    pts_bounded(pts_view(control_points@), CPOINT_LIMIT as int),
                    forall|k: int|
                        1 <= k < control_points@.len() ==> spec_near_segment(
                            #[trigger] pts_view(control_points@)[k],
                            sa,
                            ea,
                            nbound,
                        ),
                decreases nc - i,
            {
                let ft = (i * 1000 / nc) as i64;
                proof {
                    assert((i as int) * 1000 / (nc as int) <= 1000) by (nonlinear_arith)
                        requires
                            1 <= i < nc,
                            2 <= nc <= 5,
                    {}
                }
                let bx = start.x + mul_div_small(dx, ft, 1000, 400_000_000);
                let by = start.y + mul_div_small(dy, ft, 1000, 400_000_000);
                let offset = if vam > 0 {
                    random_in_range(-vam, vam)
                } else {
                    0
                };
                let pdx = if -dist <= dx && dx <= dist {
                    dx
                } else {
                    0
                };
                let pdy = if -dist <= dy && dy <= dist {
                    dy
                } else {
                    0
                };
                let (px, py) = perp_offset(pdx, pdy, offset, dist);
                let np = ScreenVec { x: bx + px, y: by + py };
                let ghost prev = control_points@;
                control_points.push(np);
                proof {
                    assert(pts_view(control_points@) =~= pts_view(prev).push(
                        (np.x as int, np.y as int),
                    ));
                    assert forall|k: int|
                        0 <= k < pts_view(control_points@).len() implies -CPOINT_LIMIT <= (
                    #[trigger] pts_view(control_points@)[k]).0 <= CPOINT_LIMIT && -CPOINT_LIMIT
                        <= pts_view(control_points@)[k].1 <= CPOINT_LIMIT by {
                        if k < prev.len() {
                            assert(pts_view(control_points@)[k] == pts_view(prev)[k]);
                        }
                    }
                    assert(abs_int(offset as int) <= nbound);
                    assert(abs_int(px as int) <= nbound && abs_int(py as int) <= nbound);
                    assert(np.x as int == spec_lerp(sa.0, ea.0, ft as int) + px && np.y as int
                        == spec_lerp(sa.1, ea.1, ft as int) + py);
                    assert(spec_near_segment((np.x as int, np.y as int), sa, ea, nbound)) by {
                        assert(0 <= ft as int <= 1000 && -nbound <= px as int <= nbound
                            && -nbound <= py as int <= nbound && (np.x as int, np.y as int)
                            == spec_displaced(sa, ea, ft as int, px as int, py as int));
                    }
                    assert forall|k: int|
                        1 <= k < control_points@.len() implies spec_near_segment(
                        #[trigger] pts_view(control_points@)[k],
                        sa,
                        ea,
                        nbound,
                    ) by {
                        if k < prev.len() {
                            assert(pts_view(control_points@)[k] == pts_view(prev)[k]);
                        } else {
                            assert(pts_view(control_points@)[k] == (np.x as int, np.y as int));
                        }
                    }
                }
                i = i + 1;
            }
        }
        let ghost prev = control_points@;
        control_points.push(end);
        let r = BezierCurve { control_points, duration_ms, start_time_ms: now };
        proof {
            let pv = pts_view(r.control_points@);
            assert(pv =~= pts_view(prev).push((end.x as int, end.y as int)));
            assert forall|k: int| 0 <= k < pv.len() implies -CPOINT_LIMIT <= (
            #[trigger] pv[k]).0 <= CPOINT_LIMIT && -CPOINT_LIMIT <= pv[k].1 <= CPOINT_LIMIT by {
                if k < prev.len() {
                    assert(pv[k] == pts_view(prev)[k]);
                }
            }
            assert(pv.first() == (start.x as int, start.y as int));
            assert(pv.last() == (end.x as int, end.y as int));
            assert forall|k: int| 1 <= k < pv.len() - 1 implies spec_near_segment(
                #[trigger] pv[k],
                sa,
                ea,
                nbound,
            ) by {
                assert(pv[k] == pts_view(prev)[k]);
            }
        }
        r
    }
}

/// A screen point within the admissible coordinate range.
pub open spec fn screen_in_bounds(p: ScreenVec) -> bool {
    -SCREEN_LIMIT <= p.x <= SCREEN_LIMIT && -SCREEN_LIMIT <= p.y <= SCREEN_LIMIT
}

/// Euclidean screen distance, rounded down, in milli-pixels.
pub open spec fn spec_dist2(a: ScreenVec, b: ScreenVec) -> int {
    spec_sqrt_floor(((a.x - b.x) * (a.x - b.x) + (a.y - b.y) * (a.y - b.y)) as nat) as int
}

/// Euclidean screen distance between two points.
pub fn dist2(a: ScreenVec, b: ScreenVec) -> (r: u64)
    requires
        screen_in_bounds(a),
        screen_in_bounds(b),
    ensures
        r == spec_dist2(a, b),
{
    let dx = a.x - b.x;
    let dy = a.y - b.y;
    let px = wide_mul(dx, dx);
    let py = wide_mul(dy, dy);
    proof {
        lemma_mul_bound2(dx as int, dx as int, 2 * SCREEN_LIMIT as int, 2 * SCREEN_LIMIT as int);
        lemma_mul_bound2(dy as int, dy as int, 2 * SCREEN_LIMIT as int, 2 * SCREEN_LIMIT as int);
        assert((dx as int) * (dx as int) >= 0) by (nonlinear_arith);
        assert((dy as int) * (dy as int) >= 0) by (nonlinear_arith);
    }
    let sq: i128 = px + py;
    isqrt(sq as u128)
}

/// The screen distance of two in-bounds points is itself bounded.
proof fn lemma_dist2_bound(a: ScreenVec, b: ScreenVec)
    requires
        screen_in_bounds(a),
        screen_in_bounds(b),
    ensures
        0 <= spec_dist2(a, b) <= 400_000_000,
{
    let sq = ((a.x - b.x) * (a.x - b.x) + (a.y - b.y) * (a.y - b.y)) as nat;
    crate::vecmath::lemma_sqrt_floor_bounds(sq);
    lemma_mul_bound2(a.x - b.x, a.x - b.x, 2 * SCREEN_LIMIT as int, 2 * SCREEN_LIMIT as int);
    lemma_mul_bound2(a.y - b.y, a.y - b.y, 2 * SCREEN_LIMIT as int, 2 * SCREEN_LIMIT as int);
    assert(0 <= (a.x - b.x) * (a.x - b.x) <= 40_000_000_000_000_000 && 0 <= (a.y - b.y) * (a.y
        - b.y) <= 40_000_000_000_000_000) by (nonlinear_arith)
        requires
            -200_000_000 <= a.x - b.x <= 200_000_000,
            -200_000_000 <= a.y - b.y <= 200_000_000,
    {}
    let r = spec_sqrt_floor(sq);
    if r > 400_000_000 {
        assert(r * r > 80_000_000_000_000_000) by (nonlinear_arith)
            requires
                r >= 400_000_001,
        {}
    }
}

/// Clamps a value into a closed range.
pub fn clamp_u64(v: u64, lo: u64, hi: u64) -> (r: u64)
    requires
        lo <= hi,
    ensures
        r == spec_clamp(v as int, lo as int, hi as int),
        lo <= r <= hi,
{
    if v < lo {
        lo
    } else if v > hi {
        hi
    } else {
        v
    }
}

/// A value clamped into a closed range.
pub open spec fn spec_clamp(v: int, lo: int, hi: int) -> int {
    if v < lo {
        lo
    } else if v > hi {
        hi
    } else {
        v
    }
}

/// `a * b / d` with magnitude at most `ma`, given `|a| <= ma` and
/// `|b| <= d`.
fn mul_div_small(a: i64, b: i64, d: i64, ma: i64) -> (r: i64)
    requires
        d >= 1,
        0 <= ma,
        -ma <= a <= ma,
        0 <= b <= d,
    ensures
        r == spec_div_trunc(a * b, d as int),
        -ma <= r <= ma,
{
    let prod = wide_mul(a, b);
    proof {
        lemma_mul_bound2(a as int, b as int, ma as int, d as int);
        lemma_div_trunc_scaled((a as int) * (b as int), d as int, ma as int);
    }
    div_trunc_i128(prod, d as i128) as i64
}

/// The sideways component: the unit perpendicular of the travel
/// direction scaled by `offset`, computed as `perp * offset / dist`.
/// Its magnitude never exceeds the offset's.
fn perp_offset(dx: i64, dy: i64, offset: i64, dist: i64) -> (r: (i64, i64))
    requires
        dist >= 1,
        -400_000_000 <= dx <= 400_000_000,
        -400_000_000 <= dy <= 400_000_000,
        -dist <= dx <= dist,
        -dist <= dy <= dist,
        -40_000_000 <= offset <= 40_000_000,
    ensures
        r.0 == spec_div_trunc(-dy * offset, dist as int),
        r.1 == spec_div_trunc(dx * offset, dist as int),
        // The sideways displacement never exceeds the offset itself.
        abs_int(r.0 as int) <= abs_int(offset as int),
        abs_int(r.1 as int) <= abs_int(offset as int),
        -40_000_000 <= r.0 <= 40_000_000,
        -40_000_000 <= r.1 <= 40_000_000,
{
    let pxp = wide_mul(-dy, offset);
    let pyp = wide_mul(dx, offset);
    let ghost aoff = abs_int(offset as int);
    proof {
        lemma_mul_bound2(-dy as int, offset as int, dist as int, 40_000_000);
        lemma_mul_bound2(dx as int, offset as int, dist as int, 40_000_000);
        assert(dist * 40_000_000 == 40_000_000 * dist) by (nonlinear_arith);
        lemma_div_trunc_scaled((-dy as int) * (offset as int), dist as int, 40_000_000);
        lemma_div_trunc_scaled((dx as int) * (offset as int), dist as int, 40_000_000);
        lemma_mul_bound2(offset as int, -dy as int, aoff, dist as int);
        lemma_mul_bound2(offset as int, dx as int, aoff, dist as int);
        assert((-dy as int) * (offset as int) == (offset as int) * (-dy as int)
            && (dx as int) * (offset as int) == (offset as int) * (dx as int)) by (nonlinear_arith);
        lemma_div_trunc_scaled((-dy as int) * (offset as int), dist as int, aoff);
        lemma_div_trunc_scaled((dx as int) * (offset as int), dist as int, aoff);
    }
    let px = div_trunc_i128(pxp, dist as i128) as i64;
    let py = div_trunc_i128(pyp, dist as i128) as i64;
    (px, py)
}

/// The forward component `d * cf / 1000` of a control point.
fn forward_component(d: i64, cf: u64) -> (r: i64)
    requires
        -400_000_000 <= d <= 400_000_000,
        cf <= 1000,
    ensures
        r == spec_div_trunc(d * cf, 1000),
        -400_000_000 <= r <= 400_000_000,
{
    let prod = wide_mul(d, cf as i64);
    proof {
        lemma_mul_bound2(d as int, cf as int, 400_000_000, 1000);
        lemma_div_trunc_scaled((d as int) * (cf as int), 1000, 400_000_000);
    }
    div_trunc_i128(prod, 1000) as i64
}


/// Largest per-axis delta the clamp ever lets through, in milli-pixels
/// (80 pixels).
pub const CLAMP_MAX_MILLI: i64 = 80_000;

/// Smallest clamp level, in milli-pixels (2 pixels).
pub const CLAMP_MIN_MILLI: i64 = 2_000;

/// The per-axis clamp level for a raw delta of a given magnitude: a
/// quarter of the raw magnitude, never below the minimum level nor
/// above the maximum.  Monotone in the magnitude, so large corrections
/// are allowed faster flicks than micro-adjustments.
pub open spec fn spec_clamp_level(mag: int) -> int {
    spec_clamp(mag / 4, CLAMP_MIN_MILLI as int, CLAMP_MAX_MILLI as int)
}

/// One axis of a delta clamped to a level.
pub open spec fn spec_clamp_axis(d: int, level: int) -> int {
    if d > level {
        level
    } else if d < -level {
        -level
    } else {
        d
    }
}

/// The larger of two coordinate magnitudes.
pub open spec fn spec_linf2(dx: int, dy: int) -> int {
    if abs_int(dx) >= abs_int(dy) {
        abs_int(dx)
    } else {
        abs_int(dy)
    }
}

/// The larger coordinate magnitude of a delta.
pub open spec fn spec_linf(d: ScreenVec) -> int {
    spec_linf2(d.x as int, d.y as int)
}

pub open spec fn abs_int(v: int) -> int {
    if v >= 0 {
        v
    } else {
        -v
    }
}

/// Clamps a raw pointer delta before it is emitted: each axis is cut
/// to the level `spec_clamp_level` assigns to the raw magnitude, so no
/// emitted delta ever exceeds `CLAMP_MAX_MILLI` per axis.
pub fn clamp_delta(delta: ScreenVec) -> (r: ScreenVec)
    requires
        -2_000_000_000_000 <= delta.x <= 2_000_000_000_000,
        -2_000_000_000_000 <= delta.y <= 2_000_000_000_000,
    ensures
        r.x == spec_clamp_axis(delta.x as int, spec_clamp_level(spec_linf(delta))),
        r.y == spec_clamp_axis(delta.y as int, spec_clamp_level(spec_linf(delta))),
        -CLAMP_MAX_MILLI <= r.x <= CLAMP_MAX_MILLI,
        -CLAMP_MAX_MILLI <= r.y <= CLAMP_MAX_MILLI,
        abs_int(r.x as int) <= abs_int(delta.x as int),
        abs_int(r.y as int) <= abs_int(delta.y as int),
{
    let ax = if delta.x >= 0 {
        delta.x
    } else {
        -delta.x
    };
    let ay = if delta.y >= 0 {
        delta.y
    } else {
        -delta.y
    };
    let mag = if ax >= ay {
        ax
    } else {
        ay
    };
    let quarter = mag / 4;
    let level = if quarter < CLAMP_MIN_MILLI {
        CLAMP_MIN_MILLI
    } else if quarter > CLAMP_MAX_MILLI {
        CLAMP_MAX_MILLI
    } else {
        quarter
    };
    proof {
        assert(quarter == (mag as int) / 4);
    }
    let x = if delta.x > level {
        level
    } else if delta.x < -level {
        -level
    } else {
        delta.x
    };
    let y = if delta.y > level {
        level
    } else if delta.y < -level {
        -level
    } else {
        delta.y
    };
    ScreenVec { x, y }
}

/// The clamp level is monotone: a larger raw correction is never
/// granted a smaller per-tick budget than a smaller one.
pub proof fn lemma_clamp_level_monotone(m1: int, m2: int)
    requires
        0 <= m1 <= m2,
    ensures
        spec_clamp_level(m1) <= spec_clamp_level(m2),
        spec_clamp_level(m2) <= CLAMP_MAX_MILLI,
{
    assert(m1 / 4 <= m2 / 4) by (nonlinear_arith)
        requires
            m1 <= m2,
    {}
}

/// One axis stepped toward a target by at most `step`, never past it.
pub open spec fn spec_step_axis(cur: int, tgt: int, step: int) -> int {
    if tgt >= cur {
        if tgt - cur <= step {
            tgt
        } else {
            cur + step
        }
    } else {
        if cur - tgt <= step {
            tgt
        } else {
            cur - step
        }
    }
}

/// Stepping shrinks the axis gap by exactly `min(step, gap)`.
pub proof fn lemma_step_axis_progress(cur: int, tgt: int, step: int)
    requires
        step >= 0,
    ensures
        abs_int(tgt - spec_step_axis(cur, tgt, step)) == if abs_int(tgt - cur) <= step {
            0
        } else {
            abs_int(tgt - cur) - step
        },
{
}

/// One linear poll shrinks the largest axis gap by exactly
/// `min(step, gap)`, so from any start the plan reaches its target in
/// at most `gap / step + 1` polls: every linear plan completes.
pub proof fn lemma_linear_linf_progress(cx: int, cy: int, tx: int, ty: int, step: int)
    requires
        step >= 0,
    ensures
        spec_linf2(
            tx - spec_step_axis(cx, tx, step),
            ty - spec_step_axis(cy, ty, step),
        ) == if spec_linf2(tx - cx, ty - cy) <= step {
            0
        } else {
            spec_linf2(tx - cx, ty - cy) - step
        },
{
    lemma_step_axis_progress(cx, tx, step);
    lemma_step_axis_progress(cy, ty, step);
}

/// One axis of an exponential approach: a fixed fraction of the gap,
/// rounded toward zero, is covered each poll.
pub open spec fn spec_exp_axis(cur: int, tgt: int, alpha: int) -> int {
    cur + spec_div_trunc((tgt - cur) * alpha, 1000)
}

/// The exponential step never overshoots and never retreats.
pub proof fn lemma_exp_axis_between(cur: int, tgt: int, alpha: int)
    requires
        0 <= alpha <= 1000,
    ensures
        cur <= tgt ==> cur <= spec_exp_axis(cur, tgt, alpha) <= tgt,
        tgt <= cur ==> tgt <= spec_exp_axis(cur, tgt, alpha) <= cur,
{
    lemma_lerp_between(cur, tgt, alpha);
}

/// One exponential poll strictly shrinks the largest axis gap while it
/// is at or above the snap threshold; below the threshold the plan
/// snaps exactly onto the target.  Repeated polling therefore always
/// completes, and completes exactly at the goal.
pub proof fn lemma_exp_linf_progress(cx: int, cy: int, tx: int, ty: int, alpha: int)
    requires
        10 <= alpha <= 1000,
        spec_linf2(tx - cx, ty - cy) >= SNAP_MILLI,
    ensures
        spec_linf2(tx - spec_exp_axis(cx, tx, alpha), ty - spec_exp_axis(cy, ty, alpha))
            < spec_linf2(tx - cx, ty - cy),
{
    let gx = tx - cx;
    let gy = ty - cy;
    lemma_exp_axis_between(cx, tx, alpha);
    lemma_exp_axis_between(cy, ty, alpha);
    if abs_int(gx) >= SNAP_MILLI {
        lemma_exp_axis_progress(cx, tx, alpha);
    }
    if abs_int(gy) >= SNAP_MILLI {
        lemma_exp_axis_progress(cy, ty, alpha);
    }
}

/// On the widest axis the exponential step makes strict progress once
/// the gap reaches the snap threshold, so repeated polling terminates.
pub proof fn lemma_exp_axis_progress(cur: int, tgt: int, alpha: int)
    requires
        10 <= alpha <= 1000,
        abs_int(tgt - cur) >= SNAP_MILLI,
    ensures
        abs_int(tgt - spec_exp_axis(cur, tgt, alpha)) < abs_int(tgt - cur),
{
    let d = tgt - cur;
    if d >= 0 {
        assert(d * alpha >= 1000 * 10) by (nonlinear_arith)
            requires
                d >= 1000,
                alpha >= 10,
        {}
        assert((d * alpha) / 1000 >= 10) by (nonlinear_arith)
            requires
                d * alpha >= 10_000,
        {}
        lemma_lerp_between(cur, tgt, alpha);
    } else {
        assert((-d) * alpha >= 1000 * 10) by (nonlinear_arith)
            requires
                -d >= 1000,
                alpha >= 10,
        {}
        assert(((-d) * alpha) / 1000 >= 10) by (nonlinear_arith)
            requires
                (-d) * alpha >= 10_000,
        {}
        assert(-(d * alpha) == (-d) * alpha) by (nonlinear_arith);
        lemma_lerp_between(cur, tgt, alpha);
    }
}

/// Smooth movement controller: owns at most one active plan and steps
/// the pointer toward its target on every poll.
#[derive(Debug)]
pub struct SmoothController {
    pub smoothing_type: SmoothingType,
    pub current_curve: Option<BezierCurve>,
    pub target_position: Option<ScreenVec>,
    pub current_position: ScreenVec,
    pub smoothness_milli: u64,
    pub max_speed: u64,
    pub humanization_enabled: bool,
}

impl SmoothController {
    pub open spec fn wf(&self) -> bool {
        &&& 100 <= self.smoothness_milli <= 10_000
        &&& 1_000 <= self.max_speed <= 1_000_000_000
        &&& -CPOINT_LIMIT <= self.current_position.x <= CPOINT_LIMIT
        &&& -CPOINT_LIMIT <= self.current_position.y <= CPOINT_LIMIT
        &&& (self.target_position matches Some(t) ==> screen_in_bounds(t))
        &&& (self.current_curve matches Some(c) ==> c.wf())
    }

    /// A controller with no active movement; the smoothness factor is
    /// clamped into its admissible range.
    pub fn new(smoothing_type: SmoothingType, smoothness_milli: u64) -> (r: SmoothController)
        ensures
            r.wf(),
            r.smoothing_type == smoothing_type,
            r.smoothness_milli == spec_clamp(smoothness_milli as int, 100, 10_000),
            r.max_speed == 1_000_000,
            r.current_curve is None,
            r.target_position is None,
            r.current_position == (ScreenVec { x: 0, y: 0 }),
            r.humanization_enabled,
    {
        SmoothController {
            smoothing_type,
            current_curve: None,
            target_position: None,
            current_position: ScreenVec { x: 0, y: 0 },
            smoothness_milli: clamp_u64(smoothness_milli, 100, 10_000),
            max_speed: 1_000_000,
            humanization_enabled: true,
        }
    }

    /// Whether a movement plan is in flight.
    pub open spec fn spec_is_active(&self) -> bool {
        self.current_curve is Some || self.target_position is Some
    }

    /// Whether a movement plan is in flight.
    pub fn is_active(&self) -> (r: bool)
        ensures
            r == self.spec_is_active(),
    {
        match self.current_curve {
            Some(_) => true,
            None => match self.target_position {
                Some(_) => true,
                None => false,
            },
        }
    }

    /// Cancels any in-flight plan at once: no curve and no target
    /// survive, so nothing can fire later.
    pub fn stop(&mut self)
        ensures
            final(self).current_curve is None,
            final(self).target_position is None,
            final(self).current_position == old(self).current_position,
            final(self).smoothing_type == old(self).smoothing_type,
            final(self).smoothness_milli == old(self).smoothness_milli,
            final(self).max_speed == old(self).max_speed,
            final(self).humanization_enabled == old(self).humanization_enabled,
            old(self).wf() ==> final(self).wf(),
    {
        self.current_curve = None;
        self.target_position = None;
    }

    /// The duration a travel distance earns: `dist / max_speed`
    /// stretched by the smoothness factor and clamped into the
    /// admissible window.
    pub open spec fn spec_duration(&self, dist: int) -> int {
        spec_clamp(
            (dist * 1000 / (self.max_speed as int)) * (self.smoothness_milli as int) / 1000,
            MIN_PLAN_MS as int,
            MAX_PLAN_MS as int,
        )
    }

    /// Begins a movement from `start` toward `target` at time `now`.
    /// Travel below the snap threshold snaps straight to the target
    /// and leaves no plan behind; otherwise the curve modes build a
    /// curve over the computed duration and the stepping modes only
    /// record the target.
    pub fn move_to(&mut self, start: ScreenVec, target: ScreenVec, now: u64)
        requires
            old(self).wf(),
            screen_in_bounds(start),
            screen_in_bounds(target),
        ensures
            final(self).wf(),
            final(self).smoothing_type == old(self).smoothing_type,
            final(self).smoothness_milli == old(self).smoothness_milli,
            final(self).max_speed == old(self).max_speed,
            final(self).humanization_enabled == old(self).humanization_enabled,
            spec_dist2(start, target) < SNAP_MILLI ==> final(self).current_position == target
                && final(self).target_position is None && final(self).current_curve is None,
            spec_dist2(start, target) >= SNAP_MILLI ==> final(self).current_position == start
                && final(self).target_position == Some(target),
            spec_dist2(start, target) >= SNAP_MILLI && (old(self).smoothing_type is Linear
                || old(self).smoothing_type is Exponential) ==> final(self).current_curve is None,
            spec_dist2(start, target) >= SNAP_MILLI && !(old(self).smoothing_type is Linear)
                && !(old(self).smoothing_type is Exponential) ==> (
            final(self).current_curve matches Some(c) && c.wf() && c.spec_start() == (
            start.x as int, start.y as int) && c.spec_goal() == (target.x as int, target.y as int)
                && c.start_time_ms == now && c.duration_ms == old(self).spec_duration(
                spec_dist2(start, target),
            )),
    {
        let d0 = dist2(start, target);
        proof {
            lemma_dist2_bound(start, target);
        }
        if d0 < SNAP_MILLI {
            self.current_position = target;
            self.target_position = None;
            self.current_curve = None;
            return ;
        }
        self.current_position = start;
        self.target_position = Some(target);
        let base = d0 * 1000 / self.max_speed;
        proof {
            assert(base * self.smoothness_milli <= 400_000_000_000 * 10_000) by (nonlinear_arith)
                requires
                    0 <= base <= 400_000_000_000,
                    0 <= self.smoothness_milli <= 10_000,
            {}
        }
        let stretched = base * self.smoothness_milli / 1000;
        let duration = clamp_u64(stretched, MIN_PLAN_MS, MAX_PLAN_MS);
        match self.smoothing_type {
            SmoothingType::Bezier => {
                self.current_curve = Some(
                    BezierCurve::new_cubic(start, target, duration, self.smoothness_milli, now),
                );
            },
            SmoothingType::Natural => {
                let variation: u64 = if self.humanization_enabled {
                    500
                } else {
                    100
                };
                self.current_curve = Some(
                    BezierCurve::new_natural(start, target, duration, variation, now),
                );
            },
            SmoothingType::Humanized => {
                self.current_curve = Some(
                    BezierCurve::new_natural(start, target, duration, 800, now),
                );
            },
            _ => {
                self.current_curve = None;
            },
        }
    }

    /// Polls the controller once at time `now` and returns the next
    /// absolute pointer position, or `None` when no plan is active.
    ///
    /// Curve modes follow the curve and complete exactly at the goal
    /// once the duration elapses.  Linear mode steps each axis by at
    /// most a fixed per-poll budget, never past the target.
    /// Exponential mode covers a fixed fraction of each axis gap and
    /// snaps once within the snap threshold.
    pub fn update(&mut self, now: u64) -> (r: Option<ScreenVec>)
        requires
            old(self).wf(),
            old(self).current_curve matches Some(c) ==> now >= c.start_time_ms,
        ensures
            final(self).wf(),
            final(self).smoothing_type == old(self).smoothing_type,
            final(self).smoothness_milli == old(self).smoothness_milli,
            final(self).max_speed == old(self).max_speed,
            final(self).current_curve is Some ==> final(self).current_curve == old(
                self,
            ).current_curve,
            ({
                let m = old(self).smoothing_type;
                if m is Bezier || m is Natural || m is Humanized {
                    match old(self).current_curve {
                        None => r is None && *final(self) == *old(self),
                        Some(c) => {
                            &&& (r matches Some(p) && (p.x as int, p.y as int) == (
                            final(self).current_position.x as int,
                            final(self).current_position.y as int,
                            ))
                            &&& (now - c.start_time_ms >= c.duration_ms ==> (
                            r matches Some(p) && (p.x as int, p.y as int) == c.spec_goal()
                                && final(self).current_curve is None
                                && final(self).target_position is None))
                            &&& (now - c.start_time_ms < c.duration_ms
                                ==> final(self).current_curve == Some(c))
                        },
                    }
                } else if m is Linear {
                    match old(self).target_position {
                        None => r is None && *final(self) == *old(self),
                        Some(t) => {
                            let step = spec_linear_step(old(self).max_speed as int, old(self).smoothness_milli as int);
                            let nx = spec_step_axis(old(self).current_position.x as int, t.x as int, step);
                            let ny = spec_step_axis(old(self).current_position.y as int, t.y as int, step);
                            &&& final(self).current_position.x == nx
                            &&& final(self).current_position.y == ny
                            &&& r == Some(final(self).current_position)
                            &&& (nx == t.x && ny == t.y ==> final(self).target_position is None)
                            &&& (!(nx == t.x && ny == t.y) ==> final(self).target_position == Some(t))
                        },
                    }
                } else {
                    match old(self).target_position {
                        None => r is None && *final(self) == *old(self),
                        Some(t) => {
                            let alpha = spec_exp_alpha(old(self).smoothness_milli as int);
                            let lx = abs_int(t.x - old(self).current_position.x);
                            let ly = abs_int(t.y - old(self).current_position.y);
                            if lx < SNAP_MILLI && ly < SNAP_MILLI {
                                final(self).current_position == t
                                    && final(self).target_position is None && r == Some(t)
                            } else {
                                &&& final(self).current_position.x == spec_exp_axis(
                                    old(self).current_position.x as int,
                                    t.x as int,
                                    alpha,
                                )
                                &&& final(self).current_position.y == spec_exp_axis(
                                    old(self).current_position.y as int,
                                    t.y as int,
                                    alpha,
                                )
                                &&& r == Some(final(self).current_position)
                                &&& final(self).target_position == Some(t)
                            }
                        },
                    }
                }
            }),
    {
        match self.smoothing_type {
            SmoothingType::Bezier | SmoothingType::Natural | SmoothingType::Humanized => {
                let complete: bool;
                let pos: ScreenVec;
                match &self.current_curve {
                    None => {
                        return None;
                    },
                    Some(curve) => {
                        pos = curve.position_at(now);
                        complete = curve.is_complete(now);
                        proof {
                            if now - curve.start_time_ms >= curve.duration_ms {
                                assert((pos.x as int, pos.y as int) == curve.spec_goal());
                            }
                        }
                    },
                }
                self.current_position = pos;
                if complete {
                    self.current_curve = None;
                    self.target_position = None;
                }
                Some(pos)
            },
            SmoothingType::Linear => {
                match self.target_position {
                    None => None,
                    Some(t) => {
                        let step = linear_step(self.max_speed, self.smoothness_milli);
                        let nx = step_axis(self.current_position.x, t.x, step);
                        let ny = step_axis(self.current_position.y, t.y, step);
                        let np = ScreenVec { x: nx, y: ny };
                        self.current_position = np;
                        if nx == t.x && ny == t.y {
                            self.target_position = None;
                        }
                        Some(np)
                    },
                }
            },
            SmoothingType::Exponential => {
                match self.target_position {
                    None => None,
                    Some(t) => {
                        let dx = t.x - self.current_position.x;
                        let dy = t.y - self.current_position.y;
                        let ax = if dx >= 0 {
                            dx
                        } else {
                            -dx
                        };
                        let ay = if dy >= 0 {
                            dy
                        } else {
                            -dy
                        };
                        if ax < SNAP_MILLI as i64 && ay < SNAP_MILLI as i64 {
                            self.current_position = t;
                            self.target_position = None;
                            return Some(t);
                        }
                        let alpha = exp_alpha(self.smoothness_milli);
                        let nx = exp_axis(self.current_position.x, t.x, alpha);
                        let ny = exp_axis(self.current_position.y, t.y, alpha);
                        let np = ScreenVec { x: nx, y: ny };
                        self.current_position = np;
                        Some(np)
                    },
                }
            },
        }
    }
}

/// The per-poll budget of the linear mode, in milli-pixels.
pub open spec fn spec_linear_step(max_speed: int, smoothness: int) -> int {
    let s = max_speed * 16 / smoothness;
    if s < 1 {
        1
    } else {
        s
    }
}

/// The per-mille fraction of each gap the exponential mode covers.
pub open spec fn spec_exp_alpha(smoothness: int) -> int {
    spec_clamp(1_000_000int / smoothness, 10, 1000)
}

fn linear_step(max_speed: u64, smoothness: u64) -> (r: u64)
    requires
        100 <= smoothness <= 10_000,
        1_000 <= max_speed <= 1_000_000_000,
    ensures
        r == spec_linear_step(max_speed as int, smoothness as int),
        1 <= r <= 160_000_000,
{
    let s = max_speed * 16 / smoothness;
    proof {
        assert(max_speed * 16 / (smoothness as int) <= 160_000_000) by (nonlinear_arith)
            requires
                max_speed * 16 <= 16_000_000_000,
                smoothness >= 100,
        {}
    }
    if s < 1 {
        1
    } else {
        s
    }
}

fn exp_alpha(smoothness: u64) -> (r: u64)
    requires
        100 <= smoothness <= 10_000,
    ensures
        r == spec_exp_alpha(smoothness as int),
        10 <= r <= 1000,
{
    clamp_u64(1_000_000 / smoothness, 10, 1000)
}

/// One axis stepped toward a target by at most `step`.
fn step_axis(cur: i64, tgt: i64, step: u64) -> (r: i64)
    requires
        -CPOINT_LIMIT <= cur <= CPOINT_LIMIT,
        -SCREEN_LIMIT <= tgt <= SCREEN_LIMIT,
        1 <= step <= 160_000_000,
    ensures
        r == spec_step_axis(cur as int, tgt as int, step as int),
        -CPOINT_LIMIT <= r <= CPOINT_LIMIT,
{
    let s = step as i64;
    if tgt >= cur {
        if tgt - cur <= s {
            tgt
        } else {
            cur + s
        }
    } else {
        if cur - tgt <= s {
            tgt
        } else {
            cur - s
        }
    }
}

/// One axis of the exponential approach.
fn exp_axis(cur: i64, tgt: i64, alpha: u64) -> (r: i64)
    requires
        -CPOINT_LIMIT <= cur <= CPOINT_LIMIT,
        -SCREEN_LIMIT <= tgt <= SCREEN_LIMIT,
        10 <= alpha <= 1000,
    ensures
        r == spec_exp_axis(cur as int, tgt as int, alpha as int),
        -CPOINT_LIMIT <= r <= CPOINT_LIMIT,
{
    let prod = wide_mul(tgt - cur, alpha as i64);
    proof {
        lemma_mul_bound2(tgt - cur, alpha as int, 2 * CPOINT_LIMIT as int, 1000);
        lemma_exp_axis_between(cur as int, tgt as int, alpha as int);
    }
    let q = div_trunc_i128(prod, 1000) as i64;
    cur + q
}

} // verus!

