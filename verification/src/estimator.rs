//! Motion estimation from sparse position samples.
//!
//! Each observed entity keeps a bounded, strictly time-ordered history
//! of `(position, timestamp)` samples.  Velocity and acceleration are
//! derived by finite differencing; absence of data is always reported
//! as `None`, never silently as a zero vector.
//!
//! Units: positions in milli-units, timestamps in milliseconds,
//! velocities in milli-units per second, accelerations in milli-units
//! per second squared.

use vstd::prelude::*;

use crate::vecmath::{spec_div_trunc, spec_sqrt_floor, div_trunc, div_trunc_i128, wide_mul, WorldVec, COORD_LIMIT};

verus! {

/// Most samples a history may hold; the oldest are dropped first.
pub const SAMPLE_CAP: usize = 10;

/// Samples older than this relative to the newest observation are evicted.
pub const SAMPLE_AGE_MS: u64 = 1_000;

/// Entities whose newest sample is older than this are removed by a sweep.
pub const EVICT_AGE_MS: u64 = 5_000;

/// Largest admissible timestamp, in milliseconds.
pub const TIME_LIMIT: u64 = 0x1000_0000_0000_0000;

/// Longest supported extrapolation horizon, in milliseconds.
pub const PREDICT_LIMIT_MS: u64 = 10_000;

/// One position observation of one entity.
#[derive(Clone, Copy, Debug, PartialEq, Eq, Structural)]
pub struct MotionSample {
    pub position: WorldVec,
    pub timestamp: u64,
}

impl MotionSample {
    pub open spec fn wf(self) -> bool {
        self.position.in_bounds() && self.timestamp <= TIME_LIMIT
    }
}

/// A sample sequence is well formed when every sample is in bounds and
/// timestamps are strictly increasing (newest last).
pub open spec fn samples_wf(s: Seq<MotionSample>) -> bool {
    &&& forall|i: int| 0 <= i < s.len() ==> (#[trigger] s[i]).wf()
    &&& forall|i: int, j: int|
        #![trigger s[i], s[j]]
        0 <= i < j < s.len() ==> s[i].timestamp < s[j].timestamp
}

/// Drops stale samples from the front of a time-ordered history.
pub open spec fn spec_drop_stale(s: Seq<MotionSample>, now: int) -> Seq<MotionSample>
    decreases s.len(),
{
    if s.len() == 0 {
        s
    } else if s.first().timestamp + SAMPLE_AGE_MS > now {
        s
    } else {
        spec_drop_stale(s.drop_first(), now)
    }
}

/// Caps a history at `SAMPLE_CAP` samples, dropping the oldest first.
pub open spec fn spec_cap(s: Seq<MotionSample>) -> Seq<MotionSample> {
    if s.len() <= SAMPLE_CAP {
        s
    } else {
        s.subrange(s.len() - SAMPLE_CAP, s.len() as int)
    }
}

/// What one observation does to a history: a sample not newer than the
/// stored newest is dropped entirely; otherwise stale samples are
/// evicted, the sample is appended, and the history is capped.
pub open spec fn spec_observe(
    s: Seq<MotionSample>,
    position: WorldVec,
    now: int,
) -> Seq<MotionSample> {
    if s.len() > 0 && now <= s.last().timestamp {
        s
    } else {
        spec_cap(spec_drop_stale(s, now).push(MotionSample { position, timestamp: now as u64 }))
    }
}

/// Scaled finite difference: displacement in milli-units over a
/// duration in milliseconds, as milli-units per second.
pub open spec fn spec_rate(dp: int, dt: int) -> int {
    spec_div_trunc(dp * 1000, dt)
}

/// In a sorted history, dropping stale samples leaves only fresh ones.
proof fn lemma_drop_stale_fresh(s: Seq<MotionSample>, now: int)
    requires
        samples_wf(s),
    ensures
        samples_wf(spec_drop_stale(s, now)),
        forall|i: int|
            0 <= i < spec_drop_stale(s, now).len() ==> (#[trigger] spec_drop_stale(
                s,
                now,
            )[i]).timestamp + SAMPLE_AGE_MS > now,
    decreases s.len(),
{
    if s.len() > 0 {
        if s.first().timestamp + SAMPLE_AGE_MS > now {
            assert forall|i: int| 0 <= i < s.len() implies (#[trigger] s[i]).timestamp
                + SAMPLE_AGE_MS > now by {
                if i > 0 {
                    assert(s[0].timestamp < s[i].timestamp);
                }
            }
        } else {
            assert(samples_wf(s.drop_first()));
            lemma_drop_stale_fresh(s.drop_first(), now);
        }
    }
}

/// History of one entity's observed positions, newest last.
#[derive(Clone, Debug)]
pub struct VelocityTracker {
    pub samples: Vec<MotionSample>,
}

impl VelocityTracker {
    pub open spec fn wf(&self) -> bool {
        samples_wf(self.samples@) && self.samples@.len() <= SAMPLE_CAP
    }

    pub fn new() -> (r: VelocityTracker)
        ensures
            r.wf(),
            r.samples@.len() == 0,
    {
        VelocityTracker { samples: Vec::new() }
    }

    /// Records one observation.  A timestamp not later than the stored
    /// newest is dropped; otherwise stale samples are evicted, the new
    /// sample appended and the history capped at `SAMPLE_CAP`.
    pub fn observe(&mut self, position: WorldVec, now: u64)
        requires
            old(self).wf(),
            position.in_bounds(),
            now <= TIME_LIMIT,
        ensures
            final(self).wf(),
            final(self).samples@ == spec_observe(old(self).samples@, position, now as int),
            final(self).samples@.len() > 0,
            // When the observation is accepted, every retained sample is
            // within the age window of `now`.
            (old(self).samples@.len() == 0 || now > old(self).samples@.last().timestamp)
                ==> forall|i: int|
                0 <= i < final(self).samples@.len()
                    ==> (#[trigger] final(self).samples@[i]).timestamp + SAMPLE_AGE_MS > now,
    {
        let n = self.samples.len();
        if n > 0 && now <= self.samples[n - 1].timestamp {
            return ;
        }
        let ghost orig = self.samples@;
        while self.samples.len() > 0 && self.samples[0].timestamp + SAMPLE_AGE_MS <= now
            invariant
                samples_wf(self.samples@),
                self.samples@.len() <= SAMPLE_CAP,
                spec_drop_stale(orig, now as int) == spec_drop_stale(self.samples@, now as int),
                self.samples@.len() > 0 ==> orig.len() > 0 && self.samples@.last()
                    == orig.last(),
                now <= TIME_LIMIT,
            decreases self.samples@.len(),
        {
            let ghost before = self.samples@;
            self.samples.remove(0);
            proof {
                assert(self.samples@ =~= before.drop_first());
                assert(samples_wf(before.drop_first()));
                if self.samples@.len() > 0 {
                    assert(self.samples@.last() == before.last());
                }
            }
        }
        proof {
            assert(spec_drop_stale(self.samples@, now as int) =~= self.samples@);
            lemma_drop_stale_fresh(orig, now as int);
        }
        let ghost dropped = self.samples@;
        self.samples.push(MotionSample { position, timestamp: now });
        proof {
            let s = self.samples@;
            assert forall|i: int, j: int|
                #![trigger s[i], s[j]]
                0 <= i < j < s.len() implies s[i].timestamp < s[j].timestamp by {
                if j < s.len() - 1 {
                    assert(dropped[i].timestamp < dropped[j].timestamp);
                } else {
                    // The pushed sample is strictly newer than everything kept:
                    // every kept sample is at most the old newest, which `now` exceeds.
                    assert(s[i] == dropped[i]);
                    if i < dropped.len() - 1 {
                        assert(dropped[i].timestamp < dropped[dropped.len() - 1].timestamp);
                    }
                    assert(dropped.last() == orig.last());
                    assert(orig.last().timestamp < now);
                }
            }
        }
        if self.samples.len() > SAMPLE_CAP {
            let ghost pushed = self.samples@;
            self.samples.remove(0);
            proof {
                assert(self.samples@ =~= pushed.subrange(
                    pushed.len() - SAMPLE_CAP,
                    pushed.len() as int,
                ));
                assert(self.samples@ =~= spec_cap(pushed));
            }
        } else {
            proof {
                assert(self.samples@ =~= spec_cap(self.samples@));
            }
        }
    }

    /// Velocity over the whole stored window, milli-units per second.
    /// `None` exactly when fewer than two samples exist.
    pub fn velocity(&self) -> (r: Option<WorldVec>)
        requires
            self.wf(),
        ensures
            r is Some <==> self.samples@.len() >= 2,
            r matches Some(v) ==> {
                let first = self.samples@.first();
                let last = self.samples@.last();
                let dt = last.timestamp - first.timestamp;
                &&& v.x == spec_rate(last.position.x - first.position.x, dt)
                &&& v.y == spec_rate(last.position.y - first.position.y, dt)
                &&& v.z == spec_rate(last.position.z - first.position.z, dt)
                &&& -4_000_000_000_000 <= v.x <= 4_000_000_000_000
                &&& -4_000_000_000_000 <= v.y <= 4_000_000_000_000
                &&& -4_000_000_000_000 <= v.z <= 4_000_000_000_000
            },
    {
        let n = self.samples.len();
        if n < 2 {
            return None;
        }
        let first = self.samples[0];
        let last = self.samples[n - 1];
        assert(first.timestamp < last.timestamp);
        let dt = (last.timestamp - first.timestamp) as i64;
        let vx = rate(last.position.x - first.position.x, dt);
        let vy = rate(last.position.y - first.position.y, dt);
        let vz = rate(last.position.z - first.position.z, dt);
        Some(WorldVec { x: vx, y: vy, z: vz })
    }

    /// Acceleration from two half-window velocity estimates, in
    /// milli-units per second squared.  `None` below three samples.
    pub fn acceleration(&self) -> (r: Option<WorldVec>)
        requires
            self.wf(),
        ensures
            r is Some <==> self.samples@.len() >= 3,
            r matches Some(a) ==> {
                let s = self.samples@;
                let mid = s.len() as int / 2;
                &&& a.x == spec_accel(
                    s.first().position.x as int,
                    s[mid].position.x as int,
                    s.last().position.x as int,
                    s[mid].timestamp - s.first().timestamp,
                    s.last().timestamp - s[mid].timestamp,
                )
                &&& a.y == spec_accel(
                    s.first().position.y as int,
                    s[mid].position.y as int,
                    s.last().position.y as int,
                    s[mid].timestamp - s.first().timestamp,
                    s.last().timestamp - s[mid].timestamp,
                )
                &&& a.z == spec_accel(
                    s.first().position.z as int,
                    s[mid].position.z as int,
                    s.last().position.z as int,
                    s[mid].timestamp - s.first().timestamp,
                    s.last().timestamp - s[mid].timestamp,
                )
                &&& -16_000_000_000_000_000 <= a.x <= 16_000_000_000_000_000
                &&& -16_000_000_000_000_000 <= a.y <= 16_000_000_000_000_000
                &&& -16_000_000_000_000_000 <= a.z <= 16_000_000_000_000_000
            },
    {
        let n = self.samples.len();
        if n < 3 {
            return None;
        }
        let mid = n / 2;
        assert(0 < mid < n - 1);
        let s0 = self.samples[0];
        let sm = self.samples[mid];
        let sl = self.samples[n - 1];
        assert(s0.timestamp < sm.timestamp && sm.timestamp < sl.timestamp);
        let dt1 = (sm.timestamp - s0.timestamp) as i64;
        let dt2 = (sl.timestamp - sm.timestamp) as i64;
        let ax = accel(s0.position.x, sm.position.x, sl.position.x, dt1, dt2);
        let ay = accel(s0.position.y, sm.position.y, sl.position.y, dt1, dt2);
        let az = accel(s0.position.z, sm.position.z, sl.position.z, dt1, dt2);
        Some(WorldVec { x: ax, y: ay, z: az })
    }

    /// Extrapolates the newest position forward by `dt_ms`:
    /// `p + v*dt + a*dt^2/2`, with the acceleration term omitted when
    /// fewer than three samples exist.  `None` without a velocity.
    pub fn predict(&self, dt_ms: u64) -> (r: Option<WorldVec>)
        requires
            self.wf(),
            dt_ms <= PREDICT_LIMIT_MS,
        ensures
            r is Some <==> self.samples@.len() >= 2,
            r matches Some(p) ==> {
                let v = self.velocity_spec();
                let a = self.accel_spec();
                let base = self.samples@.last().position;
                &&& p.x == base.x + spec_div_trunc(v.0 * dt_ms, 1000) + spec_div_trunc(
                    a.0 * dt_ms * dt_ms,
                    2_000_000,
                )
                &&& p.y == base.y + spec_div_trunc(v.1 * dt_ms, 1000) + spec_div_trunc(
                    a.1 * dt_ms * dt_ms,
                    2_000_000,
                )
                &&& p.z == base.z + spec_div_trunc(v.2 * dt_ms, 1000) + spec_div_trunc(
                    a.2 * dt_ms * dt_ms,
                    2_000_000,
                )
            },
    {
        let n = self.samples.len();
        let vel = self.velocity();
        match vel {
            None => None,
            Some(v) => {
                let base = self.samples[n - 1].position;
                let acc = self.acceleration();
                let a = match acc {
                    Some(a) => a,
                    None => WorldVec { x: 0, y: 0, z: 0 },
                };
                proof {
                    if self.samples@.len() < 3 {
                        assert(self.accel_spec() == (0int, 0int, 0int));
                    }
                }
                let px = predict_axis(base.x, v.x, a.x, dt_ms);
                let py = predict_axis(base.y, v.y, a.y, dt_ms);
                let pz = predict_axis(base.z, v.z, a.z, dt_ms);
                Some(WorldVec { x: px, y: py, z: pz })
            },
        }
    }

    /// An identical copy of this history.
    pub fn clone_tracker(&self) -> (r: VelocityTracker)
        ensures
            r.samples@ == self.samples@,
    {
        let mut samples: Vec<MotionSample> = Vec::new();
        let mut i: usize = 0;
        while i < self.samples.len()
            invariant
                i <= self.samples@.len(),
                samples@ =~= self.samples@.subrange(0, i as int),
            decreases self.samples@.len() - i,
        {
            samples.push(self.samples[i]);
            i = i + 1;
        }
        proof {
            assert(samples@ =~= self.samples@);
        }
        VelocityTracker { samples }
    }

    /// The velocity components this history defines, as mathematical values.
    pub open spec fn velocity_spec(&self) -> (int, int, int) {
        spec_velocity_of(self.samples@)
    }

    /// The acceleration components this history defines (zero below
    /// three samples), as mathematical values.
    pub open spec fn accel_spec(&self) -> (int, int, int) {
        spec_accel_of(self.samples@)
    }
}

/// Per-entity motion store: one bounded history per observed entity id,
/// with ids kept unique and stale entities removable by a sweep.
#[derive(Debug)]
pub struct MotionEstimator {
    pub trackers: Vec<(u32, VelocityTracker)>,
}

/// Index of an entity id in a tracker sequence; negative when absent.
pub open spec fn spec_find_idx(s: Seq<(u32, Seq<MotionSample>)>, id: u32) -> int
    decreases s.len(),
{
    if s.len() == 0 {
        -1
    } else if s.first().0 == id {
        0
    } else {
        let r = spec_find_idx(s.drop_first(), id);
        if r < 0 {
            -1
        } else {
            r + 1
        }
    }
}

/// A negative lookup index means no entry carries the id.
pub proof fn lemma_find_idx_absent(s: Seq<(u32, Seq<MotionSample>)>, id: u32)
    requires
        spec_find_idx(s, id) < 0,
    ensures
        forall|k: int| 0 <= k < s.len() ==> (#[trigger] s[k]).0 != id,
    decreases s.len(),
{
    if s.len() > 0 {
        lemma_find_idx_absent(s.drop_first(), id);
        assert forall|k: int| 0 <= k < s.len() implies (#[trigger] s[k]).0 != id by {
            if k > 0 {
                assert(s[k] == s.drop_first()[k - 1]);
            }
        }
    }
}

/// An entity history is live at `now` when its newest sample is within
/// the eviction window.
pub open spec fn spec_live(h: Seq<MotionSample>, now: int) -> bool {
    h.len() > 0 && h.last().timestamp + EVICT_AGE_MS > now
}

/// What a sweep keeps: exactly the live histories, in order.
pub open spec fn spec_sweep(s: Seq<(u32, Seq<MotionSample>)>, now: int) -> Seq<
    (u32, Seq<MotionSample>),
>
    decreases s.len(),
{
    if s.len() == 0 {
        s
    } else if spec_live(s.first().1, now) {
        seq![s.first()] + spec_sweep(s.drop_first(), now)
    } else {
        spec_sweep(s.drop_first(), now)
    }
}

impl MotionEstimator {
    /// The stores' mathematical content: id and history per entry.
    pub open spec fn contents(&self) -> Seq<(u32, Seq<MotionSample>)> {
        self.trackers@.map(|i: int, p: (u32, VelocityTracker)| (p.0, p.1.samples@))
    }

    pub open spec fn wf(&self) -> bool {
        &&& forall|i: int|
            0 <= i < self.trackers@.len() ==> (#[trigger] self.trackers@[i]).1.wf()
                && self.trackers@[i].1.samples@.len() > 0
        &&& forall|i: int, j: int|
            #![trigger self.trackers@[i], self.trackers@[j]]
            0 <= i < j < self.trackers@.len() ==> self.trackers@[i].0 != self.trackers@[j].0
    }

    pub fn new() -> (r: MotionEstimator)
        ensures
            r.wf(),
            r.contents().len() == 0,
    {
        MotionEstimator { trackers: Vec::new() }
    }

    /// Position of `id` in the store, if present.
    fn find(&self, id: u32) -> (r: Option<usize>)
        ensures
            r matches Some(i) ==> i < self.trackers@.len() && self.trackers@[i as int].0 == id
                && spec_find_idx(self.contents(), id) == i as int,
            r is None ==> spec_find_idx(self.contents(), id) < 0,
    {
        let ghost all = self.contents();
        proof {
            assert(all.skip(0) =~= all);
        }
        let mut i: usize = 0;
        while i < self.trackers.len()
            invariant
                i <= self.trackers@.len(),
                all == self.contents(),
                forall|k: int| 0 <= k < i ==> (#[trigger] self.trackers@[k]).0 != id,
                spec_find_idx(all.skip(i as int), id) >= 0 ==> spec_find_idx(all, id)
                    == spec_find_idx(all.skip(i as int), id) + i,
                spec_find_idx(all.skip(i as int), id) < 0 ==> spec_find_idx(all, id) < 0,
            decreases self.trackers@.len() - i,
        {
            proof {
                assert(all.skip(i as int).first() == all[i as int]);
                assert(all.skip(i as int).drop_first() =~= all.skip(i + 1));
            }
            if self.trackers[i].0 == id {
                return Some(i);
            }
            i = i + 1;
        }
        proof {
            assert(all.skip(i as int).len() == 0);
        }
        None
    }

    /// Records one observation for `id`, creating its history on first
    /// sighting and otherwise updating it as `spec_observe` describes.
    pub fn observe(&mut self, id: u32, position: WorldVec, now: u64)
        requires
            old(self).wf(),
            position.in_bounds(),
            now <= TIME_LIMIT,
        ensures
            final(self).wf(),
            ({
                let old_c = old(self).contents();
                let idx = spec_find_idx(old_c, id);
                if idx < 0 {
                    final(self).contents() =~= old_c.push(
                        (id, spec_observe(Seq::<MotionSample>::empty(), position, now as int)),
                    )
                } else {
                    final(self).contents() =~= old_c.update(
                        idx,
                        (id, spec_observe(old_c[idx].1, position, now as int)),
                    )
                }
            }),
    {
        let found = self.find(id);
        match found {
            Some(i) => {
                let ghost old_tr = self.trackers@;
                let mut entry = self.trackers.remove(i);
                proof {
                    assert(old_tr[i as int].1.wf());
                    assert(entry == old_tr[i as int]);
                }
                entry.1.observe(position, now);
                self.trackers.insert(i, entry);
                proof {
                    let new_tr = self.trackers@;
                    assert(new_tr =~= old_tr.update(i as int, new_tr[i as int]));
                    assert(new_tr[i as int].0 == id);
                    assert forall|k: int|
                        0 <= k < new_tr.len() implies (#[trigger] new_tr[k]).1.wf()
                        && new_tr[k].1.samples@.len() > 0 by {
                        if k != i {
                            assert(new_tr[k] == old_tr[k]);
                        }
                    }
                    assert forall|k1: int, k2: int|
                        #![trigger new_tr[k1], new_tr[k2]]
                        0 <= k1 < k2 < new_tr.len() implies new_tr[k1].0 != new_tr[k2].0 by {
                        assert(old_tr[k1].0 != old_tr[k2].0);
                        if k1 != i {
                            assert(new_tr[k1] == old_tr[k1]);
                        }
                        if k2 != i {
                            assert(new_tr[k2] == old_tr[k2]);
                        }
                    }
                    assert(old(self).contents()[i as int].1 == old_tr[i as int].1.samples@);
                    assert(new_tr[i as int].1.samples@ == spec_observe(
                        old_tr[i as int].1.samples@,
                        position,
                        now as int,
                    ));
                    assert(spec_find_idx(old(self).contents(), id) == i as int);
                    assert(self.contents() =~= old(self).contents().update(
                        i as int,
                        (id, spec_observe(old(self).contents()[i as int].1, position, now as int)),
                    ));
                }
            },
            None => {
                let mut tracker = VelocityTracker::new();
                proof {
                    assert(tracker.samples@ =~= Seq::<MotionSample>::empty());
                }
                tracker.observe(position, now);
                self.trackers.push((id, tracker));
                proof {
                    lemma_find_idx_absent(old(self).contents(), id);
                    let new_tr = self.trackers@;
                    assert forall|k: int|
                        0 <= k < new_tr.len() implies (#[trigger] new_tr[k]).1.wf()
                        && new_tr[k].1.samples@.len() > 0 by {
                        if k < new_tr.len() - 1 {
                            assert(new_tr[k] == old(self).trackers@[k]);
                        }
                    }
                    assert forall|k1: int, k2: int|
                        #![trigger new_tr[k1], new_tr[k2]]
                        0 <= k1 < k2 < new_tr.len() implies new_tr[k1].0 != new_tr[k2].0 by {
                        if k2 < new_tr.len() - 1 {
                            assert(old(self).trackers@[k1].0 != old(self).trackers@[k2].0);
                        } else {
                            assert(old(self).contents()[k1].0 == new_tr[k1].0);
                        }
                    }
                    assert(self.contents() =~= old(self).contents().push(
                        (id, spec_observe(Seq::<MotionSample>::empty(), position, now as int)),
                    ));
                }
            },
        }
    }

    /// Velocity of `id`, or `None` when the entity is unknown or has
    /// fewer than two samples.
    pub fn velocity(&self, id: u32) -> (r: Option<WorldVec>)
        requires
            self.wf(),
        ensures
            ({
                let idx = spec_find_idx(self.contents(), id);
                &&& (idx < 0 ==> r is None)
                &&& (idx >= 0 ==> {
                    let h = self.contents()[idx].1;
                    &&& (r is Some <==> h.len() >= 2)
                    &&& (r matches Some(v) ==> {
                        let dt = h.last().timestamp - h.first().timestamp;
                        &&& v.x == spec_rate(h.last().position.x - h.first().position.x, dt)
                        &&& v.y == spec_rate(h.last().position.y - h.first().position.y, dt)
                        &&& v.z == spec_rate(h.last().position.z - h.first().position.z, dt)
                    })
                })
            }),
    {
        match self.find(id) {
            Some(i) => {
                let t = &self.trackers[i].1;
                proof {
                    assert(self.contents()[i as int].1 == self.trackers@[i as int].1.samples@);
                }
                t.velocity()
            },
            None => None,
        }
    }

    /// Acceleration of `id`, or `None` when the entity is unknown or
    /// has fewer than three samples.
    pub fn acceleration(&self, id: u32) -> (r: Option<WorldVec>)
        requires
            self.wf(),
        ensures
            ({
                let idx = spec_find_idx(self.contents(), id);
                &&& (idx < 0 ==> r is None)
                &&& (idx >= 0 ==> (r is Some <==> self.contents()[idx].1.len() >= 3))
            }),
    {
        match self.find(id) {
            Some(i) => {
                let t = &self.trackers[i].1;
                proof {
                    assert(self.contents()[i as int].1 == self.trackers@[i as int].1.samples@);
                }
                t.acceleration()
            },
            None => None,
        }
    }

    /// Extrapolated position of `id` after `dt_ms`, or `None` when no
    /// velocity is defined for it.
    pub fn predict(&self, id: u32, dt_ms: u64) -> (r: Option<WorldVec>)
        requires
            self.wf(),
            dt_ms <= PREDICT_LIMIT_MS,
        ensures
            ({
                let idx = spec_find_idx(self.contents(), id);
                &&& (idx < 0 ==> r is None)
                &&& (idx >= 0 ==> (r is Some <==> self.contents()[idx].1.len() >= 2))
                &&& (idx >= 0 ==> (r matches Some(p) ==> (p.x as int, p.y as int, p.z as int)
                    == spec_predict_of(self.contents()[idx].1, dt_ms as int)))
            }),
    {
        match self.find(id) {
            Some(i) => {
                let t = &self.trackers[i].1;
                proof {
                    assert(self.contents()[i as int].1 == self.trackers@[i as int].1.samples@);
                }
                t.predict(dt_ms)
            },
            None => None,
        }
    }

    /// Removes every entity whose newest sample is older than the
    /// eviction window, so the store cannot grow without bound under a
    /// stream of distinct ids.
    pub fn sweep(&mut self, now: u64)
        requires
            old(self).wf(),
        ensures
            final(self).wf(),
            final(self).contents() == spec_sweep(old(self).contents(), now as int),
            // Exactly the live entries survive, in their original order.
            forall|i: int|
                0 <= i < final(self).contents().len() ==> spec_live(
                    (#[trigger] final(self).contents()[i]).1,
                    now as int,
                ),
    {
        let ghost all = self.contents();
        let mut kept: Vec<(u32, VelocityTracker)> = Vec::new();
        proof {
            assert(all.skip(0) =~= all);
            assert(kept@.map(|k: int, p: (u32, VelocityTracker)| (p.0, p.1.samples@)) =~= Seq::<
                (u32, Seq<MotionSample>),
            >::empty());
        }
        let mut i: usize = 0;
        while i < self.trackers.len()
            invariant
                i <= self.trackers@.len(),
                all == self.contents(),
                old(self).wf(),
                self.trackers@ == old(self).trackers@,
                spec_sweep(all, now as int) =~= kept@.map(
                    |k: int, p: (u32, VelocityTracker)| (p.0, p.1.samples@),
                ) + spec_sweep(all.skip(i as int), now as int),
                forall|k: int|
                    0 <= k < kept@.len() ==> exists|j: int|
                        0 <= j < i && (#[trigger] kept@[k]).0 == self.trackers@[j].0
                            && kept@[k].1.samples@ == self.trackers@[j].1.samples@,
                forall|k1: int, k2: int|
                    #![trigger kept@[k1], kept@[k2]]
                    0 <= k1 < k2 < kept@.len() ==> kept@[k1].0 != kept@[k2].0,
            decreases self.trackers@.len() - i,
        {
            proof {
                assert(all.skip(i as int).first() == all[i as int]);
                assert(all.skip(i as int).drop_first() =~= all.skip(i + 1));
            }
            let t = &self.trackers[i];
            let hn = t.1.samples.len();
            if hn > 0 && t.1.samples[hn - 1].timestamp + EVICT_AGE_MS > now {
                let ghost kept_before = kept@;
                let copy = t.1.clone_tracker();
                let tid = t.0;
                kept.push((tid, copy));
                proof {
                    assert(kept@.map(|k: int, p: (u32, VelocityTracker)| (p.0, p.1.samples@))
                        =~= kept_before.map(
                        |k: int, p: (u32, VelocityTracker)| (p.0, p.1.samples@),
                    ).push((tid, self.trackers@[i as int].1.samples@)));
                    assert((tid, self.trackers@[i as int].1.samples@) == all[i as int]);
                    assert forall|k: int| 0 <= k < kept_before.len() implies kept_before[k].0
                        != tid by {
                        let j = choose|j: int|
                            0 <= j < i && kept_before[k].0 == self.trackers@[j].0
                                && kept_before[k].1.samples@ == self.trackers@[j].1.samples@;
                        assert(self.trackers@[j].0 != self.trackers@[i as int].0);
                    }
                }
            }
            i = i + 1;
        }
        proof {
            assert(all.skip(i as int).len() == 0);
            assert(spec_sweep(all.skip(i as int), now as int) =~= Seq::<
                (u32, Seq<MotionSample>),
            >::empty());
        }
        self.trackers = kept;
        proof {
            assert(self.contents() =~= spec_sweep(all, now as int));
            lemma_sweep_live(all, now as int);
        }
    }
}

/// Every entry a sweep keeps is live.
proof fn lemma_sweep_live(s: Seq<(u32, Seq<MotionSample>)>, now: int)
    ensures
        forall|i: int|
            0 <= i < spec_sweep(s, now).len() ==> spec_live(
                (#[trigger] spec_sweep(s, now)[i]).1,
                now,
            ),
    decreases s.len(),
{
    if s.len() > 0 {
        lemma_sweep_live(s.drop_first(), now);
        if spec_live(s.first().1, now) {
            assert forall|i: int| 0 <= i < spec_sweep(s, now).len() implies spec_live(
                (#[trigger] spec_sweep(s, now)[i]).1,
                now,
            ) by {
                if i > 0 {
                    assert(spec_sweep(s, now)[i] == spec_sweep(s.drop_first(), now)[i - 1]);
                }
            }
        }
    }
}

/// Downward acceleration applied when gravity compensation is on, in
/// milli-units per second squared.
pub const GRAVITY_MILLI: i64 = 515_025;

/// Largest admissible velocity component, milli-units per second.
pub const VELOCITY_LIMIT: i64 = 4_000_000_000_000;

/// Largest admissible acceleration component, milli-units per second
/// squared.
pub const ACCEL_LIMIT: i64 = 16_000_000_000_000_000;

/// One axis of the kinematic extrapolation, as a mathematical value.
pub open spec fn spec_predict_axis(p: int, v: int, a: int, dt_ms: int) -> int {
    p + spec_div_trunc(v * dt_ms, 1000) + spec_div_trunc(a * dt_ms * dt_ms, 2_000_000)
}

/// The position a point reaches after `dt_ms` at a constant velocity.
pub fn predict_position(current: WorldVec, velocity: WorldVec, dt_ms: u64) -> (r: WorldVec)
    requires
        current.in_bounds(),
        -VELOCITY_LIMIT <= velocity.x <= VELOCITY_LIMIT,
        -VELOCITY_LIMIT <= velocity.y <= VELOCITY_LIMIT,
        -VELOCITY_LIMIT <= velocity.z <= VELOCITY_LIMIT,
        dt_ms <= PREDICT_LIMIT_MS,
    ensures
        r.x == spec_predict_axis(current.x as int, velocity.x as int, 0, dt_ms as int),
        r.y == spec_predict_axis(current.y as int, velocity.y as int, 0, dt_ms as int),
        r.z == spec_predict_axis(current.z as int, velocity.z as int, 0, dt_ms as int),
{
    let zero = WorldVec { x: 0, y: 0, z: 0 };
    predict_position_with_physics(current, velocity, zero, dt_ms, false)
}

/// The position a point reaches after `dt_ms` under a constant
/// acceleration, optionally with gravity added: `p + v*t + a*t^2/2`.
pub fn predict_position_with_physics(
    current: WorldVec,
    velocity: WorldVec,
    acceleration: WorldVec,
    dt_ms: u64,
    apply_gravity: bool,
) -> (r: WorldVec)
    requires
        current.in_bounds(),
        -VELOCITY_LIMIT <= velocity.x <= VELOCITY_LIMIT,
        -VELOCITY_LIMIT <= velocity.y <= VELOCITY_LIMIT,
        -VELOCITY_LIMIT <= velocity.z <= VELOCITY_LIMIT,
        -ACCEL_LIMIT + GRAVITY_MILLI <= acceleration.x <= ACCEL_LIMIT - GRAVITY_MILLI,
        -ACCEL_LIMIT + GRAVITY_MILLI <= acceleration.y <= ACCEL_LIMIT - GRAVITY_MILLI,
        -ACCEL_LIMIT + GRAVITY_MILLI <= acceleration.z <= ACCEL_LIMIT - GRAVITY_MILLI,
        dt_ms <= PREDICT_LIMIT_MS,
    ensures
        ({
            let az = if apply_gravity {
                acceleration.z - GRAVITY_MILLI
            } else {
                acceleration.z as int
            };
            &&& r.x == spec_predict_axis(
                current.x as int,
                velocity.x as int,
                acceleration.x as int,
                dt_ms as int,
            )
            &&& r.y == spec_predict_axis(
                current.y as int,
                velocity.y as int,
                acceleration.y as int,
                dt_ms as int,
            )
            &&& r.z == spec_predict_axis(current.z as int, velocity.z as int, az, dt_ms as int)
        }),
{
    let az = if apply_gravity {
        acceleration.z - GRAVITY_MILLI
    } else {
        acceleration.z
    };
    let x = predict_axis(current.x, velocity.x, acceleration.x, dt_ms);
    let y = predict_axis(current.y, velocity.y, acceleration.y, dt_ms);
    let z = predict_axis(current.z, velocity.z, az, dt_ms);
    WorldVec { x, y, z }
}

/// Largest admissible velocity component for interception math,
/// milli-units per second.
pub const INTERCEPT_VELOCITY_LIMIT: i64 = 100_000_000;

/// Quotient rounded toward zero for a nonzero divisor of either sign.
pub open spec fn spec_div_trunc_signed(num: int, den: int) -> int {
    if den > 0 {
        spec_div_trunc(num, den)
    } else {
        spec_div_trunc(-num, -den)
    }
}

/// The discriminant of the interception quadratic
/// `(v.v - s^2) t^2 + 2(rel.v) t + rel.rel = 0`.
pub open spec fn spec_intercept_disc(rel: (int, int, int), v: (int, int, int), speed: int) -> int {
    let a = v.0 * v.0 + v.1 * v.1 + v.2 * v.2 - speed * speed;
    let b = 2 * (rel.0 * v.0 + rel.1 * v.1 + rel.2 * v.2);
    let c = rel.0 * rel.0 + rel.1 * rel.1 + rel.2 * rel.2;
    b * b - 4 * a * c
}

/// The time for a projectile to intercept a uniformly moving target,
/// in milliseconds: the smallest positive root of the interception
/// quadratic, rounded toward zero; `None` when no root exists, when
/// the quadratic degenerates, or when no root is positive.
pub fn calculate_intercept_time(
    shooter_pos: WorldVec,
    target_pos: WorldVec,
    target_velocity: WorldVec,
    projectile_speed: u64,
) -> (r: Option<u64>)
    requires
        shooter_pos.in_bounds(),
        target_pos.in_bounds(),
        -INTERCEPT_VELOCITY_LIMIT <= target_velocity.x <= INTERCEPT_VELOCITY_LIMIT,
        -INTERCEPT_VELOCITY_LIMIT <= target_velocity.y <= INTERCEPT_VELOCITY_LIMIT,
        -INTERCEPT_VELOCITY_LIMIT <= target_velocity.z <= INTERCEPT_VELOCITY_LIMIT,
        projectile_speed <= 100_000_000,
    ensures
        ({
            let rel = (
                target_pos.x - shooter_pos.x as int,
                target_pos.y - shooter_pos.y as int,
                target_pos.z - shooter_pos.z as int,
            );
            let v = (target_velocity.x as int, target_velocity.y as int, target_velocity.z as int);
            let a = v.0 * v.0 + v.1 * v.1 + v.2 * v.2 - projectile_speed * projectile_speed;
            let b = 2 * (rel.0 * v.0 + rel.1 * v.1 + rel.2 * v.2);
            let disc = spec_intercept_disc(rel, v, projectile_speed as int);
            if disc < 0 || a == 0 {
                r is None
            } else {
                let sd = spec_sqrt_floor(disc as nat) as int;
                let t1 = spec_div_trunc_signed((-b + sd) * 1000, 2 * a);
                let t2 = spec_div_trunc_signed((-b - sd) * 1000, 2 * a);
                if t1 > 0 && t1 <= u64::MAX && (t2 <= 0 || t1 <= t2) {
                    r == Some(t1 as u64)
                } else if t2 > 0 && t2 <= u64::MAX {
                    r == Some(t2 as u64)
                } else {
                    r is None
                }
            }
        }),
{
    let rx = target_pos.x - shooter_pos.x;
    let ry = target_pos.y - shooter_pos.y;
    let rz = target_pos.z - shooter_pos.z;
    let v = target_velocity;
    let vxx = wide_mul(v.x, v.x);
    let vyy = wide_mul(v.y, v.y);
    let vzz = wide_mul(v.z, v.z);
    let ps = projectile_speed as i64;
    let pss = wide_mul(ps, ps);
    proof {
        lemma_square_bound(v.x as int, v.x as int, 100_000_000);
        lemma_square_bound(v.y as int, v.y as int, 100_000_000);
        lemma_square_bound(v.z as int, v.z as int, 100_000_000);
        lemma_square_bound(ps as int, ps as int, 100_000_000);
    }
    let vv: i128 = vxx + vyy + vzz;
    let a: i128 = vv - pss;
    let rvx = wide_mul(rx, v.x);
    let rvy = wide_mul(ry, v.y);
    let rvz = wide_mul(rz, v.z);
    proof {
        crate::vecmath::lemma_mul_bound2(rx as int, v.x as int, 4_000_000_000, 100_000_000);
        crate::vecmath::lemma_mul_bound2(ry as int, v.y as int, 4_000_000_000, 100_000_000);
        crate::vecmath::lemma_mul_bound2(rz as int, v.z as int, 4_000_000_000, 100_000_000);
    }
    let rv: i128 = rvx + rvy + rvz;
    let b: i128 = 2 * rv;
    let cxx = wide_mul(rx, rx);
    let cyy = wide_mul(ry, ry);
    let czz = wide_mul(rz, rz);
    proof {
        lemma_square_bound(rx as int, rx as int, 4_000_000_000);
        lemma_square_bound(ry as int, ry as int, 4_000_000_000);
        lemma_square_bound(rz as int, rz as int, 4_000_000_000);
    }
    let c: i128 = cxx + cyy + czz;
    proof {
        assert((rx as int) * (rx as int) >= 0 && (ry as int) * (ry as int) >= 0 && (rz as int) * (
        rz as int) >= 0) by (nonlinear_arith);
    }
    let bb: i128 = square_wide(b);
    let ac: i128 = mul_wide_bounded(a, c);
    let disc: i128 = bb - 4 * ac;
    let ghost rel_g = (
        target_pos.x - shooter_pos.x as int,
        target_pos.y - shooter_pos.y as int,
        target_pos.z - shooter_pos.z as int,
    );
    let ghost v_g = (v.x as int, v.y as int, v.z as int);
    proof {
        assert(4 * ((a as int) * (c as int)) == 4 * (a as int) * (c as int)) by (nonlinear_arith);
        assert(disc == spec_intercept_disc(rel_g, v_g, projectile_speed as int));
    }
    if disc < 0 || a == 0 {
        return None;
    }
    proof {
        crate::vecmath::lemma_sqrt_floor_bounds(disc as nat);
        if spec_sqrt_floor(disc as nat) > 5_000_000_000_000_000_000 {
            assert(spec_sqrt_floor(disc as nat) * spec_sqrt_floor(disc as nat)
                > 25_000_000_000_000_000_000_000_000_000_000_000_000) by (nonlinear_arith)
                requires
                    spec_sqrt_floor(disc as nat) > 5_000_000_000_000_000_000,
            {}
        }
    }
    let sd = crate::vecmath::isqrt(disc as u128) as i128;
    let num1 = (-b + sd) * 1000;
    let num2 = (-b - sd) * 1000;
    let t1 = div_signed(num1, 2 * a);
    let t2 = div_signed(num2, 2 * a);
    let cap = u64::MAX as i128;
    if t1 > 0 && t1 <= cap && (t2 <= 0 || t1 <= t2) {
        Some(t1 as u64)
    } else if t2 > 0 && t2 <= cap {
        Some(t2 as u64)
    } else {
        None
    }
}

/// Bound on a product of two equally bounded factors.
proof fn lemma_square_bound(a: int, b: int, m: int)
    requires
        -m <= a <= m,
        -m <= b <= m,
        0 <= m,
    ensures
        -(m * m) <= a * b <= m * m,
{
    crate::vecmath::lemma_mul_bound2(a, b, m, m);
}

/// The square of a wide value that fits the interception bounds.
fn square_wide(v: i128) -> (r: i128)
    requires
        -3_000_000_000_000_000_000 <= v <= 3_000_000_000_000_000_000,
    ensures
        r == v * v,
        0 <= r <= 9_000_000_000_000_000_000_000_000_000_000_000_000,
{
    proof {
        assert(0 <= (v as int) * (v as int) <= 9_000_000_000_000_000_000_000_000_000_000_000_000)
            by (nonlinear_arith)
            requires
                -3_000_000_000_000_000_000 <= v <= 3_000_000_000_000_000_000,
        {}
    }
    v * v
}

/// A product of two wide values within the interception bounds.
fn mul_wide_bounded(a: i128, b: i128) -> (r: i128)
    requires
        -40_000_000_000_000_000 <= a <= 40_000_000_000_000_000,
        0 <= b <= 48_000_000_000_000_000_000,
    ensures
        r == a * b,
        -2_000_000_000_000_000_000_000_000_000_000_000_000 <= r
            <= 2_000_000_000_000_000_000_000_000_000_000_000_000,
{
    proof {
        assert(-2_000_000_000_000_000_000_000_000_000_000_000_000 <= (a as int) * (b as int)
            <= 2_000_000_000_000_000_000_000_000_000_000_000_000) by (nonlinear_arith)
            requires
                -40_000_000_000_000_000 <= a <= 40_000_000_000_000_000,
                0 <= b <= 48_000_000_000_000_000_000,
        {}
    }
    a * b
}

/// Quotient rounded toward zero for a nonzero divisor of either sign.
fn div_signed(num: i128, den: i128) -> (r: i128)
    requires
        den != 0,
        -10_000_000_000_000_000_000_000 <= num <= 10_000_000_000_000_000_000_000,
        -100_000_000_000_000_000 <= den <= 100_000_000_000_000_000,
    ensures
        r == spec_div_trunc_signed(num as int, den as int),
        -10_000_000_000_000_000_000_000 <= r <= 10_000_000_000_000_000_000_000,
{
    if den > 0 {
        proof {
            lemma_div_trunc_bound(num as int, den as int, 10_000_000_000_000_000_000_000);
        }
        div_trunc_i128(num, den)
    } else {
        proof {
            lemma_div_trunc_bound(-num as int, -den as int, 10_000_000_000_000_000_000_000);
        }
        div_trunc_i128(-num, -den)
    }
}

/// The velocity a sample history defines, as mathematical components.
pub open spec fn spec_velocity_of(h: Seq<MotionSample>) -> (int, int, int)
    recommends
        h.len() >= 2,
{
    let dt = h.last().timestamp - h.first().timestamp;
    (
        spec_rate(h.last().position.x - h.first().position.x, dt),
        spec_rate(h.last().position.y - h.first().position.y, dt),
        spec_rate(h.last().position.z - h.first().position.z, dt),
    )
}

/// The acceleration a sample history defines (zero below three
/// samples), as mathematical components.
pub open spec fn spec_accel_of(h: Seq<MotionSample>) -> (int, int, int) {
    if h.len() < 3 {
        (0int, 0int, 0int)
    } else {
        let mid = h.len() as int / 2;
        let dt1 = h[mid].timestamp - h.first().timestamp;
        let dt2 = h.last().timestamp - h[mid].timestamp;
        (
            spec_accel(h.first().position.x as int, h[mid].position.x as int, h.last().position.x as int, dt1, dt2),
            spec_accel(h.first().position.y as int, h[mid].position.y as int, h.last().position.y as int, dt1, dt2),
            spec_accel(h.first().position.z as int, h[mid].position.z as int, h.last().position.z as int, dt1, dt2),
        )
    }
}

/// The position a sample history extrapolates to after `dt_ms`:
/// `p + v*dt + a*dt^2/2` on the newest sample, as mathematical
/// components.
pub open spec fn spec_predict_of(h: Seq<MotionSample>, dt_ms: int) -> (int, int, int)
    recommends
        h.len() >= 2,
{
    let v = spec_velocity_of(h);
    let a = spec_accel_of(h);
    let base = h.last().position;
    (
        base.x + spec_div_trunc(v.0 * dt_ms, 1000) + spec_div_trunc(a.0 * dt_ms * dt_ms, 2_000_000),
        base.y + spec_div_trunc(v.1 * dt_ms, 1000) + spec_div_trunc(a.1 * dt_ms * dt_ms, 2_000_000),
        base.z + spec_div_trunc(v.2 * dt_ms, 1000) + spec_div_trunc(a.2 * dt_ms * dt_ms, 2_000_000),
    )
}

/// Acceleration of one axis from split-half velocity estimates.
pub open spec fn spec_accel(p0: int, pm: int, pl: int, dt1: int, dt2: int) -> int {
    spec_div_trunc((spec_rate(pl - pm, dt2) - spec_rate(pm - p0, dt1)) * 2000, dt1 + dt2)
}

/// Magnitude bound for truncating division by a positive divisor.
pub proof fn lemma_div_trunc_bound(a: int, b: int, m: int)
    requires
        b >= 1,
        -m <= a <= m,
        0 <= m,
    ensures
        -m <= spec_div_trunc(a, b) <= m,
{
    if a >= 0 {
        assert(0 <= a / b <= a) by (nonlinear_arith)
            requires
                b >= 1,
                a >= 0,
        {}
    } else {
        assert(0 <= (-a) / b <= -a) by (nonlinear_arith)
            requires
                b >= 1,
                a < 0,
        {}
    }
}

/// Scaled finite difference of one axis.
fn rate(dp: i64, dt: i64) -> (r: i64)
    requires
        dt >= 1,
        -4_000_000_000 <= dp <= 4_000_000_000,
    ensures
        r == spec_rate(dp as int, dt as int),
        -4_000_000_000_000 <= r <= 4_000_000_000_000,
{
    proof {
        lemma_div_trunc_bound(dp * 1000, dt as int, 4_000_000_000_000);
    }
    div_trunc(dp * 1000, dt)
}

/// Acceleration of one axis from split-half velocity estimates.
fn accel(p0: i64, pm: i64, pl: i64, dt1: i64, dt2: i64) -> (r: i64)
    requires
        dt1 >= 1,
        dt2 >= 1,
        dt1 + dt2 <= i64::MAX,
        -2_000_000_000 <= p0 <= 2_000_000_000,
        -2_000_000_000 <= pm <= 2_000_000_000,
        -2_000_000_000 <= pl <= 2_000_000_000,
    ensures
        r == spec_accel(p0 as int, pm as int, pl as int, dt1 as int, dt2 as int),
        -16_000_000_000_000_000 <= r <= 16_000_000_000_000_000,
{
    let v1 = rate(pm - p0, dt1);
    let v2 = rate(pl - pm, dt2);
    proof {
        lemma_div_trunc_bound((v2 - v1) * 2000, dt1 + dt2, 16_000_000_000_000_000);
    }
    div_trunc((v2 - v1) * 2000, dt1 + dt2)
}

/// One axis of the kinematic extrapolation `p + v*dt + a*dt^2/2`.
fn predict_axis(p: i64, v: i64, a: i64, dt_ms: u64) -> (r: i64)
    requires
        -COORD_LIMIT <= p <= COORD_LIMIT,
        -4_000_000_000_000 <= v <= 4_000_000_000_000,
        -16_000_000_000_000_000 <= a <= 16_000_000_000_000_000,
        dt_ms <= PREDICT_LIMIT_MS,
    ensures
        r == p + spec_div_trunc(v * dt_ms, 1000) + spec_div_trunc(a * dt_ms * dt_ms, 2_000_000),
{
    let dt = dt_ms as i64;
    let vprod: i128 = wide_mul(v, dt);
    proof {
        crate::vecmath::lemma_mul_bound2(v as int, dt as int, 4_000_000_000_000, 10_000);
        crate::vecmath::lemma_div_trunc_scaled(vprod as int, 1000, 40_000_000_000_000);
    }
    let vel_term = div_trunc_i128(vprod, 1000) as i64;
    let aprod: i128 = wide_mul(a, dt);
    proof {
        crate::vecmath::lemma_mul_bound2(a as int, dt as int, 16_000_000_000_000_000, 10_000);
        crate::vecmath::lemma_mul_bound2(
            aprod as int,
            dt as int,
            160_000_000_000_000_000_000,
            10_000,
        );
    }
    let acc_prod: i128 = aprod * (dt as i128);
    proof {
        crate::vecmath::lemma_div_trunc_scaled(acc_prod as int, 2_000_000, 800_000_000_000_000_000);
    }
    let acc_term = div_trunc_i128(acc_prod, 2_000_000) as i64;
    p + vel_term + acc_term
}

} // verus!
