//! The risk feedback controller.
//!
//! Behavioral statistics are aggregated into timestamped anomaly
//! events; the rolling risk score is the severity sum over a recent
//! window, and the detection level is a step function of that score.
//! Higher levels push strictly more cautious humanization parameters,
//! never less cautious ones.

use vstd::prelude::*;

use crate::estimator::TIME_LIMIT;
use crate::humanize::HumanizationParameters;
use crate::rng::{random_in_range, random_u64};
use sha2::Digest;

verus! {

/// Events older than this are discarded entirely, in milliseconds.
pub const RETENTION_MS: u64 = 3_600_000;

/// Only events within this window count toward the risk score.
pub const RISK_WINDOW_MS: u64 = 600_000;

/// The severity sum is normalized by this divisor.
pub const RISK_DIVISOR: u64 = 10;

/// Most anomaly events kept at once; the oldest leave first.
pub const EVENT_CAP: usize = 1_000_000;

/// Cached randomized delays are reused for this long.
pub const DELAY_CACHE_MS: u64 = 30_000;

/// The randomization seed rotates after this long.
pub const SEED_ROTATION_MS: u64 = 300_000;

/// Ordered detection severity bands.
#[derive(Clone, Copy, Debug, PartialEq, Eq, Structural)]
pub enum DetectionLevel {
    Safe,
    Low,
    Medium,
    High,
    Critical,
}

/// Kinds of behavioral anomaly the controller tracks.
#[derive(Clone, Copy, Debug, PartialEq, Eq, Structural)]
pub enum AnomalyType {
    PerfectAccuracy,
    InhumanReactionTime,
    ImpossibleFlick,
    SuspiciousPattern,
    PerformanceSpike,
    TooManyHeadshots,
    UnrealisticTracking,
    StatisticalOutlier,
}

/// Position of a level in the severity order.
pub open spec fn spec_level_index(l: DetectionLevel) -> int {
    match l {
        DetectionLevel::Safe => 0,
        DetectionLevel::Low => 1,
        DetectionLevel::Medium => 2,
        DetectionLevel::High => 3,
        DetectionLevel::Critical => 4,
    }
}

/// The detection level a risk score falls into, by fixed bands.
pub open spec fn spec_level_of(score_milli: int) -> DetectionLevel {
    if score_milli <= 200 {
        DetectionLevel::Safe
    } else if score_milli <= 400 {
        DetectionLevel::Low
    } else if score_milli <= 700 {
        DetectionLevel::Medium
    } else if score_milli <= 900 {
        DetectionLevel::High
    } else {
        DetectionLevel::Critical
    }
}

/// The banding is monotone: a higher score never maps to a lower level.
pub proof fn lemma_level_monotone(s1: int, s2: int)
    requires
        s1 <= s2,
    ensures
        spec_level_index(spec_level_of(s1)) <= spec_level_index(spec_level_of(s2)),
{
}

/// The detection level of a risk score.
pub fn detection_level_of(score_milli: u64) -> (r: DetectionLevel)
    ensures
        r == spec_level_of(score_milli as int),
{
    if score_milli <= 200 {
        DetectionLevel::Safe
    } else if score_milli <= 400 {
        DetectionLevel::Low
    } else if score_milli <= 700 {
        DetectionLevel::Medium
    } else if score_milli <= 900 {
        DetectionLevel::High
    } else {
        DetectionLevel::Critical
    }
}

/// One recorded anomaly.
#[derive(Clone, Debug)]
pub struct AnomalyEvent {
    pub kind: AnomalyType,
    pub timestamp: u64,
    pub severity_milli: u32,
    pub auto_corrected: bool,
}

impl AnomalyEvent {
    pub open spec fn wf(self) -> bool {
        self.severity_milli <= 1000 && self.timestamp <= TIME_LIMIT
    }
}

/// Anomaly events are well formed and ordered oldest first.
pub open spec fn events_wf(s: Seq<AnomalyEvent>) -> bool {
    &&& forall|i: int| 0 <= i < s.len() ==> (#[trigger] s[i]).wf()
    &&& forall|i: int, j: int|
        #![trigger s[i], s[j]]
        0 <= i < j < s.len() ==> s[i].timestamp <= s[j].timestamp
}

/// The severity sum of the events within the risk window at `now`.
pub open spec fn spec_recent_sum(s: Seq<AnomalyEvent>, now: int) -> int
    decreases s.len(),
{
    if s.len() == 0 {
        0
    } else {
        (if s.first().timestamp + RISK_WINDOW_MS > now {
            s.first().severity_milli as int
        } else {
            0
        }) + spec_recent_sum(s.drop_first(), now)
    }
}

/// Appending an event adds exactly its windowed contribution.
pub proof fn lemma_recent_sum_push(s: Seq<AnomalyEvent>, e: AnomalyEvent, now: int)
    ensures
        spec_recent_sum(s.push(e), now) == spec_recent_sum(s, now) + (
        if e.timestamp + RISK_WINDOW_MS > now {
            e.severity_milli as int
        } else {
            0
        }),
    decreases s.len(),
{
    if s.len() == 0 {
        assert(s.push(e).first() == e);
        assert(s.push(e).drop_first() =~= Seq::<AnomalyEvent>::empty());
        assert(spec_recent_sum(s.push(e).drop_first(), now) == 0);
    } else {
        assert(s.push(e).first() == s.first());
        assert(s.push(e).drop_first() =~= s.drop_first().push(e));
        lemma_recent_sum_push(s.drop_first(), e, now);
    }
}

/// Dropping events past retention from the front leaves the windowed
/// sum unchanged: anything past retention is past the window too.
pub open spec fn spec_drop_expired(s: Seq<AnomalyEvent>, now: int) -> Seq<AnomalyEvent>
    decreases s.len(),
{
    if s.len() == 0 {
        s
    } else if s.first().timestamp + RETENTION_MS > now {
        s
    } else {
        spec_drop_expired(s.drop_first(), now)
    }
}

pub proof fn lemma_drop_expired_sum(s: Seq<AnomalyEvent>, now: int)
    ensures
        spec_recent_sum(spec_drop_expired(s, now), now) == spec_recent_sum(s, now),
    decreases s.len(),
{
    if s.len() > 0 && !(s.first().timestamp + RETENTION_MS > now) {
        lemma_drop_expired_sum(s.drop_first(), now);
    }
}

/// The windowed sum never goes negative.
pub proof fn lemma_recent_sum_nonneg(s: Seq<AnomalyEvent>, now: int)
    ensures
        spec_recent_sum(s, now) >= 0,
    decreases s.len(),
{
    if s.len() > 0 {
        lemma_recent_sum_nonneg(s.drop_first(), now);
    }
}

/// Dropping expired events never lengthens the store.
pub proof fn lemma_drop_expired_len(s: Seq<AnomalyEvent>, now: int)
    ensures
        spec_drop_expired(s, now).len() <= s.len(),
    decreases s.len(),
{
    if s.len() > 0 && !(s.first().timestamp + RETENTION_MS > now) {
        lemma_drop_expired_len(s.drop_first(), now);
    }
}

/// With well-formed events the windowed sum is bounded by the count.
pub proof fn lemma_recent_sum_bound(s: Seq<AnomalyEvent>, now: int)
    requires
        events_wf(s),
    ensures
        spec_recent_sum(s, now) <= s.len() * 1000,
    decreases s.len(),
{
    if s.len() > 0 {
        assert(events_wf(s.drop_first()));
        lemma_recent_sum_bound(s.drop_first(), now);
        assert(s.len() * 1000 == 1000 + s.drop_first().len() * 1000) by (nonlinear_arith)
            requires
                s.len() == s.drop_first().len() + 1,
        {}
    }
}

/// The anomaly store one batch of session statistics leaves behind:
/// a perfect-accuracy event, then an excessive-headshot event, each
/// appended and pruned only when its condition holds.
pub open spec fn spec_stats_events(
    s: Seq<AnomalyEvent>,
    perfect: bool,
    headshot_heavy: bool,
    now: int,
) -> Seq<AnomalyEvent> {
    let s1 = if perfect {
        spec_drop_expired(
            s.push(
                AnomalyEvent {
                    kind: AnomalyType::PerfectAccuracy,
                    timestamp: now as u64,
                    severity_milli: 300,
                    auto_corrected: false,
                },
            ),
            now,
        )
    } else {
        s
    };
    if headshot_heavy {
        spec_drop_expired(
            s1.push(
                AnomalyEvent {
                    kind: AnomalyType::TooManyHeadshots,
                    timestamp: now as u64,
                    severity_milli: 400,
                    auto_corrected: false,
                },
            ),
            now,
        )
    } else {
        s1
    }
}

/// Rolling counts of shots, hits and timing oddities for one session.
#[derive(Clone, Debug)]
pub struct SessionStatistics {
    pub session_start: u64,
    pub total_shots: u32,
    pub total_hits: u32,
    pub headshots: u32,
    pub perfect_shots: u32,
    pub impossible_shots: u32,
    pub inhuman_reactions: u32,
    pub aimbot_usage_ms: u64,
    pub peak_performance_streak_ms: Vec<u64>,
}

impl SessionStatistics {
    pub fn new(now: u64) -> (r: SessionStatistics)
        ensures
            r.session_start == now,
            r.total_shots == 0 && r.total_hits == 0 && r.headshots == 0,
            r.perfect_shots == 0 && r.impossible_shots == 0 && r.inhuman_reactions == 0,
            r.aimbot_usage_ms == 0,
            r.peak_performance_streak_ms@.len() == 0,
    {
        SessionStatistics {
            session_start: now,
            total_shots: 0,
            total_hits: 0,
            headshots: 0,
            perfect_shots: 0,
            impossible_shots: 0,
            inhuman_reactions: 0,
            aimbot_usage_ms: 0,
            peak_performance_streak_ms: Vec::new(),
        }
    }
}

/// Behavior samples the analyses draw on.
#[derive(Clone, Debug)]
pub struct BehaviorPatterns {
    pub reaction_times_ms: Vec<u64>,
    pub accuracy_history_milli: Vec<u32>,
    pub headshot_ratios_milli: Vec<u32>,
    pub pattern_risk_milli: u32,
}

impl BehaviorPatterns {
    pub fn new() -> (r: BehaviorPatterns)
        ensures
            r.reaction_times_ms@.len() == 0,
            r.accuracy_history_milli@.len() == 0,
            r.headshot_ratios_milli@.len() == 0,
            r.pattern_risk_milli == 0,
    {
        BehaviorPatterns {
            reaction_times_ms: Vec::new(),
            accuracy_history_milli: Vec::new(),
            headshot_ratios_milli: Vec::new(),
            pattern_risk_milli: 0,
        }
    }
}

/// A memory region whose stored bytes can be masked.
#[derive(Clone, Debug)]
pub struct MemorySignature {
    pub name: String,
    pub original_bytes: Vec<u8>,
    pub modified_bytes: Vec<u8>,
    pub address: usize,
    pub last_modified: u64,
    pub obfuscated: bool,
}

/// Stored digests to compare the running image against.
#[derive(Clone, Debug)]
pub struct CodeIntegrity {
    pub checksums: Vec<(String, Vec<u8>)>,
    pub last_check: u64,
    pub integrity_violations: u32,
    pub self_modification_enabled: bool,
}

impl CodeIntegrity {
    pub fn new(now: u64) -> (r: CodeIntegrity)
        ensures
            r.checksums@.len() == 0,
            r.last_check == now,
            r.integrity_violations == 0,
            !r.self_modification_enabled,
    {
        CodeIntegrity {
            checksums: Vec::new(),
            last_check: now,
            integrity_violations: 0,
            self_modification_enabled: false,
        }
    }
}

/// Named result of the SHA-256 digest: a pure function of its input.
pub uninterp spec fn sha256_of(data: Seq<u8>) -> Seq<u8>;

/// Relies on sha2's `Sha256::digest`: the 32-byte digest depends on
/// the input bytes alone.
#[verifier::external_body]
fn sha256_digest(data: &[u8]) -> (r: Vec<u8>)
    ensures
        r@ == sha256_of(data@),
        r@.len() == 32,
{
    sha2::Sha256::digest(data).to_vec()
}

/// The decimal digit characters of a number, as bytes.
pub open spec fn spec_decimal_bytes(n: int) -> Seq<u8>
    decreases n,
{
    if n < 10 {
        seq![(48 + n) as u8]
    } else {
        spec_decimal_bytes(n / 10).push((48 + n % 10) as u8)
    }
}

/// Renders a number in decimal ASCII.
pub fn decimal_bytes(n: u64) -> (r: Vec<u8>)
    ensures
        r@ == spec_decimal_bytes(n as int),
    decreases n,
{
    if n < 10 {
        let mut v: Vec<u8> = Vec::new();
        v.push(48 + (n as u8));
        proof {
            assert(v@ =~= spec_decimal_bytes(n as int));
        }
        v
    } else {
        let mut v = decimal_bytes(n / 10);
        v.push(48 + ((n % 10) as u8));
        v
    }
}

/// Every byte of a sequence masked with one key byte.
pub open spec fn spec_xor_bytes(s: Seq<u8>, key: u8) -> Seq<u8> {
    s.map(|i: int, b: u8| b ^ key)
}

/// Masks a byte string with one key byte.
pub fn xor_bytes(data: &Vec<u8>, key: u8) -> (r: Vec<u8>)
    ensures
        r@ == spec_xor_bytes(data@, key),
{
    let mut out: Vec<u8> = Vec::new();
    let mut i: usize = 0;
    while i < data.len()
        invariant
            i <= data@.len(),
            out@ =~= spec_xor_bytes(data@, key).subrange(0, i as int),
        decreases data@.len() - i,
    {
        let ghost prev = out@;
        out.push(data[i] ^ key);
        proof {
            assert(out@ =~= spec_xor_bytes(data@, key).subrange(0, i + 1));
        }
        i = i + 1;
    }
    proof {
        assert(out@ =~= spec_xor_bytes(data@, key));
    }
    out
}

/// Equality of two byte strings.
pub fn bytes_eq(a: &Vec<u8>, b: &Vec<u8>) -> (r: bool)
    ensures
        r == (a@ == b@),
{
    if a.len() != b.len() {
        return false;
    }
    let mut i: usize = 0;
    while i < a.len()
        invariant
            a@.len() == b@.len(),
            i <= a@.len(),
            forall|k: int| 0 <= k < i ==> a@[k] == b@[k],
        decreases a@.len() - i,
    {
        if a[i] != b[i] {
            return false;
        }
        i = i + 1;
    }
    proof {
        assert(a@ =~= b@);
    }
    true
}

/// The per-level variation factor of randomized delays, per-mille.
pub open spec fn spec_level_variation(l: DetectionLevel) -> int {
    match l {
        DetectionLevel::Safe => 100,
        DetectionLevel::Low => 200,
        DetectionLevel::Medium => 400,
        DetectionLevel::High => 600,
        DetectionLevel::Critical => 1000,
    }
}

/// The per-level floor of the miss chance, per-mille.
pub open spec fn spec_level_miss_floor(l: DetectionLevel) -> int {
    match l {
        DetectionLevel::Safe => 20,
        DetectionLevel::Low => 40,
        DetectionLevel::Medium => 80,
        DetectionLevel::High => 120,
        DetectionLevel::Critical => 150,
    }
}

/// Both feedback knobs grow with the level: a higher detection level is
/// never less cautious.
pub proof fn lemma_level_feedback_monotone(l1: DetectionLevel, l2: DetectionLevel)
    requires
        spec_level_index(l1) <= spec_level_index(l2),
    ensures
        spec_level_variation(l1) <= spec_level_variation(l2),
        spec_level_miss_floor(l1) <= spec_level_miss_floor(l2),
{
}

/// Pushes a detection level into the humanization parameters: the miss
/// chance is raised to the level's floor and the reaction window is
/// widened by the level's variation factor; nothing is ever lowered.
pub fn apply_level_feedback(params: &HumanizationParameters, level: DetectionLevel) -> (r:
    HumanizationParameters)
    requires
        params.wf(),
        params.reaction_time_max_ms <= 1_000_000,
    ensures
        r.wf(),
        r.miss_chance_milli as int == if params.miss_chance_milli as int >= spec_level_miss_floor(
            level,
        ) {
            params.miss_chance_milli as int
        } else {
            spec_level_miss_floor(level)
        },
        r.reaction_time_max_ms as int == if params.reaction_time_max_ms
            + params.reaction_time_max_ms * spec_level_variation(level) / 1000 > 1_000_000 {
            1_000_000int
        } else {
            params.reaction_time_max_ms + params.reaction_time_max_ms * spec_level_variation(
                level,
            ) / 1000
        },
        r.reaction_time_min_ms == params.reaction_time_min_ms,
        r.miss_chance_milli >= params.miss_chance_milli,
        r.reaction_time_max_ms >= params.reaction_time_max_ms,
        r.reaction_time_max_ms <= 1_000_000,
        // Nothing else moves.
        r == (HumanizationParameters {
            miss_chance_milli: r.miss_chance_milli,
            reaction_time_max_ms: r.reaction_time_max_ms,
            ..*params
        }),
{
    let floor: u32 = match level {
        DetectionLevel::Safe => 20,
        DetectionLevel::Low => 40,
        DetectionLevel::Medium => 80,
        DetectionLevel::High => 120,
        DetectionLevel::Critical => 150,
    };
    let variation: u64 = match level {
        DetectionLevel::Safe => 100,
        DetectionLevel::Low => 200,
        DetectionLevel::Medium => 400,
        DetectionLevel::High => 600,
        DetectionLevel::Critical => 1000,
    };
    let miss = if params.miss_chance_milli >= floor {
        params.miss_chance_milli
    } else {
        floor
    };
    proof {
        assert(params.reaction_time_max_ms * variation <= 1_000_000_000) by (nonlinear_arith)
            requires
                0 <= params.reaction_time_max_ms <= 1_000_000,
                0 <= variation <= 1000,
        {}
        assert(params.reaction_time_max_ms * (variation as int) / 1000 <= 1_000_000_000)
            by (nonlinear_arith)
            requires
                0 <= params.reaction_time_max_ms * (variation as int) <= 1_000_000_000,
        {}
    }
    let widened_raw = params.reaction_time_max_ms + params.reaction_time_max_ms * variation
        / 1000;
    let widened = if widened_raw > 1_000_000 {
        1_000_000
    } else {
        widened_raw
    };
    let mut r = *params;
    r.miss_chance_milli = miss;
    r.reaction_time_max_ms = widened;
    r
}

/// All anomaly events and their rolling score.
#[derive(Clone, Debug)]
pub struct AnomalyTracker {
    pub anomalies: Vec<AnomalyEvent>,
    pub total_risk_score_milli: u64,
}

impl AnomalyTracker {
    pub open spec fn wf(&self, now: int) -> bool {
        &&& events_wf(self.anomalies@)
        &&& self.anomalies@.len() <= EVENT_CAP
        &&& forall|i: int|
            0 <= i < self.anomalies@.len() ==> (#[trigger] self.anomalies@[i]).timestamp <= now
        &&& self.total_risk_score_milli as int == spec_recent_sum(self.anomalies@, now) / (
        RISK_DIVISOR as int)
    }

    pub fn new() -> (r: AnomalyTracker)
        ensures
            forall|now: int| 0 <= now ==> r.wf(now),
            r.anomalies@.len() == 0,
            r.total_risk_score_milli == 0,
    {
        let r = AnomalyTracker { anomalies: Vec::new(), total_risk_score_milli: 0 };
        proof {
            assert forall|now: int| 0 <= now implies r.wf(now) by {
                assert(spec_recent_sum(r.anomalies@, now) == 0);
            }
        }
        r
    }

    /// Records one anomaly at `now`: events past retention leave, the
    /// event is appended, and the rolling score is recomputed over the
    /// recent window.  The score never comes out below the recomputed
    /// score without the new event: injected severity never lowers risk.
    pub fn record(&mut self, kind: AnomalyType, severity_milli: u32, now: u64)
        requires
            old(self).wf(now as int),
            severity_milli <= 1000,
            now <= TIME_LIMIT,
        ensures
            final(self).wf(now as int),
            old(self).anomalies@.len() < EVENT_CAP ==> final(self).anomalies@
                == spec_drop_expired(
                old(self).anomalies@.push(
                    AnomalyEvent { kind, timestamp: now, severity_milli, auto_corrected: false },
                ),
                now as int,
            ),
            old(self).anomalies@.len() < EVENT_CAP ==> final(self).total_risk_score_milli as int
                == (spec_recent_sum(old(self).anomalies@, now as int) + severity_milli) / (
            RISK_DIVISOR as int),
            old(self).anomalies@.len() < EVENT_CAP ==> final(self).total_risk_score_milli >= old(
                self,
            ).total_risk_score_milli,
    {
        if self.anomalies.len() >= EVENT_CAP {
            let ghost before = self.anomalies@;
            self.anomalies.remove(0);
            proof {
                assert(self.anomalies@ =~= before.drop_first());
                assert(events_wf(before.drop_first()));
            }
        }
        let ghost trimmed = self.anomalies@;
        let e = AnomalyEvent { kind, timestamp: now, severity_milli, auto_corrected: false };
        let ghost orig = old(self).anomalies@;
        self.anomalies.push(e);
        proof {
            let s = self.anomalies@;
            assert forall|i: int, j: int|
                #![trigger s[i], s[j]]
                0 <= i < j < s.len() implies s[i].timestamp <= s[j].timestamp by {
                if j < s.len() - 1 {
                    assert(trimmed[i].timestamp <= trimmed[j].timestamp);
                } else {
                    assert(s[i] == trimmed[i]);
                }
            }
            if orig.len() < EVENT_CAP {
                assert(trimmed == orig);
            }
            lemma_recent_sum_push(trimmed, e, now as int);
        }
        let ghost pushed = self.anomalies@;
        while self.anomalies.len() > 0 && self.anomalies[0].timestamp + RETENTION_MS <= now
            invariant
                self.anomalies@.len() <= pushed.len(),
                events_wf(self.anomalies@),
                forall|i: int|
                    0 <= i < self.anomalies@.len() ==> (#[trigger] self.anomalies@[i]).timestamp
                        <= now,
                now <= TIME_LIMIT,
                spec_drop_expired(pushed, now as int) == spec_drop_expired(
                    self.anomalies@,
                    now as int,
                ),
                spec_recent_sum(self.anomalies@, now as int) == spec_recent_sum(
                    pushed,
                    now as int,
                ),
            decreases self.anomalies@.len(),
        {
            let ghost before = self.anomalies@;
            self.anomalies.remove(0);
            proof {
                assert(self.anomalies@ =~= before.drop_first());
                assert(events_wf(before.drop_first()));
            }
        }
        proof {
            assert(spec_drop_expired(self.anomalies@, now as int) =~= self.anomalies@);
            assert(self.anomalies@.len() <= pushed.len());
        }
        // Recompute the rolling score over the recent window.
        let ghost kept = self.anomalies@;
        let mut sum: u64 = 0;
        let mut i: usize = 0;
        proof {
            assert(kept.skip(0) =~= kept);
            lemma_recent_sum_nonneg(kept, now as int);
        }
        while i < self.anomalies.len()
            invariant
                i <= kept.len(),
                kept.len() <= EVENT_CAP + 1,
                kept == self.anomalies@,
                events_wf(kept),
                now <= TIME_LIMIT,
                sum + spec_recent_sum(kept.skip(i as int), now as int) == spec_recent_sum(
                    kept,
                    now as int,
                ),
                sum <= 1000 * i,
            decreases kept.len() - i,
        {
            proof {
                assert(kept.skip(i as int).first() == kept[i as int]);
                assert(kept.skip(i as int).drop_first() =~= kept.skip(i + 1));
                lemma_recent_sum_nonneg(kept.skip(i + 1), now as int);
            }
            let ev = &self.anomalies[i];
            if ev.timestamp + RISK_WINDOW_MS > now {
                sum = sum + (ev.severity_milli as u64);
            }
            i = i + 1;
        }
        proof {
            assert(kept.skip(i as int).len() == 0);
            assert(spec_recent_sum(kept.skip(i as int), now as int) == 0);
            lemma_drop_expired_sum(pushed, now as int);
            lemma_recent_sum_nonneg(trimmed, now as int);
            assert((spec_recent_sum(trimmed, now as int)) / (RISK_DIVISOR as int) <= (
            spec_recent_sum(trimmed, now as int) + severity_milli) / (RISK_DIVISOR as int))
                by (nonlinear_arith)
                requires
                    spec_recent_sum(trimmed, now as int) >= 0,
                    severity_milli >= 0,
            {}
        }
        self.total_risk_score_milli = sum / RISK_DIVISOR;
    }
}


/// Sum of a numeric history.
pub open spec fn spec_sum_u64(s: Seq<u64>) -> int
    decreases s.len(),
{
    if s.len() == 0 {
        0
    } else {
        s.first() + spec_sum_u64(s.drop_first())
    }
}

/// The sum of a bounded history is bounded.
pub proof fn lemma_sum_u64_bound(s: Seq<u64>, m: int)
    requires
        forall|i: int| 0 <= i < s.len() ==> (#[trigger] s[i]) <= m,
        0 <= m,
    ensures
        0 <= spec_sum_u64(s) <= s.len() * m,
    decreases s.len(),
{
    if s.len() == 0 {
        assert(s.len() * m == 0) by (nonlinear_arith)
            requires
                s.len() == 0,
        {}
    } else {
        assert(forall|i: int|
            0 <= i < s.drop_first().len() ==> (#[trigger] s.drop_first()[i]) <= m);
        lemma_sum_u64_bound(s.drop_first(), m);
        assert(s.len() * m == m + s.drop_first().len() * m) by (nonlinear_arith)
            requires
                s.len() == s.drop_first().len() + 1,
        {}
    }
}

/// The orchestrating risk controller.
#[derive(Debug)]
pub struct StealthManager {
    pub detection_level: DetectionLevel,
    pub last_detection_check: u64,
    pub behavior_patterns: BehaviorPatterns,
    pub randomization_seed: u64,
    pub last_seed_rotation: u64,
    pub random_delays: Vec<(String, u64)>,
    pub memory_signatures: Vec<MemorySignature>,
    pub code_integrity: CodeIntegrity,
    pub session_stats: SessionStatistics,
    pub anomaly_tracker: AnomalyTracker,
}

/// Reaction times are stored bounded so averages stay exact.
pub const REACTION_SAMPLE_LIMIT_MS: u64 = 100_000;

impl StealthManager {
    pub open spec fn wf(&self, now: int) -> bool {
        &&& self.anomaly_tracker.wf(now)
        &&& self.last_detection_check <= now
        &&& self.last_seed_rotation <= now
        &&& self.behavior_patterns.reaction_times_ms@.len() <= 1_000_000
        &&& forall|i: int|
            0 <= i < self.behavior_patterns.reaction_times_ms@.len() ==> (
            #[trigger] self.behavior_patterns.reaction_times_ms@[i]) <= REACTION_SAMPLE_LIMIT_MS
        &&& forall|i: int|
            0 <= i < self.behavior_patterns.accuracy_history_milli@.len() ==> (
            #[trigger] self.behavior_patterns.accuracy_history_milli@[i]) <= 1000
    }

    /// A fresh controller at the safe level, with a fresh seed.
    pub fn new(now: u64) -> (r: StealthManager)
        requires
            now <= TIME_LIMIT,
        ensures
            r.wf(now as int),
            r.detection_level == DetectionLevel::Safe,
            r.last_detection_check == now,
            r.last_seed_rotation == now,
            r.random_delays@.len() == 0,
            r.memory_signatures@.len() == 0,
            r.anomaly_tracker.anomalies@.len() == 0,
            r.session_stats.total_shots == 0,
    {
        StealthManager {
            detection_level: DetectionLevel::Safe,
            last_detection_check: now,
            behavior_patterns: BehaviorPatterns::new(),
            randomization_seed: random_u64(),
            last_seed_rotation: now,
            random_delays: Vec::new(),
            memory_signatures: Vec::new(),
            code_integrity: CodeIntegrity::new(now),
            session_stats: SessionStatistics::new(now),
            anomaly_tracker: AnomalyTracker::new(),
        }
    }

    /// The behavioral risk contribution, per-mille: too-fast average
    /// reactions and an unrealistic recent headshot ratio add risk.
    pub fn analyze_behavior_risk(&self) -> (r: u64)
        requires
            self.behavior_patterns.reaction_times_ms@.len() <= 1_000_000,
            forall|i: int|
                0 <= i < self.behavior_patterns.reaction_times_ms@.len() ==> (
                #[trigger] self.behavior_patterns.reaction_times_ms@[i])
                    <= REACTION_SAMPLE_LIMIT_MS,
        ensures
            r == spec_behavior_risk(
                self.behavior_patterns.reaction_times_ms@,
                self.behavior_patterns.headshot_ratios_milli@,
            ),
            r <= 700,
    {
        let rt = &self.behavior_patterns.reaction_times_ms;
        let ghost rseq = rt@;
        let mut total: u64 = 0;
        let mut i: usize = 0;
        proof {
            assert(rseq.skip(0) =~= rseq);
            lemma_sum_u64_bound(rseq, REACTION_SAMPLE_LIMIT_MS as int);
        }
        while i < rt.len()
            invariant
                i <= rseq.len(),
                rseq.len() <= 1_000_000,
                rseq == rt@,
                forall|k: int|
                    0 <= k < rseq.len() ==> (#[trigger] rseq[k]) <= REACTION_SAMPLE_LIMIT_MS,
                total + spec_sum_u64(rseq.skip(i as int)) == spec_sum_u64(rseq),
                total <= i * (REACTION_SAMPLE_LIMIT_MS as int),
            decreases rseq.len() - i,
        {
            proof {
                assert(rseq.skip(i as int).first() == rseq[i as int]);
                assert(rseq.skip(i as int).drop_first() =~= rseq.skip(i + 1));
                lemma_sum_u64_bound(rseq.skip(i + 1), REACTION_SAMPLE_LIMIT_MS as int);
                assert((i + 1) * (REACTION_SAMPLE_LIMIT_MS as int) == i * (
                REACTION_SAMPLE_LIMIT_MS as int) + REACTION_SAMPLE_LIMIT_MS) by (nonlinear_arith);
                assert(i * (REACTION_SAMPLE_LIMIT_MS as int) <= 100_000 * 0x1_0000_0000_0000_0000int)
                    by (nonlinear_arith)
                    requires
                        0 <= i <= 0x1_0000_0000_0000_0000int,
                {}
            }
            proof {
                assert(total <= 100_000_000_000) by (nonlinear_arith)
                    requires
                        total <= i * (REACTION_SAMPLE_LIMIT_MS as int),
                        0 <= i <= 1_000_000,
                        REACTION_SAMPLE_LIMIT_MS == 100_000u64,
                {}
            }
            total = total + rt[i];
            i = i + 1;
        }
        proof {
            assert(rseq.skip(i as int).len() == 0);
        }
        let n = rt.len();
        let avg = if n == 0 {
            0
        } else {
            total / (n as u64)
        };
        let fast: u64 = if n > 0 && avg < 100 {
            300
        } else {
            0
        };
        let hs = &self.behavior_patterns.headshot_ratios_milli;
        let m = hs.len();
        let ratio_risk: u64 = if m > 0 && hs[m - 1] > 800 {
            400
        } else {
            0
        };
        fast + ratio_risk
    }

    /// The statistical risk contribution, per-mille: near-perfect
    /// session accuracy over many shots, impossible shots and inhuman
    /// reactions add risk.
    pub fn analyze_statistical_risk(&self) -> (r: u64)
        ensures
            r == spec_statistical_risk(&self.session_stats),
            r <= 1500,
    {
        let st = &self.session_stats;
        let mut risk: u64 = 0;
        if st.total_shots > 50 && (st.total_hits as u64) * 1000 > (st.total_shots as u64) * 950 {
            risk = risk + 500;
        }
        if st.impossible_shots > 0 {
            risk = risk + 600;
        }
        if st.inhuman_reactions > 5 {
            risk = risk + 400;
        }
        risk
    }

    /// The performance risk contribution, per-mille: long perfect
    /// streaks and a high headshot share of hits add risk.
    pub fn analyze_performance_risk(&self) -> (r: u64)
        ensures
            r == spec_performance_risk(&self.session_stats),
            r <= 500,
    {
        let st = &self.session_stats;
        let streaks = &st.peak_performance_streak_ms;
        let mut has_long = false;
        let mut i: usize = 0;
        while i < streaks.len()
            invariant
                i <= streaks@.len(),
                has_long == spec_has_long_streak(streaks@.subrange(0, i as int)),
            decreases streaks@.len() - i,
        {
            let ghost pre = streaks@.subrange(0, i as int);
            if streaks[i] > 300_000 {
                has_long = true;
            }
            proof {
                assert(streaks@.subrange(0, i + 1) =~= pre.push(streaks@[i as int]));
                lemma_has_long_push(pre, streaks@[i as int]);
            }
            i = i + 1;
        }
        proof {
            assert(streaks@.subrange(0, streaks@.len() as int) =~= streaks@);
        }
        let streak_risk: u64 = if has_long {
            200
        } else {
            0
        };
        let hs_risk: u64 = if st.total_hits > 0 && (st.headshots as u64) * 1000 > (
        st.total_hits as u64) * 700 {
            300
        } else {
            0
        };
        streak_risk + hs_risk
    }

    /// The usage risk contribution, per-mille: very long sessions and a
    /// high pattern risk add risk.
    pub fn analyze_usage_risk(&self) -> (r: u64)
        ensures
            r == spec_usage_risk(&self.session_stats, &self.behavior_patterns),
            r <= 500,
    {
        let mut risk: u64 = 0;
        if self.session_stats.aimbot_usage_ms > 7_200_000 {
            risk = risk + 200;
        }
        if self.behavior_patterns.pattern_risk_milli > 700 {
            risk = risk + 300;
        }
        risk
    }

    /// Re-derives the detection level, at most once per five seconds:
    /// a step function of the rolling windowed anomaly score combined
    /// with the four behavioral analyses.  A larger anomaly score never
    /// yields a lower level.
    pub fn analyze_detection_risk(&mut self, now: u64) -> (r: DetectionLevel)
        requires
            old(self).wf(now as int),
        ensures
            final(self).wf(now as int),
            r == final(self).detection_level,
            now - old(self).last_detection_check < 5_000 ==> *final(self) == *old(self),
            now - old(self).last_detection_check >= 5_000 ==> {
                &&& final(self).detection_level == spec_level_of(
                    old(self).anomaly_tracker.total_risk_score_milli + spec_behavior_risk(
                        old(self).behavior_patterns.reaction_times_ms@,
                        old(self).behavior_patterns.headshot_ratios_milli@,
                    ) + spec_statistical_risk(&old(self).session_stats) + spec_performance_risk(
                        &old(self).session_stats,
                    ) + spec_usage_risk(&old(self).session_stats, &old(self).behavior_patterns),
                )
                &&& final(self).last_detection_check == now
                &&& *final(self) == (StealthManager {
                    detection_level: final(self).detection_level,
                    last_detection_check: now,
                    ..*old(self)
                })
            },
    {
        if now - self.last_detection_check < 5_000 {
            return self.detection_level;
        }
        proof {
            lemma_recent_sum_bound(self.anomaly_tracker.anomalies@, now as int);
            lemma_recent_sum_nonneg(self.anomaly_tracker.anomalies@, now as int);
            assert(self.anomaly_tracker.anomalies@.len() * 1000 <= 1_000_000_000)
                by (nonlinear_arith)
                requires
                    self.anomaly_tracker.anomalies@.len() <= 1_000_000,
            {}
        }
        let score = self.anomaly_tracker.total_risk_score_milli + self.analyze_behavior_risk()
            + self.analyze_statistical_risk() + self.analyze_performance_risk()
            + self.analyze_usage_risk();
        self.detection_level = detection_level_of(score);
        self.last_detection_check = now;
        self.detection_level
    }

    /// Records a potential anomaly.
    pub fn record_anomaly(&mut self, kind: AnomalyType, severity_milli: u32, now: u64)
        requires
            old(self).wf(now as int),
            severity_milli <= 1000,
            now <= TIME_LIMIT,
        ensures
            final(self).wf(now as int),
            old(self).anomaly_tracker.anomalies@.len() < EVENT_CAP
                ==> final(self).anomaly_tracker.total_risk_score_milli
                >= old(self).anomaly_tracker.total_risk_score_milli,
    {
        self.anomaly_tracker.record(kind, severity_milli, now);
    }

    /// A randomized delay for an action: a cached value while the cache
    /// is fresh, otherwise a draw whose spread widens with the
    /// detection level, remembered for next time.
    pub fn get_randomized_delay(&mut self, action: &String, base_delay_ms: u64, now: u64) -> (r:
        u64)
        requires
            old(self).wf(now as int),
            base_delay_ms <= crate::humanize::DELAY_LIMIT_MS,
        ensures
            final(self).wf(now as int),
            final(self).detection_level == old(self).detection_level,
            ({
                let vf = spec_level_variation(old(self).detection_level);
                let lo = base_delay_ms * (1000 - vf) / 1000;
                let hi = base_delay_ms * (1000 + 2 * vf) / 1000;
                (exists|i: int|
                    0 <= i < old(self).random_delays@.len() && (
                    #[trigger] old(self).random_delays@[i]).0@ == action@
                    && r == old(self).random_delays@[i].1
                    && now - old(self).last_seed_rotation < DELAY_CACHE_MS)
                    || lo <= r <= hi
            }),
    {
        if now - self.last_seed_rotation < DELAY_CACHE_MS {
            let n = self.random_delays.len();
            let mut i: usize = 0;
            while i < n
                invariant
                    *self == *old(self),
                    self.wf(now as int),
                    now - self.last_seed_rotation < DELAY_CACHE_MS,
                    n == self.random_delays@.len(),
                    i <= n,
                decreases n - i,
            {
                if crate::weapons::str_eq(self.random_delays[i].0.as_str(), action.as_str()) {
                    proof {
                        assert(self.random_delays@[i as int].0@ == action@);
                    }
                    return self.random_delays[i].1;
                }
                i = i + 1;
            }
        }
        let vf: u64 = match self.detection_level {
            DetectionLevel::Safe => 100,
            DetectionLevel::Low => 200,
            DetectionLevel::Medium => 400,
            DetectionLevel::High => 600,
            DetectionLevel::Critical => 1000,
        };
        proof {
            assert(base_delay_ms * (1000 - vf) <= 10_000_000_000_000
                && base_delay_ms * (1000 + 2 * vf) <= 30_000_000_000_000 && base_delay_ms * (1000
                - vf) >= 0) by (nonlinear_arith)
                requires
                    base_delay_ms <= 10_000_000,
                    100 <= vf <= 1000,
            {}
            assert(base_delay_ms * (1000 - vf as int) / 1000 <= base_delay_ms * (1000 + 2 * (
            vf as int)) / 1000) by (nonlinear_arith)
                requires
                    0 <= base_delay_ms,
                    100 <= vf <= 1000,
            {}
        }
        let lo = base_delay_ms * (1000 - vf) / 1000;
        let hi = base_delay_ms * (1000 + 2 * vf) / 1000;
        let delay = if lo == hi {
            lo
        } else {
            random_in_range(lo as i64, hi as i64 + 1) as u64
        };
        self.random_delays.push((action.clone(), delay));
        delay
    }

    /// Rotates the randomization seed and clears the delay cache once
    /// the rotation period has elapsed.
    pub fn rotate_randomization_seed(&mut self, now: u64)
        requires
            old(self).wf(now as int),
        ensures
            final(self).wf(now as int),
            now - old(self).last_seed_rotation <= SEED_ROTATION_MS ==> *final(self) == *old(self),
            now - old(self).last_seed_rotation > SEED_ROTATION_MS ==> final(self).last_seed_rotation
                == now && final(self).random_delays@.len() == 0,
    {
        if now - self.last_seed_rotation > SEED_ROTATION_MS {
            self.randomization_seed = random_u64();
            self.last_seed_rotation = now;
            self.random_delays = Vec::new();
        }
    }

    /// Folds new shot counts into the session statistics and records
    /// the anomalies the new data implies: near-perfect accuracy and
    /// an excessive headshot share.
    pub fn update_session_stats(&mut self, shots: u32, hits: u32, headshots: u32, now: u64)
        requires
            old(self).wf(now as int),
            now <= TIME_LIMIT,
        ensures
            final(self).wf(now as int),
            final(self).detection_level == old(self).detection_level,
            final(self).session_stats.total_shots == spec_sat_add_u32(
                old(self).session_stats.total_shots as int,
                shots as int,
            ),
            final(self).session_stats.total_hits == spec_sat_add_u32(
                old(self).session_stats.total_hits as int,
                hits as int,
            ),
            final(self).session_stats.headshots == spec_sat_add_u32(
                old(self).session_stats.headshots as int,
                headshots as int,
            ),
            // Anomalies are recorded exactly when the new data is
            // suspicious, and suspicious data never lowers the score.
            ({
                let perfect = shots > 0 && hits * 1000 > shots * 950;
                let headshot_heavy = shots > 0 && headshots * 1000 > (if hits > 0 {
                    hits as int
                } else {
                    1
                }) * 800;
                &&& (!perfect && !headshot_heavy ==> final(self).anomaly_tracker.anomalies@
                    == old(self).anomaly_tracker.anomalies@
                    && final(self).anomaly_tracker.total_risk_score_milli
                    == old(self).anomaly_tracker.total_risk_score_milli)
                &&& (old(self).anomaly_tracker.anomalies@.len() + 2 <= EVENT_CAP
                    ==> final(self).anomaly_tracker.anomalies@ == spec_stats_events(
                    old(self).anomaly_tracker.anomalies@,
                    perfect,
                    headshot_heavy,
                    now as int,
                ) && final(self).anomaly_tracker.total_risk_score_milli
                    >= old(self).anomaly_tracker.total_risk_score_milli)
            }),
    {
        self.session_stats.total_shots = sat_add_u32(self.session_stats.total_shots, shots);
        self.session_stats.total_hits = sat_add_u32(self.session_stats.total_hits, hits);
        self.session_stats.headshots = sat_add_u32(self.session_stats.headshots, headshots);
        let ghost before = self.anomaly_tracker.anomalies@;
        let mut perfect = false;
        let mut headshot_heavy = false;
        if shots > 0 {
            if (hits as u64) * 1000 > (shots as u64) * 950 {
                perfect = true;
                proof {
                    lemma_drop_expired_len(
                        before.push(
                            AnomalyEvent {
                                kind: AnomalyType::PerfectAccuracy,
                                timestamp: now,
                                severity_milli: 300,
                                auto_corrected: false,
                            },
                        ),
                        now as int,
                    );
                }
                self.anomaly_tracker.record(AnomalyType::PerfectAccuracy, 300, now);
            }
            let hit_base: u64 = if hits > 0 {
                hits as u64
            } else {
                1
            };
            if (headshots as u64) * 1000 > hit_base * 800 {
                headshot_heavy = true;
                self.anomaly_tracker.record(AnomalyType::TooManyHeadshots, 400, now);
            }
        }
        proof {
            if old(self).anomaly_tracker.anomalies@.len() + 2 <= EVENT_CAP {
                assert(self.anomaly_tracker.anomalies@ == spec_stats_events(
                    before,
                    perfect,
                    headshot_heavy,
                    now as int,
                ));
            }
        }
    }

    /// Clears the session statistics and the anomaly store.
    pub fn reset_session_stats(&mut self, now: u64)
        requires
            old(self).wf(now as int),
            now <= TIME_LIMIT,
        ensures
            final(self).wf(now as int),
            final(self).detection_level == old(self).detection_level,
            final(self).session_stats.total_shots == 0,
            final(self).session_stats.total_hits == 0,
            final(self).session_stats.headshots == 0,
            final(self).anomaly_tracker.anomalies@.len() == 0,
            final(self).anomaly_tracker.total_risk_score_milli == 0,
    {
        self.session_stats = SessionStatistics::new(now);
        self.anomaly_tracker = AnomalyTracker::new();
    }

    /// Masks the stored bytes of every signature not yet masked, with
    /// the low byte of the current seed as the key.
    pub fn obfuscate_memory_signatures(&mut self, now: u64)
        ensures
            final(self).memory_signatures@.len() == old(self).memory_signatures@.len(),
            forall|i: int|
                0 <= i < final(self).memory_signatures@.len() ==> {
                    let sig = #[trigger] final(self).memory_signatures@[i];
                    let was = old(self).memory_signatures@[i];
                    &&& sig.name@ == was.name@
                    &&& sig.original_bytes@ == was.original_bytes@
                    &&& sig.address == was.address
                    &&& (if was.obfuscated {
                        sig.obfuscated && sig.modified_bytes@ == was.modified_bytes@
                            && sig.last_modified == was.last_modified
                    } else {
                        sig.obfuscated && sig.modified_bytes@ == spec_xor_bytes(
                            was.original_bytes@,
                            (old(self).randomization_seed & 0xff) as u8,
                        ) && sig.last_modified == now
                    })
                },
            final(self).randomization_seed == old(self).randomization_seed,
    {
        let seed = self.randomization_seed;
        proof {
            assert(seed & 0xff <= 0xff) by (bit_vector);
        }
        let key: u8 = (seed & 0xff) as u8;
        let n = self.memory_signatures.len();
        let mut out: Vec<MemorySignature> = Vec::new();
        let mut i: usize = 0;
        while i < n
            invariant
                n == self.memory_signatures@.len(),
                i <= n,
                out@.len() == i,
                key == (self.randomization_seed & 0xff) as u8,
                self.randomization_seed & 0xff <= 0xff,
                forall|k: int|
                    0 <= k < i ==> {
                        let sig = #[trigger] out@[k];
                        let was = self.memory_signatures@[k];
                        &&& sig.name@ == was.name@
                        &&& sig.original_bytes@ == was.original_bytes@
                        &&& sig.address == was.address
                        &&& (if was.obfuscated {
                            sig.obfuscated && sig.modified_bytes@ == was.modified_bytes@
                                && sig.last_modified == was.last_modified
                        } else {
                            sig.obfuscated && sig.modified_bytes@ == spec_xor_bytes(
                                was.original_bytes@,
                                key,
                            ) && sig.last_modified == now
                        })
                    },
            decreases n - i,
        {
            let src = &self.memory_signatures[i];
            if src.obfuscated {
                out.push(
                    MemorySignature {
                        name: src.name.clone(),
                        original_bytes: copy_bytes(&src.original_bytes),
                        modified_bytes: copy_bytes(&src.modified_bytes),
                        address: src.address,
                        last_modified: src.last_modified,
                        obfuscated: true,
                    },
                );
            } else {
                let masked = xor_bytes(&src.original_bytes, key);
                let orig_copy = copy_bytes(&src.original_bytes);
                out.push(
                    MemorySignature {
                        name: src.name.clone(),
                        original_bytes: orig_copy,
                        modified_bytes: masked,
                        address: src.address,
                        last_modified: now,
                        obfuscated: true,
                    },
                );
            }
            i = i + 1;
        }
        self.memory_signatures = out;
    }

    /// Validates the stored digest of the main module against a fresh
    /// digest of the integrity tag for the current wall-clock second,
    /// at most once per minute.  Returns false only after more than
    /// three accumulated violations.
    pub fn check_code_integrity(&mut self, now: u64, unix_seconds: u64) -> (r: bool)
        requires
            old(self).code_integrity.last_check <= now,
        ensures
            now - old(self).code_integrity.last_check < 60_000 ==> r && *final(self) == *old(
                self,
            ),
            now - old(self).code_integrity.last_check >= 60_000 ==> {
                &&& final(self).code_integrity.last_check == now
                &&& (spec_integrity_match(&old(self).code_integrity.checksums@, unix_seconds as int)
                    ==> final(self).code_integrity.integrity_violations
                    == old(self).code_integrity.integrity_violations && r)
                &&& (!spec_integrity_match(
                    &old(self).code_integrity.checksums@,
                    unix_seconds as int,
                ) ==> final(self).code_integrity.integrity_violations == spec_sat_add_u32(
                    old(self).code_integrity.integrity_violations as int,
                    1,
                ) && (r <==> final(self).code_integrity.integrity_violations <= 3))
            },
    {
        if now - self.code_integrity.last_check < 60_000 {
            return true;
        }
        let expected = integrity_digest(unix_seconds);
        self.code_integrity.last_check = now;
        let mut found: bool = false;
        let mut matched: bool = false;
        let n = self.code_integrity.checksums.len();
        let ghost cs = self.code_integrity.checksums@;
        let mut i: usize = 0;
        while i < n
            invariant
                n == cs.len(),
                cs == self.code_integrity.checksums@,
                i <= n,
                expected@ == sha256_of(spec_integrity_message(unix_seconds as int)),
                (found && matched) == exists|k: int|
                    0 <= k < i && (#[trigger] cs[k]).0@ == "main_module"@ && cs[k].1@ == sha256_of(
                        spec_integrity_message(unix_seconds as int),
                    ),
            decreases n - i,
        {
            let entry = &self.code_integrity.checksums[i];
            if crate::weapons::str_eq(entry.0.as_str(), "main_module") {
                if bytes_eq(&entry.1, &expected) {
                    found = true;
                    matched = true;
                    proof {
                        assert(cs[i as int].0@ == "main_module"@ && cs[i as int].1@ == sha256_of(
                            spec_integrity_message(unix_seconds as int),
                        ));
                    }
                }
            }
            i = i + 1;
        }
        if found && matched {
            true
        } else {
            self.code_integrity.integrity_violations = sat_add_u32(
                self.code_integrity.integrity_violations,
                1,
            );
            self.code_integrity.integrity_violations <= 3
        }
    }

    /// The mitigation actions a detection level calls for, one line
    /// each; higher levels never list fewer.
    pub fn apply_risk_mitigation(&self) -> (r: Vec<String>)
        ensures
            crate::bones::names_view(r@) == spec_mitigation_lines(self.detection_level),
    {
        let mut out: Vec<String> = Vec::new();
        match self.detection_level {
            DetectionLevel::Safe => {},
            DetectionLevel::Low => {},
            DetectionLevel::Medium => {
                out.push(String::from_str("Increased timing randomization"));
                out.push(String::from_str("Applied accuracy reduction"));
            },
            DetectionLevel::High => {
                out.push(String::from_str("Enabled miss simulation"));
                out.push(String::from_str("Increased reaction time variation"));
                out.push(String::from_str("Reduced feature usage frequency"));
            },
            DetectionLevel::Critical => {
                out.push(String::from_str("Disabled aiming temporarily"));
                out.push(String::from_str("Cleared suspicious statistics"));
                out.push(String::from_str("Applied maximum humanization"));
            },
        }
        proof {
            assert(crate::bones::names_view(out@) =~= spec_mitigation_lines(
                self.detection_level,
            ));
        }
        out
    }

    /// Advice matching the current detection level, one line each.
    pub fn get_security_recommendations(&self) -> (r: Vec<String>)
        ensures
            crate::bones::names_view(r@) == spec_recommendation_lines(self.detection_level),
    {
        let mut out: Vec<String> = Vec::new();
        match self.detection_level {
            DetectionLevel::Safe => {},
            DetectionLevel::Low => {
                out.push(String::from_str("Consider reducing usage frequency"));
                out.push(String::from_str("Enable humanization features"));
            },
            DetectionLevel::Medium => {
                out.push(String::from_str("Reduce accuracy to more realistic levels"));
                out.push(String::from_str("Add more timing variation"));
                out.push(String::from_str("Take breaks between sessions"));
            },
            DetectionLevel::High => {
                out.push(String::from_str("Disable aiming for this session"));
                out.push(String::from_str("Review recent performance statistics"));
                out.push(String::from_str("Consider the most cautious profile only"));
            },
            DetectionLevel::Critical => {
                out.push(String::from_str("Stop all automation immediately"));
                out.push(String::from_str("Clear all suspicious statistics"));
                out.push(String::from_str("Pause for several days"));
            },
        }
        proof {
            assert(crate::bones::names_view(out@) =~= spec_recommendation_lines(
                self.detection_level,
            ));
        }
        out
    }
}

/// The mitigation lines each level yields.
pub open spec fn spec_mitigation_lines(l: DetectionLevel) -> Seq<Seq<char>> {
    match l {
        DetectionLevel::Safe => Seq::<Seq<char>>::empty(),
        DetectionLevel::Low => Seq::<Seq<char>>::empty(),
        DetectionLevel::Medium => seq![
            "Increased timing randomization"@,
            "Applied accuracy reduction"@,
        ],
        DetectionLevel::High => seq![
            "Enabled miss simulation"@,
            "Increased reaction time variation"@,
            "Reduced feature usage frequency"@,
        ],
        DetectionLevel::Critical => seq![
            "Disabled aiming temporarily"@,
            "Cleared suspicious statistics"@,
            "Applied maximum humanization"@,
        ],
    }
}

/// The recommendation lines each level yields.
pub open spec fn spec_recommendation_lines(l: DetectionLevel) -> Seq<Seq<char>> {
    match l {
        DetectionLevel::Safe => Seq::<Seq<char>>::empty(),
        DetectionLevel::Low => seq![
            "Consider reducing usage frequency"@,
            "Enable humanization features"@,
        ],
        DetectionLevel::Medium => seq![
            "Reduce accuracy to more realistic levels"@,
            "Add more timing variation"@,
            "Take breaks between sessions"@,
        ],
        DetectionLevel::High => seq![
            "Disable aiming for this session"@,
            "Review recent performance statistics"@,
            "Consider the most cautious profile only"@,
        ],
        DetectionLevel::Critical => seq![
            "Stop all automation immediately"@,
            "Clear all suspicious statistics"@,
            "Pause for several days"@,
        ],
    }
}

/// Behavioral risk: 300 for a too-fast average reaction, 400 for an
/// unrealistic newest headshot ratio.
pub open spec fn spec_behavior_risk(reactions: Seq<u64>, ratios: Seq<u32>) -> int {
    (if reactions.len() > 0 && spec_sum_u64(reactions) / (reactions.len() as int) < 100 {
        300int
    } else {
        0
    }) + (if ratios.len() > 0 && ratios.last() > 800 {
        400int
    } else {
        0
    })
}

/// Statistical risk over the session counters.
pub open spec fn spec_statistical_risk(st: &SessionStatistics) -> int {
    (if st.total_shots > 50 && st.total_hits * 1000 > st.total_shots * 950 {
        500int
    } else {
        0
    }) + (if st.impossible_shots > 0 {
        600int
    } else {
        0
    }) + (if st.inhuman_reactions > 5 {
        400int
    } else {
        0
    })
}

/// Whether any recorded streak exceeds five minutes.
pub open spec fn spec_has_long_streak(s: Seq<u64>) -> bool {
    exists|i: int| 0 <= i < s.len() && (#[trigger] s[i]) > 300_000
}

proof fn lemma_has_long_push(s: Seq<u64>, v: u64)
    ensures
        spec_has_long_streak(s.push(v)) == (spec_has_long_streak(s) || v > 300_000),
{
    if spec_has_long_streak(s) {
        let i = choose|i: int| 0 <= i < s.len() && (#[trigger] s[i]) > 300_000;
        assert(s.push(v)[i] > 300_000);
    }
    if v > 300_000 {
        assert(s.push(v)[s.len() as int] > 300_000);
    }
    if spec_has_long_streak(s.push(v)) {
        let i = choose|i: int| 0 <= i < s.push(v).len() && (#[trigger] s.push(v)[i]) > 300_000;
        if i < s.len() {
            assert(s[i] > 300_000);
        }
    }
}

/// Performance risk: 200 for a long perfect streak, 300 for a high
/// headshot share of hits.
pub open spec fn spec_performance_risk(st: &SessionStatistics) -> int {
    (if spec_has_long_streak(st.peak_performance_streak_ms@) {
        200int
    } else {
        0
    }) + (if st.total_hits > 0 && st.headshots * 1000 > st.total_hits * 700 {
        300int
    } else {
        0
    })
}

/// Usage risk: 200 for more than two hours of use, 300 for a high
/// pattern risk.
pub open spec fn spec_usage_risk(st: &SessionStatistics, bp: &BehaviorPatterns) -> int {
    (if st.aimbot_usage_ms > 7_200_000 {
        200int
    } else {
        0
    }) + (if bp.pattern_risk_milli > 700 {
        300int
    } else {
        0
    })
}

/// Saturating add on a 32-bit counter.
pub open spec fn spec_sat_add_u32(a: int, b: int) -> int {
    if a + b > 0xffff_ffff {
        0xffff_ffff
    } else {
        a + b
    }
}

fn sat_add_u32(a: u32, b: u32) -> (r: u32)
    ensures
        r == spec_sat_add_u32(a as int, b as int),
{
    if b > u32::MAX - a {
        u32::MAX
    } else {
        a + b
    }
}

/// An identical copy of a byte string.
fn copy_bytes(v: &Vec<u8>) -> (r: Vec<u8>)
    ensures
        r@ == v@,
{
    let mut out: Vec<u8> = Vec::new();
    let mut i: usize = 0;
    while i < v.len()
        invariant
            i <= v@.len(),
            out@ =~= v@.subrange(0, i as int),
        decreases v@.len() - i,
    {
        out.push(v[i]);
        i = i + 1;
    }
    proof {
        assert(out@ =~= v@);
    }
    out
}

/// The byte string digested for an integrity check of one wall-clock
/// second: the integrity tag followed by the second in decimal.
pub open spec fn spec_integrity_message(unix_seconds: int) -> Seq<u8> {
    "integrity_check_"@.map(|i: int, c: char| c as u8) + spec_decimal_bytes(unix_seconds)
}

/// Whether the stored main-module digest matches the expected digest
/// for the given second.
pub open spec fn spec_integrity_match(cs: &Seq<(String, Vec<u8>)>, unix_seconds: int) -> bool {
    exists|k: int|
        0 <= k < cs.len() && (#[trigger] cs[k]).0@ == "main_module"@ && cs[k].1@ == sha256_of(
            spec_integrity_message(unix_seconds),
        )
}

/// The expected digest of the integrity tag for one second.
pub fn integrity_digest(unix_seconds: u64) -> (r: Vec<u8>)
    ensures
        r@ == sha256_of(spec_integrity_message(unix_seconds as int)),
        r@.len() == 32,
{
    let tag = "integrity_check_";
    let tag_bytes = tag.as_bytes_vec();
    proof {
        vstd::string::is_ascii_spec_bytes(tag);
        assert(tag.is_ascii()) by {
            reveal_strlit("integrity_check_");
        }
        assert(tag_bytes@ =~= "integrity_check_"@.map(|i: int, c: char| c as u8));
    }
    let mut msg = tag_bytes;
    let mut digits = decimal_bytes(unix_seconds);
    let ghost msg_before = msg@;
    let ghost digits_before = digits@;
    msg.append(&mut digits);
    proof {
        assert(msg@ =~= spec_integrity_message(unix_seconds as int));
    }
    sha256_digest(msg.as_slice())
}

} // verus!
