use ragnarek_core::humanize::HumanizationParameters;
use ragnarek_core::risk::{
    apply_level_feedback, detection_level_of, integrity_digest, xor_bytes, AnomalyTracker,
    AnomalyType, DetectionLevel, StealthManager,
};

#[test]
fn detection_bands_are_exact() {
    assert_eq!(detection_level_of(0), DetectionLevel::Safe);
    assert_eq!(detection_level_of(200), DetectionLevel::Safe);
    assert_eq!(detection_level_of(201), DetectionLevel::Low);
    assert_eq!(detection_level_of(400), DetectionLevel::Low);
    assert_eq!(detection_level_of(401), DetectionLevel::Medium);
    assert_eq!(detection_level_of(700), DetectionLevel::Medium);
    assert_eq!(detection_level_of(701), DetectionLevel::High);
    assert_eq!(detection_level_of(900), DetectionLevel::High);
    assert_eq!(detection_level_of(901), DetectionLevel::Critical);
}

#[test]
fn increasing_severity_never_decreases_the_score() {
    let mut t = AnomalyTracker::new();
    let mut prev = t.total_risk_score_milli;
    let kinds = [
        AnomalyType::PerfectAccuracy,
        AnomalyType::InhumanReactionTime,
        AnomalyType::TooManyHeadshots,
        AnomalyType::PerformanceSpike,
        AnomalyType::StatisticalOutlier,
    ];
    let mut now = 1_000u64;
    for (i, kind) in kinds.iter().enumerate() {
        t.record(*kind, 100 + (i as u32) * 150, now);
        assert!(t.total_risk_score_milli >= prev);
        prev = t.total_risk_score_milli;
        now += 1_000;
    }
    // Five events of severities 100..700 within the window: their sum
    // divided by the fixed divisor.
    assert_eq!(t.total_risk_score_milli, (100 + 250 + 400 + 550 + 700) / 10);
}

#[test]
fn events_outside_the_window_stop_counting() {
    let mut t = AnomalyTracker::new();
    t.record(AnomalyType::PerfectAccuracy, 1000, 0);
    assert_eq!(t.total_risk_score_milli, 100);
    // Eleven minutes later the event is outside the ten-minute window.
    t.record(AnomalyType::SuspiciousPattern, 0, 660_000);
    assert_eq!(t.total_risk_score_milli, 0);
}

#[test]
fn events_past_retention_are_removed() {
    let mut t = AnomalyTracker::new();
    t.record(AnomalyType::PerfectAccuracy, 500, 0);
    t.record(AnomalyType::PerfectAccuracy, 500, 4_000_000);
    assert_eq!(t.anomalies.len(), 1);
}

#[test]
fn higher_levels_push_more_cautious_parameters() {
    let base = HumanizationParameters::new();
    let levels = [
        DetectionLevel::Safe,
        DetectionLevel::Low,
        DetectionLevel::Medium,
        DetectionLevel::High,
        DetectionLevel::Critical,
    ];
    let mut prev_miss = 0u32;
    let mut prev_reaction = 0u64;
    for level in levels {
        let p = apply_level_feedback(&base, level);
        assert!(p.miss_chance_milli >= base.miss_chance_milli);
        assert!(p.reaction_time_max_ms >= base.reaction_time_max_ms);
        assert!(p.miss_chance_milli >= prev_miss);
        assert!(p.reaction_time_max_ms >= prev_reaction);
        prev_miss = p.miss_chance_milli;
        prev_reaction = p.reaction_time_max_ms;
    }
}

#[test]
fn xor_masking_is_an_involution_and_changes_bytes() {
    let data = vec![0u8, 1, 2, 250, 255];
    let masked = xor_bytes(&data, 0x5a);
    assert_ne!(masked, data);
    assert_eq!(xor_bytes(&masked, 0x5a), data);
    assert_eq!(masked[0], 0x5a);
}

#[test]
fn obfuscation_masks_unmasked_signatures() {
    let mut m = StealthManager::new(0);
    m.randomization_seed = 0x1234_5678_9abc_de5a;
    m.memory_signatures.push(ragnarek_core::risk::MemorySignature {
        name: String::from("probe"),
        original_bytes: vec![1, 2, 3],
        modified_bytes: Vec::new(),
        address: 0x1000,
        last_modified: 0,
        obfuscated: false,
    });
    m.obfuscate_memory_signatures(99);
    let sig = &m.memory_signatures[0];
    assert!(sig.obfuscated);
    assert_eq!(sig.modified_bytes, vec![1 ^ 0x5a, 2 ^ 0x5a, 3 ^ 0x5a]);
    assert_eq!(sig.last_modified, 99);
}

#[test]
fn integrity_digest_is_a_real_digest() {
    // 32 bytes whatever the input, and different seconds give
    // different digests: the wrapper cannot be handing back its input.
    let a = integrity_digest(0);
    let b = integrity_digest(1);
    assert_eq!(a.len(), 32);
    assert_eq!(b.len(), 32);
    assert_ne!(a, b);
    assert_eq!(a, integrity_digest(0));
}

#[test]
fn integrity_check_counts_violations() {
    let mut m = StealthManager::new(0);
    // No stored digest: each check past the minute adds a violation.
    assert!(m.check_code_integrity(60_000, 1));
    assert_eq!(m.code_integrity.integrity_violations, 1);
    assert!(m.check_code_integrity(120_000, 2));
    assert!(m.check_code_integrity(180_000, 3));
    assert!(!m.check_code_integrity(240_000, 4));
    // Within a minute of the last check nothing changes.
    assert!(m.check_code_integrity(240_500, 5));
    assert_eq!(m.code_integrity.integrity_violations, 4);
}

#[test]
fn integrity_check_accepts_a_matching_digest() {
    let mut m = StealthManager::new(0);
    m.code_integrity
        .checksums
        .push((String::from("main_module"), integrity_digest(77)));
    assert!(m.check_code_integrity(60_000, 77));
    assert_eq!(m.code_integrity.integrity_violations, 0);
}

#[test]
fn randomized_delays_stay_within_their_band() {
    let mut m = StealthManager::new(0);
    let action = String::from("probe_action");
    for k in 0..50u64 {
        // Move past the cache window each time so a fresh draw happens.
        let now = (k + 1) * 31_000;
        m.last_seed_rotation = now;
        m.random_delays = Vec::new();
        let d = m.get_randomized_delay(&action, 1000, now);
        // Safe level: 10 percent down, 20 percent up.
        assert!((900..=1200).contains(&d));
    }
}

#[test]
fn cached_delay_is_reused_within_the_cache_window() {
    let mut m = StealthManager::new(0);
    let action = String::from("fire");
    let first = m.get_randomized_delay(&action, 1000, 10);
    let second = m.get_randomized_delay(&action, 1000, 20);
    assert_eq!(first, second);
}

#[test]
fn session_statistics_record_anomalous_accuracy() {
    let mut m = StealthManager::new(0);
    // 60 of 60 shots hit: perfect accuracy, plus an excessive headshot
    // share.
    m.update_session_stats(60, 60, 60, 1_000);
    assert_eq!(m.session_stats.total_shots, 60);
    assert!(m.anomaly_tracker.total_risk_score_milli > 0);
    assert!(m.anomaly_tracker.anomalies.len() >= 2);
}

#[test]
fn mitigation_grows_with_the_level() {
    let mut m = StealthManager::new(0);
    m.detection_level = DetectionLevel::Safe;
    assert_eq!(m.apply_risk_mitigation().len(), 0);
    assert_eq!(m.get_security_recommendations().len(), 0);
    m.detection_level = DetectionLevel::Medium;
    assert_eq!(m.apply_risk_mitigation().len(), 2);
    assert_eq!(m.get_security_recommendations().len(), 3);
    m.detection_level = DetectionLevel::Critical;
    assert_eq!(m.apply_risk_mitigation().len(), 3);
}

#[test]
fn seed_rotation_clears_the_delay_cache() {
    let mut m = StealthManager::new(0);
    let action = String::from("fire");
    let _ = m.get_randomized_delay(&action, 1000, 10);
    assert_eq!(m.random_delays.len(), 1);
    m.rotate_randomization_seed(400_000);
    assert_eq!(m.random_delays.len(), 0);
    assert_eq!(m.last_seed_rotation, 400_000);
}
