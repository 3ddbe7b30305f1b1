use lib::detectors::dedupe::{DetectionAggregator, DetectionDedupeKey};
use lib::detectors::{
    score_detection, AttributionQuality, DetectionKind, DetectionRecord, DetectionSource,
    ProfileConfidence, ScoreFactors, SourceReliability,
};
use lib::event::{IdentityConfidence, Severity};

fn record(entity: &str, title: &str) -> DetectionRecord {
    let score = score_detection(ScoreFactors {
        base_severity: Severity::High,
        source: SourceReliability::SyntheticFixture,
        attribution: AttributionQuality::GuestAddress,
        profile: ProfileConfidence::Synthetic,
        identity: IdentityConfidence::High,
        data_loss: false,
        policy_match: false,
    });
    DetectionRecord::new(
        "fixture",
        DetectionKind::HiddenProcess,
        title,
        "detail",
        DetectionSource::new("fixture", SourceReliability::SyntheticFixture, ProfileConfidence::Synthetic),
        score,
    )
    .with_entity(entity)
}

#[test]
fn aggregator_folds_repeats_and_lists_keys_in_order() {
    let mut agg = DetectionAggregator::new();
    assert!(agg.is_empty());
    let first = agg.observe(record("b", "one"), 10).unwrap();
    assert_eq!(first.count, 1);
    agg.observe(record("a", "two"), 20).unwrap();
    let again = agg.observe(record("b", "three"), 30).unwrap();
    assert_eq!((again.count, again.first_seen_ms, again.last_seen_ms), (2, 10, 30));
    assert_eq!(again.latest.title, "three");

    let key_b = DetectionDedupeKey::from_record(&record("b", "x"));
    let got = agg.get(&key_b).unwrap();
    assert_eq!(got.count, 2);
    assert_eq!(got.latest.title, "three");
    assert!(agg.get(&DetectionDedupeKey::from_record(&record("zz", "x"))).is_none());

    assert_eq!(agg.len(), 2);
    assert!(!agg.is_empty());
    let entities: Vec<&str> = agg.entries().iter().map(|e| e.key.entity.as_deref().unwrap()).collect();
    assert_eq!(entities, vec!["a", "b"]);
    assert!(agg.entries().iter().all(|e| e.count >= 1));
}

#[test]
fn aggregator_refuses_zero_timestamp_and_keeps_state() {
    let mut agg = DetectionAggregator::new();
    assert!(agg.observe(record("a", "one"), 0).is_err());
    assert!(agg.is_empty());
}
