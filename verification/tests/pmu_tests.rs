use lib::detectors::pmu_anomaly::{PmuBaseline, PmuRatioSample};
use lib::detectors::DetectionKind;

#[test]
fn pmu_baseline_updates_offline_ratio_without_zero_instruction_samples() {
    assert!(PmuRatioSample::new(10, 0).is_none());
    let mut baseline = PmuBaseline::new("libvirt:vm-a", 50).unwrap();

    baseline.update(PmuRatioSample::new(1000, 1000).unwrap());
    baseline.update(PmuRatioSample::new(1100, 1000).unwrap());
    baseline.update(PmuRatioSample::new(900, 1000).unwrap());

    assert_eq!(baseline.sample_count(), 3);
    assert_eq!(baseline.mean_cycles_per_kilo_instruction(), 1000);
}

#[test]
fn pmu_baseline_reports_anomaly_only_after_enough_history() {
    let mut baseline = PmuBaseline::new("libvirt:vm-a", 50).unwrap();
    baseline.update(PmuRatioSample::new(1000, 1000).unwrap());
    baseline.update(PmuRatioSample::new(1000, 1000).unwrap());

    assert!(baseline
        .evaluate(PmuRatioSample::new(3000, 1000).unwrap())
        .is_none());

    baseline.update(PmuRatioSample::new(1000, 1000).unwrap());
    let finding = baseline
        .evaluate(PmuRatioSample::new(3000, 1000).unwrap())
        .unwrap();

    assert_eq!(finding.kind, DetectionKind::PmuAnomaly);
    assert_eq!(finding.vm_id.as_deref(), Some("libvirt:vm-a"));
}

#[test]
fn pmu_baseline_rejects_unstable_identity_and_bad_threshold() {
    assert!(PmuBaseline::new("", 50).is_err());
    assert!(PmuBaseline::new("libvirt:vm-a", 0).is_err());
}
