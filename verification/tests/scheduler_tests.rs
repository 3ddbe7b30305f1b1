use lib::detectors::{
    score_detection, DetectionKind, DetectionRecord, DetectionSource, Detector, DetectorBudget,
    DetectorError, DetectorInput, DetectorOutcome, DetectorRunConfig, DetectorRunStatus,
    DetectorScheduler, ProfileConfidence, ScoreFactors, SourceReliability, AttributionQuality,
    empty_report, record_run,
};
use lib::event::{IdentityConfidence, Severity};

enum Fixture {
    Clean,
    Many(usize),
    Unsupported,
    Broken,
}

fn record(i: usize) -> DetectionRecord {
    let score = score_detection(ScoreFactors {
        base_severity: Severity::High,
        source: SourceReliability::SyntheticFixture,
        attribution: AttributionQuality::GuestAddress,
        profile: ProfileConfidence::Synthetic,
        identity: IdentityConfidence::High,
        data_loss: false,
        policy_match: false,
    });
    DetectionRecord::new(
        "fixture",
        DetectionKind::HiddenProcess,
        &format!("finding {i}"),
        "detail",
        DetectionSource::new("fixture", SourceReliability::SyntheticFixture, ProfileConfidence::Synthetic),
        score,
    )
}

impl Detector for Fixture {
    fn id(&self) -> &'static str {
        match self {
            Fixture::Clean => "clean",
            Fixture::Many(_) => "many",
            Fixture::Unsupported => "unsupported",
            Fixture::Broken => "broken",
        }
    }

    fn run(&self, _input: &DetectorInput) -> Result<DetectorOutcome, DetectorError> {
        match self {
            Fixture::Clean => Ok(DetectorOutcome::Clean),
            Fixture::Many(n) => Ok(DetectorOutcome::Findings((0..*n).map(record).collect())),
            Fixture::Unsupported => Ok(DetectorOutcome::Unsupported { reason: "no profile".to_string() }),
            Fixture::Broken => Err(DetectorError::Degraded {
                detector: "broken".to_string(),
                detail: "backend gone".to_string(),
            }),
        }
    }
}

fn config(max_findings: usize) -> DetectorRunConfig {
    DetectorRunConfig { enabled: true, budget: DetectorBudget::new(60_000_000_000, max_findings).unwrap() }
}

#[test]
fn scheduler_runs_each_detector_within_its_budget() {
    let mut scheduler = DetectorScheduler::new();
    scheduler.add_detector(Fixture::Clean, config(4));
    scheduler.add_detector(Fixture::Many(5), config(2));
    scheduler.add_detector(Fixture::Unsupported, config(4));
    scheduler.add_detector(Fixture::Broken, config(4));
    scheduler.add_detector(Fixture::Many(1), DetectorRunConfig { enabled: false, ..config(4) });
    let report = scheduler.run(&DetectorInput::new(Some("vm-a".to_string())));
    assert_eq!(report.runs.len(), 5);
    assert_eq!(report.runs[0].status, DetectorRunStatus::Clean);
    assert_eq!(report.runs[1].status, DetectorRunStatus::OverBudget);
    assert_eq!(report.runs[1].finding_count, 2);
    assert_eq!(report.runs[2].status, DetectorRunStatus::Unsupported);
    assert_eq!(report.runs[2].detail.as_deref(), Some("no profile"));
    assert_eq!(report.runs[3].status, DetectorRunStatus::Failed);
    assert_eq!(report.runs[3].detail.as_deref(), Some("detector 'broken' is degraded: backend gone"));
    assert_eq!(report.runs[4].status, DetectorRunStatus::Disabled);
    assert_eq!(report.runs[4].detector_id, "many");
    assert_eq!(report.detections.len(), 2);
    assert_eq!(report.budget_metrics.truncated_findings, 3);
    assert_eq!(report.budget_metrics.unsupported_runs, 1);
    assert_eq!(report.budget_metrics.degraded_runs, 0);
}

#[test]
fn run_time_budget_is_compared_below_the_millisecond() {
    let config = DetectorRunConfig { enabled: true, budget: DetectorBudget::new(10_000_000, 8).unwrap() };
    let mut report = empty_report();
    record_run(&mut report, "slow".to_string(), &config, Ok(DetectorOutcome::Clean), String::new(), 10_400_000);
    assert_eq!(report.runs[0].status, DetectorRunStatus::OverBudget);
    assert_eq!(report.runs[0].elapsed_ns, 10_400_000);
    assert_eq!(report.budget_metrics.over_budget_runs, 1);
    record_run(&mut report, "fast".to_string(), &config, Ok(DetectorOutcome::Clean), String::new(), 10_000_000);
    assert_eq!(report.runs[1].status, DetectorRunStatus::Clean);
}
