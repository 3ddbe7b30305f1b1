use lib::event::{Category, Event, EventStamp, LossRangeKind, Severity};
use lib::metrics::{ComponentStatus, Metrics};
use lib::runtime::{
    failure_shutdown_detail, on_control_message, shutdown_message, skip_ignored_exit, ControlMessage, LossTracker,
    ShutdownReason, SinkWriteStatus,
};

fn event(sequence: u64) -> Event {
    Event::base(
        Category::Sensor,
        Severity::Info,
        "2026-01-01T00:00:00Z".to_string(),
        "host".to_string(),
        EventStamp {
            monotonic_ms: 1,
            sequence,
            event_id: format!("ev-{sequence}"),
            host_id: None,
            sensor_id: None,
            tenant_id: None,
        },
    )
}

#[test]
fn drops_and_sequence_gaps_are_reported_once() {
    let mut tracker = LossTracker::default();
    let mut metrics = Metrics::new();
    tracker.finish_emit(5, SinkWriteStatus::Written);
    assert_eq!(tracker.sequence_gap_before(8), Some((6, 7)));
    metrics.inc_dropped("queue_full");
    metrics.inc_dropped("queue_full");
    metrics.inc_dropped("queue_full");
    assert!(tracker.has_unreported(&metrics));
    assert_eq!(tracker.delta(&metrics), 3);

    let mut ev = event(8);
    tracker.decorate(&mut ev, &metrics);
    assert!(ev.data_loss);
    let loss = ev.loss.clone().unwrap();
    assert_eq!(loss.dropped_since_last_event, 3);
    assert_eq!(loss.dropped_total, 3);
    assert_eq!(loss.reason, "queue_full_or_output_backpressure");
    assert_eq!(loss.range_kind, LossRangeKind::AggregateCounterAndSequenceGap);
    assert_eq!((loss.sequence_gap_start, loss.sequence_gap_end), (Some(6), Some(7)));
    assert!(!tracker.has_unreported(&metrics));
    tracker.finish_emit(8, SinkWriteStatus::Written);

    let mut next = event(9);
    tracker.decorate(&mut next, &metrics);
    assert!(!next.data_loss);
    assert!(next.loss.is_none());
}

#[test]
fn gap_alone_is_reported_as_sequence_gap() {
    let mut tracker = LossTracker::default();
    tracker.account_intentionally_skipped_sequence(2);
    let mut ev = event(4);
    tracker.decorate(&mut ev, &Metrics::new());
    let loss = ev.loss.unwrap();
    assert_eq!(loss.reason, "sequence_gap");
    assert_eq!(loss.dropped_since_last_event, 0);
    assert_eq!((loss.sequence_gap_start, loss.sequence_gap_end), (Some(3), Some(3)));
}

#[test]
fn spooled_events_are_not_accounted() {
    let mut tracker = LossTracker::default();
    tracker.finish_emit(1, SinkWriteStatus::Written);
    tracker.finish_emit(4, SinkWriteStatus::Spooled);
    assert_eq!(tracker.last_accounted_sequence, Some(1));
    tracker.finish_emit(3, SinkWriteStatus::Written);
    tracker.finish_emit(2, SinkWriteStatus::Written);
    assert_eq!(tracker.last_accounted_sequence, Some(3));
    assert_eq!(tracker.sequence_gap_before(4), None);
}

#[test]
fn failure_detail_names_the_pipeline() {
    assert_eq!(failure_shutdown_detail("Trace pipe closed"), "collector pipeline error");
    assert_eq!(failure_shutdown_detail("COLLECTOR died"), "collector pipeline error");
    assert_eq!(failure_shutdown_detail("pmu read failed"), "PMU pipeline error");
    assert_eq!(failure_shutdown_detail("JSONL write failed"), "output pipeline error");
    assert_eq!(failure_shutdown_detail("boom"), "fatal pipeline error");
}

#[test]
fn shutdown_message_lists_reason_and_totals() {
    let mut metrics = Metrics::new();
    metrics.inc_dropped("x");
    metrics.inc_spool_event();
    assert_eq!(
        shutdown_message(&ShutdownReason::Clean, &metrics),
        "shutdown: reason=clean, detail=collector stopped without a fatal pipeline error, dropped_total=1, json_write_failures_total=0, spool_events_total=1, spool_write_failures_total=0, spool_dropped_total=0"
    );
    let failure = ShutdownReason::Failure("output sink closed".to_string());
    assert_eq!(failure.label(), "failure");
    assert_eq!(failure.detail(), "output pipeline error");
    assert_eq!(failure.severity(), Severity::High);
    assert_eq!(ShutdownReason::Signal("SIGTERM".to_string()).detail(), "SIGTERM");
}

#[test]
fn collector_error_fails_runtime_and_stops() {
    let mut metrics = Metrics::new();
    let step = on_control_message(&mut metrics, ControlMessage::CollectorError("trace pipe closed".to_string()));
    assert!(step.collector_done && step.stop);
    assert_eq!(step.pipeline_error.as_deref(), Some("trace pipe closed"));
    let (severity, reason, message) = step.event.unwrap();
    assert_eq!((severity, reason, message.as_str()), (Severity::High, "collector_error", "trace pipe closed"));
    assert_eq!(metrics.collector_status, ComponentStatus::Failed);
    assert_eq!(metrics.runtime_status, ComponentStatus::Failed);

    let mut metrics = Metrics::new();
    let step = on_control_message(&mut metrics, ControlMessage::ReplayEof);
    assert!(step.collector_done && !step.stop && step.event.is_none());
    assert_eq!(metrics.collector_status, ComponentStatus::Stopped);
}

#[test]
fn ignored_vm_exit_is_counted_and_skipped_without_gap() {
    let mut metrics = Metrics::new();
    let mut tracker = LossTracker::default();
    tracker.finish_emit(1, SinkWriteStatus::Written);
    skip_ignored_exit(&mut metrics, &mut tracker, 2);
    assert_eq!(metrics.unsupported_total, 1);
    assert_eq!(tracker.sequence_gap_before(3), None);
}
