use lib::event::{
    ActionInfo, Category, Event, EventStamp, IdentityConfidence, IdentityInfo, Severity,
};

fn stamp(sequence: u64) -> EventStamp {
    EventStamp {
        monotonic_ms: 42,
        sequence,
        event_id: format!("evt-{sequence}"),
        host_id: None,
        sensor_id: None,
        tenant_id: None,
    }
}

fn base(category: Category, severity: Severity, vm: &str) -> Event {
    Event::base(
        category,
        severity,
        "2026-01-01T00:00:00Z".to_string(),
        vm.to_string(),
        stamp(1),
    )
}

#[test]
fn event_json_contains_required_ids() {
    let ev = base(Category::Sensor, Severity::Info, "host");
    let j = ev.to_json();
    assert!(j.contains("\"event_id\""));
    assert!(j.contains("\"ts\":\"2026-01-01T00:00:00Z\""));
    assert!(j.contains("\"monotonic_ms\""));
    assert!(j.contains("\"sequence\""));
    assert!(j.contains("\"schema_version\":2"));
}

#[test]
fn action_json_contains_structured_audit_fields() {
    let mut ev = base(Category::Policy, Severity::High, "vm-a");
    ev.action = Some(ActionInfo {
        rule: Some("rule-1".to_string()),
        kind: "pause_vm".to_string(),
        ok: false,
        status: "timeout".to_string(),
        decision: "executed".to_string(),
        result: "timeout".to_string(),
        detail: Some("QMP did not respond for stop".to_string()),
        latency_ms: Some(100),
        target_vm_id: Some("libvirt:111".to_string()),
        attempt: 2,
        max_attempts: 3,
        retry_count: 1,
        timeout_ms: 100,
        timed_out: true,
        refused: false,
        failure_class: Some("timeout".to_string()),
    });

    let json = ev.to_json();

    assert!(json.contains("\"decision\":\"executed\""));
    assert!(json.contains("\"result\":\"timeout\""));
    assert!(json.contains("\"attempt\":2"));
    assert!(json.contains("\"max_attempts\":3"));
    assert!(json.contains("\"retry_count\":1"));
    assert!(json.contains("\"timeout_ms\":100"));
    assert!(json.contains("\"timed_out\":true"));
    assert!(json.contains("\"refused\":false"));
    assert!(json.contains("\"failure_class\":\"timeout\""));
}

#[test]
fn event_json_contains_identity_source_metadata() {
    let mut ev = base(Category::Exit, Severity::Info, "qemu");
    ev.identity = Some(IdentityInfo {
        sources: vec!["trace_comm".to_string(), "fallback_pid".to_string()],
        confidence: IdentityConfidence::Low,
        start_time_verified: false,
        ambiguous: false,
    });

    let json = ev.to_json();

    assert!(json.contains("\"identity\":{"));
    assert!(json.contains("\"sources\":[\"trace_comm\",\"fallback_pid\"]"));
    assert!(json.contains("\"confidence\":\"low\""));
    assert!(json.contains("\"start_time_verified\":false"));
    assert!(json.contains("\"ambiguous\":false"));
}

#[test]
fn loss_json_reports_aggregate_counter_without_inventing_sequence_range() {
    let mut ev = base(Category::Sensor, Severity::High, "host");

    ev.with_loss(3, 7, "queue_full_or_output_backpressure");

    let json = ev.to_json();
    assert!(json.contains("\"data_loss\":true"));
    assert!(json.contains("\"dropped_since_last_event\":3"));
    assert!(json.contains("\"dropped_total\":7"));
    assert!(json.contains("\"range_kind\":\"aggregate_counter\""));
    assert!(json.contains("\"sequence_gap_start\":null"));
    assert!(json.contains("\"sequence_gap_end\":null"));
}

#[test]
fn loss_json_reports_known_sequence_gap_range() {
    let mut ev = base(Category::Sensor, Severity::High, "host");

    ev.with_loss_report(0, 0, "sequence_gap", Some((10, 12)));

    let json = ev.to_json();
    assert!(json.contains("\"data_loss\":true"));
    assert!(json.contains("\"range_kind\":\"sequence_gap\""));
    assert!(json.contains("\"sequence_gap_start\":10"));
    assert!(json.contains("\"sequence_gap_end\":12"));
}

#[test]
fn event_json_carries_stamp_values() {
    let ev = Event::base(
        Category::Sensor,
        Severity::Info,
        "2026-01-01T00:00:00Z".to_string(),
        "host".to_string(),
        stamp(9),
    );
    let j = ev.to_json();
    assert!(j.contains("\"event_id\":\"evt-9\""));
    assert!(j.contains("\"sequence\":9"));
    assert!(j.contains("\"monotonic_ms\":42"));
}
