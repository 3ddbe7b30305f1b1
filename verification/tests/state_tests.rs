use lib::detectors::dedupe::DetectionDedupeKey;
use lib::detectors::state::{
    load_detector_state, parse_detector_state, render_detector_state, DetectorState,
    PersistedDedupeEntry, PersistedIncidentEntry, StateFileRead,
};
use lib::detectors::{DetectionKind, DetectorError};
use lib::event::Severity;
use lib::incidents::IncidentStatus;

fn sample_state() -> DetectorState {
    DetectorState {
        dedupe: vec![
            PersistedDedupeEntry {
                key: DetectionDedupeKey {
                    detector_id: "kernel_text".to_string(),
                    vm_id: Some("libvirt:vm-a".to_string()),
                    entity: None,
                    range_start: Some(4096),
                    range_end: Some(8192),
                    symbol: Some("do_sys_open".to_string()),
                },
                kind: DetectionKind::KernelTextTamper,
                count: 3,
                first_seen_ms: 10,
                last_seen_ms: 30,
            },
            PersistedDedupeEntry {
                key: DetectionDedupeKey {
                    detector_id: "wx".to_string(),
                    vm_id: None,
                    entity: Some("pid:42".to_string()),
                    range_start: None,
                    range_end: None,
                    symbol: None,
                },
                kind: DetectionKind::RwxMapping,
                count: 1,
                first_seen_ms: 0,
                last_seen_ms: 0,
            },
        ],
        incidents: vec![PersistedIncidentEntry {
            incident_id: "incident:libvirt:vm-a".to_string(),
            vm_id: "libvirt:vm-a".to_string(),
            status: IncidentStatus::Updated,
            severity: Severity::High,
            first_seen_ms: 10,
            last_seen_ms: 30,
            detection_count: 4,
            kinds: vec![DetectionKind::KernelTextTamper, DetectionKind::SyscallHook],
        }],
    }
}

const SAMPLE_TEXT: &str = "aegishv-detector-state-v1\n\
dedupe|kernel_text|libvirt:vm-a|-|4096|8192|do_sys_open|kernel_text_tamper|3|10|30\n\
dedupe|wx|-|pid:42|-|-|-|rwx_mapping|1|0|0\n\
incident|incident:libvirt:vm-a|libvirt:vm-a|updated|high|10|30|4|kernel_text_tamper,syscall_hook\n";

fn malformed_detail(err: DetectorError) -> String {
    match err {
        DetectorError::MalformedInput { detail } => detail,
        other => panic!("unexpected error {other:?}"),
    }
}

#[test]
fn detector_state_renders_version_line_and_records() {
    assert_eq!(render_detector_state(&sample_state()), SAMPLE_TEXT);
}

#[test]
fn detector_state_round_trips_through_its_text() {
    let state = sample_state();
    let parsed = parse_detector_state(&render_detector_state(&state)).unwrap();
    assert_eq!(parsed, state);
}

#[test]
fn detector_state_parse_skips_blank_lines_and_trims() {
    let text = "\n  aegishv-detector-state-v1  \n\n   dedupe|wx|-|pid:42|-|-|-|rwx_mapping|1|0|0   \n";
    let parsed = parse_detector_state(text).unwrap();
    assert_eq!(parsed.dedupe.len(), 1);
    assert_eq!(parsed.dedupe[0].key.entity.as_deref(), Some("pid:42"));
    assert!(parsed.incidents.is_empty());
}

#[test]
fn detector_state_render_sanitizes_separators() {
    let mut state = DetectorState { dedupe: Vec::new(), incidents: Vec::new() };
    let mut entry = sample_state().dedupe.remove(1);
    entry.key.detector_id = "a|b\nc".to_string();
    state.dedupe.push(entry);
    let text = render_detector_state(&state);
    assert!(text.contains("dedupe|a_b_c|"));
}

#[test]
fn detector_state_requires_header() {
    let err = parse_detector_state("  \n\n").unwrap_err();
    assert_eq!(malformed_detail(err), "missing detector state header");
    let err = parse_detector_state("\nsomething-else\n").unwrap_err();
    assert_eq!(malformed_detail(err), "line 2: expected aegishv-detector-state-v1");
}

#[test]
fn detector_state_rejects_unknown_records_and_bad_fields() {
    let header = "aegishv-detector-state-v1\n";
    let err = parse_detector_state(&format!("{header}other|x\n")).unwrap_err();
    assert_eq!(malformed_detail(err), "line 2: unknown detector state record 'other'");

    let err = parse_detector_state(&format!("{header}dedupe|x|-\n")).unwrap_err();
    assert_eq!(malformed_detail(err), "line 2: dedupe record requires 10 fields");

    let err = parse_detector_state(&format!("{header}incident|a\n")).unwrap_err();
    assert_eq!(malformed_detail(err), "line 2: incident record requires 8 fields");

    let err = parse_detector_state(&format!(
        "{header}dedupe|-|-|-|-|-|-|rwx_mapping|1|0|0\n"
    ))
    .unwrap_err();
    assert_eq!(malformed_detail(err), "line 2: field 'detector_id' is invalid");

    let err = parse_detector_state(&format!(
        "{header}dedupe|wx|-|-|-|-|-|rwx_mapping|many|0|0\n"
    ))
    .unwrap_err();
    assert_eq!(malformed_detail(err), "line 2: invalid integer for count: 'many'");

    let err = parse_detector_state(&format!(
        "{header}dedupe|wx|-|-|-|-|-|no_such_kind|1|0|0\n"
    ))
    .unwrap_err();
    assert_eq!(malformed_detail(err), "line 2: unsupported detection kind 'no_such_kind'");

    let err = parse_detector_state(&format!(
        "{header}incident|i|vm|closed|high|1|2|3|rwx_mapping\n"
    ))
    .unwrap_err();
    assert_eq!(malformed_detail(err), "line 2: unsupported status 'closed'");

    let err = parse_detector_state(&format!(
        "{header}incident|i|vm|open|severe|1|2|3|rwx_mapping\n"
    ))
    .unwrap_err();
    assert_eq!(malformed_detail(err), "line 2: unsupported severity 'severe'");

    let err = parse_detector_state(&format!("{header}incident|i|vm|open|high|1|2|3| \n"))
        .unwrap_err();
    assert_eq!(malformed_detail(err), "line 2: incident kinds must not be empty");
}

#[test]
fn detector_state_load_reports_ignored_and_unreadable_files() {
    let loaded = load_detector_state(StateFileRead::Text(SAMPLE_TEXT.to_string()));
    assert_eq!(loaded.state, sample_state());
    assert!(loaded.sensor_events.is_empty());

    let loaded = load_detector_state(StateFileRead::Missing);
    assert!(loaded.state.dedupe.is_empty() && loaded.state.incidents.is_empty());
    assert!(loaded.sensor_events.is_empty());

    let loaded = load_detector_state(StateFileRead::Text("garbage".to_string()));
    assert!(loaded.state.dedupe.is_empty());
    assert_eq!(loaded.sensor_events.len(), 1);
    assert_eq!(loaded.sensor_events[0].severity, Severity::Medium);
    assert_eq!(
        loaded.sensor_events[0].message,
        "detector state was ignored: detector input is malformed: line 1: expected aegishv-detector-state-v1"
    );

    let loaded = load_detector_state(StateFileRead::Failed("permission denied".to_string()));
    assert_eq!(
        loaded.sensor_events[0].message,
        "detector state could not be read: permission denied"
    );
}
