use lib::actions::ActionDispatcher;
use lib::config::{Config, QmpMapping};
use lib::event::IdentityConfidence;

fn config_with_qmp(require_stable: bool, vm_id: &str, vm: &str) -> Config {
    let mut cfg = Config::default();
    cfg.identity.require_stable_qmp_match = require_stable;
    cfg.actions.retries = 0;
    cfg.actions.qmp = vec![QmpMapping {
        vm_id: vm_id.to_string(),
        vm: vm.to_string(),
        socket: "/run/libvirt/qemu/aegishv-test.monitor".to_string(),
    }];
    cfg
}

fn config_with_qmp_mappings(require_stable: bool, mappings: &[(&str, &str, &str)]) -> Config {
    let mut cfg = Config::default();
    cfg.identity.require_stable_qmp_match = require_stable;
    cfg.actions.retries = 0;
    cfg.actions.qmp = mappings
        .iter()
        .map(|(vm_id, vm, socket)| QmpMapping {
            vm_id: (*vm_id).to_string(),
            vm: (*vm).to_string(),
            socket: (*socket).to_string(),
        })
        .collect();
    cfg
}

#[test]
fn stable_qmp_match_uses_vm_id_when_required() {
    let cfg = config_with_qmp(true, "libvirt:111", "legacy-name");
    let dispatcher = ActionDispatcher::new(&cfg).unwrap();

    let socket = dispatcher
        .qmp_socket_for(Some("libvirt:111"), "renamed-vm")
        .unwrap();

    assert_eq!(socket, "/run/libvirt/qemu/aegishv-test.monitor");
}

#[test]
fn uuid_authoritative_qmp_mapping_wins_over_vm_name_fallback() {
    let cfg = config_with_qmp_mappings(
        false,
        &[
            ("libvirt:111", "legacy-name", "/run/libvirt/qemu/uuid.monitor"),
            ("", "legacy-name", "/run/libvirt/qemu/name.monitor"),
        ],
    );
    let dispatcher = ActionDispatcher::new(&cfg).unwrap();

    let socket = dispatcher
        .qmp_socket_for(Some("libvirt:111"), "legacy-name")
        .unwrap();

    assert_eq!(socket, "/run/libvirt/qemu/uuid.monitor");
}

#[test]
fn conflicting_uuid_authoritative_qmp_mappings_refuse_action() {
    let cfg = config_with_qmp_mappings(
        false,
        &[
            ("libvirt:111", "", "/run/libvirt/qemu/first.monitor"),
            ("libvirt:111", "legacy-name", "/run/libvirt/qemu/second.monitor"),
            ("", "legacy-name", "/run/libvirt/qemu/name.monitor"),
        ],
    );
    let dispatcher = ActionDispatcher::new(&cfg).unwrap();

    let err = dispatcher
        .qmp_socket_for(Some("libvirt:111"), "legacy-name")
        .unwrap_err();

    assert_eq!(err.status(), "refused");
    assert!(err
        .into_detail()
        .contains("matched multiple actions.qmp sockets"));
}

#[test]
fn vm_name_fallback_refuses_mapping_for_different_uuid() {
    let cfg = config_with_qmp_mappings(
        false,
        &[("libvirt:222", "legacy-name", "/run/libvirt/qemu/wrong.monitor")],
    );
    let dispatcher = ActionDispatcher::new(&cfg).unwrap();

    let err = dispatcher
        .qmp_socket_for(Some("libvirt:111"), "legacy-name")
        .unwrap_err();

    assert_eq!(err.status(), "refused");
    assert!(err.into_detail().contains("entry for a different vm_id"));
}

#[test]
fn stable_qmp_match_refuses_vm_name_fallback_without_vm_id() {
    let cfg = config_with_qmp(true, "", "legacy-name");
    let dispatcher = ActionDispatcher::new(&cfg).unwrap();

    let err = dispatcher.qmp_socket_for(None, "legacy-name").unwrap_err();

    assert_eq!(err.status(), "refused");
    assert!(err.into_detail().contains("has no stable vm_id"));
}

#[test]
fn stable_qmp_match_refuses_vm_name_fallback_when_vm_id_does_not_match() {
    let cfg = config_with_qmp(true, "libvirt:111", "legacy-name");
    let dispatcher = ActionDispatcher::new(&cfg).unwrap();

    let err = dispatcher
        .qmp_socket_for(Some("libvirt:222"), "legacy-name")
        .unwrap_err();

    assert_eq!(err.status(), "refused");
    assert!(err
        .into_detail()
        .contains("no actions.qmp vm_id pattern matched"));
}

#[test]
fn vm_name_qmp_fallback_still_works_when_requirement_is_disabled() {
    let cfg = config_with_qmp(false, "", "legacy-name");
    let dispatcher = ActionDispatcher::new(&cfg).unwrap();

    let socket = dispatcher.qmp_socket_for(None, "legacy-name").unwrap();

    assert_eq!(socket, "/run/libvirt/qemu/aegishv-test.monitor");
}

#[test]
fn ambiguous_vm_name_fallback_refuses_when_requirement_is_disabled() {
    let cfg = config_with_qmp_mappings(
        false,
        &[
            ("", "legacy-name", "/run/libvirt/qemu/first.monitor"),
            ("", "legacy-name", "/run/libvirt/qemu/second.monitor"),
        ],
    );
    let dispatcher = ActionDispatcher::new(&cfg).unwrap();

    let err = dispatcher.qmp_socket_for(None, "legacy-name").unwrap_err();

    assert_eq!(err.status(), "refused");
    assert!(err
        .into_detail()
        .contains("VM-name fallback matched multiple actions.qmp sockets"));
}

#[test]
fn ambiguous_vm_identity_refuses_qmp_even_when_name_fallback_is_allowed() {
    let cfg = config_with_qmp(false, "", "legacy-name");
    let dispatcher = ActionDispatcher::new(&cfg).unwrap();

    let err = dispatcher
        .qmp_socket_for(Some("ambiguous:host-task:6262"), "legacy-name")
        .unwrap_err();

    assert_eq!(err.status(), "refused");
    assert!(err.into_detail().contains("VM identity is ambiguous"));
}

#[test]
fn dispatcher_rejects_low_action_identity_confidence_threshold() {
    let mut cfg = config_with_qmp(true, "libvirt:111", "");
    cfg.identity.min_action_confidence = IdentityConfidence::Low;

    let err = match ActionDispatcher::new(&cfg) {
        Ok(_) => panic!("low identity confidence threshold must fail dispatcher setup"),
        Err(err) => err,
    };

    assert!(err.contains("low confidence cannot authorize QMP actions"));
}

// ---------------------------------------------------------------------------
// Actions run up to the QMP exchange: the plan, each attempt and the audit
// event. None of these reaches a QMP socket.
// ---------------------------------------------------------------------------

use lib::action_attempt::AttemptPlan;
use lib::dispatch::{ActionPlan, RetryStep, RetryTracker};
use lib::dump_path::{DumpPathFacts, PathProbe};
use lib::event::{Category, Event, EventStamp, IdentityInfo, Severity};
use lib::identity::{
    IDENTITY_SOURCE_FALLBACK_PID, IDENTITY_SOURCE_LIBVIRT_XML, IDENTITY_SOURCE_START_TIME_VERIFIED,
    IDENTITY_SOURCE_TRACE_COMM,
};
use lib::metrics::Metrics;

fn no_dump_facts() -> DumpPathFacts {
    DumpPathFacts {
        root: PathProbe::Missing,
        root_ancestors: vec![],
        parent: None,
        output: PathProbe::Missing,
        parent_meta: PathProbe::Missing,
        parent_ancestors: vec![],
        canonical_parent: Err("not looked up".to_string()),
        canonical_root: Err("not looked up".to_string()),
    }
}

#[allow(clippy::too_many_arguments)]
fn run_action(
    dispatcher: &ActionDispatcher,
    metrics: &mut Metrics,
    rule_id: Option<&str>,
    vm: &str,
    vm_id: Option<&str>,
    kind: &str,
    output_path: Option<&str>,
    nic: Option<&str>,
    identity: Option<&IdentityInfo>,
    identity_tags: &[String],
    execute: bool,
) -> Event {
    let base = Event::base(
        Category::Policy,
        Severity::Info,
        "2026-01-01T00:00:00Z".to_string(),
        vm.to_string(),
        EventStamp {
            monotonic_ms: 1,
            sequence: 1,
            event_id: "ev-1".to_string(),
            host_id: None,
            sensor_id: None,
            tenant_id: None,
        },
    );
    let tags = identity_tags.to_vec();
    let execution = match dispatcher.plan_action(execute, vm_id, kind, identity, &tags) {
        ActionPlan::Recorded(x) => x,
        ActionPlan::Execute => {
            let mut tracker = RetryTracker::new(dispatcher.retries);
            loop {
                let result = match dispatcher.prepare_attempt(vm, vm_id, kind, output_path, nic, &no_dump_facts()) {
                    AttemptPlan::Finished(r) => r,
                    AttemptPlan::SendQmp { .. } => panic!("these actions never reach QMP"),
                };
                match tracker.record(result) {
                    RetryStep::Done(x) => break x,
                    RetryStep::RetryAfterMs(_) => continue,
                }
            }
        }
    };
    dispatcher.finish_action_event(base, metrics, rule_id, vm_id, kind, execute, execution, 0)
}

fn encoded(metrics: &Metrics) -> String {
    metrics.encode("test", "0.000000", "0.000000")
}

fn trusted_identity() -> IdentityInfo {
    IdentityInfo {
        sources: vec![
            IDENTITY_SOURCE_LIBVIRT_XML.to_string(),
            IDENTITY_SOURCE_START_TIME_VERIFIED.to_string(),
        ],
        confidence: IdentityConfidence::High,
        start_time_verified: true,
        ambiguous: false,
    }
}

fn pid_only_identity() -> IdentityInfo {
    IdentityInfo {
        sources: vec![
            IDENTITY_SOURCE_TRACE_COMM.to_string(),
            IDENTITY_SOURCE_FALLBACK_PID.to_string(),
        ],
        confidence: IdentityConfidence::Low,
        start_time_verified: false,
        ambiguous: false,
    }
}

fn low_trace_identity() -> IdentityInfo {
    IdentityInfo {
        sources: vec![IDENTITY_SOURCE_TRACE_COMM.to_string()],
        confidence: IdentityConfidence::Low,
        start_time_verified: false,
        ambiguous: false,
    }
}

fn medium_unverified_identity() -> IdentityInfo {
    IdentityInfo {
        sources: vec![IDENTITY_SOURCE_LIBVIRT_XML.to_string()],
        confidence: IdentityConfidence::Medium,
        start_time_verified: false,
        ambiguous: false,
    }
}

#[test]
fn refused_stable_qmp_match_emits_policy_audit_event() {
    let cfg = config_with_qmp(true, "", "legacy-name");
    let dispatcher = ActionDispatcher::new(&cfg).unwrap();
    let mut metrics = Metrics::new();

    let ev = run_action(
        &dispatcher,
        &mut metrics,
        Some("rule-1"),
        "legacy-name",
        None,
        "pause_vm",
        None,
        None,
        Some(&trusted_identity()),
        &[],
        true,
    );
    let action = ev.action.as_ref().unwrap();

    assert!(!action.ok);
    assert_eq!(action.status, "refused");
    assert_eq!(ev.action_status.as_deref(), Some("refused"));
    assert_eq!(ev.decision.as_deref(), Some("refused"));
    assert_eq!(ev.severity, Severity::High);
    assert_eq!(action.decision, "refused");
    assert_eq!(action.result, "refused");
    assert_eq!(action.attempt, 1);
    assert_eq!(action.max_attempts, 1);
    assert_eq!(action.retry_count, 0);
    assert_eq!(action.timeout_ms, 2000);
    assert!(action.refused);
    assert!(!action.timed_out);
    assert_eq!(action.failure_class.as_deref(), Some("stable_identity_required"));
    assert!(action.detail.as_ref().unwrap().contains("identity.require_stable_qmp_match=true"));
    assert!(encoded(&metrics)
        .contains("aegishv_identity_qmp_safety_refusals_total{reason=\"stable_identity_required\"} 1"));
}

#[test]
fn ambiguous_identity_refusal_emits_policy_audit_event() {
    let cfg = config_with_qmp(false, "", "legacy-name");
    let dispatcher = ActionDispatcher::new(&cfg).unwrap();
    let mut metrics = Metrics::new();

    let ev = run_action(
        &dispatcher,
        &mut metrics,
        Some("rule-ambiguous"),
        "legacy-name",
        Some("ambiguous:host-task:6262"),
        "pause_vm",
        None,
        None,
        None,
        &[],
        true,
    );
    let action = ev.action.as_ref().unwrap();

    assert!(!action.ok);
    assert_eq!(action.status, "refused");
    assert_eq!(action.result, "refused");
    assert_eq!(action.failure_class.as_deref(), Some("stable_identity_required"));
    assert!(action.refused);
    assert_eq!(action.attempt, 1);
    assert!(action.detail.as_ref().unwrap().contains("VM identity is ambiguous"));
}

#[test]
fn conflicting_uuid_authoritative_mapping_emits_policy_audit_refusal() {
    let cfg = config_with_qmp_mappings(
        false,
        &[
            ("libvirt:111", "", "/run/libvirt/qemu/first.monitor"),
            ("libvirt:111", "", "/run/libvirt/qemu/second.monitor"),
        ],
    );
    let dispatcher = ActionDispatcher::new(&cfg).unwrap();
    let mut metrics = Metrics::new();

    let ev = run_action(
        &dispatcher,
        &mut metrics,
        Some("rule-conflict"),
        "legacy-name",
        Some("libvirt:111"),
        "pause_vm",
        None,
        None,
        Some(&trusted_identity()),
        &[],
        true,
    );
    let action = ev.action.as_ref().unwrap();

    assert!(!action.ok);
    assert_eq!(action.status, "refused");
    assert_eq!(action.result, "refused");
    assert_eq!(action.failure_class.as_deref(), Some("stable_identity_required"));
    assert!(action.refused);
    assert!(action.detail.as_ref().unwrap().contains("matched multiple actions.qmp sockets"));
}

#[test]
fn pid_only_identity_refuses_qmp_action_before_socket_selection() {
    let cfg = config_with_qmp(true, "libvirt:111", "");
    let dispatcher = ActionDispatcher::new(&cfg).unwrap();
    let mut metrics = Metrics::new();

    let ev = run_action(
        &dispatcher,
        &mut metrics,
        Some("rule-pid-only"),
        "renamed-vm",
        Some("libvirt:111"),
        "pause_vm",
        None,
        None,
        Some(&pid_only_identity()),
        &[],
        true,
    );
    let action = ev.action.as_ref().unwrap();

    assert!(!action.ok);
    assert_eq!(action.status, "refused");
    assert_eq!(action.failure_class.as_deref(), Some("stable_identity_required"));
    assert!(action.refused);
    assert_eq!(action.attempt, 1);
    assert!(action.detail.as_ref().unwrap().contains("reason=pid_only_identity"));
    assert!(encoded(&metrics)
        .contains("aegishv_identity_qmp_safety_refusals_total{reason=\"pid_only_identity\"} 1"));
}

#[test]
fn medium_unverified_identity_refuses_qmp_action_at_medium_threshold() {
    let mut cfg = config_with_qmp(true, "libvirt:111", "");
    cfg.identity.min_action_confidence = IdentityConfidence::Medium;
    let dispatcher = ActionDispatcher::new(&cfg).unwrap();
    let mut metrics = Metrics::new();

    let ev = run_action(
        &dispatcher,
        &mut metrics,
        Some("rule-unverified"),
        "renamed-vm",
        Some("libvirt:111"),
        "pause_vm",
        None,
        None,
        Some(&medium_unverified_identity()),
        &[],
        true,
    );
    let action = ev.action.as_ref().unwrap();

    assert!(!action.ok);
    assert_eq!(action.status, "refused");
    assert_eq!(action.failure_class.as_deref(), Some("stable_identity_required"));
    assert!(action.detail.as_ref().unwrap().contains("reason=unverified_identity"));
    assert!(encoded(&metrics)
        .contains("aegishv_identity_qmp_safety_refusals_total{reason=\"unverified_identity\"} 1"));
}

#[test]
fn low_confidence_identity_refuses_qmp_action() {
    let cfg = config_with_qmp(true, "libvirt:111", "");
    let dispatcher = ActionDispatcher::new(&cfg).unwrap();
    let mut metrics = Metrics::new();

    let ev = run_action(
        &dispatcher,
        &mut metrics,
        Some("rule-low-confidence"),
        "renamed-vm",
        Some("libvirt:111"),
        "pause_vm",
        None,
        None,
        Some(&low_trace_identity()),
        &[],
        true,
    );
    let action = ev.action.as_ref().unwrap();

    assert!(!action.ok);
    assert_eq!(action.status, "refused");
    assert!(action.detail.as_ref().unwrap().contains("reason=low_confidence"));
    assert!(encoded(&metrics)
        .contains("aegishv_identity_qmp_safety_refusals_total{reason=\"low_confidence\"} 1"));
}

#[test]
fn stale_identity_conflict_refuses_qmp_action() {
    let cfg = config_with_qmp(true, "libvirt:111", "");
    let dispatcher = ActionDispatcher::new(&cfg).unwrap();
    let mut metrics = Metrics::new();
    let tags = vec!["identity:conflict".to_string(), "identity_conflict:stale_cache".to_string()];

    let ev = run_action(
        &dispatcher,
        &mut metrics,
        Some("rule-stale"),
        "renamed-vm",
        Some("libvirt:111"),
        "pause_vm",
        None,
        None,
        Some(&trusted_identity()),
        &tags,
        true,
    );
    let action = ev.action.as_ref().unwrap();

    assert!(!action.ok);
    assert_eq!(action.status, "refused");
    assert!(action.detail.as_ref().unwrap().contains("reason=stale_identity"));
    assert!(encoded(&metrics)
        .contains("aegishv_identity_qmp_safety_refusals_total{reason=\"stale_identity\"} 1"));
}

#[test]
fn dry_run_allows_low_identity_for_qmp_backed_action() {
    let cfg = config_with_qmp(true, "libvirt:111", "");
    let dispatcher = ActionDispatcher::new(&cfg).unwrap();
    let mut metrics = Metrics::new();

    let ev = run_action(
        &dispatcher,
        &mut metrics,
        Some("rule-dry-run"),
        "renamed-vm",
        Some("libvirt:111"),
        "pause_vm",
        None,
        None,
        Some(&pid_only_identity()),
        &[],
        false,
    );
    let action = ev.action.as_ref().unwrap();

    assert!(action.ok);
    assert_eq!(action.status, "dry_run");
    assert_eq!(action.attempt, 0);
    assert!(!action.refused);
}

#[test]
fn manual_approval_allows_low_identity_without_qmp_execution() {
    let cfg = config_with_qmp(true, "libvirt:111", "");
    let dispatcher = ActionDispatcher::new(&cfg).unwrap();
    let mut metrics = Metrics::new();

    let ev = run_action(
        &dispatcher,
        &mut metrics,
        Some("rule-manual"),
        "renamed-vm",
        Some("libvirt:111"),
        "manual_approval",
        None,
        None,
        Some(&pid_only_identity()),
        &[],
        true,
    );
    let action = ev.action.as_ref().unwrap();

    assert!(action.ok);
    assert_eq!(action.status, "accepted");
    assert_eq!(action.result, "accepted");
    assert!(!action.refused);
    assert!(action.detail.as_ref().unwrap().contains("no QMP command executed"));
}

#[test]
fn unsafe_dump_path_emits_refused_action_audit_event() {
    let cfg = config_with_qmp(true, "libvirt:111", "");
    let dispatcher = ActionDispatcher::new(&cfg).unwrap();
    let mut metrics = Metrics::new();

    let ev = run_action(
        &dispatcher,
        &mut metrics,
        Some("rule-1"),
        "renamed-vm",
        Some("libvirt:111"),
        "dump_guest_memory",
        Some("relative-dump.bin"),
        None,
        Some(&trusted_identity()),
        &[],
        true,
    );
    let action = ev.action.as_ref().unwrap();

    assert!(!action.ok);
    assert_eq!(action.status, "refused");
    assert_eq!(action.result, "refused");
    assert_eq!(action.failure_class.as_deref(), Some("unsafe_input"));
    assert_eq!(action.attempt, 1);
    assert!(action.refused);
    assert!(!action.timed_out);
    assert!(action.detail.as_ref().unwrap().contains("output_path must be absolute"));
}

#[test]
fn unsupported_action_kind_emits_unsupported_action_audit_event() {
    let cfg = config_with_qmp(true, "libvirt:111", "");
    let dispatcher = ActionDispatcher::new(&cfg).unwrap();
    let mut metrics = Metrics::new();

    let ev = run_action(
        &dispatcher,
        &mut metrics,
        Some("rule-1"),
        "renamed-vm",
        Some("libvirt:111"),
        "unsupported_action_kind",
        None,
        None,
        None,
        &[],
        true,
    );
    let action = ev.action.as_ref().unwrap();

    assert!(!action.ok);
    assert_eq!(action.status, "unsupported");
    assert_eq!(action.result, "unsupported");
    assert_eq!(action.failure_class.as_deref(), Some("unsupported_action"));
    assert_eq!(action.attempt, 1);
    assert_eq!(action.retry_count, 0);
    assert!(!action.refused);
    assert!(!action.timed_out);
}

#[test]
fn pause_with_a_mapped_socket_sends_stop() {
    let cfg = config_with_qmp(true, "libvirt:111", "");
    let dispatcher = ActionDispatcher::new(&cfg).unwrap();
    match dispatcher.prepare_attempt("vm", Some("libvirt:111"), "pause_vm", None, None, &no_dump_facts()) {
        AttemptPlan::SendQmp { socket, request, success } => {
            assert_eq!(socket, "/run/libvirt/qemu/aegishv-test.monitor");
            assert_eq!(request.command, "stop");
            assert!(request.arguments.is_none());
            assert_eq!(success.status, "completed");
        }
        AttemptPlan::Finished(r) => panic!("unexpected {r:?}"),
    }
}
