use lib::admin::{validate_policy_test_input, AdminHealth, BuildInfo, PolicyExplain, PolicyTestInput};
use lib::config::Config;
use lib::hypervisor::{BackendArch, HypervisorBackend, NoHypervisorBackend};

#[test]
fn admin_health_reports_local_cli_scope() {
    let health = AdminHealth::local("0.1.0");

    assert_eq!(health.runtime, "local_cli");
    assert!(health.to_json().contains("\"status\":\"ok\""));
}

#[test]
fn policy_test_input_rejects_unknown_category_or_missing_vm() {
    let input = PolicyTestInput {
        category: "bogus".to_string(),
        severity: "high".to_string(),
        reason: "x".to_string(),
        vm: "vm-a".to_string(),
    };
    assert!(validate_policy_test_input(&input).is_err());

    let missing_vm = PolicyTestInput {
        category: "sensor".to_string(),
        severity: "info".to_string(),
        reason: "x".to_string(),
        vm: String::new(),
    };
    assert!(validate_policy_test_input(&missing_vm).is_err());
}

#[test]
fn policy_test_input_messages_name_the_bad_field() {
    let input = PolicyTestInput {
        category: "Sensor".to_string(),
        severity: "loud".to_string(),
        reason: "x".to_string(),
        vm: "vm-a".to_string(),
    };
    assert_eq!(
        validate_policy_test_input(&input).unwrap_err(),
        "unknown severity 'loud'"
    );
    let ok = PolicyTestInput {
        severity: "HIGH".to_string(),
        ..input
    };
    assert!(validate_policy_test_input(&ok).is_ok());
}

#[test]
fn no_backend_does_not_claim_vmx() {
    let b = NoHypervisorBackend;
    assert_eq!(b.capabilities().arch, BackendArch::NoArch);
    assert_eq!(b.name(), "host-side-sensor");
    assert!(b.health().is_ok());
}

#[test]
fn policy_explain_counts_enabled_rules_and_mappings() {
    let cfg = Config::default();
    let explain = PolicyExplain::from_config(&cfg);
    assert_eq!(explain.qmp_mappings, cfg.actions.qmp.len());
    let json = explain.to_json();
    assert!(json.starts_with("{\"version\":"));
    assert!(json.ends_with("}"));
}

#[test]
fn build_info_json_quotes_each_field() {
    let info = BuildInfo {
        version: "1.2.3",
        target_os: "linux",
        target_arch: "x86_64",
        git_rev: "unknown",
    };
    assert_eq!(
        info.to_json(),
        "{\"version\":\"1.2.3\",\"target_os\":\"linux\",\"target_arch\":\"x86_64\",\"git_rev\":\"unknown\"}"
    );
}
