use lib::records::{
    audit_append_fits, audit_detail_for_denial, check_audit_max_bytes, decision_record,
    validate_id, ApprovalDecision, AuditRecord, DumpEvidence, DumpEvidenceState, PendingAction,
};

#[test]
fn dump_evidence_rejects_completion_for_different_path() {
    let accepted = DumpEvidence::accepted("libvirt:vm-a".to_string(), "/tmp/aegishv-a.dump".to_string());

    assert!(accepted
        .complete("/tmp/aegishv-b.dump", 4, "fnv1a64:0".to_string())
        .unwrap_err()
        .contains("does not match"));
}

#[test]
fn dump_evidence_completes_only_after_acceptance() {
    let accepted = DumpEvidence::accepted("libvirt:vm-a".to_string(), "/d".to_string());
    assert_eq!(accepted.state, DumpEvidenceState::Accepted);
    assert!(accepted.digest.is_none());
    let done = accepted.complete("/d", 4, "fnv1a64:1".to_string()).unwrap();
    assert_eq!(done.state, DumpEvidenceState::Completed);
    assert_eq!(done.size_bytes, Some(4));
    assert_eq!(
        done.complete("/d", 4, "x".to_string()).unwrap_err(),
        "dump evidence can only complete after QMP accepted the request"
    );
}

#[test]
fn approval_records_and_ids() {
    let p = PendingAction {
        id: "act-1".to_string(),
        rule_id: "rule-a".to_string(),
        action_kind: "dump_guest_memory".to_string(),
        vm_id: "libvirt:vm-a".to_string(),
    };
    assert_eq!(p.to_record(), "id=act-1\nrule_id=rule-a\naction_kind=dump_guest_memory\nvm_id=libvirt:vm-a\n");
    assert_eq!(
        p.to_json(),
        "{\"id\":\"act-1\",\"rule_id\":\"rule-a\",\"action_kind\":\"dump_guest_memory\",\"vm_id\":\"libvirt:vm-a\"}"
    );
    assert!(validate_id("act_1-b").is_ok());
    assert_eq!(validate_id("../bad").unwrap_err(), "approval id must use letters, digits, '-' or '_'");
    assert!(validate_id("").is_err());
    assert_eq!(
        decision_record("act-1", ApprovalDecision::Denied, "operator").unwrap(),
        "decision=denied\nactor=operator\n"
    );
    assert_eq!(decision_record("act-1", ApprovalDecision::Approved, "  ").unwrap_err(), "approval actor must not be empty");
}

#[test]
fn audit_lines_and_limits() {
    let r = AuditRecord {
        actor: "operator".to_string(),
        action: "policy_explain".to_string(),
        decision: "allowed".to_string(),
        detail: "local \"CLI\"".to_string(),
    };
    assert_eq!(
        r.to_json_line(),
        "{\"actor\":\"operator\",\"action\":\"policy_explain\",\"decision\":\"allowed\",\"detail\":\"local \\\"CLI\\\"\"}\n"
    );
    assert_eq!(audit_detail_for_denial("too \"large\""), "denied: too \\\"large\\\"");
    assert!(check_audit_max_bytes(0).is_err());
    assert!(check_audit_max_bytes(1).is_ok());
    assert!(audit_append_fits(100, 156, 256));
    assert!(!audit_append_fits(100, 157, 256));
    assert!(!audit_append_fits(u64::MAX, 1, u64::MAX - 1));
}
