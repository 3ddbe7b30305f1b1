use lib::detectors::kernel_text::{linux_kernel_text_findings, windows_kernel_text_findings};
use lib::detectors::syscall_hooks::{linux_syscall_hook_findings, windows_syscall_hook_findings};
use lib::detectors::{DetectionKind, DetectionSource, ProfileConfidence, SourceReliability};
use lib::linux_integrity::{LinuxIntegrityReport, LinuxTextHashResult, LinuxTextHashStatus};
use lib::linux_syscall::{LinuxLstarReport, LinuxSyscallTableReport};
use lib::windows_reports::{
    WindowsIntegrityReport, WindowsLstarReport, WindowsSsdtEntry, WindowsSsdtReport,
    WindowsTextHashResult, WindowsTextHashStatus,
};

fn source() -> DetectionSource {
    DetectionSource::new("snapshot", SourceReliability::OfflineSnapshot, ProfileConfidence::ExactBuild)
}

fn result(owner: &str, status: WindowsTextHashStatus) -> WindowsTextHashResult {
    WindowsTextHashResult {
        owner: owner.to_string(),
        start: 0x1000,
        end: 0x2000,
        sha256: "00".to_string(),
        expected_sha256: None,
        status,
    }
}

#[test]
fn windows_text_drift_becomes_findings() {
    let report = WindowsIntegrityReport {
        ok: false,
        results: vec![
            result("ntoskrnl.exe", WindowsTextHashStatus::Match),
            result("hal.dll", WindowsTextHashStatus::Mismatch),
            result("ci.dll", WindowsTextHashStatus::UnknownBaseline),
        ],
        findings: vec![],
    };
    let out = windows_kernel_text_findings(&report, source(), Some("win-1")).unwrap();
    assert_eq!(out.len(), 2);
    assert_eq!(out[0].kind, DetectionKind::KernelTextTamper);
    assert_eq!(out[0].title, "windows kernel text hash drift");
    assert_eq!(out[0].detail, "windows text range 'hal.dll' hash status is mismatch");
    assert_eq!(out[1].detail, "windows text range 'ci.dll' hash status is unknown_baseline");
    assert_eq!(out[0].tags, vec!["windows".to_string(), "text_hash".to_string()]);
    assert_eq!(out[0].vm_id.as_deref(), Some("win-1"));

    let empty = WindowsIntegrityReport { ok: true, results: vec![], findings: vec![] };
    assert!(windows_kernel_text_findings(&empty, source(), None).is_err());
}

#[test]
fn windows_syscall_drift_is_deduplicated_and_sorted() {
    let ssdt = WindowsSsdtReport {
        ok: false,
        table_address: 0x9000,
        entries: vec![WindowsSsdtEntry { index: 0, handler: 0x5000, owner: None }],
        findings: vec!["b drift".to_string(), "a drift".to_string()],
    };
    let lstar = WindowsLstarReport {
        ok: false,
        lstar: 0x6000,
        expected_symbol: "KiSystemCall64".to_string(),
        findings: vec!["b drift".to_string()],
    };
    let out = windows_syscall_hook_findings(&ssdt, &lstar, source(), None).unwrap();
    let details: Vec<&str> = out.iter().map(|r| r.detail.as_str()).collect();
    assert_eq!(details, vec!["a drift", "b drift"]);
    assert_eq!(out[0].title, "windows syscall path drift");

    let none = WindowsSsdtReport { ok: true, table_address: 0, entries: vec![], findings: vec![] };
    assert!(windows_syscall_hook_findings(&none, &lstar, source(), None).is_err());
    let only_findings = WindowsSsdtReport { ok: false, table_address: 0, entries: vec![], findings: vec!["x".to_string()] };
    assert_eq!(windows_syscall_hook_findings(&only_findings, &lstar, source(), None).unwrap().len(), 2);
}

#[test]
fn linux_findings_need_results_and_entries() {
    let empty = LinuxIntegrityReport { ok: true, results: vec![], findings: vec![] };
    assert!(linux_kernel_text_findings(&empty, source(), None).is_err());
    let report = LinuxIntegrityReport {
        ok: false,
        results: vec![LinuxTextHashResult {
            owner: "vmlinux".to_string(),
            start: 1,
            end: 2,
            sha256: "00".to_string(),
            expected_sha256: None,
            status: LinuxTextHashStatus::Mismatch,
        }],
        findings: vec![],
    };
    let out = linux_kernel_text_findings(&report, source(), None).unwrap();
    assert_eq!(out[0].detail, "linux text range 'vmlinux' hash status is mismatch");
    let table = LinuxSyscallTableReport { ok: true, table_address: 0, entries: vec![], findings: vec![] };
    let lstar = LinuxLstarReport { ok: true, lstar: 0, expected_symbol: String::new(), findings: vec![] };
    assert!(linux_syscall_hook_findings(&table, &lstar, source(), None).is_err());
}
